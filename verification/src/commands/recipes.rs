//! Recipe commands: create, update and delete a recipe, and the three
//! ingredient-line mutations.
//!
//! Each command fetches what it needs, delegates to the repository, and maps
//! repository errors into its own closed enumeration.  Recipe mutations do
//! not notify the message bus; only ingredient events are wired to it — an
//! asymmetry of the system, kept rather than silently mended.

use vstd::prelude::*;

use crate::entities::recipe::{
    IngredientUnit, IngredientWithAmount, Recipe, RecipeChangeset, RecipeV, ServingsType,
    TimeEntry,
};
use crate::ids::Uuid;
use crate::repositories::recipes::{
    with_new_amount, without_ingredient, AddIngredientIntoRecipeError,
    DeleteIngredientFromRecipeError, DeleteRecipeError as RepoDeleteRecipeError,
    GetRecipeByIdError, InsertRecipeError, RecipeRepository, UpdateIngredientInRecipeError,
    UpdateRecipeError as RepoUpdateRecipeError,
};

verus! {

/// The untrusted input to the create-recipe command: everything but the
/// identity and the timestamps, which the command and the store assign.
#[derive(Debug)]
pub struct CreateRecipe {
    pub name: String,
    pub description: String,
    pub steps: Vec<String>,
    pub ingredients: Vec<IngredientWithAmount>,
    pub time: Vec<TimeEntry>,
    pub servings: ServingsType,
}

/// Why creating a recipe failed: only an internal failure can.
#[derive(Debug)]
pub enum CreateRecipeError {
    Unknown,
}

/// Creates a recipe under a fresh id and stores it with all its ingredient
/// lines as one unit; returns the new id.
pub fn create_recipe<R: RecipeRepository>(repo: &mut R, input: CreateRecipe) -> (r: Result<
    Uuid,
    CreateRecipeError,
>)
    requires
        old(repo).inv(),
    ensures
        final(repo).inv(),
        match r {
            Ok(id) => final(repo).recipes().contains_key(id.bits) && {
                let stored = final(repo).recipes()[id.bits];
                stored.name == input.name@ && stored.description == input.description@
                    && stored.steps == crate::entities::recipe::strings_view(input.steps@)
                    && stored.ingredients == crate::entities::recipe::lines_view(
                    input.ingredients@,
                ) && stored.time == crate::entities::recipe::time_view(input.time@)
                    && stored.servings == input.servings && stored.created_at == stored.updated_at
                    && final(repo).recipes() == old(repo).recipes().insert(id.bits, stored)
            },
            Err(CreateRecipeError::Unknown) => final(repo).recipes() == old(repo).recipes(),
        },
        old(repo).reliable() ==> r is Ok,
{
    let id = Uuid::now_v7();
    let recipe = Recipe {
        id,
        name: input.name,
        description: input.description,
        steps: input.steps,
        ingredients: input.ingredients,
        time: input.time,
        servings: input.servings,
        created_at: 0,
        updated_at: 0,
    };
    match repo.insert(recipe) {
        Ok(_) => Ok(id),
        Err(InsertRecipeError::Unknown) => Err(CreateRecipeError::Unknown),
    }
}

/// Why deleting a recipe failed.
#[derive(Debug)]
pub enum DeleteRecipeError {
    NotFound(Uuid),
    Unknown,
}

/// Deletes the recipe stored under `id`, with all its ingredient lines.
pub fn delete_recipe<R: RecipeRepository>(repo: &mut R, id: &Uuid) -> (r: Result<
    (),
    DeleteRecipeError,
>)
    requires
        old(repo).inv(),
    ensures
        final(repo).inv(),
        match r {
            Ok(_) => old(repo).recipes().contains_key(id.bits) && final(repo).recipes() == old(repo).recipes().remove(id.bits),
            Err(DeleteRecipeError::NotFound(i)) => i == *id && !old(repo).recipes().contains_key(
                id.bits,
            ) && final(repo).recipes() == old(repo).recipes(),
            Err(DeleteRecipeError::Unknown) => final(repo).recipes() == old(repo).recipes(),
        },
        !old(repo).recipes().contains_key(id.bits) && old(repo).reliable() ==> (r matches Err(
            DeleteRecipeError::NotFound(i),
        ) && i == *id),
        old(repo).recipes().contains_key(id.bits) && old(repo).reliable() ==> r is Ok,
{
    let recipe = match repo.get_by_id(id) {
        Ok(rec) => rec,
        Err(GetRecipeByIdError::NotFound(i)) => {
            return Err(DeleteRecipeError::NotFound(i));
        },
        Err(GetRecipeByIdError::Unknown) => {
            return Err(DeleteRecipeError::Unknown);
        },
    };
    proof {
        repo.lemma_inv();
        assert(recipe@.id == id.bits);
    }
    match repo.delete(&recipe) {
        Ok(_) => Ok(()),
        Err(RepoDeleteRecipeError::Unknown) => Err(DeleteRecipeError::Unknown),
    }
}

/// Why updating a recipe failed.
#[derive(Debug)]
pub enum UpdateRecipeError {
    NotFound(Uuid),
    Unknown,
}

/// Applies a partial update to the recipe stored under `id`: present fields
/// replace stored ones, only actual differences are written, and `updated_at`
/// is bumped exactly when at least one field changed.
pub fn update_recipe<R: RecipeRepository>(repo: &mut R, id: &Uuid, changeset: RecipeChangeset) -> (r:
    Result<(), UpdateRecipeError>)
    requires
        old(repo).inv(),
    ensures
        final(repo).inv(),
        match r {
            Ok(_) => old(repo).recipes().contains_key(id.bits) && final(repo).recipes().contains_key(id.bits) && {
                let cur = old(repo).recipes()[id.bits];
                let nr = final(repo).recipes()[id.bits];
                nr == changeset@.apply(cur, nr.updated_at) && (changeset@.changes(cur)
                    ==> nr.updated_at > cur.updated_at) && (!changeset@.changes(cur)
                    ==> final(repo).recipes() == old(repo).recipes()) && final(repo).recipes()
                    == old(repo).recipes().insert(id.bits, nr)
            },
            Err(UpdateRecipeError::NotFound(i)) => i == *id && !old(repo).recipes().contains_key(
                id.bits,
            ) && final(repo).recipes() == old(repo).recipes(),
            Err(UpdateRecipeError::Unknown) => final(repo).recipes() == old(repo).recipes(),
        },
        old(repo).recipes().contains_key(id.bits) && old(repo).reliable() ==> r is Ok,
{
    let recipe = match repo.get_by_id(id) {
        Ok(rec) => rec,
        Err(GetRecipeByIdError::NotFound(i)) => {
            return Err(UpdateRecipeError::NotFound(i));
        },
        Err(GetRecipeByIdError::Unknown) => {
            return Err(UpdateRecipeError::Unknown);
        },
    };
    proof {
        repo.lemma_inv();
        assert(recipe@.id == id.bits);
    }
    match repo.update(&recipe, changeset) {
        Ok(_) => Ok(()),
        Err(RepoUpdateRecipeError::NotFound(_)) => Err(UpdateRecipeError::Unknown),
        Err(RepoUpdateRecipeError::Unknown) => Err(UpdateRecipeError::Unknown),
    }
}

/// Why adding an ingredient line failed.
#[derive(Debug)]
pub enum AddIngredientToRecipeError {
    NotFound(Uuid),
    Unknown,
}

/// Appends an ingredient line to the recipe stored under `id` and bumps its
/// `updated_at`.
pub fn add_ingredient_to_recipe<R: RecipeRepository>(
    repo: &mut R,
    id: &Uuid,
    ingredient: IngredientWithAmount,
) -> (r: Result<(), AddIngredientToRecipeError>)
    requires
        old(repo).inv(),
    ensures
        final(repo).inv(),
        match r {
            Ok(_) => old(repo).recipes().contains_key(id.bits) && final(repo).recipes().contains_key(id.bits) && {
                let cur = old(repo).recipes()[id.bits];
                let nr = final(repo).recipes()[id.bits];
                nr == cur.with_lines(cur.ingredients.push(ingredient@), nr.updated_at)
                    && nr.updated_at > cur.updated_at && final(repo).recipes() == old(repo).recipes().insert(id.bits, nr)
            },
            Err(AddIngredientToRecipeError::NotFound(i)) => i == *id && !old(repo).recipes().contains_key(id.bits) && final(repo).recipes() == old(repo).recipes(),
            Err(AddIngredientToRecipeError::Unknown) => final(repo).recipes() == old(repo).recipes(),
        },
        old(repo).recipes().contains_key(id.bits) && old(repo).reliable() ==> r is Ok,
{
    let recipe = match repo.get_by_id(id) {
        Ok(rec) => rec,
        Err(GetRecipeByIdError::NotFound(i)) => {
            return Err(AddIngredientToRecipeError::NotFound(i));
        },
        Err(GetRecipeByIdError::Unknown) => {
            return Err(AddIngredientToRecipeError::Unknown);
        },
    };
    proof {
        repo.lemma_inv();
        assert(recipe@.id == id.bits);
    }
    match repo.add_ingredient(&recipe, ingredient) {
        Ok(_) => Ok(()),
        Err(AddIngredientIntoRecipeError::NotFound(_)) => Err(AddIngredientToRecipeError::Unknown),
        Err(AddIngredientIntoRecipeError::Unknown) => Err(AddIngredientToRecipeError::Unknown),
    }
}

/// Why removing an ingredient line failed.
#[derive(Debug)]
pub enum DeleteIngredientFromRecipeCommandError {
    NotFound(Uuid),
    Unknown,
}

/// Removes every line of the given ingredient from the recipe stored under
/// `id` and bumps its `updated_at`.
pub fn delete_ingredient_from_recipe<R: RecipeRepository>(
    repo: &mut R,
    id: &Uuid,
    ingredient: &IngredientWithAmount,
) -> (r: Result<(), DeleteIngredientFromRecipeCommandError>)
    requires
        old(repo).inv(),
    ensures
        final(repo).inv(),
        match r {
            Ok(_) => old(repo).recipes().contains_key(id.bits) && final(repo).recipes().contains_key(id.bits) && {
                let cur = old(repo).recipes()[id.bits];
                let nr = final(repo).recipes()[id.bits];
                nr == cur.with_lines(
                    without_ingredient(cur.ingredients, ingredient@.ingredient.id),
                    nr.updated_at,
                ) && nr.updated_at > cur.updated_at && final(repo).recipes() == old(repo).recipes().insert(id.bits, nr)
            },
            Err(DeleteIngredientFromRecipeCommandError::NotFound(i)) => i == *id && !old(repo).recipes().contains_key(id.bits) && final(repo).recipes() == old(repo).recipes(),
            Err(DeleteIngredientFromRecipeCommandError::Unknown) => final(repo).recipes() == old(repo).recipes(),
        },
        old(repo).recipes().contains_key(id.bits) && old(repo).reliable() ==> r is Ok,
{
    let recipe = match repo.get_by_id(id) {
        Ok(rec) => rec,
        Err(GetRecipeByIdError::NotFound(i)) => {
            return Err(DeleteIngredientFromRecipeCommandError::NotFound(i));
        },
        Err(GetRecipeByIdError::Unknown) => {
            return Err(DeleteIngredientFromRecipeCommandError::Unknown);
        },
    };
    proof {
        repo.lemma_inv();
        assert(recipe@.id == id.bits);
    }
    match repo.delete_ingredient(&recipe, ingredient) {
        Ok(_) => Ok(()),
        Err(DeleteIngredientFromRecipeError::NotFound(_)) => Err(
            DeleteIngredientFromRecipeCommandError::Unknown,
        ),
        Err(DeleteIngredientFromRecipeError::Unknown) => Err(
            DeleteIngredientFromRecipeCommandError::Unknown,
        ),
    }
}

/// Why updating an ingredient line failed.
#[derive(Debug)]
pub enum UpdateIngredientInRecipeCommandError {
    NotFound(Uuid),
    Unknown,
}

/// Replaces the amount on every line of the given ingredient in the recipe
/// stored under `id` and bumps its `updated_at`.
pub fn update_ingredient_in_recipe<R: RecipeRepository>(
    repo: &mut R,
    id: &Uuid,
    ingredient: &IngredientWithAmount,
    new_amount: &IngredientUnit,
) -> (r: Result<(), UpdateIngredientInRecipeCommandError>)
    requires
        old(repo).inv(),
    ensures
        final(repo).inv(),
        match r {
            Ok(_) => old(repo).recipes().contains_key(id.bits) && final(repo).recipes().contains_key(id.bits) && {
                let cur = old(repo).recipes()[id.bits];
                let nr = final(repo).recipes()[id.bits];
                nr == cur.with_lines(
                    with_new_amount(cur.ingredients, ingredient@.ingredient.id, new_amount@),
                    nr.updated_at,
                ) && nr.updated_at > cur.updated_at && final(repo).recipes() == old(repo).recipes().insert(id.bits, nr)
            },
            Err(UpdateIngredientInRecipeCommandError::NotFound(i)) => i == *id && !old(repo).recipes().contains_key(id.bits) && final(repo).recipes() == old(repo).recipes(),
            Err(UpdateIngredientInRecipeCommandError::Unknown) => final(repo).recipes() == old(repo).recipes(),
        },
        old(repo).recipes().contains_key(id.bits) && old(repo).reliable() ==> r is Ok,
{
    let recipe = match repo.get_by_id(id) {
        Ok(rec) => rec,
        Err(GetRecipeByIdError::NotFound(i)) => {
            return Err(UpdateIngredientInRecipeCommandError::NotFound(i));
        },
        Err(GetRecipeByIdError::Unknown) => {
            return Err(UpdateIngredientInRecipeCommandError::Unknown);
        },
    };
    proof {
        repo.lemma_inv();
        assert(recipe@.id == id.bits);
    }
    match repo.update_ingredient_amount(&recipe, ingredient, new_amount) {
        Ok(_) => Ok(()),
        Err(UpdateIngredientInRecipeError::NotFound(_)) => Err(
            UpdateIngredientInRecipeCommandError::Unknown,
        ),
        Err(UpdateIngredientInRecipeError::Unknown) => Err(
            UpdateIngredientInRecipeCommandError::Unknown,
        ),
    }
}

/// The round trip at the heart of recipe storage: once an insert succeeds,
/// the stored recipe agrees with the inserted one on every field but the
/// store-assigned timestamps — in particular its ingredient lines are the
/// inserted lines, one for one, with identical amounts, notes and optional
/// flags — so a `get_by_id` on the new id must, by its contract, return
/// exactly that recipe.
pub proof fn recipe_round_trip(m0: Map<u128, RecipeV>, m1: Map<u128, RecipeV>, input: RecipeV)
    requires
        m1.contains_key(input.id),
        m1[input.id].same_core(input),
        m1 == m0.insert(input.id, m1[input.id]),
    ensures
        m1[input.id].ingredients == input.ingredients,
        m1[input.id].name == input.name,
        m1[input.id].description == input.description,
        m1[input.id].steps == input.steps,
        m1[input.id].time == input.time,
        m1[input.id].servings == input.servings,
{
}

} // verus!
