//! Ingredient commands: create and delete.
//!
//! Each command is one linear pipeline — validate, write, notify — with a
//! fixed order of checkpoints.  A notification failure after a successful
//! write propagates as a command failure, but the write itself is not rolled
//! back: the contract states that outcome rather than hiding it.

use vstd::prelude::*;

use crate::entities::ingredient::{
    diets_of, Ingredient, IngredientDescription, IngredientName, IngredientV, ValidationError,
    WhichDiets,
};
use crate::ids::Uuid;
use crate::repositories::ingredients::{
    ings_ok, name_taken, IngredientRepository, InsertIngredientError,
    DeleteIngredientError as RepoDeleteIngredientError,
    GetIngredientByIdError,
};
use crate::repositories::recipes::{ingredient_in_use, RecipeRepository};
use crate::services::message::MessageService;

verus! {

/// Why creating an ingredient failed: an empty input field, a name already in
/// use, or an internal failure (storage or notification transport).
#[derive(Debug)]
pub enum CreateIngredientError {
    EmptyField(&'static str),
    Conflict(String),
    Internal,
}

/// The untrusted input to the create-ingredient command.
#[derive(Debug)]
pub struct CreateIngredient {
    pub name: String,
    pub description: String,
    pub diet_violations: Vec<String>,
}

/// The mathematical value of a create-ingredient input.
pub ghost struct CreateIngredientV {
    pub name: Seq<char>,
    pub description: Seq<char>,
    pub diet_violations: Seq<String>,
}

impl View for CreateIngredient {
    type V = CreateIngredientV;

    open spec fn view(&self) -> CreateIngredientV {
        CreateIngredientV {
            name: self.name@,
            description: self.description@,
            diet_violations: self.diet_violations@,
        }
    }
}

/// Whether the input passes validation: name and description non-empty.
pub open spec fn valid_create(input: CreateIngredientV) -> bool {
    input.name.len() > 0 && input.description.len() > 0
}

/// Validates the input and constructs the entity under a fresh id.  Fails
/// with `EmptyField("name")` on an empty name, else `EmptyField("description")`
/// on an empty description.
fn ingredient_from_input(input: &CreateIngredient) -> (r: Result<Ingredient, ValidationError>)
    ensures
        match r {
            Ok(i) => valid_create(input@) && i@.name == input@.name && i@.description
                == input@.description && i@.diet_violations == diets_of(input@.diet_violations)
                && i@.wf(),
            Err(e) => !valid_create(input@) && (e matches ValidationError::EmptyField(f) && ((
            input@.name.len() == 0 && f@ == "name"@) || (input@.name.len() > 0
                && input@.description.len() == 0 && f@ == "description"@))),
        },
{
    let name = match IngredientName::new(input.name.as_str()) {
        Ok(n) => n,
        Err(e) => {
            return Err(e);
        },
    };
    let description = match IngredientDescription::new(input.description.as_str()) {
        Ok(d) => d,
        Err(e) => {
            return Err(e);
        },
    };
    Ok(
        Ingredient {
            id: Uuid::now_v7(),
            name,
            description,
            diet_violations: WhichDiets::from_strings(&input.diet_violations),
        },
    )
}

/// Creates an ingredient: validate, construct, insert, notify.
///
/// The contract pins each outcome down: an invalid input is rejected before
/// the store is touched; a taken name is a `Conflict("name")`; on success the
/// returned entity carries the input's fields (unknown diet tags dropped) and
/// is exactly what the store gained.  With a reliable store and transport, a
/// valid input whose name is free is owed success.  `Internal` can leave the
/// ingredient persisted: a notification failure after the insert committed is
/// surfaced but not rolled back.
pub fn create_ingredient<R: IngredientRepository, M: MessageService>(
    repo: &mut R,
    message_service: &M,
    input: &CreateIngredient,
) -> (r: Result<Ingredient, CreateIngredientError>)
    requires
        old(repo).inv(),
    ensures
        final(repo).inv(),
        match r {
            Ok(ing) => valid_create(input@) && ing@.name == input@.name && ing@.description
                == input@.description && ing@.diet_violations == diets_of(input@.diet_violations)
                && ing@.wf() && !name_taken(old(repo).ings(), input@.name, ing@.id) && final(repo).ings() == old(repo).ings().insert(ing@.id, ing@),
            Err(CreateIngredientError::EmptyField(f)) => !valid_create(input@) && ((
            input@.name.len() == 0 && f@ == "name"@) || (input@.name.len() > 0
                && input@.description.len() == 0 && f@ == "description"@)) && final(repo).ings()
                == old(repo).ings(),
            Err(CreateIngredientError::Conflict(f)) => f@ == "name"@ && valid_create(input@) && (
            exists|k: u128| #[trigger]
                old(repo).ings().contains_key(k) && old(repo).ings()[k].name == input@.name)
                && final(repo).ings() == old(repo).ings(),
            Err(CreateIngredientError::Internal) => valid_create(input@) && (final(repo).ings()
                == old(repo).ings() || exists|id: u128|
                final(repo).ings() == old(repo).ings().insert(
                    id,
                    IngredientV {
                        id,
                        name: input@.name,
                        description: input@.description,
                        diet_violations: diets_of(input@.diet_violations),
                    },
                )),
        },
        !valid_create(input@) ==> r matches Err(CreateIngredientError::EmptyField(_)),
        valid_create(input@) && R::reliable() && M::reliable() ==> (r is Ok || r matches Err(
            CreateIngredientError::Conflict(_),
        )),
        valid_create(input@) && R::reliable() && M::reliable() && !(exists|k: u128| #[trigger]
            old(repo).ings().contains_key(k) && old(repo).ings()[k].name == input@.name) ==> r
            is Ok,
{
    let ingredient = match ingredient_from_input(input) {
        Ok(i) => i,
        Err(e) => {
            return match e {
                ValidationError::EmptyField(f) => Err(CreateIngredientError::EmptyField(f)),
                ValidationError::DeserializationFailed(_) => Err(CreateIngredientError::Internal),
            };
        },
    };
    let ghost fresh_id = ingredient@.id;
    let ingredient = match repo.insert(ingredient) {
        Ok(i) => i,
        Err(InsertIngredientError::Conflict(f)) => {
            proof {
                // name_taken excludes the freshly drawn id; the contract
                // states the plain witness.
                let k = choose|k: u128| #[trigger]
                    old(repo).ings().contains_key(k) && k != fresh_id && old(repo).ings()[k].name
                        == input@.name;
                assert(old(repo).ings().contains_key(k) && old(repo).ings()[k].name
                    == input@.name);
            }
            return Err(CreateIngredientError::Conflict(f));
        },
        Err(InsertIngredientError::Unknown) => {
            return Err(CreateIngredientError::Internal);
        },
    };
    match message_service.ingredient_added(&ingredient) {
        Ok(_) => Ok(ingredient),
        Err(_) => {
            proof {
                assert(final(repo).ings() == old(repo).ings().insert(
                    fresh_id,
                    IngredientV {
                        id: fresh_id,
                        name: input@.name,
                        description: input@.description,
                        diet_violations: diets_of(input@.diet_violations),
                    },
                ));
            }
            Err(CreateIngredientError::Internal)
        },
    }
}

/// After an ingredient is stored, its name is taken for every other id: a
/// second insert of the same name under a different id finds `name_taken`
/// and, by the repository contract, must fail with `Conflict("name")`.  Of
/// two inserts of one name, at most one can succeed, in whichever order they
/// run.
pub proof fn inserted_name_is_taken(m: Map<u128, IngredientV>, ing: IngredientV, other_id: u128)
    requires
        other_id != ing.id,
    ensures
        name_taken(m.insert(ing.id, ing), ing.name, other_id),
{
    assert(m.insert(ing.id, ing).contains_key(ing.id));
}

/// Why deleting an ingredient failed: the id is unknown, the ingredient is
/// still referenced by a recipe, or an internal failure.
#[derive(Debug)]
pub enum DeleteIngredientError {
    NotFound(Uuid),
    InUseByRecipe,
    UnknownError,
}

/// Deletes an ingredient: fetch by id, refuse while any recipe references it,
/// delete, notify.
///
/// The order of checkpoints is fixed so the most specific error wins: an
/// unknown id is `NotFound(id)`; a referenced ingredient is `InUseByRecipe`
/// and is never deleted — no cascade, no force; only then is the ingredient
/// removed.  A notification failure after the delete committed is surfaced as
/// `UnknownError` but not rolled back.
pub fn delete_ingredient<IR: IngredientRepository, RR: RecipeRepository, M: MessageService>(
    repo: &mut IR,
    recipe_repo: &RR,
    message_service: &M,
    input: &Uuid,
) -> (r: Result<(), DeleteIngredientError>)
    requires
        old(repo).inv(),
        recipe_repo.inv(),
    ensures
        final(repo).inv(),
        match r {
            Ok(_) => old(repo).ings().contains_key(input.bits) && !ingredient_in_use(
                recipe_repo.recipes(),
                input.bits,
            ) && final(repo).ings() == old(repo).ings().remove(input.bits),
            Err(DeleteIngredientError::NotFound(i)) => i == *input && !old(repo).ings().contains_key(input.bits) && final(repo).ings() == old(repo).ings(),
            Err(DeleteIngredientError::InUseByRecipe) => old(repo).ings().contains_key(input.bits)
                && ingredient_in_use(recipe_repo.recipes(), input.bits) && final(repo).ings()
                == old(repo).ings(),
            Err(DeleteIngredientError::UnknownError) => final(repo).ings() == old(repo).ings()
                || final(repo).ings() == old(repo).ings().remove(input.bits),
        },
        !old(repo).ings().contains_key(input.bits) && IR::reliable() ==> (r matches Err(
            DeleteIngredientError::NotFound(i),
        ) && i == *input),
        old(repo).ings().contains_key(input.bits) && ingredient_in_use(
            recipe_repo.recipes(),
            input.bits,
        ) ==> final(repo).ings() == old(repo).ings() && !(r is Ok),
        old(repo).ings().contains_key(input.bits) && ingredient_in_use(
            recipe_repo.recipes(),
            input.bits,
        ) && IR::reliable() && recipe_repo.reliable() ==> r matches Err(
            DeleteIngredientError::InUseByRecipe,
        ),
        old(repo).ings().contains_key(input.bits) && !ingredient_in_use(
            recipe_repo.recipes(),
            input.bits,
        ) && IR::reliable() && recipe_repo.reliable() && M::reliable() ==> r is Ok,
{
    let ingredient = match repo.get_by_id(input) {
        Ok(i) => i,
        Err(GetIngredientByIdError::NotFound(id)) => {
            return Err(DeleteIngredientError::NotFound(id));
        },
        Err(GetIngredientByIdError::Unknown) => {
            return Err(DeleteIngredientError::UnknownError);
        },
    };
    proof {
        repo.lemma_inv();
        assert(ings_ok(repo.ings()));
        assert(ingredient@.id == input.bits);
    }
    let recipes_with_ingredient_exist = match recipe_repo.recipes_containing_ingredient_exist(
        ingredient.clone(),
    ) {
        Ok(b) => b,
        Err(_) => {
            return Err(DeleteIngredientError::UnknownError);
        },
    };
    if recipes_with_ingredient_exist {
        return Err(DeleteIngredientError::InUseByRecipe);
    }
    match repo.delete(ingredient.clone()) {
        Ok(_) => (),
        Err(RepoDeleteIngredientError::NotFound(_)) => {
            return Err(DeleteIngredientError::UnknownError);
        },
        Err(RepoDeleteIngredientError::Unknown) => {
            return Err(DeleteIngredientError::UnknownError);
        },
    }
    match message_service.ingredient_deleted(&ingredient) {
        Ok(_) => Ok(()),
        Err(_) => Err(DeleteIngredientError::UnknownError),
    }
}


/// Why updating an ingredient failed: the id is unknown, an input field was
/// empty, the new name belongs to another ingredient, or an internal failure.
#[derive(Debug)]
pub enum UpdateIngredientError {
    NotFound(Uuid),
    EmptyField(&'static str),
    Conflict(String),
    Internal,
}

/// Updates an ingredient: fetch by id, validate the replacement fields as
/// creation does, store the replacement under the same id, notify with old
/// and new value.
///
/// The checkpoints fire in order: an unknown id is `NotFound(id)` before
/// anything else; an empty field is rejected before the store is touched; a
/// replacement name already carried by another ingredient is
/// `Conflict("name")`.  On success the stored entry under the id is exactly
/// the validated replacement.  A notification failure after the write
/// committed is surfaced as `Internal` but not rolled back.
pub fn update_ingredient<R: IngredientRepository, M: MessageService>(
    repo: &mut R,
    message_service: &M,
    id: &Uuid,
    input: &CreateIngredient,
) -> (r: Result<Ingredient, UpdateIngredientError>)
    requires
        old(repo).inv(),
    ensures
        final(repo).inv(),
        match r {
            Ok(ing) => old(repo).ings().contains_key(id.bits) && valid_create(input@) && ing@.id
                == id.bits && ing@.name == input@.name && ing@.description == input@.description
                && ing@.diet_violations == diets_of(input@.diet_violations) && ing@.wf()
                && !name_taken(old(repo).ings(), input@.name, id.bits) && final(repo).ings()
                == old(repo).ings().insert(id.bits, ing@),
            Err(UpdateIngredientError::NotFound(i)) => i == *id && !old(
                repo,
            ).ings().contains_key(id.bits) && final(repo).ings() == old(repo).ings(),
            Err(UpdateIngredientError::EmptyField(f)) => !valid_create(input@) && ((
            input@.name.len() == 0 && f@ == "name"@) || (input@.name.len() > 0
                && input@.description.len() == 0 && f@ == "description"@)) && final(repo).ings()
                == old(repo).ings(),
            Err(UpdateIngredientError::Conflict(f)) => f@ == "name"@ && valid_create(input@)
                && name_taken(old(repo).ings(), input@.name, id.bits) && final(repo).ings() == old(
                repo,
            ).ings(),
            Err(UpdateIngredientError::Internal) => final(repo).ings() == old(repo).ings() || (
            valid_create(input@) && final(repo).ings() == old(repo).ings().insert(
                id.bits,
                IngredientV {
                    id: id.bits,
                    name: input@.name,
                    description: input@.description,
                    diet_violations: diets_of(input@.diet_violations),
                },
            )),
        },
        old(repo).ings().contains_key(id.bits) && valid_create(input@) && !name_taken(
            old(repo).ings(),
            input@.name,
            id.bits,
        ) && R::reliable() && M::reliable() ==> r is Ok,
{
    let old_ingredient = match repo.get_by_id(id) {
        Ok(i) => i,
        Err(GetIngredientByIdError::NotFound(i)) => {
            return Err(UpdateIngredientError::NotFound(i));
        },
        Err(GetIngredientByIdError::Unknown) => {
            return Err(UpdateIngredientError::Internal);
        },
    };
    let name = match IngredientName::new(input.name.as_str()) {
        Ok(n) => n,
        Err(e) => {
            return match e {
                ValidationError::EmptyField(f) => Err(UpdateIngredientError::EmptyField(f)),
                ValidationError::DeserializationFailed(_) => Err(UpdateIngredientError::Internal),
            };
        },
    };
    let description = match IngredientDescription::new(input.description.as_str()) {
        Ok(d) => d,
        Err(e) => {
            return match e {
                ValidationError::EmptyField(f) => Err(UpdateIngredientError::EmptyField(f)),
                ValidationError::DeserializationFailed(_) => Err(UpdateIngredientError::Internal),
            };
        },
    };
    let replacement = Ingredient {
        id: *id,
        name,
        description,
        diet_violations: WhichDiets::from_strings(&input.diet_violations),
    };
    let new_ingredient = match repo.insert(replacement) {
        Ok(i) => i,
        Err(InsertIngredientError::Conflict(f)) => {
            return Err(UpdateIngredientError::Conflict(f));
        },
        Err(InsertIngredientError::Unknown) => {
            return Err(UpdateIngredientError::Internal);
        },
    };
    match message_service.ingredient_updated(&old_ingredient, &new_ingredient) {
        Ok(_) => Ok(new_ingredient),
        Err(_) => Err(UpdateIngredientError::Internal),
    }
}

/// Once delete succeeds the id is gone from the store, so a subsequent
/// `get_by_id` on it must, by its contract, answer `NotFound`.
pub proof fn deleted_ingredient_not_found(m: Map<u128, IngredientV>, id: u128)
    ensures
        !m.remove(id).contains_key(id),
{
}

} // verus!
