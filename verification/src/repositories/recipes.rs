//! The recipe repository: its contract and the in-memory implementation.
//!
//! The contract fixes what each operation does to the stored map from id to
//! recipe.  Two decisions the contract makes explicit: a partial update
//! touches exactly the fields that differ from the stored value and bumps
//! `updated_at` if and only if at least one did, as part of the operation's
//! guarantee (not best-effort); and every ingredient-line mutation bumps the
//! parent recipe's `updated_at`.  The in-memory implementation drives its
//! timestamps from a logical clock it owns; a relational implementation lives
//! with the adapters, with `Unknown` covering storage failure.

use vstd::prelude::*;

use crate::assoc::{
    assoc_map, lemma_assoc_contains, lemma_assoc_index, lemma_assoc_push, lemma_assoc_remove,
    lemma_assoc_update, unique_keys,
};
use crate::entities::recipe::{
    copy_lines, lines_view, strings_view, time_view, IngredientUnit, IngredientWithAmount,
    IngredientWithAmountV, Recipe, RecipeChangeset, RecipeV, TimeEntry,
};
use crate::entities::ingredient::Ingredient;
use crate::ids::Uuid;

verus! {

/// Why inserting a recipe failed: only a storage failure can.
#[derive(Debug)]
pub enum InsertRecipeError {
    Unknown,
}

/// Why a lookup failed: no recipe under the id, or a storage failure.
#[derive(Debug)]
pub enum GetRecipeByIdError {
    NotFound(Uuid),
    Unknown,
}

/// Why reading all recipes failed: only a storage failure can.
#[derive(Debug)]
pub enum GetAllRecipesError {
    Unknown,
}

/// Why deleting a recipe failed: only a storage failure can (deleting an
/// absent recipe removes nothing and succeeds).
#[derive(Debug)]
pub enum DeleteRecipeError {
    Unknown,
}

/// Why a partial update failed.
#[derive(Debug)]
pub enum UpdateRecipeError {
    NotFound(Uuid),
    Unknown,
}

/// Why adding an ingredient line failed.
#[derive(Debug)]
pub enum AddIngredientIntoRecipeError {
    NotFound(Uuid),
    Unknown,
}

/// Why deleting an ingredient line failed.
#[derive(Debug)]
pub enum DeleteIngredientFromRecipeError {
    NotFound(Uuid),
    Unknown,
}

/// Why updating an ingredient line's amount failed.
#[derive(Debug)]
pub enum UpdateIngredientInRecipeError {
    NotFound(Uuid),
    Unknown,
}

/// Why the reference check failed: only a storage failure can.
#[derive(Debug)]
pub enum RecipesContainingIngredientError {
    Unknown,
}

/// The key under which a recipe is stored: its id.
pub open spec fn recipe_key() -> spec_fn(RecipeV) -> u128 {
    |v: RecipeV| v.id
}

/// A well-formed store: every recipe sits under its own id.
pub open spec fn recipes_ok(m: Map<u128, RecipeV>) -> bool {
    forall|k: u128| #[trigger] m.contains_key(k) ==> m[k].id == k
}

/// Whether the recipe references the ingredient with the given id.
pub open spec fn recipe_uses(r: RecipeV, ing_id: u128) -> bool {
    exists|i: int| 0 <= i < r.ingredients.len() && (#[trigger] r.ingredients[i]).ingredient.id
        == ing_id
}

/// Whether any stored recipe references the ingredient with the given id.
pub open spec fn ingredient_in_use(m: Map<u128, RecipeV>, ing_id: u128) -> bool {
    exists|k: u128| #[trigger] m.contains_key(k) && recipe_uses(m[k], ing_id)
}

/// The lines of `s` whose ingredient is not the one with the given id.
pub open spec fn without_ingredient(s: Seq<IngredientWithAmountV>, ing_id: u128) -> Seq<
    IngredientWithAmountV,
>
    decreases s.len(),
{
    if s.len() == 0 {
        Seq::empty()
    } else {
        let rest = without_ingredient(s.drop_last(), ing_id);
        if s.last().ingredient.id == ing_id {
            rest
        } else {
            rest.push(s.last())
        }
    }
}

/// The lines of `s`, with the amount of every line of the given ingredient
/// replaced by `a`.
pub open spec fn with_new_amount(
    s: Seq<IngredientWithAmountV>,
    ing_id: u128,
    a: crate::entities::recipe::IngredientUnitV,
) -> Seq<IngredientWithAmountV> {
    s.map_values(
        |l: IngredientWithAmountV|
            if l.ingredient.id == ing_id {
                IngredientWithAmountV { amount: a, ..l }
            } else {
                l
            },
    )
}

/// A vector of recipes carries exactly the content of the map.
pub open spec fn recipes_represent(s: Seq<Recipe>, m: Map<u128, RecipeV>) -> bool {
    (forall|i: int|
        0 <= i < s.len() ==> m.contains_key(#[trigger] s[i]@.id) && m[s[i]@.id] == s[i]@) && (forall|
        k: u128,
    | #[trigger] m.contains_key(k) ==> exists|i: int| 0 <= i < s.len() && s[i]@.id == k) && (forall|
        i: int,
        j: int,
    | 0 <= i < j < s.len() ==> s[i]@.id != s[j]@.id)
}

impl RecipeV {
    /// The same recipe with other ingredient lines and another `updated_at`.
    pub open spec fn with_lines(self, lines: Seq<IngredientWithAmountV>, t: u64) -> RecipeV {
        RecipeV { ingredients: lines, updated_at: t, ..self }
    }
}

/// The persistence protocol for recipes.
///
/// `recipes` is the stored map from id to recipe and `inv` the
/// implementation's internal invariant.  `reliable` says whether the store
/// can fail on its own right now; a failed store answers `Unknown` and leaves
/// the map as it was.  Inserting under an id that is already stored replaces
/// that entry, as a keyed store does.  Timestamps are owned by the store:
/// insert stamps `created_at == updated_at`; an update bumps `updated_at`
/// exactly when a field changed; every ingredient-line mutation bumps it.
pub trait RecipeRepository: Sized {
    /// The stored recipes, by id.
    spec fn recipes(&self) -> Map<u128, RecipeV>;

    /// The implementation's internal invariant.
    spec fn inv(&self) -> bool;

    /// Whether the backing store is currently free of failures of its own.
    spec fn reliable(&self) -> bool;

    /// The invariant keeps the store well-formed.
    proof fn lemma_inv(&self)
        requires
            self.inv(),
        ensures
            recipes_ok(self.recipes()),
    ;

    /// Stores a recipe as one all-or-nothing unit: the recipe together with
    /// every one of its ingredient lines, stamped `created_at == updated_at`.
    fn insert(&mut self, input: Recipe) -> (r: Result<(), InsertRecipeError>)
        requires
            old(self).inv(),
        ensures
            final(self).inv(),
            match r {
                Ok(_) => final(self).recipes().contains_key(input@.id) && final(self).recipes()[input@.id].same_core(input@) && final(self).recipes()[input@.id].created_at == final(self).recipes()[input@.id].updated_at
                    && final(self).recipes() == old(self).recipes().insert(
                    input@.id,
                    final(self).recipes()[input@.id],
                ),
                Err(InsertRecipeError::Unknown) => final(self).recipes() == old(self).recipes(),
            },
            old(self).reliable() ==> r is Ok,
    ;

    /// Reads the recipe stored under `id`; `NotFound(id)` exactly when there
    /// is none.
    fn get_by_id(&self, id: &Uuid) -> (r: Result<Recipe, GetRecipeByIdError>)
        requires
            self.inv(),
        ensures
            match r {
                Ok(rec) => self.recipes().contains_key(id.bits) && rec@ == self.recipes()[id.bits],
                Err(GetRecipeByIdError::NotFound(i)) => i == *id && !self.recipes().contains_key(
                    id.bits,
                ),
                Err(GetRecipeByIdError::Unknown) => true,
            },
            self.reliable() ==> !(r matches Err(GetRecipeByIdError::Unknown)),
    ;

    /// Reads all stored recipes, each with all its ingredient lines, in no
    /// promised order.
    fn get_all(&self) -> (r: Result<Vec<Recipe>, GetAllRecipesError>)
        requires
            self.inv(),
        ensures
            match r {
                Ok(v) => recipes_represent(v@, self.recipes()),
                Err(GetAllRecipesError::Unknown) => true,
            },
            self.reliable() ==> r is Ok,
    ;

    /// Removes the recipe stored under the given recipe's id, with all its
    /// ingredient lines; removing an absent recipe changes nothing.
    fn delete(&mut self, recipe: &Recipe) -> (r: Result<(), DeleteRecipeError>)
        requires
            old(self).inv(),
        ensures
            final(self).inv(),
            match r {
                Ok(_) => final(self).recipes() == old(self).recipes().remove(recipe@.id),
                Err(DeleteRecipeError::Unknown) => final(self).recipes() == old(self).recipes(),
            },
            old(self).reliable() ==> r is Ok,
    ;

    /// Applies a partial update to the stored recipe, diffing field by field
    /// against the stored value: only changed fields are written, and
    /// `updated_at` is bumped exactly when at least one field changed.
    fn update(&mut self, recipe: &Recipe, changeset: RecipeChangeset) -> (r: Result<
        (),
        UpdateRecipeError,
    >)
        requires
            old(self).inv(),
        ensures
            final(self).inv(),
            match r {
                Ok(_) => old(self).recipes().contains_key(recipe@.id) && final(self).recipes().contains_key(recipe@.id) && {
                    let cur = old(self).recipes()[recipe@.id];
                    let nr = final(self).recipes()[recipe@.id];
                    nr == changeset@.apply(cur, nr.updated_at) && (changeset@.changes(cur)
                        ==> nr.updated_at > cur.updated_at) && (!changeset@.changes(cur)
                        ==> final(self).recipes() == old(self).recipes()) && final(self).recipes()
                        == old(self).recipes().insert(recipe@.id, nr)
                },
                Err(UpdateRecipeError::NotFound(i)) => i == recipe.id && !old(self).recipes().contains_key(recipe@.id) && final(self).recipes() == old(self).recipes(),
                Err(UpdateRecipeError::Unknown) => final(self).recipes() == old(self).recipes(),
            },
            old(self).reliable() ==> !(r matches Err(UpdateRecipeError::Unknown)),
    ;

    /// Appends an ingredient line to the stored recipe and bumps its
    /// `updated_at`.
    fn add_ingredient(&mut self, recipe: &Recipe, ingredient: IngredientWithAmount) -> (r: Result<
        (),
        AddIngredientIntoRecipeError,
    >)
        requires
            old(self).inv(),
        ensures
            final(self).inv(),
            match r {
                Ok(_) => old(self).recipes().contains_key(recipe@.id) && final(self).recipes().contains_key(recipe@.id) && {
                    let cur = old(self).recipes()[recipe@.id];
                    let nr = final(self).recipes()[recipe@.id];
                    nr == cur.with_lines(cur.ingredients.push(ingredient@), nr.updated_at)
                        && nr.updated_at > cur.updated_at && final(self).recipes() == old(self).recipes().insert(recipe@.id, nr)
                },
                Err(AddIngredientIntoRecipeError::NotFound(i)) => i == recipe.id && !old(self).recipes().contains_key(recipe@.id) && final(self).recipes() == old(self).recipes(),
                Err(AddIngredientIntoRecipeError::Unknown) => final(self).recipes() == old(self).recipes(),
            },
            old(self).reliable() ==> !(r matches Err(AddIngredientIntoRecipeError::Unknown)),
    ;

    /// Removes every line of the given ingredient from the stored recipe and
    /// bumps its `updated_at` (also when no line matched).
    fn delete_ingredient(&mut self, recipe: &Recipe, ingredient: &IngredientWithAmount) -> (r:
        Result<(), DeleteIngredientFromRecipeError>)
        requires
            old(self).inv(),
        ensures
            final(self).inv(),
            match r {
                Ok(_) => old(self).recipes().contains_key(recipe@.id) && final(self).recipes().contains_key(recipe@.id) && {
                    let cur = old(self).recipes()[recipe@.id];
                    let nr = final(self).recipes()[recipe@.id];
                    nr == cur.with_lines(
                        without_ingredient(cur.ingredients, ingredient@.ingredient.id),
                        nr.updated_at,
                    ) && nr.updated_at > cur.updated_at && final(self).recipes() == old(self).recipes().insert(recipe@.id, nr)
                },
                Err(DeleteIngredientFromRecipeError::NotFound(i)) => i == recipe.id && !old(self).recipes().contains_key(recipe@.id) && final(self).recipes() == old(self).recipes(),
                Err(DeleteIngredientFromRecipeError::Unknown) => final(self).recipes() == old(self).recipes(),
            },
            old(self).reliable() ==> !(r matches Err(DeleteIngredientFromRecipeError::Unknown)),
    ;

    /// Replaces the amount on every line of the given ingredient in the
    /// stored recipe and bumps its `updated_at` (also when no line matched).
    fn update_ingredient_amount(
        &mut self,
        recipe: &Recipe,
        ingredient: &IngredientWithAmount,
        new_amount: &IngredientUnit,
    ) -> (r: Result<(), UpdateIngredientInRecipeError>)
        requires
            old(self).inv(),
        ensures
            final(self).inv(),
            match r {
                Ok(_) => old(self).recipes().contains_key(recipe@.id) && final(self).recipes().contains_key(recipe@.id) && {
                    let cur = old(self).recipes()[recipe@.id];
                    let nr = final(self).recipes()[recipe@.id];
                    nr == cur.with_lines(
                        with_new_amount(cur.ingredients, ingredient@.ingredient.id, new_amount@),
                        nr.updated_at,
                    ) && nr.updated_at > cur.updated_at && final(self).recipes() == old(self).recipes().insert(recipe@.id, nr)
                },
                Err(UpdateIngredientInRecipeError::NotFound(i)) => i == recipe.id && !old(self).recipes().contains_key(recipe@.id) && final(self).recipes() == old(self).recipes(),
                Err(UpdateIngredientInRecipeError::Unknown) => final(self).recipes() == old(self).recipes(),
            },
            old(self).reliable() ==> !(r matches Err(UpdateIngredientInRecipeError::Unknown)),
    ;

    /// Whether any stored recipe references the given ingredient.
    fn recipes_containing_ingredient_exist(&self, ingredient: Ingredient) -> (r: Result<
        bool,
        RecipesContainingIngredientError,
    >)
        requires
            self.inv(),
        ensures
            match r {
                Ok(b) => b == ingredient_in_use(self.recipes(), ingredient@.id),
                Err(RecipesContainingIngredientError::Unknown) => true,
            },
            self.reliable() ==> r is Ok,
    ;
}

/// The views of a stored vector of recipes.
pub open spec fn rview(s: Seq<Recipe>) -> Seq<RecipeV> {
    s.map_values(|x: Recipe| x@)
}

/// A recipe store backed by a vector, for tests and development.  Timestamps
/// come from a logical clock the store owns; once the clock is exhausted the
/// store reports `Unknown` on mutations that would need a fresh instant.
pub struct InMemoryRecipeRepository {
    items: Vec<Recipe>,
    clock: u64,
}

impl InMemoryRecipeRepository {
    /// An empty store.
    pub fn new() -> (r: InMemoryRecipeRepository)
        ensures
            r.inv(),
            r.reliable(),
            r.recipes() == Map::<u128, RecipeV>::empty(),
    {
        InMemoryRecipeRepository { items: Vec::new(), clock: 0 }
    }

    /// The index of the recipe stored under `id`, if any.
    fn find_index(&self, id: u128) -> (r: Option<usize>)
        ensures
            match r {
                Some(i) => i < self.items@.len() && self.items@[i as int]@.id == id,
                None => forall|i: int| 0 <= i < self.items@.len() ==> self.items@[i]@.id != id,
            },
    {
        let mut i: usize = 0;
        while i < self.items.len()
            invariant
                i <= self.items@.len(),
                forall|j: int| 0 <= j < i ==> self.items@[j]@.id != id,
            decreases self.items@.len() - i,
        {
            if self.items[i].id.as_u128() == id {
                return Some(i);
            }
            i = i + 1;
        }
        None
    }
}

impl RecipeRepository for InMemoryRecipeRepository {
    closed spec fn recipes(&self) -> Map<u128, RecipeV> {
        assoc_map(rview(self.items@), recipe_key())
    }

    closed spec fn inv(&self) -> bool {
        &&& unique_keys(rview(self.items@), recipe_key())
        &&& forall|i: int|
            0 <= i < self.items@.len() ==> (#[trigger] self.items@[i]@).updated_at <= self.clock
                && self.items@[i]@.created_at <= self.clock
    }

    closed spec fn reliable(&self) -> bool {
        self.clock < u64::MAX
    }

    proof fn lemma_inv(&self) {
        let s = rview(self.items@);
        assert forall|k: u128| #[trigger] self.recipes().contains_key(k) implies self.recipes()[k].id
            == k by {
            lemma_assoc_contains(s, recipe_key(), k);
            let i = choose|i: int| 0 <= i < s.len() && recipe_key()(s[i]) == k;
            lemma_assoc_index(s, recipe_key(), i);
        }
    }

    fn insert(&mut self, input: Recipe) -> (r: Result<(), InsertRecipeError>) {
        if self.clock == u64::MAX {
            return Err(InsertRecipeError::Unknown);
        }
        let t = self.clock + 1;
        self.clock = t;
        let stored = Recipe { created_at: t, updated_at: t, ..input };
        let ghost storedv = stored@;
        let ghost pre = self.items@;
        match self.find_index(stored.id.as_u128()) {
            Some(idx) => {
                self.items.set(idx, stored);
                proof {
                    assert(rview(self.items@) =~= rview(pre).update(idx as int, storedv));
                    replace_at(pre, idx as int, storedv, self.items@);
                    lemma_assoc_index(rview(self.items@), recipe_key(), idx as int);
                }
                Ok(())
            },
            None => {
                self.items.push(stored);
                proof {
                    assert(rview(self.items@) =~= rview(pre).push(storedv));
                    append_new(pre, storedv, self.items@);
                    lemma_assoc_index(rview(self.items@), recipe_key(), pre.len() as int);
                }
                Ok(())
            },
        }
    }

    fn get_by_id(&self, id: &Uuid) -> (r: Result<Recipe, GetRecipeByIdError>) {
        proof {
            lemma_assoc_contains(rview(self.items@), recipe_key(), id.bits);
        }
        match self.find_index(id.as_u128()) {
            Some(idx) => {
                proof {
                    lemma_assoc_index(rview(self.items@), recipe_key(), idx as int);
                }
                Ok(self.items[idx].clone())
            },
            None => Err(GetRecipeByIdError::NotFound(*id)),
        }
    }

    fn get_all(&self) -> (r: Result<Vec<Recipe>, GetAllRecipesError>) {
        let mut out: Vec<Recipe> = Vec::new();
        let mut i: usize = 0;
        while i < self.items.len()
            invariant
                self.inv(),
                i <= self.items@.len(),
                out@.len() == i,
                forall|j: int| 0 <= j < i ==> out@[j]@ == self.items@[j]@,
            decreases self.items@.len() - i,
        {
            out.push(self.items[i].clone());
            i = i + 1;
        }
        proof {
            assert forall|j: int|
                0 <= j < out@.len() implies self.recipes().contains_key(#[trigger] out@[j]@.id)
                && self.recipes()[out@[j]@.id] == out@[j]@ by {
                assert(out@[j]@ == rview(self.items@)[j]);
                lemma_assoc_index(rview(self.items@), recipe_key(), j);
            }
            assert forall|k: u128| #[trigger] self.recipes().contains_key(k) implies exists|i: int|
                0 <= i < out@.len() && out@[i]@.id == k by {
                lemma_assoc_contains(rview(self.items@), recipe_key(), k);
                let j = choose|j: int|
                    0 <= j < rview(self.items@).len() && recipe_key()(rview(self.items@)[j]) == k;
                assert(out@[j]@.id == k);
            }
            assert forall|i: int, j: int| 0 <= i < j < out@.len() implies out@[i]@.id
                != out@[j]@.id by {
                assert(out@[i]@ == rview(self.items@)[i]);
                assert(out@[j]@ == rview(self.items@)[j]);
                assert(recipe_key()(rview(self.items@)[i]) != recipe_key()(rview(self.items@)[j]));
            }
        }
        Ok(out)
    }

    fn delete(&mut self, recipe: &Recipe) -> (r: Result<(), DeleteRecipeError>) {
        proof {
            lemma_assoc_contains(rview(self.items@), recipe_key(), recipe@.id);
        }
        let ghost pre = self.items@;
        match self.find_index(recipe.id.as_u128()) {
            Some(idx) => {
                self.items.remove(idx);
                proof {
                    assert(rview(self.items@) =~= rview(pre).remove(idx as int));
                    lemma_assoc_remove(rview(pre), recipe_key(), idx as int);
                    assert(self.recipes() =~= assoc_map(rview(pre), recipe_key()).remove(
                        recipe@.id,
                    ));
                    assert(unique_keys(rview(self.items@), recipe_key())) by {
                        assert forall|a: int, b: int|
                            0 <= a < b < rview(self.items@).len() implies recipe_key()(
                            rview(self.items@)[a],
                        ) != recipe_key()(rview(self.items@)[b]) by {
                            let a0 = if a < idx {
                                a
                            } else {
                                a + 1
                            };
                            let b0 = if b < idx {
                                b
                            } else {
                                b + 1
                            };
                            assert(rview(self.items@)[a] == rview(pre)[a0]);
                            assert(rview(self.items@)[b] == rview(pre)[b0]);
                        }
                    }
                }
                Ok(())
            },
            None => {
                proof {
                    assert(self.recipes() =~= self.recipes().remove(recipe@.id));
                }
                Ok(())
            },
        }
    }

    fn update(&mut self, recipe: &Recipe, changeset: RecipeChangeset) -> (r: Result<
        (),
        UpdateRecipeError,
    >) {
        proof {
            lemma_assoc_contains(rview(self.items@), recipe_key(), recipe@.id);
        }
        if self.clock == u64::MAX {
            return Err(UpdateRecipeError::Unknown);
        }
        let idx = match self.find_index(recipe.id.as_u128()) {
            Some(idx) => idx,
            None => {
                return Err(UpdateRecipeError::NotFound(recipe.id));
            },
        };
        proof {
            lemma_assoc_index(rview(self.items@), recipe_key(), idx as int);
        }
        let ghost pre = self.items@;
        let ghost curv = self.items@[idx as int]@;
        // Diff each present field against the stored value.
        let changed_name = match &changeset.name {
            Some(v) => !crate::text::str_eq(v.as_str(), self.items[idx].name.as_str()),
            None => false,
        };
        let changed_description = match &changeset.description {
            Some(v) => !crate::text::str_eq(v.as_str(), self.items[idx].description.as_str()),
            None => false,
        };
        let changed_steps = match &changeset.steps {
            Some(v) => !strings_eq(v, &self.items[idx].steps),
            None => false,
        };
        let changed_time = match &changeset.time {
            Some(v) => !time_eq(v, &self.items[idx].time),
            None => false,
        };
        let changed_servings = match &changeset.servings {
            Some(v) => *v != self.items[idx].servings,
            None => false,
        };
        let changed = changed_name || changed_description || changed_steps || changed_time
            || changed_servings;
        proof {
            assert(changed == changeset@.changes(curv));
        }
        if !changed {
            proof {
                assert(changeset@.apply(curv, curv.updated_at) == curv);
                assert(self.recipes() =~= self.recipes().insert(recipe@.id, curv));
            }
            return Ok(());
        }
        let t = self.clock + 1;
        self.clock = t;
        let cur = &self.items[idx];
        let new_recipe = Recipe {
            id: cur.id,
            name: match changeset.name {
                Some(v) => v,
                None => cur.name.clone(),
            },
            description: match changeset.description {
                Some(v) => v,
                None => cur.description.clone(),
            },
            steps: match changeset.steps {
                Some(v) => v,
                None => crate::entities::recipe::copy_strings(&cur.steps),
            },
            time: match changeset.time {
                Some(v) => v,
                None => crate::entities::recipe::copy_time(&cur.time),
            },
            servings: match changeset.servings {
                Some(v) => v,
                None => cur.servings,
            },
            ingredients: copy_lines(&cur.ingredients),
            created_at: cur.created_at,
            updated_at: t,
        };
        let ghost newv = new_recipe@;
        proof {
            assert(newv == changeset@.apply(curv, t));
        }
        self.items.set(idx, new_recipe);
        proof {
            assert(rview(self.items@) =~= rview(pre).update(idx as int, newv));
            lemma_assoc_update(rview(pre), recipe_key(), idx as int, newv);
            assert(self.recipes() =~= assoc_map(rview(pre), recipe_key()).insert(newv.id, newv));
            assert(unique_keys(rview(self.items@), recipe_key())) by {
                assert forall|a: int, b: int|
                    0 <= a < b < rview(self.items@).len() implies recipe_key()(
                    rview(self.items@)[a],
                ) != recipe_key()(rview(self.items@)[b]) by {
                    if a != idx && b != idx {
                        assert(rview(self.items@)[a] == rview(pre)[a]);
                        assert(rview(self.items@)[b] == rview(pre)[b]);
                    } else if a == idx {
                        assert(rview(self.items@)[b] == rview(pre)[b]);
                        assert(recipe_key()(rview(pre)[idx as int]) == newv.id);
                    } else {
                        assert(rview(self.items@)[a] == rview(pre)[a]);
                        assert(recipe_key()(rview(pre)[idx as int]) == newv.id);
                    }
                }
            }
            lemma_assoc_index(rview(self.items@), recipe_key(), idx as int);
        }
        Ok(())
    }

    fn add_ingredient(&mut self, recipe: &Recipe, ingredient: IngredientWithAmount) -> (r: Result<
        (),
        AddIngredientIntoRecipeError,
    >) {
        proof {
            lemma_assoc_contains(rview(self.items@), recipe_key(), recipe@.id);
        }
        if self.clock == u64::MAX {
            return Err(AddIngredientIntoRecipeError::Unknown);
        }
        let idx = match self.find_index(recipe.id.as_u128()) {
            Some(idx) => idx,
            None => {
                return Err(AddIngredientIntoRecipeError::NotFound(recipe.id));
            },
        };
        proof {
            lemma_assoc_index(rview(self.items@), recipe_key(), idx as int);
        }
        let ghost pre = self.items@;
        let ghost curv = self.items@[idx as int]@;
        let t = self.clock + 1;
        self.clock = t;
        let mut updated = self.items[idx].clone();
        updated.ingredients.push(ingredient);
        updated.updated_at = t;
        let ghost newv = updated@;
        proof {
            assert(lines_view(updated.ingredients@) =~= curv.ingredients.push(
                lines_view(updated.ingredients@).last(),
            ));
            assert(newv == curv.with_lines(
                curv.ingredients.push(lines_view(updated.ingredients@).last()),
                t,
            ));
        }
        self.items.set(idx, updated);
        proof {
            assert(rview(self.items@) =~= rview(pre).update(idx as int, newv));
            replace_at(pre, idx as int, newv, self.items@);
            lemma_assoc_index(rview(self.items@), recipe_key(), idx as int);
        }
        Ok(())
    }

    fn delete_ingredient(&mut self, recipe: &Recipe, ingredient: &IngredientWithAmount) -> (r:
        Result<(), DeleteIngredientFromRecipeError>) {
        proof {
            lemma_assoc_contains(rview(self.items@), recipe_key(), recipe@.id);
        }
        if self.clock == u64::MAX {
            return Err(DeleteIngredientFromRecipeError::Unknown);
        }
        let idx = match self.find_index(recipe.id.as_u128()) {
            Some(idx) => idx,
            None => {
                return Err(DeleteIngredientFromRecipeError::NotFound(recipe.id));
            },
        };
        proof {
            lemma_assoc_index(rview(self.items@), recipe_key(), idx as int);
        }
        let ghost pre = self.items@;
        let ghost curv = self.items@[idx as int]@;
        let t = self.clock + 1;
        self.clock = t;
        let target = ingredient.ingredient.id.as_u128();
        let cur = &self.items[idx];
        let mut kept: Vec<IngredientWithAmount> = Vec::new();
        let mut i: usize = 0;
        while i < cur.ingredients.len()
            invariant
                i <= cur.ingredients@.len(),
                target == ingredient@.ingredient.id,
                lines_view(kept@) == without_ingredient(
                    lines_view(cur.ingredients@).subrange(0, i as int),
                    target,
                ),
            decreases cur.ingredients@.len() - i,
        {
            proof {
                let lv = lines_view(cur.ingredients@);
                assert(lv.subrange(0, i + 1).drop_last() =~= lv.subrange(0, i as int));
                assert(lv.subrange(0, i + 1).last() == lv[i as int]);
            }
            if cur.ingredients[i].ingredient.id.as_u128() != target {
                kept.push(cur.ingredients[i].clone());
                proof {
                    assert(lines_view(kept@) =~= without_ingredient(
                        lines_view(cur.ingredients@).subrange(0, i + 1),
                        target,
                    ));
                }
            }
            i = i + 1;
        }
        proof {
            assert(lines_view(cur.ingredients@).subrange(
                0,
                cur.ingredients@.len() as int,
            ) =~= lines_view(cur.ingredients@));
        }
        let mut updated = self.items[idx].clone();
        updated.ingredients = kept;
        updated.updated_at = t;
        let ghost newv = updated@;
        proof {
            assert(newv == curv.with_lines(without_ingredient(curv.ingredients, target), t));
        }
        self.items.set(idx, updated);
        proof {
            assert(rview(self.items@) =~= rview(pre).update(idx as int, newv));
            replace_at(pre, idx as int, newv, self.items@);
            lemma_assoc_index(rview(self.items@), recipe_key(), idx as int);
        }
        Ok(())
    }

    fn update_ingredient_amount(
        &mut self,
        recipe: &Recipe,
        ingredient: &IngredientWithAmount,
        new_amount: &IngredientUnit,
    ) -> (r: Result<(), UpdateIngredientInRecipeError>) {
        proof {
            lemma_assoc_contains(rview(self.items@), recipe_key(), recipe@.id);
        }
        if self.clock == u64::MAX {
            return Err(UpdateIngredientInRecipeError::Unknown);
        }
        let idx = match self.find_index(recipe.id.as_u128()) {
            Some(idx) => idx,
            None => {
                return Err(UpdateIngredientInRecipeError::NotFound(recipe.id));
            },
        };
        proof {
            lemma_assoc_index(rview(self.items@), recipe_key(), idx as int);
        }
        let ghost pre = self.items@;
        let ghost curv = self.items@[idx as int]@;
        let t = self.clock + 1;
        self.clock = t;
        let target = ingredient.ingredient.id.as_u128();
        let cur = &self.items[idx];
        let mut lines: Vec<IngredientWithAmount> = Vec::new();
        let mut i: usize = 0;
        while i < cur.ingredients.len()
            invariant
                i <= cur.ingredients@.len(),
                target == ingredient@.ingredient.id,
                lines@.len() == i,
                forall|j: int|
                    0 <= j < i ==> lines@[j]@ == (if cur.ingredients@[j]@.ingredient.id == target {
                        IngredientWithAmountV { amount: new_amount@, ..cur.ingredients@[j]@ }
                    } else {
                        cur.ingredients@[j]@
                    }),
            decreases cur.ingredients@.len() - i,
        {
            let mut line = cur.ingredients[i].clone();
            if line.ingredient.id.as_u128() == target {
                line.amount = new_amount.clone();
            }
            lines.push(line);
            i = i + 1;
        }
        let mut updated = self.items[idx].clone();
        updated.ingredients = lines;
        updated.updated_at = t;
        let ghost newv = updated@;
        proof {
            assert(lines_view(updated.ingredients@) =~= with_new_amount(
                curv.ingredients,
                target,
                new_amount@,
            ));
            assert(newv == curv.with_lines(
                with_new_amount(curv.ingredients, target, new_amount@),
                t,
            ));
        }
        self.items.set(idx, updated);
        proof {
            assert(rview(self.items@) =~= rview(pre).update(idx as int, newv));
            replace_at(pre, idx as int, newv, self.items@);
            lemma_assoc_index(rview(self.items@), recipe_key(), idx as int);
        }
        Ok(())
    }

    fn recipes_containing_ingredient_exist(&self, ingredient: Ingredient) -> (r: Result<
        bool,
        RecipesContainingIngredientError,
    >) {
        let target = ingredient.id.as_u128();
        let mut i: usize = 0;
        while i < self.items.len()
            invariant
                self.inv(),
                target == ingredient@.id,
                i <= self.items@.len(),
                forall|j: int| 0 <= j < i ==> !recipe_uses(#[trigger] self.items@[j]@, target),
            decreases self.items@.len() - i,
        {
            if recipe_has_line(&self.items[i], target) {
                proof {
                    lemma_assoc_index(rview(self.items@), recipe_key(), i as int);
                    assert(self.recipes().contains_key(self.items@[i as int]@.id));
                }
                return Ok(true);
            }
            i = i + 1;
        }
        proof {
            if ingredient_in_use(self.recipes(), target) {
                let k = choose|k: u128| #[trigger]
                    self.recipes().contains_key(k) && recipe_uses(self.recipes()[k], target);
                lemma_assoc_contains(rview(self.items@), recipe_key(), k);
                let j = choose|j: int|
                    0 <= j < rview(self.items@).len() && recipe_key()(rview(self.items@)[j]) == k;
                lemma_assoc_index(rview(self.items@), recipe_key(), j);
                assert(!recipe_uses(self.items@[j]@, target));
            }
        }
        Ok(false)
    }
}

/// Whether some line of the recipe references the ingredient with the id.
fn recipe_has_line(r: &Recipe, ing_id: u128) -> (b: bool)
    ensures
        b == recipe_uses(r@, ing_id),
{
    let mut i: usize = 0;
    while i < r.ingredients.len()
        invariant
            i <= r.ingredients@.len(),
            forall|j: int| 0 <= j < i ==> r.ingredients@[j]@.ingredient.id != ing_id,
        decreases r.ingredients@.len() - i,
    {
        if r.ingredients[i].ingredient.id.as_u128() == ing_id {
            proof {
                assert(r@.ingredients[i as int] == r.ingredients@[i as int]@);
            }
            return true;
        }
        i = i + 1;
    }
    proof {
        assert forall|j: int| 0 <= j < r@.ingredients.len() implies (
        #[trigger] r@.ingredients[j]).ingredient.id != ing_id by {
            assert(r@.ingredients[j] == r.ingredients@[j]@);
        }
    }
    false
}

/// Replacing one element of the store inserts its view's key: the shared tail
/// of every line-mutation proof.
proof fn replace_at(pre: Seq<Recipe>, idx: int, newv: RecipeV, post: Seq<Recipe>)
    requires
        unique_keys(rview(pre), recipe_key()),
        0 <= idx < pre.len(),
        newv.id == pre[idx]@.id,
        rview(post) == rview(pre).update(idx, newv),
    ensures
        assoc_map(rview(post), recipe_key()) == assoc_map(rview(pre), recipe_key()).insert(
            newv.id,
            newv,
        ),
        unique_keys(rview(post), recipe_key()),
{
    lemma_assoc_update(rview(pre), recipe_key(), idx, newv);
    assert(assoc_map(rview(post), recipe_key()) =~= assoc_map(rview(pre), recipe_key()).insert(
        newv.id,
        newv,
    ));
    assert(unique_keys(rview(post), recipe_key())) by {
        assert forall|a: int, b: int| 0 <= a < b < rview(post).len() implies recipe_key()(
            rview(post)[a],
        ) != recipe_key()(rview(post)[b]) by {
            if a != idx && b != idx {
                assert(rview(post)[a] == rview(pre)[a]);
                assert(rview(post)[b] == rview(pre)[b]);
            } else if a == idx {
                assert(rview(post)[b] == rview(pre)[b]);
                assert(recipe_key()(rview(pre)[idx]) == newv.id);
            } else {
                assert(rview(post)[a] == rview(pre)[a]);
                assert(recipe_key()(rview(pre)[idx]) == newv.id);
            }
        }
    }
}

/// Appending a recipe whose id no stored recipe carries inserts its view's
/// key: the tail of the insert proof.
proof fn append_new(pre: Seq<Recipe>, newv: RecipeV, post: Seq<Recipe>)
    requires
        unique_keys(rview(pre), recipe_key()),
        forall|j: int| 0 <= j < pre.len() ==> #[trigger] pre[j]@.id != newv.id,
        rview(post) == rview(pre).push(newv),
    ensures
        assoc_map(rview(post), recipe_key()) == assoc_map(rview(pre), recipe_key()).insert(
            newv.id,
            newv,
        ),
        unique_keys(rview(post), recipe_key()),
{
    lemma_assoc_push(rview(pre), recipe_key(), newv);
    assert(unique_keys(rview(post), recipe_key())) by {
        assert forall|a: int, b: int| 0 <= a < b < rview(post).len() implies recipe_key()(
            rview(post)[a],
        ) != recipe_key()(rview(post)[b]) by {
            if b < pre.len() {
                assert(rview(post)[a] == rview(pre)[a]);
                assert(rview(post)[b] == rview(pre)[b]);
            } else {
                assert(rview(post)[a] == rview(pre)[a]);
            }
        }
    }
}

/// Whether two vectors of strings read the same.
fn strings_eq(a: &Vec<String>, b: &Vec<String>) -> (r: bool)
    ensures
        r == (strings_view(a@) == strings_view(b@)),
{
    if a.len() != b.len() {
        proof {
            assert(strings_view(a@).len() != strings_view(b@).len());
        }
        return false;
    }
    let mut i: usize = 0;
    while i < a.len()
        invariant
            a@.len() == b@.len(),
            i <= a@.len(),
            forall|j: int| 0 <= j < i ==> a@[j]@ == b@[j]@,
        decreases a@.len() - i,
    {
        if !crate::text::str_eq(a[i].as_str(), b[i].as_str()) {
            proof {
                assert(strings_view(a@)[i as int] != strings_view(b@)[i as int]);
            }
            return false;
        }
        i = i + 1;
    }
    proof {
        assert(strings_view(a@) =~= strings_view(b@));
    }
    true
}

/// Whether two vectors of time entries read the same.
fn time_eq(a: &Vec<TimeEntry>, b: &Vec<TimeEntry>) -> (r: bool)
    ensures
        r == (time_view(a@) == time_view(b@)),
{
    if a.len() != b.len() {
        proof {
            assert(time_view(a@).len() != time_view(b@).len());
        }
        return false;
    }
    let mut i: usize = 0;
    while i < a.len()
        invariant
            a@.len() == b@.len(),
            i <= a@.len(),
            forall|j: int| 0 <= j < i ==> a@[j]@ == b@[j]@,
        decreases a@.len() - i,
    {
        if !(crate::text::str_eq(a[i].phase.as_str(), b[i].phase.as_str()) && a[i].seconds
            == b[i].seconds) {
            proof {
                assert(time_view(a@)[i as int] != time_view(b@)[i as int]);
            }
            return false;
        }
        i = i + 1;
    }
    proof {
        assert(time_view(a@) =~= time_view(b@));
    }
    true
}

} // verus!
