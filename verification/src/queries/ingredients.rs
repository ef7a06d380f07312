//! Ingredient queries.

use vstd::prelude::*;

use crate::entities::ingredient::Ingredient;
use crate::ids::Uuid;
use crate::repositories::ingredients::{
    ingredients_represent, GetAllIngredientsError as RepoGetAllIngredientsError,
    GetIngredientByIdError, IngredientRepository,
};

verus! {

/// Why reading one ingredient failed: the id is unknown, or the store failed.
#[derive(Debug)]
pub enum GetIngredientError {
    NotFound(Uuid),
    Unknown,
}

/// Reads the ingredient stored under `id`; `NotFound(id)` exactly when there
/// is none and the store itself did not fail.
pub fn get_ingredient_by_id<R: IngredientRepository>(repo: &R, id: &Uuid) -> (r: Result<
    Ingredient,
    GetIngredientError,
>)
    requires
        repo.inv(),
    ensures
        match r {
            Ok(ing) => repo.ings().contains_key(id.bits) && ing@ == repo.ings()[id.bits],
            Err(GetIngredientError::NotFound(i)) => i == *id && !repo.ings().contains_key(id.bits),
            Err(GetIngredientError::Unknown) => true,
        },
        R::reliable() ==> !(r matches Err(GetIngredientError::Unknown)),
{
    match repo.get_by_id(id) {
        Ok(ing) => Ok(ing),
        Err(GetIngredientByIdError::NotFound(i)) => Err(GetIngredientError::NotFound(i)),
        Err(GetIngredientByIdError::Unknown) => Err(GetIngredientError::Unknown),
    }
}

/// Why reading all ingredients failed: only a storage failure can.
#[derive(Debug)]
pub enum GetAllIngredientsError {
    Unknown,
}

/// Reads all stored ingredients.
pub fn get_all_ingredients<R: IngredientRepository>(repo: &R) -> (r: Result<
    Vec<Ingredient>,
    GetAllIngredientsError,
>)
    requires
        repo.inv(),
    ensures
        match r {
            Ok(v) => ingredients_represent(v@, repo.ings()),
            Err(GetAllIngredientsError::Unknown) => true,
        },
        R::reliable() ==> r is Ok,
{
    match repo.get_all() {
        Ok(v) => Ok(v),
        Err(RepoGetAllIngredientsError::Unknown) => Err(GetAllIngredientsError::Unknown),
    }
}

} // verus!
