//! Recipe queries.

use vstd::prelude::*;

use crate::entities::recipe::Recipe;
use crate::ids::Uuid;
use crate::repositories::recipes::{
    recipes_represent, GetAllRecipesError as RepoGetAllRecipesError, GetRecipeByIdError,
    RecipeRepository,
};

verus! {

/// Why reading one recipe failed: the id is unknown, or the store failed.
#[derive(Debug)]
pub enum GetRecipeError {
    NotFound(Uuid),
    Unknown,
}

/// Reads the recipe stored under `id`, with all its ingredient lines;
/// `NotFound(id)` exactly when there is none and the store itself did not
/// fail.
pub fn get_recipe_by_id<R: RecipeRepository>(repo: &R, id: &Uuid) -> (r: Result<
    Recipe,
    GetRecipeError,
>)
    requires
        repo.inv(),
    ensures
        match r {
            Ok(rec) => repo.recipes().contains_key(id.bits) && rec@ == repo.recipes()[id.bits],
            Err(GetRecipeError::NotFound(i)) => i == *id && !repo.recipes().contains_key(id.bits),
            Err(GetRecipeError::Unknown) => true,
        },
        repo.reliable() ==> !(r matches Err(GetRecipeError::Unknown)),
{
    match repo.get_by_id(id) {
        Ok(rec) => Ok(rec),
        Err(GetRecipeByIdError::NotFound(i)) => Err(GetRecipeError::NotFound(i)),
        Err(GetRecipeByIdError::Unknown) => Err(GetRecipeError::Unknown),
    }
}

/// Why reading all recipes failed: only a storage failure can.
#[derive(Debug)]
pub enum GetAllRecipesError {
    Unknown,
}

/// Reads all stored recipes, each assembled with all its ingredient lines.
pub fn get_all_recipes<R: RecipeRepository>(repo: &R) -> (r: Result<
    Vec<Recipe>,
    GetAllRecipesError,
>)
    requires
        repo.inv(),
    ensures
        match r {
            Ok(v) => recipes_represent(v@, repo.recipes()),
            Err(GetAllRecipesError::Unknown) => true,
        },
        repo.reliable() ==> r is Ok,
{
    match repo.get_all() {
        Ok(v) => Ok(v),
        Err(RepoGetAllRecipesError::Unknown) => Err(GetAllRecipesError::Unknown),
    }
}

} // verus!
