use deepdish::amount::Amount;
use deepdish::commands::ingredients::{delete_ingredient, DeleteIngredientError};
use deepdish::entities::ingredient::{Ingredient, IngredientDescription, IngredientName, WhichDiets};
use deepdish::entities::recipe::{IngredientUnit, IngredientWithAmount, Recipe, ServingsType};
use deepdish::ids::Uuid;
use deepdish::queries::ingredients::{get_ingredient_by_id, GetIngredientError};
use deepdish::repositories::ingredients::{IngredientRepository, InMemoryIngredientRepository};
use deepdish::repositories::recipes::{InMemoryRecipeRepository, RecipeRepository};
use deepdish::services::message::StubMessageService;

fn ingredient_fixture(id: u128, name: &str) -> Ingredient {
    Ingredient {
        id: Uuid::from_u128(id),
        name: IngredientName::new(name).unwrap(),
        description: IngredientDescription::new("Some description").unwrap(),
        diet_violations: WhichDiets::new(),
    }
}

fn recipe_fixture(id: u128, ingredient: &Ingredient) -> Recipe {
    Recipe {
        id: Uuid::from_u128(id),
        name: "Pasta".to_string(),
        description: "A pasta recipe".to_string(),
        steps: vec!["Boil water".to_string(), "Add pasta".to_string()],
        ingredients: vec![IngredientWithAmount {
            ingredient: ingredient.clone(),
            amount: IngredientUnit::Grams { amount: Amount::from_bits(500.0f64.to_bits()) },
            notes: None,
            optional: false,
        }],
        time: vec![],
        servings: ServingsType::Exact { value: 4 },
        created_at: 0,
        updated_at: 0,
    }
}

#[test]
fn deleting_works() {
    let mut repo = InMemoryIngredientRepository::new();
    let recipe_repo = InMemoryRecipeRepository::new();
    let ms = StubMessageService;
    let input = ingredient_fixture(1, "Ingredient name 1");

    let insert_result = repo.insert(input).unwrap();
    delete_ingredient(&mut repo, &recipe_repo, &ms, &insert_result.id).unwrap();
}

#[test]
fn deleting_nonexistent_ingredient_errors() {
    let mut repo = InMemoryIngredientRepository::new();
    let recipe_repo = InMemoryRecipeRepository::new();
    let ms = StubMessageService;
    let ingredient = ingredient_fixture(42, "Missing ingredient");

    let error = delete_ingredient(&mut repo, &recipe_repo, &ms, &ingredient.id).unwrap_err();

    assert!(matches!(
        error,
        DeleteIngredientError::NotFound(id) if id == ingredient.id
    ));
}

#[test]
fn deleting_an_ingredient_still_in_use_by_recipes_errors() {
    let mut repo = InMemoryIngredientRepository::new();
    let mut recipe_repo = InMemoryRecipeRepository::new();
    let ms = StubMessageService;

    let ingredient = ingredient_fixture(7, "Flour");
    repo.insert(ingredient.clone()).unwrap();
    let recipe = recipe_fixture(100, &ingredient);
    recipe_repo.insert(recipe).unwrap();

    let error = delete_ingredient(&mut repo, &recipe_repo, &ms, &ingredient.id).unwrap_err();

    assert!(matches!(error, DeleteIngredientError::InUseByRecipe));

    // The refused delete left the ingredient in place.
    assert!(get_ingredient_by_id(&repo, &ingredient.id).is_ok());
}

#[test]
fn deleted_ingredient_is_gone() {
    let mut repo = InMemoryIngredientRepository::new();
    let recipe_repo = InMemoryRecipeRepository::new();
    let ms = StubMessageService;

    let ingredient = ingredient_fixture(9, "Basil");
    repo.insert(ingredient.clone()).unwrap();

    delete_ingredient(&mut repo, &recipe_repo, &ms, &ingredient.id).unwrap();

    let error = get_ingredient_by_id(&repo, &ingredient.id).unwrap_err();
    assert!(matches!(
        error,
        GetIngredientError::NotFound(id) if id == ingredient.id
    ));
}

#[test]
fn deleting_unreferenced_ingredient_with_other_recipes_present_works() {
    let mut repo = InMemoryIngredientRepository::new();
    let mut recipe_repo = InMemoryRecipeRepository::new();
    let ms = StubMessageService;

    let referenced = ingredient_fixture(1, "Flour");
    let unreferenced = ingredient_fixture(2, "Sugar");
    repo.insert(referenced.clone()).unwrap();
    repo.insert(unreferenced.clone()).unwrap();
    recipe_repo.insert(recipe_fixture(100, &referenced)).unwrap();

    delete_ingredient(&mut repo, &recipe_repo, &ms, &unreferenced.id).unwrap();
    assert!(get_ingredient_by_id(&repo, &referenced.id).is_ok());
    assert!(get_ingredient_by_id(&repo, &unreferenced.id).is_err());
}
