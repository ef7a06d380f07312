use deepdish::amount::Amount;
use deepdish::commands::recipes::{
    add_ingredient_to_recipe, create_recipe, delete_ingredient_from_recipe, delete_recipe,
    update_ingredient_in_recipe, update_recipe, CreateRecipe, DeleteRecipeError,
    UpdateRecipeError,
};
use deepdish::entities::ingredient::{Ingredient, IngredientDescription, IngredientName, WhichDiets};
use deepdish::entities::recipe::{
    IngredientUnit, IngredientWithAmount, RecipeChangeset, ServingsType, TimeEntry,
};
use deepdish::ids::Uuid;
use deepdish::queries::recipes::{get_all_recipes, get_recipe_by_id, GetRecipeError};
use deepdish::repositories::recipes::InMemoryRecipeRepository;
use deepdish::services::message::{MessageService, StubMessageService};

fn ingredient(id: u128, name: &str) -> Ingredient {
    Ingredient {
        id: Uuid::from_u128(id),
        name: IngredientName::new(name).unwrap(),
        description: IngredientDescription::new("Some description").unwrap(),
        diet_violations: WhichDiets::new(),
    }
}

fn grams(v: f64) -> IngredientUnit {
    IngredientUnit::Grams { amount: Amount::from_bits(v.to_bits()) }
}

fn line(ing: &Ingredient, amount: IngredientUnit, notes: Option<&str>, optional: bool) -> IngredientWithAmount {
    IngredientWithAmount {
        ingredient: ing.clone(),
        amount,
        notes: notes.map(|n| n.to_string()),
        optional,
    }
}

fn sample_input() -> CreateRecipe {
    let flour = ingredient(1, "Flour");
    let water = ingredient(2, "Water");
    CreateRecipe {
        name: "Bread".to_string(),
        description: "A loaf".to_string(),
        steps: vec!["Mix".to_string(), "Bake".to_string()],
        ingredients: vec![
            line(&flour, grams(500.0), Some("sifted"), false),
            line(&water, IngredientUnit::Mililiters { amount: Amount::from_bits(300.0f64.to_bits()) }, None, true),
        ],
        time: vec![TimeEntry { phase: "prep".to_string(), seconds: 600 }],
        servings: ServingsType::FromTo { from: 2, to: 4 },
    }
}

fn empty_changeset() -> RecipeChangeset {
    RecipeChangeset { name: None, description: None, steps: None, time: None, servings: None }
}

#[test]
fn recipe_round_trip_keeps_ingredient_lines() {
    let mut repo = InMemoryRecipeRepository::new();
    let input = sample_input();
    let expected_lines = vec![
        line(&ingredient(1, "Flour"), grams(500.0), Some("sifted"), false),
        line(
            &ingredient(2, "Water"),
            IngredientUnit::Mililiters { amount: Amount::from_bits(300.0f64.to_bits()) },
            None,
            true,
        ),
    ];

    let id = create_recipe(&mut repo, input).unwrap();
    let stored = get_recipe_by_id(&repo, &id).unwrap();

    assert_eq!(stored.id, id);
    assert_eq!(stored.name, "Bread");
    assert_eq!(stored.description, "A loaf");
    assert_eq!(stored.steps, vec!["Mix".to_string(), "Bake".to_string()]);
    assert_eq!(stored.ingredients, expected_lines);
    assert_eq!(stored.servings, ServingsType::FromTo { from: 2, to: 4 });
    assert_eq!(stored.created_at, stored.updated_at);
}

#[test]
fn update_with_one_changed_field_bumps_timestamp() {
    let mut repo = InMemoryRecipeRepository::new();
    let id = create_recipe(&mut repo, sample_input()).unwrap();
    let before = get_recipe_by_id(&repo, &id).unwrap();

    let changeset = RecipeChangeset {
        name: Some("Sourdough".to_string()),
        ..empty_changeset()
    };
    update_recipe(&mut repo, &id, changeset).unwrap();

    let after = get_recipe_by_id(&repo, &id).unwrap();
    assert_eq!(after.name, "Sourdough");
    assert_eq!(after.description, before.description);
    assert_eq!(after.steps, before.steps);
    assert_eq!(after.ingredients, before.ingredients);
    assert_eq!(after.time, before.time);
    assert_eq!(after.servings, before.servings);
    assert_eq!(after.created_at, before.created_at);
    assert!(after.updated_at > before.updated_at);
}

#[test]
fn update_with_identical_values_does_not_bump_timestamp() {
    let mut repo = InMemoryRecipeRepository::new();
    let id = create_recipe(&mut repo, sample_input()).unwrap();
    let before = get_recipe_by_id(&repo, &id).unwrap();

    let changeset = RecipeChangeset {
        name: Some("Bread".to_string()),
        description: Some("A loaf".to_string()),
        steps: Some(vec!["Mix".to_string(), "Bake".to_string()]),
        time: Some(vec![TimeEntry { phase: "prep".to_string(), seconds: 600 }]),
        servings: Some(ServingsType::FromTo { from: 2, to: 4 }),
    };
    update_recipe(&mut repo, &id, changeset).unwrap();

    let after = get_recipe_by_id(&repo, &id).unwrap();
    assert_eq!(after, before);
}

#[test]
fn update_of_unknown_recipe_errors() {
    let mut repo = InMemoryRecipeRepository::new();
    let id = Uuid::from_u128(99);
    let error = update_recipe(&mut repo, &id, empty_changeset()).unwrap_err();
    assert!(matches!(error, UpdateRecipeError::NotFound(i) if i == id));
}

#[test]
fn delete_recipe_removes_it() {
    let mut repo = InMemoryRecipeRepository::new();
    let id = create_recipe(&mut repo, sample_input()).unwrap();

    delete_recipe(&mut repo, &id).unwrap();

    let error = get_recipe_by_id(&repo, &id).unwrap_err();
    assert!(matches!(error, GetRecipeError::NotFound(i) if i == id));
}

#[test]
fn delete_of_unknown_recipe_errors() {
    let mut repo = InMemoryRecipeRepository::new();
    let id = Uuid::from_u128(5);
    let error = delete_recipe(&mut repo, &id).unwrap_err();
    assert!(matches!(error, DeleteRecipeError::NotFound(i) if i == id));
}

#[test]
fn add_ingredient_appends_line_and_bumps_timestamp() {
    let mut repo = InMemoryRecipeRepository::new();
    let id = create_recipe(&mut repo, sample_input()).unwrap();
    let before = get_recipe_by_id(&repo, &id).unwrap();

    let salt = ingredient(3, "Salt");
    let new_line = line(&salt, grams(10.0), None, false);
    add_ingredient_to_recipe(&mut repo, &id, new_line.clone()).unwrap();

    let after = get_recipe_by_id(&repo, &id).unwrap();
    assert_eq!(after.ingredients.len(), before.ingredients.len() + 1);
    assert_eq!(after.ingredients.last().unwrap(), &new_line);
    assert!(after.updated_at > before.updated_at);
}

#[test]
fn delete_ingredient_removes_matching_lines() {
    let mut repo = InMemoryRecipeRepository::new();
    let id = create_recipe(&mut repo, sample_input()).unwrap();
    let before = get_recipe_by_id(&repo, &id).unwrap();

    let flour_line = before.ingredients[0].clone();
    delete_ingredient_from_recipe(&mut repo, &id, &flour_line).unwrap();

    let after = get_recipe_by_id(&repo, &id).unwrap();
    assert_eq!(after.ingredients.len(), 1);
    assert_eq!(after.ingredients[0].ingredient.id, Uuid::from_u128(2));
    assert!(after.updated_at > before.updated_at);
}

#[test]
fn update_ingredient_amount_replaces_the_amount() {
    let mut repo = InMemoryRecipeRepository::new();
    let id = create_recipe(&mut repo, sample_input()).unwrap();
    let before = get_recipe_by_id(&repo, &id).unwrap();

    let flour_line = before.ingredients[0].clone();
    let new_amount = grams(750.0);
    update_ingredient_in_recipe(&mut repo, &id, &flour_line, &new_amount).unwrap();

    let after = get_recipe_by_id(&repo, &id).unwrap();
    assert_eq!(after.ingredients[0].amount, new_amount);
    assert_eq!(after.ingredients[1].amount, before.ingredients[1].amount);
    assert!(after.updated_at > before.updated_at);
}

#[test]
fn get_all_returns_every_recipe_once() {
    let mut repo = InMemoryRecipeRepository::new();
    let id1 = create_recipe(&mut repo, sample_input()).unwrap();
    let mut second = sample_input();
    second.name = "Rolls".to_string();
    let id2 = create_recipe(&mut repo, second).unwrap();

    let all = get_all_recipes(&repo).unwrap();
    assert_eq!(all.len(), 2);
    assert!(all.iter().any(|r| r.id == id1 && r.name == "Bread"));
    assert!(all.iter().any(|r| r.id == id2 && r.name == "Rolls"));
}

#[test]
fn stub_message_service_accepts_every_event() {
    let ms = StubMessageService;
    let a = ingredient(1, "A");
    let b = ingredient(2, "B");
    assert!(ms.ingredient_added(&a).is_ok());
    assert!(ms.ingredient_deleted(&a).is_ok());
    assert!(ms.ingredient_updated(&a, &b).is_ok());
}
