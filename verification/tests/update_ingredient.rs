use deepdish::commands::ingredients::{
    create_ingredient, update_ingredient, CreateIngredient, UpdateIngredientError,
};
use deepdish::entities::ingredient::DietViolations;
use deepdish::ids::Uuid;
use deepdish::queries::ingredients::get_ingredient_by_id;
use deepdish::repositories::ingredients::InMemoryIngredientRepository;
use deepdish::services::message::StubMessageService;

fn tomato() -> CreateIngredient {
    CreateIngredient {
        name: "Tomato".to_string(),
        description: "Description of a tomato".to_string(),
        diet_violations: vec![],
    }
}

#[test]
fn updating_replaces_the_stored_fields() {
    let mut repo = InMemoryIngredientRepository::new();
    let ms = StubMessageService;
    let created = create_ingredient(&mut repo, &ms, &tomato()).unwrap();

    let replacement = CreateIngredient {
        name: "Roma tomato".to_string(),
        description: "A plum tomato".to_string(),
        diet_violations: vec!["vegan".to_string()],
    };
    let updated = update_ingredient(&mut repo, &ms, &created.id, &replacement).unwrap();

    assert_eq!(updated.id, created.id);
    assert_eq!(updated.name.as_str(), "Roma tomato");
    assert_eq!(updated.description.as_str(), "A plum tomato");
    assert!(updated.diet_violations.contains(&DietViolations::Vegan));

    let stored = get_ingredient_by_id(&repo, &created.id).unwrap();
    assert_eq!(stored.name.as_str(), "Roma tomato");
}

#[test]
fn updating_a_nonexistent_ingredient_errors() {
    let mut repo = InMemoryIngredientRepository::new();
    let ms = StubMessageService;
    let id = Uuid::from_u128(123);

    let error = update_ingredient(&mut repo, &ms, &id, &tomato()).unwrap_err();

    assert!(matches!(error, UpdateIngredientError::NotFound(i) if i == id));
}

#[test]
fn updating_to_an_empty_name_fails() {
    let mut repo = InMemoryIngredientRepository::new();
    let ms = StubMessageService;
    let created = create_ingredient(&mut repo, &ms, &tomato()).unwrap();

    let replacement = CreateIngredient {
        name: "".to_string(),
        description: "Still a tomato".to_string(),
        diet_violations: vec![],
    };
    let error = update_ingredient(&mut repo, &ms, &created.id, &replacement).unwrap_err();

    assert!(matches!(error, UpdateIngredientError::EmptyField("name")));

    // The refused update left the stored value alone.
    let stored = get_ingredient_by_id(&repo, &created.id).unwrap();
    assert_eq!(stored.name.as_str(), "Tomato");
}

#[test]
fn updating_to_a_name_of_another_ingredient_conflicts() {
    let mut repo = InMemoryIngredientRepository::new();
    let ms = StubMessageService;
    let first = create_ingredient(&mut repo, &ms, &tomato()).unwrap();
    let other = CreateIngredient {
        name: "Basil".to_string(),
        description: "A herb".to_string(),
        diet_violations: vec![],
    };
    create_ingredient(&mut repo, &ms, &other).unwrap();

    let replacement = CreateIngredient {
        name: "Basil".to_string(),
        description: "Trying to steal a name".to_string(),
        diet_violations: vec![],
    };
    let error = update_ingredient(&mut repo, &ms, &first.id, &replacement).unwrap_err();

    assert!(matches!(error, UpdateIngredientError::Conflict(field) if field == "name"));
}

#[test]
fn updating_without_renaming_keeps_the_name_free_of_conflict() {
    let mut repo = InMemoryIngredientRepository::new();
    let ms = StubMessageService;
    let created = create_ingredient(&mut repo, &ms, &tomato()).unwrap();

    // The same name under the same id is no conflict with itself.
    let replacement = CreateIngredient {
        name: "Tomato".to_string(),
        description: "A rounder description".to_string(),
        diet_violations: vec![],
    };
    let updated = update_ingredient(&mut repo, &ms, &created.id, &replacement).unwrap();
    assert_eq!(updated.description.as_str(), "A rounder description");
}
