use deepdish::commands::ingredients::{
    create_ingredient, CreateIngredient, CreateIngredientError,
};
use deepdish::entities::ingredient::{DietViolations, Ingredient, IngredientDescription, IngredientName, WhichDiets};
use deepdish::ids::Uuid;
use deepdish::queries::ingredients::get_all_ingredients;
use deepdish::repositories::ingredients::{IngredientRepository, InMemoryIngredientRepository};
use deepdish::services::message::StubMessageService;

#[test]
fn creates_an_ingredient() {
    let given = CreateIngredient {
        name: "Tomato".to_string(),
        description: "Description of a tomato".to_string(),
        diet_violations: vec!["Vegan".to_string()],
    };

    let mut repo = InMemoryIngredientRepository::new();
    let ms = StubMessageService;

    let when = create_ingredient(&mut repo, &ms, &given).unwrap();

    assert_eq!(when.name.as_str(), "Tomato");
    assert_eq!(when.description.as_str(), "Description of a tomato");
    assert!(when.diet_violations.contains(&DietViolations::Vegan));
}

#[test]
fn incorrect_diets_do_not_get_included() {
    let given = CreateIngredient {
        name: "Tomato".to_string(),
        description: "Description of a tomato".to_string(),
        diet_violations: vec!["Vegan".to_string(), "INVALID DIET".to_string()],
    };

    let mut repo = InMemoryIngredientRepository::new();
    let ms = StubMessageService;

    let when = create_ingredient(&mut repo, &ms, &given).unwrap();

    assert!(when.diet_violations.contains(&DietViolations::Vegan));
    assert_eq!(when.diet_violations.len(), 1);
}

#[test]
fn empty_name_fails() {
    let given = CreateIngredient {
        name: "".to_string(),
        description: "Description of a tomato".to_string(),
        diet_violations: vec![],
    };

    let mut repo = InMemoryIngredientRepository::new();
    let ms = StubMessageService;

    let when = create_ingredient(&mut repo, &ms, &given).unwrap_err();

    assert!(matches!(when, CreateIngredientError::EmptyField("name")));
}

#[test]
fn empty_description_fails() {
    let given = CreateIngredient {
        name: "Tomato".to_string(),
        description: "".to_string(),
        diet_violations: vec![],
    };

    let mut repo = InMemoryIngredientRepository::new();
    let ms = StubMessageService;

    let when = create_ingredient(&mut repo, &ms, &given).unwrap_err();

    assert!(matches!(when, CreateIngredientError::EmptyField("description")));
}

#[test]
fn incorrect_ingredient_is_not_persisted() {
    let given = CreateIngredient {
        name: "".to_string(),
        description: "Description of a tomato".to_string(),
        diet_violations: vec![],
    };

    let mut repo = InMemoryIngredientRepository::new();
    let ms = StubMessageService;

    let when = create_ingredient(&mut repo, &ms, &given).unwrap_err();

    assert!(matches!(when, CreateIngredientError::EmptyField(_)));

    assert!(!get_all_ingredients(&repo)
        .unwrap()
        .into_iter()
        .any(|x| x.name.as_str() == given.name.as_str()));
}

#[test]
fn inserting_an_ingredient_with_a_name_that_already_exists_fails() {
    let given = Ingredient {
        id: Uuid::from_u128(1),
        name: IngredientName::new("Ingredient name").unwrap(),
        description: IngredientDescription::new("Ingredient description").unwrap(),
        diet_violations: WhichDiets::new(),
    };
    let mut repo = InMemoryIngredientRepository::new();
    let ms = StubMessageService;

    repo.insert(given.clone()).unwrap();

    let result = create_ingredient(
        &mut repo,
        &ms,
        &CreateIngredient {
            name: given.name.as_str().to_string(),
            description: "This is a different description".to_string(),
            diet_violations: vec![],
        },
    )
    .unwrap_err();

    assert!(matches!(
        result,
        CreateIngredientError::Conflict(fieldname) if fieldname == "name"
    ))
}

#[test]
fn duplicate_name_fails_in_either_insertion_order() {
    // Whichever of two same-named ingredients arrives first wins; the other
    // always gets the conflict.
    for flip in [false, true] {
        let mut repo = InMemoryIngredientRepository::new();
        let ms = StubMessageService;
        let mut inputs = vec![
            CreateIngredient {
                name: "Salt".to_string(),
                description: "First description".to_string(),
                diet_violations: vec![],
            },
            CreateIngredient {
                name: "Salt".to_string(),
                description: "Second description".to_string(),
                diet_violations: vec![],
            },
        ];
        if flip {
            inputs.reverse();
        }
        let first = create_ingredient(&mut repo, &ms, &inputs[0]);
        let second = create_ingredient(&mut repo, &ms, &inputs[1]);
        assert!(first.is_ok());
        assert!(matches!(
            second.unwrap_err(),
            CreateIngredientError::Conflict(field) if field == "name"
        ));
    }
}
