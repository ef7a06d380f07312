use deepdish::amount::Amount;
use deepdish::entities::ingredient::{
    Ingredient, IngredientDescription, IngredientModel, IngredientName, ValidationError,
    WhichDiets,
};
use deepdish::entities::recipe::{IngredientUnit, IngredientWithAmount, IngredientWithAmountModel};
use deepdish::ids::Uuid;
use deepdish::jsonval::{JsonMember, JsonValue};

fn obj(fields: Vec<(&str, JsonValue)>) -> JsonValue {
    JsonValue::Obj(
        fields
            .into_iter()
            .map(|(k, v)| JsonMember { key: k.to_string(), value: v })
            .collect(),
    )
}

fn num(v: f64) -> JsonValue {
    JsonValue::Num(Amount::from_bits(v.to_bits()))
}

fn ingredient_model() -> IngredientModel {
    IngredientModel {
        id: Uuid::nil(),
        name: "Ingredient name".to_owned(),
        description: "Ingredient description".to_owned(),
        diet_violations: vec![],
    }
}

fn expected_ingredient() -> Ingredient {
    Ingredient {
        id: Uuid::nil(),
        name: IngredientName("Ingredient name".to_owned()),
        description: IngredientDescription("Ingredient description".to_owned()),
        diet_violations: WhichDiets::new(),
    }
}

#[test]
fn converting_ingredient_with_amount_works() {
    let input = IngredientWithAmountModel {
        recipe_id: Uuid::nil(),
        ingredient: ingredient_model(),
        amount: obj(vec![("tag", JsonValue::Str("grams".to_owned())), ("amount", num(20.0))]),
        notes: None,
        optional: false,
    };

    let expected = IngredientWithAmount {
        ingredient: expected_ingredient(),
        amount: IngredientUnit::Grams { amount: Amount::from_bits(20.0f64.to_bits()) },
        notes: None,
        optional: false,
    };

    let result = IngredientWithAmount::from_model(&input).unwrap();

    assert_eq!(result, expected);
}

#[test]
fn converting_ingredient_with_custom_amount_unit_works() {
    let input = IngredientWithAmountModel {
        recipe_id: Uuid::nil(),
        ingredient: ingredient_model(),
        amount: obj(vec![
            ("tag", JsonValue::Str("other".to_owned())),
            ("amount", num(10.0)),
            ("unit", JsonValue::Str("cloves".to_owned())),
        ]),
        notes: None,
        optional: false,
    };

    let expected = IngredientWithAmount {
        ingredient: expected_ingredient(),
        amount: IngredientUnit::Other {
            unit: "cloves".to_owned(),
            amount: Amount::from_bits(10.0f64.to_bits()),
        },
        notes: None,
        optional: false,
    };

    let result = IngredientWithAmount::from_model(&input).unwrap();

    assert_eq!(result, expected);
}

#[test]
fn converting_ingredient_with_custom_amount_unit_but_without_unit_descriptor_fails() {
    let input = IngredientWithAmountModel {
        recipe_id: Uuid::nil(),
        ingredient: ingredient_model(),
        amount: obj(vec![("tag", JsonValue::Str("other".to_owned())), ("amount", num(10.0))]),
        notes: None,
        optional: false,
    };

    let result = IngredientWithAmount::from_model(&input).unwrap_err();

    assert!(matches!(result, ValidationError::DeserializationFailed("amount")))
}

#[test]
fn malformed_ingredient_amount_fails() {
    let input = IngredientWithAmountModel {
        recipe_id: Uuid::nil(),
        ingredient: ingredient_model(),
        amount: JsonValue::Str("10 grams".to_owned()),
        notes: None,
        optional: false,
    };

    let result = IngredientWithAmount::from_model(&input).unwrap_err();

    assert!(matches!(result, ValidationError::DeserializationFailed("amount")))
}

#[test]
fn converting_model_with_empty_name_fails() {
    let input = IngredientWithAmountModel {
        recipe_id: Uuid::nil(),
        ingredient: IngredientModel {
            id: Uuid::nil(),
            name: "".to_owned(),
            description: "Ingredient description".to_owned(),
            diet_violations: vec![],
        },
        amount: obj(vec![("tag", JsonValue::Str("cup".to_owned())), ("amount", num(1.0))]),
        notes: None,
        optional: false,
    };

    let result = IngredientWithAmount::from_model(&input).unwrap_err();

    assert!(matches!(result, ValidationError::EmptyField("name")))
}

#[test]
fn ingredient_from_model_maps_known_diets_and_drops_unknown() {
    let model = IngredientModel {
        id: Uuid::from_u128(3),
        name: "Cheese".to_owned(),
        description: "A cheese".to_owned(),
        diet_violations: vec![
            "vegan".to_owned(),
            "I_AM_INCORRECT".to_owned(),
            "GLUTEN_FREE".to_owned(),
        ],
    };

    let result = Ingredient::from_model(&model).unwrap();

    assert_eq!(result.diet_violations.len(), 2);
    assert!(result
        .diet_violations
        .contains(&deepdish::entities::ingredient::DietViolations::Vegan));
    assert!(result
        .diet_violations
        .contains(&deepdish::entities::ingredient::DietViolations::GlutenFree));
}

#[test]
fn ingredient_model_with_empty_description_fails() {
    let model = IngredientModel {
        id: Uuid::from_u128(3),
        name: "Cheese".to_owned(),
        description: "".to_owned(),
        diet_violations: vec![],
    };

    let result = Ingredient::from_model(&model).unwrap_err();

    assert!(matches!(result, ValidationError::EmptyField("description")));
}
