use deepdish::amount::Amount;
use deepdish::configuration::Environment;
use deepdish::entities::ingredient::DietViolations;
use deepdish::entities::ingredient::WhichDiets;
use deepdish::entities::recipe::IngredientUnit;
use deepdish::jsonval::{find_field, JsonMember, JsonValue};
use deepdish::middleware::OtelAxumLayer;
use deepdish::modules::recipes::{sort_steps, Step};

fn amount(v: f64) -> Amount {
    Amount::from_bits(v.to_bits())
}

#[test]
fn every_unit_survives_the_json_round_trip() {
    let units = vec![
        IngredientUnit::Mililiters { amount: amount(250.0) },
        IngredientUnit::Grams { amount: amount(20.5) },
        IngredientUnit::Teaspoons { amount: amount(1.5) },
        IngredientUnit::Cup { amount: amount(0.75) },
        IngredientUnit::Other { amount: amount(10.0), unit: "cloves".to_string() },
    ];
    for unit in units {
        let encoded = unit.to_json();
        let decoded = IngredientUnit::from_json(&encoded).unwrap();
        assert_eq!(decoded, unit);
    }
}

#[test]
fn unknown_unit_tag_is_rejected() {
    let value = JsonValue::Obj(vec![
        JsonMember { key: "tag".to_string(), value: JsonValue::Str("barrels".to_string()) },
        JsonMember { key: "amount".to_string(), value: JsonValue::Num(amount(3.0)) },
    ]);
    assert!(IngredientUnit::from_json(&value).is_none());
}

#[test]
fn missing_amount_field_is_rejected() {
    let value = JsonValue::Obj(vec![JsonMember {
        key: "tag".to_string(),
        value: JsonValue::Str("grams".to_string()),
    }]);
    assert!(IngredientUnit::from_json(&value).is_none());
}

#[test]
fn non_object_amount_is_rejected() {
    assert!(IngredientUnit::from_json(&JsonValue::Null).is_none());
    assert!(IngredientUnit::from_json(&JsonValue::Bool(true)).is_none());
    assert!(IngredientUnit::from_json(&JsonValue::Num(amount(1.0))).is_none());
    assert!(IngredientUnit::from_json(&JsonValue::Arr(vec![])).is_none());
}

#[test]
fn find_field_returns_first_match() {
    let fields = vec![
        JsonMember { key: "a".to_string(), value: JsonValue::Num(amount(1.0)) },
        JsonMember { key: "a".to_string(), value: JsonValue::Num(amount(2.0)) },
    ];
    match find_field(&fields, "a") {
        Some(JsonValue::Num(a)) => assert_eq!(a.to_bits(), 1.0f64.to_bits()),
        _ => panic!("expected the first member"),
    }
    assert!(find_field(&fields, "b").is_none());
}

#[test]
fn diet_tags_match_case_insensitively() {
    assert_eq!(DietViolations::from_tag("vegan"), Some(DietViolations::Vegan));
    assert_eq!(DietViolations::from_tag("VeGaN"), Some(DietViolations::Vegan));
    assert_eq!(DietViolations::from_tag("vegetarian"), Some(DietViolations::Vegetarian));
    assert_eq!(DietViolations::from_tag("GLUTEN_FREE"), Some(DietViolations::GlutenFree));
    assert_eq!(DietViolations::from_tag("carnivore"), None);
    assert_eq!(DietViolations::from_tag(""), None);
}

#[test]
fn diet_tags_round_trip_through_their_canonical_form() {
    for d in [DietViolations::Vegan, DietViolations::Vegetarian, DietViolations::GlutenFree] {
        assert_eq!(DietViolations::from_tag(d.as_tag()), Some(d));
    }
}

#[test]
fn which_diets_keeps_known_tags_in_order() {
    let tags = vec![
        "gluten_free".to_string(),
        "nonsense".to_string(),
        "Vegan".to_string(),
        "".to_string(),
    ];
    let diets = WhichDiets::from_strings(&tags);
    assert_eq!(diets.0, vec![DietViolations::GlutenFree, DietViolations::Vegan]);
}

#[test]
fn environment_parses_dev_and_prod() {
    assert_eq!(Environment::parse("dev").unwrap(), Environment::Development);
    assert_eq!(Environment::parse("DEV").unwrap(), Environment::Development);
    assert_eq!(Environment::parse("prod").unwrap(), Environment::Production);
    assert_eq!(Environment::parse("Prod").unwrap(), Environment::Production);
}

#[test]
fn environment_rejects_anything_else() {
    let err = Environment::parse("staging").unwrap_err();
    assert_eq!(err, "staging is not a valid environment\nUse either `dev` or `prod`.");
}

#[test]
fn environment_names_its_config_profile() {
    assert_eq!(Environment::Development.as_config_str(), "dev");
    assert_eq!(Environment::Production.as_config_str(), "prod");
}

#[test]
fn sorting_steps_orders_them_by_index() {
    let steps = vec![
        Step { index: 3, instructions: "Serve".to_string() },
        Step { index: 1, instructions: "Chop".to_string() },
        Step { index: 2, instructions: "Cook".to_string() },
    ];
    let sorted = sort_steps(steps);
    let texts: Vec<&str> = sorted.iter().map(|s| s.instructions.as_str()).collect();
    assert_eq!(texts, vec!["Chop", "Cook", "Serve"]);
    assert_eq!(sorted.iter().map(|s| s.index).collect::<Vec<i32>>(), vec![1, 2, 3]);
}

#[test]
fn sorting_steps_keeps_every_step() {
    let steps = vec![
        Step { index: 2, instructions: "B".to_string() },
        Step { index: 2, instructions: "A".to_string() },
        Step { index: 1, instructions: "C".to_string() },
    ];
    let sorted = sort_steps(steps);
    assert_eq!(sorted.len(), 3);
    assert_eq!(sorted[0].instructions, "C");
    assert!(sorted.iter().filter(|s| s.index == 2).count() == 2);
}

#[test]
fn otel_layer_builder_keeps_the_filter() {
    let layer: OtelAxumLayer<fn(&str) -> bool> = OtelAxumLayer::default();
    assert!(layer.filter.is_none());

    fn only_api(path: &str) -> bool {
        path.starts_with("/api")
    }
    let with_filter = layer.filter(only_api as fn(&str) -> bool);
    let f = with_filter.filter.unwrap();
    assert!(f("/api/thing"));
    assert!(!f("/health"));

    let service = with_filter.layer("inner");
    assert_eq!(service.inner, "inner");
    assert!(service.filter.is_some());
}
