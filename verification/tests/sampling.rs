use api_model::config::{Config, Type};
use api_model::error::Error;
use api_model::model::{DataStructure, Int64FloatOrUsize, PropertyType};
use api_model::sample::{
    data_structure_to_json_with_value, data_structure_to_minimum_json_with_value,
    data_structure_to_random_json_with_value, include_property, sentinel_of, synthesize,
    SampleMode,
};
use api_model::template::{
    json_minimum_value, json_typing, json_value, json_value_random, Argument,
};
use api_model::typing::data_structure_to_json;
use serde_json::Value;

fn leaf(name: &str, kind: PropertyType, format: Option<&str>, required: bool) -> DataStructure {
    let mut node = DataStructure::new(name.to_string(), None, kind);
    node.format = format.map(|f| f.to_string());
    node.required = required;
    node
}

fn pet() -> DataStructure {
    let mut pet = DataStructure::new("Pet".to_string(), None, PropertyType::Object);
    pet.properties = vec![
        leaf("id", PropertyType::Integer, Some("Int64"), true),
        leaf("name", PropertyType::String, None, true),
        leaf("tag", PropertyType::String, None, false),
    ];
    pet.required_properties = vec!["id".to_string(), "name".to_string()];
    pet
}

fn text(s: &str) -> Value {
    Value::String(s.to_string())
}

fn config() -> Config {
    let mut config = Config::new("List<{type}>".to_string());
    let mut integer = Type::new("number".to_string());
    integer.set_format("Int64".to_string(), "long".to_string());
    config.set_type("Integer".to_string(), integer);
    config.set_type("String".to_string(), Type::new("text".to_string()));
    config
}

#[test]
fn minimal_sample_of_pet_holds_the_required_fields_only() {
    let value = synthesize(&pet(), SampleMode::Minimal);
    let mut expected = serde_json::Map::new();
    expected.insert("id".to_string(), text("@Number|-9223372036854775808~9223372036854775807"));
    expected.insert("name".to_string(), text("@Sentence"));
    assert_eq!(value, Value::Object(expected));
    assert!(value.get("tag").is_none());
}

#[test]
fn full_sample_of_pet_holds_every_field() {
    let value = synthesize(&pet(), SampleMode::Full);
    let mut expected = serde_json::Map::new();
    expected.insert("id".to_string(), text("@Number|-9223372036854775808~9223372036854775807"));
    expected.insert("name".to_string(), text("@Sentence"));
    expected.insert("tag".to_string(), text("@Sentence"));
    assert_eq!(value, Value::Object(expected));
}

#[test]
fn named_samplers_agree_with_the_modes() {
    let config = config();
    assert_eq!(data_structure_to_json_with_value(&pet(), &config), synthesize(&pet(), SampleMode::Full));
    assert_eq!(
        data_structure_to_minimum_json_with_value(&pet(), &config),
        synthesize(&pet(), SampleMode::Minimal)
    );
}

#[test]
fn root_is_sampled_whatever_its_flag() {
    let mut root = pet();
    root.required = false;
    assert!(synthesize(&root, SampleMode::Minimal).is_object());
}

#[test]
fn array_always_holds_its_one_item() {
    let mut array = DataStructure::new("pets".to_string(), None, PropertyType::Array);
    array.properties = vec![pet()];
    let value = synthesize(&array, SampleMode::Minimal);
    assert_eq!(value, Value::Array(vec![synthesize(&pet(), SampleMode::Minimal)]));
    let empty = DataStructure::new("none".to_string(), None, PropertyType::Array);
    assert_eq!(synthesize(&empty, SampleMode::Full), Value::Array(vec![]));
}

#[test]
fn minimal_mode_goes_into_included_fields_only() {
    let mut inner = pet();
    inner.name = "pet".to_string();
    inner.required = true;
    let mut skipped = pet();
    skipped.name = "spare".to_string();
    skipped.required = false;
    let mut root = DataStructure::new("Owner".to_string(), None, PropertyType::Object);
    root.properties = vec![inner, skipped];
    let value = synthesize(&root, SampleMode::Minimal);
    let fields = value.as_object().unwrap();
    assert_eq!(fields.len(), 1);
    assert_eq!(fields["pet"], synthesize(&pet(), SampleMode::Minimal));
}

#[test]
fn later_field_of_the_same_name_replaces_the_earlier() {
    let mut root = DataStructure::new("R".to_string(), None, PropertyType::Object);
    root.properties = vec![
        leaf("x", PropertyType::String, None, true),
        leaf("x", PropertyType::Boolean, None, true),
    ];
    let value = synthesize(&root, SampleMode::Full);
    let fields = value.as_object().unwrap();
    assert_eq!(fields.len(), 1);
    assert_eq!(fields["x"], text("@Bool"));
}

#[test]
fn string_sentinels() {
    let cases = [
        (Some("Date"), "@Date"),
        (Some("DateTime"), "@DateTime"),
        (Some("Byte"), "byte data"),
        (Some("Binary"), "binary data"),
        (Some("Password"), "@Sentence"),
        (Some("uuid"), "@Sentence"),
        (None, "@Sentence"),
    ];
    for (format, expected) in cases {
        assert_eq!(sentinel_of(&leaf("s", PropertyType::String, format, false)), expected);
    }
}

#[test]
fn boolean_sentinel() {
    assert_eq!(sentinel_of(&leaf("b", PropertyType::Boolean, None, false)), "@Bool");
}

#[test]
fn integer_sentinels_fall_back_to_the_width_of_the_format() {
    assert_eq!(
        sentinel_of(&leaf("i", PropertyType::Integer, Some("Int32"), false)),
        "@Number|-2147483648~2147483647"
    );
    assert_eq!(
        sentinel_of(&leaf("i", PropertyType::Integer, Some("Int64"), false)),
        "@Number|-9223372036854775808~9223372036854775807"
    );
    assert_eq!(
        sentinel_of(&leaf("i", PropertyType::Integer, None, false)),
        "@Number|-2147483648~2147483647"
    );
    assert_eq!(
        sentinel_of(&leaf("i", PropertyType::Integer, Some("int8"), false)),
        "@Number|-2147483648~2147483647"
    );
}

#[test]
fn integer_sentinel_with_declared_bounds() {
    let mut node = leaf("i", PropertyType::Integer, Some("Int32"), false);
    node.min = Some(Int64FloatOrUsize::Int(-5));
    node.max = Some(Int64FloatOrUsize::Int(120));
    assert_eq!(sentinel_of(&node), "@Number|-5~120");
    node.max = None;
    assert_eq!(sentinel_of(&node), "@Number|-5~2147483647");
    node.min = Some(Int64FloatOrUsize::UInt(0));
    node.max = Some(Int64FloatOrUsize::UInt(18446744073709551615));
    assert_eq!(sentinel_of(&node), "@Number|0~18446744073709551615");
}

#[test]
fn number_sentinels_fall_back_to_the_width_of_the_format() {
    let floor = format!("{}", f32::MIN as f64);
    let ceiling = format!("{}", f32::MAX as f64);
    assert_eq!(ceiling, "340282346638528860000000000000000000000");
    assert_eq!(
        sentinel_of(&leaf("n", PropertyType::Number, Some("Float"), false)),
        format!("@Float|{}~{}", floor, ceiling)
    );
    assert_eq!(
        sentinel_of(&leaf("n", PropertyType::Number, None, false)),
        format!("@Float|{}~{}", floor, ceiling)
    );
    assert_eq!(
        sentinel_of(&leaf("n", PropertyType::Number, Some("Double"), false)),
        format!("@Float|{}~{}", i64::MIN, i64::MAX)
    );
}

#[test]
fn number_sentinel_with_declared_bounds() {
    let mut node = leaf("n", PropertyType::Number, Some("Float"), false);
    node.min = Some(Int64FloatOrUsize::Float(format!("{}", 0.5f64)));
    node.max = Some(Int64FloatOrUsize::Float(format!("{}", 99.25f64)));
    assert_eq!(sentinel_of(&node), "@Float|0.5~99.25");
}

#[test]
fn required_fields_are_in_every_random_sample() {
    let config = config();
    let mut rng = rand::thread_rng();
    let mut with_tag = 0;
    let mut without_tag = 0;
    for _ in 0..200 {
        let value = data_structure_to_random_json_with_value(&pet(), &config, &mut rng);
        let fields = value.as_object().unwrap();
        assert_eq!(fields["id"], text("@Number|-9223372036854775808~9223372036854775807"));
        assert_eq!(fields["name"], text("@Sentence"));
        for key in fields.keys() {
            assert!(["id", "name", "tag"].contains(&key.as_str()));
        }
        match fields.get("tag") {
            Some(tag) => {
                assert_eq!(*tag, text("@Sentence"));
                with_tag += 1;
            }
            None => without_tag += 1,
        }
    }
    assert_eq!(with_tag + without_tag, 200);
}

#[test]
fn a_required_field_is_taken_whatever_the_coin() {
    assert!(include_property(true, false));
    assert!(include_property(true, true));
    assert!(include_property(false, true));
    assert!(!include_property(false, false));
}

#[test]
fn typed_tree_holds_the_configured_types() {
    let config = config();
    let value = data_structure_to_json(&pet(), &config).unwrap();
    let mut expected = serde_json::Map::new();
    expected.insert("id".to_string(), text("long"));
    expected.insert("name".to_string(), text("text"));
    expected.insert("tag".to_string(), text("text"));
    assert_eq!(value, Value::Object(expected));
    let mut array = DataStructure::new("pets".to_string(), None, PropertyType::Array);
    array.properties = vec![leaf("petsItem", PropertyType::Integer, None, false)];
    assert_eq!(data_structure_to_json(&array, &config), Ok(Value::Array(vec![text("number")])));
}

#[test]
fn typed_tree_fails_at_the_first_scalar_without_a_type() {
    let config = config();
    let mut root = pet();
    root.properties.insert(1, leaf("flag", PropertyType::Boolean, None, false));
    root.properties.push(leaf("when", PropertyType::String, Some("Date"), false));
    assert_eq!(
        data_structure_to_json(&root, &config),
        Err(Error::MissingTypeMapping { key: "Boolean".to_string(), format: None })
    );
}

#[test]
fn template_samples_want_the_root() {
    let config = config();
    let mut root = pet();
    root.is_root = true;
    assert_eq!(json_value(&config, Argument::Given(root.clone())), Ok(synthesize(&pet(), SampleMode::Full)));
    assert_eq!(
        json_minimum_value(&config, Argument::Given(root.clone())),
        Ok(synthesize(&pet(), SampleMode::Minimal))
    );
    assert!(json_typing(&config, Argument::Given(root.clone())).is_ok());
    let mut rng = rand::thread_rng();
    assert!(json_value_random(&config, Argument::Given(root), &mut rng).is_ok());

    assert_eq!(json_value(&config, Argument::Given(pet())), Err(Error::RootExpected));
    assert_eq!(json_minimum_value(&config, Argument::Given(pet())), Err(Error::RootExpected));
    assert_eq!(json_typing(&config, Argument::Given(pet())), Err(Error::RootExpected));
    assert_eq!(json_value_random(&config, Argument::Given(pet()), &mut rng), Err(Error::RootExpected));
    assert_eq!(json_value(&config, Argument::Missing), Err(Error::ArgumentMissing));
    assert_eq!(json_value(&config, Argument::Invalid), Err(Error::ArgumentInvalid));
    assert_eq!(json_minimum_value(&config, Argument::Missing), Err(Error::ArgumentMissing));
    assert_eq!(json_typing(&config, Argument::Invalid), Err(Error::ArgumentInvalid));
    assert_eq!(json_value_random(&config, Argument::Missing, &mut rng), Err(Error::ArgumentMissing));
}
