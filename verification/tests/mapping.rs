use api_model::config::{Config, Type};
use api_model::error::Error;
use api_model::mapping::{lookup_type, mapped_type, property_to_type, substitute};
use api_model::model::{DataStructure, PropertyType};
use api_model::template::{extended, key_exists, map_type, map_type_new, Argument};

fn config(layout: &str) -> Config {
    let mut config = Config::new(layout.to_string());
    let mut integer = Type::new("number".to_string());
    integer.set_format("Int64".to_string(), "long".to_string());
    integer.set_format("Int32".to_string(), "int".to_string());
    config.set_type("Integer".to_string(), integer);
    config.set_type("String".to_string(), Type::new("String".to_string()));
    config.set_type("PetObject".to_string(), Type::new("Pet".to_string()));
    config.set_extended("suffix".to_string(), "Dto".to_string());
    config
}

fn node(kind: PropertyType, format: Option<&str>) -> DataStructure {
    let mut node = DataStructure::new("x".to_string(), None, kind);
    node.format = format.map(|f| f.to_string());
    node
}

fn missing(key: &str, format: Option<&str>) -> Error {
    Error::MissingTypeMapping { key: key.to_string(), format: format.map(|f| f.to_string()) }
}

#[test]
fn integer_with_int64_maps_to_long() {
    let config = config("List<{type}>");
    assert_eq!(mapped_type(&node(PropertyType::Integer, Some("Int64")), &config), Ok("long".to_string()));
}

#[test]
fn integer_without_format_maps_to_its_default() {
    let config = config("List<{type}>");
    assert_eq!(mapped_type(&node(PropertyType::Integer, None), &config), Ok("number".to_string()));
}

#[test]
fn array_of_strings_is_wrapped_into_the_layout() {
    let config = config("List<{type}>");
    let mut array = DataStructure::new("tags".to_string(), None, PropertyType::Array);
    array.properties = vec![node(PropertyType::String, None)];
    array.process_data();
    assert_eq!(mapped_type(&array, &config), Ok("List<String>".to_string()));
}

#[test]
fn array_of_objects_maps_through_the_object_name() {
    let config = config("{type}[]");
    let mut pet = DataStructure::new("Pet".to_string(), None, PropertyType::Object);
    pet.object_name = Some("PetObject".to_string());
    assert_eq!(mapped_type(&pet, &config), Ok("Pet".to_string()));
    let mut array = DataStructure::new("pets".to_string(), None, PropertyType::Array);
    array.properties = vec![pet];
    array.process_data();
    assert_eq!(mapped_type(&array, &config), Ok("Pet[]".to_string()));
}

#[test]
fn unknown_key_is_missing() {
    let config = config("List<{type}>");
    assert_eq!(mapped_type(&node(PropertyType::Boolean, None), &config), Err(missing("Boolean", None)));
    assert_eq!(
        mapped_type(&node(PropertyType::Number, Some("Float")), &config),
        Err(missing("Number", Some("Float")))
    );
}

#[test]
fn unknown_format_is_missing() {
    let config = config("List<{type}>");
    assert_eq!(
        mapped_type(&node(PropertyType::Integer, Some("Int8")), &config),
        Err(missing("Integer", Some("Int8")))
    );
    assert_eq!(
        mapped_type(&node(PropertyType::String, Some("Date")), &config),
        Err(missing("String", Some("Date")))
    );
}

#[test]
fn array_without_mapping_is_missing() {
    let config = config("List<{type}>");
    let mut array = DataStructure::new("flags".to_string(), None, PropertyType::Array);
    array.properties = vec![node(PropertyType::Boolean, None)];
    array.process_data();
    assert_eq!(mapped_type(&array, &config), Err(missing("Boolean", None)));
}

#[test]
fn mapping_is_the_same_every_time() {
    let config = config("List<{type}>");
    let n = node(PropertyType::Integer, Some("Int32"));
    assert_eq!(mapped_type(&n, &config), mapped_type(&n, &config));
    assert_eq!(mapped_type(&n, &config), Ok("int".to_string()));
}

#[test]
fn substitute_replaces_every_placeholder() {
    assert_eq!(substitute("List<{type}>", "String"), "List<String>");
    assert_eq!(substitute("{type}", "x"), "x");
    assert_eq!(substitute("Map<{type}, {type}>", "T"), "Map<T, T>");
    assert_eq!(substitute("{type}{type}", "ab"), "abab");
    assert_eq!(substitute("no placeholder", "T"), "no placeholder");
    assert_eq!(substitute("", "T"), "");
    assert_eq!(substitute("{type", "T"), "{type");
    assert_eq!(substitute("{{type}}", "T"), "{T}");
    assert_eq!(substitute("{type}", "{type}"), "{type}");
    assert_eq!(substitute("é{type}ü", "ß"), "éßü");
}

#[test]
fn substitute_agrees_with_replace() {
    for layout in ["List<{type}>", "{type}[]", "{ty{type}pe}", "a{type}b{type}c", "{type", "type}"] {
        for to in ["", "X", "{type}", "long name"] {
            assert_eq!(substitute(layout, to), layout.replace("{type}", to));
        }
    }
}

#[test]
fn layout_without_placeholder_fails_validation() {
    assert_eq!(config("List<{type}>").validate(), Ok(()));
    assert_eq!(config("{type}").validate(), Ok(()));
    assert_eq!(config("x{type}").validate(), Ok(()));
    assert_eq!(config("List<type>").validate(), Err(Error::ConfigValidation));
    assert_eq!(config("").validate(), Err(Error::ConfigValidation));
    assert_eq!(config("{type").validate(), Err(Error::ConfigValidation));
    assert_eq!(config("{Type}").validate(), Err(Error::ConfigValidation));
}

#[test]
fn lookup_by_kind_and_format() {
    let config = config("List<{type}>");
    assert_eq!(property_to_type("Integer", &None, &config), Ok("number".to_string()));
    assert_eq!(property_to_type("Integer", &Some("Int64".to_string()), &config), Ok("long".to_string()));
    assert_eq!(property_to_type("String", &Some("Date".to_string()), &config), Err(missing("String", Some("Date"))));
    assert_eq!(property_to_type("Object", &None, &config), Err(missing("Object", None)));
    assert_eq!(lookup_type(&config.types, "String", &None), Ok("String".to_string()));
}

#[test]
fn later_format_replaces_earlier() {
    let mut entry = Type::new("d".to_string());
    entry.set_format("f".to_string(), "one".to_string());
    entry.set_format("f".to_string(), "two".to_string());
    let mut config = Config::new("{type}".to_string());
    config.set_type("K".to_string(), entry);
    assert_eq!(lookup_type(&config.types, "K", &Some("f".to_string())), Ok("two".to_string()));
}

#[test]
fn map_type_by_name() {
    let config = config("List<{type}>");
    let given = |s: &str| Argument::Given(s.to_string());
    assert_eq!(map_type(&config.types, given("Integer"), Argument::Missing), Ok("number".to_string()));
    assert_eq!(map_type(&config.types, given("Integer"), Argument::Given(None)), Ok("number".to_string()));
    assert_eq!(
        map_type(&config.types, given("Integer"), Argument::Given(Some("Int64".to_string()))),
        Ok("long".to_string())
    );
    assert_eq!(map_type(&config.types, Argument::Missing, Argument::Missing), Err(Error::ArgumentMissing));
    assert_eq!(
        map_type(&config.types, Argument::Missing, Argument::Given(Some("Int64".to_string()))),
        Err(Error::ArgumentMissing)
    );
    assert_eq!(map_type(&config.types, Argument::Invalid, Argument::Missing), Err(Error::ArgumentInvalid));
    assert_eq!(map_type(&config.types, given("Integer"), Argument::Invalid), Err(Error::ArgumentInvalid));
    assert_eq!(map_type(&config.types, given("Float"), Argument::Missing), Err(missing("Float", None)));
}

#[test]
fn map_type_new_by_structure() {
    let config = config("List<{type}>");
    assert_eq!(
        map_type_new(&config, Argument::Given(node(PropertyType::Integer, Some("Int64")))),
        Ok("long".to_string())
    );
    assert_eq!(map_type_new(&config, Argument::Missing), Err(Error::ArgumentMissing));
    assert_eq!(map_type_new(&config, Argument::Invalid), Err(Error::ArgumentInvalid));
}

#[test]
fn extended_lookups() {
    let config = config("List<{type}>");
    assert_eq!(extended(&config.extended, Argument::Given("suffix".to_string())), Ok("Dto".to_string()));
    assert_eq!(
        extended(&config.extended, Argument::Given("prefix".to_string())),
        Err(Error::UnknownKey { key: "prefix".to_string() })
    );
    assert_eq!(extended(&config.extended, Argument::Missing), Err(Error::ArgumentMissing));
    assert_eq!(extended(&config.extended, Argument::Invalid), Err(Error::ArgumentInvalid));
    assert_eq!(key_exists(&config.extended, Argument::Given("suffix".to_string())), Ok(true));
    assert_eq!(key_exists(&config.extended, Argument::Given("prefix".to_string())), Ok(false));
    assert_eq!(key_exists(&config.extended, Argument::Missing), Err(Error::ArgumentMissing));
    assert_eq!(key_exists(&config.extended, Argument::Invalid), Err(Error::ArgumentInvalid));
}
