use api_model::error::Error;
use api_model::model::{DataStructure, Int64FloatOrUsize, PropertyType};
use api_model::render::{
    config_format, endpoint_root, renders_endpoint_models, renders_model, starts_with,
    template_kind, terminal_setup, ConfigFormat, TemplateKind, Verbosity,
};

fn node(name: &str, kind: PropertyType) -> DataStructure {
    DataStructure::new(name.to_string(), None, kind)
}

#[test]
fn quiet_and_verbose_cannot_go_together() {
    assert_eq!(terminal_setup(true, true), Err(Error::ConfigValidation));
    assert_eq!(terminal_setup(true, false), Ok(Verbosity::Warn));
    assert_eq!(terminal_setup(false, true), Ok(Verbosity::Debug));
    assert_eq!(terminal_setup(false, false), Ok(Verbosity::Info));
}

#[test]
fn template_kinds_by_file_name() {
    assert_eq!(template_kind("model.dart"), TemplateKind::Model);
    assert_eq!(template_kind("model."), TemplateKind::Model);
    assert_eq!(template_kind("model-endpoint.dart"), TemplateKind::EndpointModel);
    assert_eq!(template_kind("service.dart"), TemplateKind::Whole);
    assert_eq!(template_kind("model"), TemplateKind::Whole);
    assert_eq!(template_kind("models.dart"), TemplateKind::Whole);
    assert_eq!(template_kind("model-endpoint"), TemplateKind::Whole);
    assert_eq!(template_kind(""), TemplateKind::Whole);
}

#[test]
fn prefixes() {
    assert!(starts_with("abc", ""));
    assert!(starts_with("abc", "ab"));
    assert!(starts_with("abc", "abc"));
    assert!(!starts_with("abc", "abcd"));
    assert!(!starts_with("abc", "b"));
    assert!(starts_with("éa", "é"));
}

#[test]
fn model_named_array_gets_no_file() {
    assert!(!renders_model(&node("Array", PropertyType::Object)));
    assert!(renders_model(&node("Pet", PropertyType::Object)));
    assert!(renders_model(&node("array", PropertyType::Array)));
}

#[test]
fn first_root_is_found() {
    let mut a = node("a", PropertyType::Object);
    let mut b = node("b", PropertyType::Object);
    let c = node("c", PropertyType::Object);
    assert!(endpoint_root(&vec![]).is_none());
    assert!(endpoint_root(&vec![node("a", PropertyType::Object), node("c", PropertyType::Object)]).is_none());
    b.is_root = true;
    assert_eq!(endpoint_root(&vec![a.clone(), b.clone(), c.clone()]).unwrap().name, "b");
    a.is_root = true;
    assert_eq!(endpoint_root(&vec![a, b, c]).unwrap().name, "a");
}

#[test]
fn arrays_of_primitives_get_no_endpoint_file() {
    let mut strings = node("tags", PropertyType::Array);
    strings.properties = vec![node("tagsItem", PropertyType::String)];
    assert!(!renders_endpoint_models(&strings));
    let mut pets = node("pets", PropertyType::Array);
    pets.properties = vec![node("Pet", PropertyType::Object)];
    assert!(renders_endpoint_models(&pets));
    assert!(!renders_endpoint_models(&node("empty", PropertyType::Array)));
    assert!(renders_endpoint_models(&node("Pet", PropertyType::Object)));
    assert!(renders_endpoint_models(&node("s", PropertyType::String)));
}

#[test]
fn config_notation_by_extension() {
    assert_eq!(config_format("json"), ConfigFormat::Json);
    assert_eq!(config_format("yaml"), ConfigFormat::Yaml);
    assert_eq!(config_format("yml"), ConfigFormat::Yaml);
    assert_eq!(config_format("JSON"), ConfigFormat::Yaml);
    assert_eq!(config_format(""), ConfigFormat::Yaml);
}

#[test]
fn bounds_from_numbers() {
    assert_eq!(Int64FloatOrUsize::from(3usize), Int64FloatOrUsize::UInt(3));
    assert_eq!(Int64FloatOrUsize::from(-3i64), Int64FloatOrUsize::Int(-3));
    let b: Int64FloatOrUsize = 9usize.into();
    assert_eq!(b, Int64FloatOrUsize::UInt(9));
}
