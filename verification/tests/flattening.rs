use api_model::combine::merge_into;
use api_model::document::{Endpoint, EndpointExtracted, TemplateData};
use api_model::flatten::{contains_node, flatten, flatten_responses};
use api_model::model::{DataStructure, Int64FloatOrUsize, PropertyType};

fn leaf(name: &str, kind: PropertyType) -> DataStructure {
    DataStructure::new(name.to_string(), None, kind)
}

fn object(name: &str, children: Vec<DataStructure>) -> DataStructure {
    let mut node = DataStructure::new(name.to_string(), None, PropertyType::Object);
    node.object_name = Some(format!("{}Object", name));
    node.properties = children;
    node
}

fn array(name: &str, item: DataStructure) -> DataStructure {
    let mut node = DataStructure::new(name.to_string(), None, PropertyType::Array);
    node.properties = vec![item];
    node
}

fn pet() -> DataStructure {
    object(
        "Pet",
        vec![
            leaf("id", PropertyType::Integer),
            leaf("name", PropertyType::String),
            object("owner", vec![leaf("name", PropertyType::String)]),
        ],
    )
}

fn endpoint(path: &str) -> EndpointExtracted {
    EndpointExtracted::from(Endpoint {
        path: path.to_string(),
        method: "get".to_string(),
        description: None,
        parameters: Vec::new(),
        request: None,
        response: None,
    })
}

fn no_two_equal(list: &[DataStructure]) -> bool {
    for i in 0..list.len() {
        for j in 0..list.len() {
            if i != j && list[i] == list[j] {
                return false;
            }
        }
    }
    true
}

#[test]
fn root_comes_first() {
    let root = pet();
    let flat = flatten(&root);
    assert_eq!(flat[0], root);
}

#[test]
fn objects_and_arrays_are_listed_in_walk_order() {
    let root = object(
        "Root",
        vec![
            leaf("a", PropertyType::String),
            array("list", pet()),
            object("other", vec![leaf("x", PropertyType::Boolean)]),
        ],
    );
    let flat = flatten(&root);
    let names: Vec<&str> = flat.iter().map(|n| n.name.as_str()).collect();
    assert_eq!(names, vec!["Root", "list", "Pet", "owner", "other"]);
}

#[test]
fn scalar_root_gives_nothing() {
    assert!(flatten(&leaf("n", PropertyType::Number)).is_empty());
    assert!(flatten(&leaf("s", PropertyType::String)).is_empty());
    assert!(flatten(&leaf("i", PropertyType::Integer)).is_empty());
    assert!(flatten(&leaf("b", PropertyType::Boolean)).is_empty());
}

#[test]
fn equal_subtrees_are_listed_once() {
    let root = object("Root", vec![pet(), pet(), array("pets", pet())]);
    let flat = flatten(&root);
    let names: Vec<&str> = flat.iter().map(|n| n.name.as_str()).collect();
    assert_eq!(names, vec!["Root", "Pet", "owner", "pets"]);
    assert!(no_two_equal(&flat));
}

#[test]
fn equal_arrays_are_listed_once() {
    let root = object(
        "Root",
        vec![array("tags", leaf("tagsItem", PropertyType::String)), array("tags", leaf("tagsItem", PropertyType::String))],
    );
    let flat = flatten(&root);
    assert_eq!(flat.len(), 2);
    assert!(no_two_equal(&flat));
}

#[test]
fn nodes_that_differ_in_one_field_are_both_listed() {
    let mut other = pet();
    other.description = Some("another".to_string());
    let root = object("Root", vec![pet(), other]);
    let flat = flatten(&root);
    let names: Vec<&str> = flat.iter().map(|n| n.name.as_str()).collect();
    assert_eq!(names, vec!["Root", "Pet", "owner", "Pet"]);
}

#[test]
fn flatten_is_the_same_on_equal_trees() {
    assert_eq!(flatten(&pet()), flatten(&pet()));
}

#[test]
fn flatten_responses_keeps_what_the_list_holds() {
    let mut list = vec![pet()];
    let root = object("Root", vec![pet(), object("extra", vec![])]);
    flatten_responses(&root, &mut list);
    let names: Vec<&str> = list.iter().map(|n| n.name.as_str()).collect();
    assert_eq!(names, vec!["Pet", "Root", "extra"]);
}

#[test]
fn contains_node_compares_whole_trees() {
    let list = vec![pet()];
    assert!(contains_node(&list, &pet()));
    let mut changed = pet();
    changed.properties[2].properties[0].max_length = Some(3);
    assert!(!contains_node(&list, &changed));
}

#[test]
fn equality_looks_at_every_field() {
    let base = leaf("x", PropertyType::Number);
    let mut other = leaf("x", PropertyType::Number);
    assert_eq!(base, other);
    other.min = Some(Int64FloatOrUsize::Float("1.5".to_string()));
    assert_ne!(base, other);
    let mut other = leaf("x", PropertyType::Number);
    other.required = true;
    assert_ne!(base, other);
    let mut other = leaf("x", PropertyType::Number);
    other.is_root = true;
    assert_ne!(base, other);
    let mut other = leaf("x", PropertyType::Number);
    other.required_properties = vec!["a".to_string()];
    assert_ne!(base, other);
    assert_ne!(leaf("x", PropertyType::Number), leaf("y", PropertyType::Number));
    assert_ne!(leaf("x", PropertyType::Number), leaf("x", PropertyType::Integer));
}

#[test]
fn bounds_of_different_kinds_differ() {
    assert_ne!(Int64FloatOrUsize::Int(1), Int64FloatOrUsize::UInt(1));
    assert_ne!(Int64FloatOrUsize::Int(1), Int64FloatOrUsize::Float("1".to_string()));
    assert_eq!(Int64FloatOrUsize::UInt(4), Int64FloatOrUsize::UInt(4));
    assert_eq!(Int64FloatOrUsize::default(), Int64FloatOrUsize::UInt(0));
}

#[test]
fn clone_gives_an_equal_tree() {
    let root = object("Root", vec![pet(), array("pets", pet())]);
    assert_eq!(root.clone(), root);
}

#[test]
fn endpoint_flattens_its_response_and_its_request() {
    let mut e = endpoint("/pets");
    e.response = Some(array("", pet()));
    e.request = Some(pet());
    e.flatten_responses();
    e.flatten_requests();
    let responses: Vec<&str> = e.flat_response.iter().map(|n| n.name.as_str()).collect();
    let requests: Vec<&str> = e.flat_request.iter().map(|n| n.name.as_str()).collect();
    assert_eq!(responses, vec!["", "Pet", "owner"]);
    assert_eq!(requests, vec!["Pet", "owner"]);
}

#[test]
fn endpoint_without_bodies_keeps_its_lists() {
    let mut e = endpoint("/ping");
    e.flat_response = vec![pet()];
    e.flatten_responses();
    e.flatten_requests();
    assert_eq!(e.flat_response, vec![pet()]);
    assert!(e.flat_request.is_empty());
}

#[test]
fn merge_appends_only_what_is_new() {
    let mut list = vec![pet()];
    let items = vec![object("A", vec![]), pet(), object("A", vec![]), object("B", vec![])];
    merge_into(&mut list, &items);
    let names: Vec<&str> = list.iter().map(|n| n.name.as_str()).collect();
    assert_eq!(names, vec!["Pet", "A", "B"]);
}

#[test]
fn merging_a_list_into_itself_changes_nothing() {
    let mut list = vec![pet(), object("A", vec![]), object("B", vec![])];
    let same = list.clone();
    merge_into(&mut list, &same);
    assert_eq!(list, same);
}

#[test]
fn combine_keeps_first_seen_order_across_endpoints() {
    let mut first = endpoint("/a");
    first.response = Some(object("A", vec![pet()]));
    first.request = Some(pet());
    let mut second = endpoint("/b");
    second.response = Some(object("B", vec![pet()]));
    second.request = Some(object("C", vec![]));
    let mut data = TemplateData::new();
    for mut e in [first, second] {
        e.flatten_requests();
        e.flatten_responses();
        data.endpoints.push(e);
    }
    data.combine_requests();
    data.combine_responses();
    let responses: Vec<&str> = data.responses.iter().map(|n| n.name.as_str()).collect();
    let requests: Vec<&str> = data.requests.iter().map(|n| n.name.as_str()).collect();
    assert_eq!(responses, vec!["A", "Pet", "owner", "B"]);
    assert_eq!(requests, vec!["Pet", "owner", "C"]);
    assert!(no_two_equal(&data.responses));
    assert!(no_two_equal(&data.requests));
}

#[test]
fn combine_twice_is_combine_once() {
    let mut first = endpoint("/a");
    first.response = Some(object("A", vec![pet()]));
    first.request = Some(pet());
    first.flatten_requests();
    first.flatten_responses();
    let mut data = TemplateData::new();
    data.endpoints.push(first);
    data.combine_requests();
    data.combine_responses();
    let responses = data.responses.clone();
    let requests = data.requests.clone();
    data.combine_requests();
    data.combine_responses();
    assert_eq!(data.responses, responses);
    assert_eq!(data.requests, requests);
}

#[test]
fn default_template_data_is_empty() {
    let data = TemplateData::default();
    assert!(data.endpoints.is_empty());
    assert!(data.responses.is_empty());
    assert!(data.requests.is_empty());
}
