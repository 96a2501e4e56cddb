use api_model::document::{
    ContentEntry, Document, Operation, PathEntry, Policy, RequestBody, Response, ResponseEntry,
    StatusCode,
};
use api_model::error::Error;
use api_model::extract::{
    endpoint_from, endpoints_from, extract_endpoint, extract_root, json_schema_of, serde_openapi,
};
use api_model::model::PropertyType;
use api_model::schema::{
    ArraySchema, FormatSlot, IntegerFormat, IntegerSchema, ObjectSchema, Property, Schema,
    SchemaKind, SchemaRef, StringSchema,
};
use indexmap::IndexMap;

const LENIENT: Policy = Policy { require_content: false, partial_output: true };
const SKIP_CONTENT: Policy = Policy { require_content: false, partial_output: false };
const STRICT: Policy = Policy { require_content: true, partial_output: false };

fn string_schema() -> Schema {
    Schema {
        description: None,
        kind: SchemaKind::String(StringSchema {
            format: FormatSlot::Empty,
            pattern: None,
            min_length: None,
            max_length: None,
        }),
    }
}

fn pet_schema() -> Schema {
    Schema {
        description: None,
        kind: SchemaKind::Object(ObjectSchema {
            properties: vec![
                Property {
                    name: "id".to_string(),
                    schema: SchemaRef::Item(Schema {
                        description: None,
                        kind: SchemaKind::Integer(IntegerSchema {
                            format: FormatSlot::Known(IntegerFormat::Int64),
                            minimum: None,
                            maximum: None,
                        }),
                    }),
                },
                Property { name: "name".to_string(), schema: SchemaRef::Item(string_schema()) },
                Property { name: "tag".to_string(), schema: SchemaRef::Item(string_schema()) },
            ],
            required: vec!["id".to_string(), "name".to_string()],
        }),
    }
}

fn reference(name: &str) -> SchemaRef {
    SchemaRef::Reference { reference: format!("#/components/schemas/{}", name) }
}

fn registry() -> IndexMap<String, SchemaRef> {
    let mut registry = IndexMap::new();
    registry.insert("Pet".to_string(), SchemaRef::Item(pet_schema()));
    registry
}

fn json(schema: SchemaRef) -> Vec<ContentEntry> {
    vec![
        ContentEntry { media_type: "application/xml".to_string(), schema: None },
        ContentEntry { media_type: "application/json".to_string(), schema: Some(schema) },
    ]
}

fn pets_array() -> SchemaRef {
    SchemaRef::Item(Schema {
        description: None,
        kind: SchemaKind::Array(ArraySchema {
            items: Some(Box::new(reference("Pet"))),
            min_items: None,
            max_items: None,
        }),
    })
}

fn operation(method: &str, request: Option<SchemaRef>, response: Option<SchemaRef>) -> Operation {
    Operation {
        method: method.to_string(),
        description: Some(format!("{} pets", method)),
        parameters: vec![],
        responses: vec![
            ResponseEntry { status: StatusCode::Code(404), response: Some(Response { content: vec![] }) },
            ResponseEntry {
                status: StatusCode::Code(200),
                response: Some(Response {
                    content: match response {
                        Some(schema) => json(schema),
                        None => vec![],
                    },
                }),
            },
        ],
        request_body: request.map(|schema| Some(RequestBody { content: json(schema) })),
    }
}

fn document(operations: Vec<Operation>) -> Document {
    Document {
        paths: vec![PathEntry { path: "/pets".to_string(), operations: Some(operations) }],
        schemas: Some(registry()),
    }
}

#[test]
fn endpoints_carry_path_method_and_trees() {
    let doc = document(vec![
        operation("get", None, Some(pets_array())),
        operation("post", Some(reference("Pet")), Some(reference("Pet"))),
    ]);
    let data = serde_openapi(doc, LENIENT).unwrap();
    assert_eq!(data.endpoints.len(), 2);
    assert!(data.responses.is_empty());
    assert!(data.requests.is_empty());

    let get = &data.endpoints[0];
    assert_eq!(get.path, "/pets");
    assert_eq!(get.method, "get");
    assert_eq!(get.description, Some("get pets".to_string()));
    assert!(get.request.is_none());
    assert!(get.flat_response.is_empty());
    let list = get.response.as_ref().unwrap();
    assert_eq!(list.property_type, PropertyType::Array);
    assert!(list.is_root);
    assert_eq!(list.name, "");
    assert_eq!(list.object_name, Some("PetObject".to_string()));
    assert_eq!(list.properties.len(), 1);
    assert_eq!(list.properties[0].name, "Pet");
    assert!(!list.properties[0].is_root);

    let post = &data.endpoints[1];
    assert_eq!(post.method, "post");
    let pet = post.request.as_ref().unwrap();
    assert!(pet.is_root);
    assert_eq!(pet.name, "Pet");
    assert_eq!(pet.object_name, Some("Pet".to_string()));
    assert!(pet.properties[0].required);
    assert!(pet.properties[1].required);
    assert!(!pet.properties[2].required);
    assert_eq!(post.response, post.request);
}

#[test]
fn root_object_takes_its_name_as_object_name() {
    let registry = registry();
    let root = extract_root(&reference("Pet"), &registry).unwrap();
    assert_eq!(root.object_name, Some("Pet".to_string()));
    assert!(root.is_root);
    let inline = extract_root(&SchemaRef::Item(pet_schema()), &registry).unwrap();
    assert_eq!(inline.name, "");
    assert_eq!(inline.object_name, Some("".to_string()));
    let scalar = extract_root(&SchemaRef::Item(string_schema()), &registry).unwrap();
    assert_eq!(scalar.object_name, None);
    assert!(scalar.is_root);
}

#[test]
fn first_json_entry_is_the_schema_of_a_body() {
    let content = json(reference("Pet"));
    assert!(matches!(json_schema_of(&content), Some(SchemaRef::Reference { .. })));
    assert!(json_schema_of(&vec![]).is_none());
    let no_schema = vec![
        ContentEntry { media_type: "application/json".to_string(), schema: None },
        ContentEntry { media_type: "application/json".to_string(), schema: Some(reference("Pet")) },
    ];
    assert!(json_schema_of(&no_schema).is_none());
    let other = vec![ContentEntry { media_type: "text/plain".to_string(), schema: Some(reference("Pet")) }];
    assert!(json_schema_of(&other).is_none());
}

#[test]
fn body_without_json_is_skipped_or_fails_by_policy() {
    let doc = || document(vec![operation("get", None, None)]);
    let data = serde_openapi(doc(), LENIENT).unwrap();
    assert!(data.endpoints[0].response.is_none());
    let data = serde_openapi(doc(), SKIP_CONTENT).unwrap();
    assert!(data.endpoints[0].response.is_none());
    assert_eq!(serde_openapi(doc(), STRICT).err(), Some(Error::MissingRequiredContent));
}

#[test]
fn operation_without_ok_response_is_skipped_or_fails_by_policy() {
    let mut op = operation("delete", None, Some(reference("Pet")));
    op.responses.remove(1);
    let endpoint = endpoint_from("/pets", op).unwrap();
    assert!(endpoint.response.is_none());
    let registry = registry();
    let mut op = operation("delete", None, Some(reference("Pet")));
    op.responses.remove(1);
    let extracted = extract_endpoint(endpoint_from("/pets", op).unwrap(), &registry, LENIENT).unwrap();
    assert!(extracted.response.is_none());
    assert_eq!(extract_endpoint(endpoint, &registry, STRICT).err(), Some(Error::MissingRequiredContent));
}

#[test]
fn ok_response_by_reference_counts_as_none() {
    let mut op = operation("get", None, Some(reference("Pet")));
    op.responses[1].response = None;
    let endpoint = endpoint_from("/pets", op).unwrap();
    assert!(endpoint.response.is_none());
}

#[test]
fn range_is_not_the_ok_status() {
    let mut op = operation("get", None, Some(reference("Pet")));
    op.responses[1].status = StatusCode::Range(2);
    assert!(endpoint_from("/pets", op).unwrap().response.is_none());
    let mut op = operation("get", None, Some(reference("Pet")));
    op.responses[1].status = StatusCode::Code(201);
    assert!(endpoint_from("/pets", op).unwrap().response.is_none());
}

#[test]
fn build_failure_is_left_out_or_fails_by_policy() {
    let doc = || document(vec![operation("get", Some(reference("Pet")), Some(reference("Dog")))]);
    let data = serde_openapi(doc(), LENIENT).unwrap();
    assert!(data.endpoints[0].request.is_some());
    assert!(data.endpoints[0].response.is_none());
    assert_eq!(serde_openapi(doc(), SKIP_CONTENT).err(), Some(Error::ReferenceNotFound));
    assert_eq!(serde_openapi(doc(), STRICT).err(), Some(Error::ReferenceNotFound));
}

#[test]
fn request_is_built_before_response() {
    let doc = document(vec![operation(
        "put",
        Some(SchemaRef::Item(Schema { description: None, kind: SchemaKind::AnyOf })),
        Some(reference("Dog")),
    )]);
    assert_eq!(serde_openapi(doc, STRICT).err(), Some(Error::UnsupportedSchemaConstruct));
}

#[test]
fn references_in_the_structure_of_the_document_are_not_supported() {
    let doc = Document {
        paths: vec![PathEntry { path: "/x".to_string(), operations: None }],
        schemas: Some(registry()),
    };
    assert_eq!(serde_openapi(doc, LENIENT).err(), Some(Error::UnsupportedSchemaConstruct));

    let mut op = operation("get", None, Some(reference("Pet")));
    op.request_body = Some(None);
    assert_eq!(serde_openapi(document(vec![op]), LENIENT).err(), Some(Error::UnsupportedSchemaConstruct));

    let mut op = operation("get", None, Some(reference("Pet")));
    op.parameters = vec![None];
    assert_eq!(endpoint_from("/pets", op).err(), Some(Error::UnsupportedSchemaConstruct));
}

#[test]
fn document_without_components_lacks_content() {
    let mut doc = document(vec![operation("get", None, Some(reference("Pet")))]);
    doc.schemas = None;
    assert_eq!(serde_openapi(doc, LENIENT).err(), Some(Error::MissingRequiredContent));
}

#[test]
fn structure_is_read_before_components_are_asked_for() {
    let doc = Document {
        paths: vec![PathEntry { path: "/x".to_string(), operations: None }],
        schemas: None,
    };
    assert_eq!(serde_openapi(doc, LENIENT).err(), Some(Error::UnsupportedSchemaConstruct));
}

#[test]
fn endpoints_follow_paths_and_methods_in_order() {
    let paths = vec![
        PathEntry {
            path: "/a".to_string(),
            operations: Some(vec![operation("get", None, None), operation("post", None, None)]),
        },
        PathEntry { path: "/b".to_string(), operations: Some(vec![]) },
        PathEntry { path: "/c".to_string(), operations: Some(vec![operation("delete", None, None)]) },
    ];
    let endpoints = endpoints_from(paths).unwrap();
    let seen: Vec<(String, String)> =
        endpoints.iter().map(|e| (e.path.clone(), e.method.clone())).collect();
    assert_eq!(
        seen,
        vec![
            ("/a".to_string(), "get".to_string()),
            ("/a".to_string(), "post".to_string()),
            ("/c".to_string(), "delete".to_string()),
        ]
    );
}

#[test]
fn whole_run_flattens_and_combines() {
    let doc = document(vec![
        operation("get", None, Some(pets_array())),
        operation("post", Some(reference("Pet")), Some(reference("Pet"))),
    ]);
    let mut data = serde_openapi(doc, LENIENT).unwrap();
    for e in data.endpoints.iter_mut() {
        e.flatten_requests();
        e.flatten_responses();
    }
    data.combine_requests();
    data.combine_responses();
    assert_eq!(data.requests.len(), 1);
    assert_eq!(data.requests[0].name, "Pet");
    let names: Vec<(&str, bool)> = data.responses.iter().map(|n| (n.name.as_str(), n.is_root)).collect();
    assert_eq!(names, vec![("", true), ("Pet", false), ("Pet", true)]);
}
