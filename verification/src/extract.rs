use indexmap::IndexMap;
use openapiv3::Parameter;
use vstd::prelude::*;
use crate::builder::{built, extract_model, fresh, lemma_built_is_fresh, outcome};
use crate::document::{
    ContentEntry, Document, Endpoint, EndpointExtracted, EndpointView, ExtractedView, Operation,
    PathEntry, Policy, RequestBody, Response, ResponseEntry, StatusCode, TemplateData,
    TemplateDataView,
};
use crate::error::{Error, ErrorView};
use crate::finalize::{
    flags_agree, lemma_processed_flags_agree, lemma_processed_stays_unmarked, processed, unmarked,
};
use crate::model::{DataStructure, Node, PropertyType};
use crate::schema::{lemma_lookup_names, names, registered, SchemaRef};
use crate::text::{text_is, text_of};

verus! {

/// The schema that a body offers as JSON: that of its first entry for the
/// media type `application/json`, where that entry has one.
pub open spec fn json_schema(content: Seq<ContentEntry>) -> Option<SchemaRef>
    decreases content.len(),
{
    if content.len() == 0 {
        None
    } else if content[0].media_type@ == "application/json"@ {
        content[0].schema
    } else {
        json_schema(content.drop_first())
    }
}

/// The response that an operation declares for the status 200, where it
/// declares one in place.
pub open spec fn ok_response(responses: Seq<ResponseEntry>) -> Option<Response>
    decreases responses.len(),
{
    if responses.len() == 0 {
        None
    } else if responses[0].status == StatusCode::Code(200) {
        responses[0].response
    } else {
        ok_response(responses.drop_first())
    }
}

/// Whether every parameter of a list is given in place.
pub open spec fn all_given(slots: Seq<Option<Parameter>>) -> bool {
    forall|i: int| 0 <= i < slots.len() ==> slots[i] is Some
}

/// The parameters of a list in which each is given in place.
pub open spec fn given(slots: Seq<Option<Parameter>>) -> Seq<Parameter> {
    slots.map_values(|slot: Option<Parameter>| slot->0)
}

/// The endpoint that an operation of a path gives: its parameters, its
/// request body and its response for the status 200. An operation with a
/// parameter or a request body given by reference has none.
pub open spec fn endpoint_of(path: Seq<char>, operation: Operation) -> Result<
    EndpointView,
    ErrorView,
> {
    if !all_given(operation.parameters@) || operation.request_body == Some(None::<RequestBody>) {
        Err(ErrorView::UnsupportedSchemaConstruct)
    } else {
        Ok(
            EndpointView {
                path,
                method: operation.method@,
                description: text_of(operation.description),
                parameters: given(operation.parameters@),
                request: match operation.request_body {
                    Some(body) => body,
                    None => None,
                },
                response: ok_response(operation.responses@),
            },
        )
    }
}

/// The endpoints that some operations of one path give, in their order, or
/// the failure of the first operation that fails.
pub open spec fn operation_endpoints(path: Seq<char>, operations: Seq<Operation>) -> Result<
    Seq<EndpointView>,
    ErrorView,
>
    decreases operations.len(),
{
    if operations.len() == 0 {
        Ok(Seq::empty())
    } else {
        match operation_endpoints(path, operations.drop_last()) {
            Err(e) => Err(e),
            Ok(front) => match endpoint_of(path, operations.last()) {
                Err(e) => Err(e),
                Ok(endpoint) => Ok(front.push(endpoint)),
            },
        }
    }
}

/// The endpoints of one path. A path item given by reference has none.
pub open spec fn path_endpoints(entry: PathEntry) -> Result<Seq<EndpointView>, ErrorView> {
    match entry.operations {
        None => Err(ErrorView::UnsupportedSchemaConstruct),
        Some(operations) => operation_endpoints(entry.path@, operations@),
    }
}

/// The endpoints of some paths, path by path, or the failure of the first
/// path that fails.
pub open spec fn endpoints_of(paths: Seq<PathEntry>) -> Result<Seq<EndpointView>, ErrorView>
    decreases paths.len(),
{
    if paths.len() == 0 {
        Ok(Seq::empty())
    } else {
        match endpoints_of(paths.drop_last()) {
            Err(e) => Err(e),
            Ok(front) => match path_endpoints(paths.last()) {
                Err(e) => Err(e),
                Ok(more) => Ok(front + more),
            },
        }
    }
}

/// A tree as the root of a body: marked as the root, and, where it is an
/// object, with its own name as its object name.
pub open spec fn rooted(node: Node) -> Node {
    Node {
        is_root: true,
        object_name: if node.property_type == PropertyType::Object {
            Some(node.name)
        } else {
            node.object_name
        },
        ..node
    }
}

/// The tree of a body with the given schema: built under the empty name,
/// passed over once, and marked as the root.
pub open spec fn root_of(schema: SchemaRef, entries: Seq<(Seq<char>, SchemaRef)>) -> Result<
    Node,
    ErrorView,
> {
    match built(schema, entries, Seq::empty(), false, names(entries)) {
        Err(e) => Err(e),
        Ok(tree) => Ok(rooted(processed(tree))),
    }
}

/// Whether a tree is marked as a root at its top and nowhere else.
pub open spec fn marked_at_top(node: Node) -> bool {
    node.is_root && forall|i: int|
        0 <= i < node.properties.len() ==> unmarked(#[trigger] node.properties[i])
}

/// No node of a fresh tree is marked as a root.
pub proof fn lemma_fresh_is_unmarked(node: Node)
    requires
        fresh(node),
    ensures
        unmarked(node),
    decreases node,
{
    assert forall|i: int| 0 <= i < node.properties.len() implies unmarked(
        #[trigger] node.properties[i],
    ) by {
        assert(fresh(node.properties[i]));
        lemma_fresh_is_unmarked(node.properties[i]);
    }
}

/// The tree of a body is marked as a root at its top and nowhere else, and
/// every child in it is flagged as required exactly if its parent lists its
/// name as required.
pub proof fn lemma_root_is_marked_at_top(schema: SchemaRef, entries: Seq<(Seq<char>, SchemaRef)>)
    ensures
        root_of(schema, entries) matches Ok(tree) ==> marked_at_top(tree) && flags_agree(tree),
{
    lemma_lookup_names(entries, Seq::empty());
    match built(schema, entries, Seq::empty(), false, names(entries)) {
        Err(e) => {},
        Ok(tree) => {
            lemma_built_is_fresh(schema, entries, Seq::empty(), false, names(entries));
            lemma_fresh_is_unmarked(tree);
            lemma_processed_stays_unmarked(tree, tree.required);
            lemma_processed_flags_agree(tree, tree.required);
            let passed = processed(tree);
            let top = rooted(passed);
            assert(top.properties == passed.properties);
            assert(top.required_properties == passed.required_properties);
        },
    }
}

/// The tree that an endpoint holds for a body, given the JSON schema of the
/// body where it offers one. A body without one fails the extraction where
/// the policy requires content, and stands without a tree otherwise. A tree
/// that cannot be built is left out where the policy allows partial output,
/// and fails the extraction with its own failure otherwise.
pub open spec fn body_tree(
    schema: Option<SchemaRef>,
    entries: Seq<(Seq<char>, SchemaRef)>,
    policy: Policy,
) -> Result<Option<Node>, ErrorView> {
    match schema {
        None => if policy.require_content {
            Err(ErrorView::MissingRequiredContent)
        } else {
            Ok(None)
        },
        Some(s) => match root_of(s, entries) {
            Ok(tree) => Ok(Some(tree)),
            Err(e) => if policy.partial_output {
                Ok(None)
            } else {
                Err(e)
            },
        },
    }
}

/// The JSON schema of the response of an endpoint, where it has a response
/// that offers one.
pub open spec fn response_schema(response: Option<Response>) -> Option<SchemaRef> {
    match response {
        Some(r) => json_schema(r.content@),
        None => None,
    }
}

/// An endpoint with the trees of its bodies: first that of the request,
/// where the endpoint has a request body, then that of the response. The
/// lists of models are empty.
pub open spec fn extracted_endpoint(
    endpoint: EndpointView,
    entries: Seq<(Seq<char>, SchemaRef)>,
    policy: Policy,
) -> Result<ExtractedView, ErrorView> {
    let request = match endpoint.request {
        None => Ok(None),
        Some(body) => body_tree(json_schema(body.content@), entries, policy),
    };
    match request {
        Err(e) => Err(e),
        Ok(request_tree) => match body_tree(response_schema(endpoint.response), entries, policy) {
            Err(e) => Err(e),
            Ok(response_tree) => Ok(
                ExtractedView {
                    path: endpoint.path,
                    method: endpoint.method,
                    description: endpoint.description,
                    parameters: endpoint.parameters,
                    request: request_tree,
                    response: response_tree,
                    flat_response: Seq::empty(),
                    flat_request: Seq::empty(),
                },
            ),
        },
    }
}

/// Some endpoints with the trees of their bodies, or the failure of the
/// first endpoint that fails.
pub open spec fn extracted_endpoints(
    endpoints: Seq<EndpointView>,
    entries: Seq<(Seq<char>, SchemaRef)>,
    policy: Policy,
) -> Result<Seq<ExtractedView>, ErrorView>
    decreases endpoints.len(),
{
    if endpoints.len() == 0 {
        Ok(Seq::empty())
    } else {
        match extracted_endpoints(endpoints.drop_last(), entries, policy) {
            Err(e) => Err(e),
            Ok(front) => match extracted_endpoint(endpoints.last(), entries, policy) {
                Err(e) => Err(e),
                Ok(endpoint) => Ok(front.push(endpoint)),
            },
        }
    }
}

/// The template data of a document: its endpoints with the trees of their
/// bodies, and no models listed yet. The endpoints are read off the paths
/// first; then the document has to have components; then the trees are
/// built, endpoint by endpoint.
pub open spec fn extracted(document: Document, policy: Policy) -> Result<
    TemplateDataView,
    ErrorView,
> {
    match endpoints_of(document.paths@) {
        Err(e) => Err(e),
        Ok(endpoints) => match document.schemas {
            None => Err(ErrorView::MissingRequiredContent),
            Some(registry) => match extracted_endpoints(endpoints, registered(registry), policy) {
                Err(e) => Err(e),
                Ok(list) => Ok(
                    TemplateDataView {
                        endpoints: list,
                        responses: Seq::empty(),
                        requests: Seq::empty(),
                    },
                ),
            },
        },
    }
}

/// Finds the schema that a body offers as JSON.
pub fn json_schema_of(content: &Vec<ContentEntry>) -> (res: Option<&SchemaRef>)
    ensures
        res is Some <==> json_schema(content@) is Some,
        res matches Some(found) ==> json_schema(content@) == Some(*found),
{
    let mut i: usize = 0;
    proof {
        assert(content@.skip(0) =~= content@);
    }
    while i < content.len()
        invariant
            i <= content.len(),
            json_schema(content@) == json_schema(content@.skip(i as int)),
        decreases content.len() - i,
    {
        proof {
            assert(content@.skip(i as int).drop_first() =~= content@.skip(i + 1));
        }
        if text_is(content[i].media_type.as_str(), "application/json") {
            return match &content[i].schema {
                Some(schema) => Some(schema),
                None => None,
            };
        }
        i += 1;
    }
    None
}

/// Takes the parameters out of a list in which each is given in place.
fn take_parameters(slots: Vec<Option<Parameter>>) -> (res: Option<Vec<Parameter>>)
    ensures
        res is Some <==> all_given(slots@),
        res matches Some(list) ==> list@ == given(slots@),
{
    let ghost all = slots@;
    let mut rest = slots;
    let mut out: Vec<Parameter> = Vec::new();
    proof {
        assert(all.skip(0) =~= all);
    }
    while rest.len() > 0
        invariant
            all == slots@,
            out.len() <= all.len(),
            rest@ == all.skip(out.len() as int),
            forall|j: int| 0 <= j < out.len() ==> all[j] == Some(#[trigger] out@[j]),
        decreases rest.len(),
    {
        let ghost k = out.len() as int;
        proof {
            assert(rest@[0] == all[k]);
            assert(rest@.remove(0) =~= all.skip(k + 1));
        }
        match rest.remove(0) {
            None => {
                assert(all[k] is None);
                assert(!all_given(all));
                return None;
            },
            Some(parameter) => {
                out.push(parameter);
            },
        }
    }
    proof {
        assert(all.len() == out.len());
        assert forall|i: int| 0 <= i < all.len() implies all[i] is Some by {
            assert(all[i] == Some(out@[i]));
        }
        assert(out@ =~= given(all));
    }
    Some(out)
}

/// Takes the response for the status 200 out of the responses of an
/// operation.
fn take_ok_response(responses: Vec<ResponseEntry>) -> (res: Option<Response>)
    ensures
        res == ok_response(responses@),
{
    let mut rest = responses;
    while rest.len() > 0
        invariant
            ok_response(rest@) == ok_response(responses@),
        decreases rest.len(),
    {
        proof {
            assert(rest@.remove(0) =~= rest@.drop_first());
        }
        let entry = rest.remove(0);
        if entry.status == StatusCode::Code(200) {
            return entry.response;
        }
    }
    None
}

/// The value of the outcome of reading an endpoint off an operation.
pub open spec fn endpoint_outcome(res: Result<Endpoint, Error>) -> Result<EndpointView, ErrorView> {
    match res {
        Ok(endpoint) => Ok(endpoint@),
        Err(e) => Err(e@),
    }
}

/// Reads the endpoint off an operation of a path.
pub fn endpoint_from(path: &str, operation: Operation) -> (res: Result<Endpoint, Error>)
    ensures
        endpoint_outcome(res) == endpoint_of(path@, operation),
{
    let Operation { method, description, parameters, responses, request_body } = operation;
    let parameters = match take_parameters(parameters) {
        None => {
            return Err(Error::UnsupportedSchemaConstruct);
        },
        Some(list) => list,
    };
    let request = match request_body {
        Some(None) => {
            return Err(Error::UnsupportedSchemaConstruct);
        },
        Some(Some(body)) => Some(body),
        None => None,
    };
    let response = take_ok_response(responses);
    Ok(Endpoint { path: path.to_owned(), method, description, parameters, request, response })
}

/// The values of a list of endpoints.
pub open spec fn endpoint_views(list: Seq<Endpoint>) -> Seq<EndpointView> {
    list.map_values(|e: Endpoint| e@)
}

/// The value of the outcome of reading endpoints.
pub open spec fn endpoints_outcome(res: Result<Vec<Endpoint>, Error>) -> Result<
    Seq<EndpointView>,
    ErrorView,
> {
    match res {
        Ok(list) => Ok(endpoint_views(list@)),
        Err(e) => Err(e@),
    }
}

/// Once an operation fails, the operations that follow do not change the
/// outcome.
proof fn lemma_operation_failure_stays(path: Seq<char>, operations: Seq<Operation>, upto: int)
    requires
        0 <= upto <= operations.len(),
        operation_endpoints(path, operations.take(upto)) is Err,
    ensures
        operation_endpoints(path, operations) == operation_endpoints(path, operations.take(upto)),
    decreases operations.len(),
{
    if upto == operations.len() {
        assert(operations.take(upto) =~= operations);
    } else {
        let front = operations.drop_last();
        assert(front.take(upto) =~= operations.take(upto));
        lemma_operation_failure_stays(path, front, upto);
    }
}

/// Once a path fails, the paths that follow do not change the outcome.
proof fn lemma_path_failure_stays(paths: Seq<PathEntry>, upto: int)
    requires
        0 <= upto <= paths.len(),
        endpoints_of(paths.take(upto)) is Err,
    ensures
        endpoints_of(paths) == endpoints_of(paths.take(upto)),
    decreases paths.len(),
{
    if upto == paths.len() {
        assert(paths.take(upto) =~= paths);
    } else {
        let front = paths.drop_last();
        assert(front.take(upto) =~= paths.take(upto));
        lemma_path_failure_stays(front, upto);
    }
}

/// Reads the endpoints off the operations of one path.
fn operation_endpoints_from(path: &str, operations: Vec<Operation>) -> (res: Result<
    Vec<Endpoint>,
    Error,
>)
    ensures
        endpoints_outcome(res) == operation_endpoints(path@, operations@),
{
    let ghost all = operations@;
    let mut rest = operations;
    let mut out: Vec<Endpoint> = Vec::new();
    proof {
        assert(all.skip(0) =~= all);
        assert(all.take(0) =~= Seq::<Operation>::empty());
        assert(endpoint_views(out@) =~= Seq::<EndpointView>::empty());
    }
    while rest.len() > 0
        invariant
            all == operations@,
            out.len() <= all.len(),
            rest@ == all.skip(out.len() as int),
            operation_endpoints(path@, all.take(out.len() as int)) == Ok::<
                Seq<EndpointView>,
                ErrorView,
            >(endpoint_views(out@)),
        decreases rest.len(),
    {
        let ghost k = out.len() as int;
        let ghost before = endpoint_views(out@);
        proof {
            assert(rest@[0] == all[k]);
            assert(rest@.remove(0) =~= all.skip(k + 1));
            assert(all.take(k + 1).drop_last() =~= all.take(k));
            assert(all.take(k + 1).last() == all[k]);
        }
        let operation = rest.remove(0);
        match endpoint_from(path, operation) {
            Err(e) => {
                proof {
                    lemma_operation_failure_stays(path@, all, k + 1);
                }
                return Err(e);
            },
            Ok(endpoint) => {
                let ghost view = endpoint@;
                out.push(endpoint);
                proof {
                    assert(endpoint_views(out@) =~= before.push(view));
                }
            },
        }
    }
    proof {
        assert(all.take(out.len() as int) =~= all);
    }
    Ok(out)
}

/// Reads the endpoints off the paths of a document.
pub fn endpoints_from(paths: Vec<PathEntry>) -> (res: Result<Vec<Endpoint>, Error>)
    ensures
        endpoints_outcome(res) == endpoints_of(paths@),
{
    let ghost all = paths@;
    let mut rest = paths;
    let mut out: Vec<Endpoint> = Vec::new();
    let ghost mut done: int = 0;
    proof {
        assert(all.skip(0) =~= all);
        assert(all.take(0) =~= Seq::<PathEntry>::empty());
        assert(endpoint_views(out@) =~= Seq::<EndpointView>::empty());
    }
    while rest.len() > 0
        invariant
            all == paths@,
            0 <= done <= all.len(),
            rest@ == all.skip(done),
            endpoints_of(all.take(done)) == Ok::<Seq<EndpointView>, ErrorView>(
                endpoint_views(out@),
            ),
        decreases rest.len(),
    {
        let ghost before = endpoint_views(out@);
        proof {
            assert(rest@[0] == all[done]);
            assert(rest@.remove(0) =~= all.skip(done + 1));
            assert(all.take(done + 1).drop_last() =~= all.take(done));
            assert(all.take(done + 1).last() == all[done]);
        }
        let PathEntry { path, operations } = rest.remove(0);
        let found = match operations {
            None => Err(Error::UnsupportedSchemaConstruct),
            Some(list) => operation_endpoints_from(path.as_str(), list),
        };
        match found {
            Err(e) => {
                proof {
                    lemma_path_failure_stays(all, done + 1);
                }
                return Err(e);
            },
            Ok(more) => {
                let mut more = more;
                let ghost added = endpoint_views(more@);
                out.append(&mut more);
                proof {
                    assert(endpoint_views(out@) =~= before + added);
                }
            },
        }
        proof {
            done = done + 1;
        }
    }
    proof {
        assert(all.take(done) =~= all);
    }
    Ok(out)
}

/// Builds the tree of a body from its schema: the tree is built under the
/// empty name, passed over once, and marked as the root; where it is an
/// object, its own name becomes its object name.
pub fn extract_root(schema: &SchemaRef, component_schemas: &IndexMap<String, SchemaRef>) -> (res:
    Result<DataStructure, Error>)
    ensures
        outcome(res) == root_of(*schema, registered(*component_schemas)),
        outcome(res) matches Ok(tree) ==> marked_at_top(tree) && flags_agree(tree),
{
    proof {
        reveal_strlit("");
        assert(""@ =~= Seq::<char>::empty());
        lemma_root_is_marked_at_top(*schema, registered(*component_schemas));
    }
    match extract_model(schema, component_schemas, "", false) {
        Err(e) => Err(e),
        Ok(tree) => {
            let mut tree = tree;
            tree.process_data();
            let ghost passed = tree@;
            tree.is_root = true;
            if tree.property_type == PropertyType::Object {
                tree.object_name = Some(tree.name.clone());
            }
            proof {
                assert(tree@.properties =~= passed.properties);
                assert(tree@.required_properties =~= passed.required_properties);
            }
            Ok(tree)
        },
    }
}

/// The value of the outcome of building the tree of a body.
pub open spec fn body_outcome(res: Result<Option<DataStructure>, Error>) -> Result<
    Option<Node>,
    ErrorView,
> {
    match res {
        Ok(Some(tree)) => Ok(Some(tree@)),
        Ok(None) => Ok(None),
        Err(e) => Err(e@),
    }
}

/// Builds the tree that an endpoint holds for a body.
fn body_tree_of(
    schema: Option<&SchemaRef>,
    component_schemas: &IndexMap<String, SchemaRef>,
    policy: Policy,
) -> (res: Result<Option<DataStructure>, Error>)
    ensures
        body_outcome(res) == body_tree(
            match schema {
                Some(s) => Some(*s),
                None => None,
            },
            registered(*component_schemas),
            policy,
        ),
{
    match schema {
        None => {
            if policy.require_content {
                Err(Error::MissingRequiredContent)
            } else {
                Ok(None)
            }
        },
        Some(s) => match extract_root(s, component_schemas) {
            Ok(tree) => Ok(Some(tree)),
            Err(e) => {
                if policy.partial_output {
                    Ok(None)
                } else {
                    Err(e)
                }
            },
        },
    }
}

/// The value of the outcome of extracting an endpoint.
pub open spec fn extracted_outcome(res: Result<EndpointExtracted, Error>) -> Result<
    ExtractedView,
    ErrorView,
> {
    match res {
        Ok(endpoint) => Ok(endpoint@),
        Err(e) => Err(e@),
    }
}

/// Builds the trees of the bodies of an endpoint.
pub fn extract_endpoint(
    endpoint: Endpoint,
    component_schemas: &IndexMap<String, SchemaRef>,
    policy: Policy,
) -> (res: Result<EndpointExtracted, Error>)
    ensures
        extracted_outcome(res) == extracted_endpoint(
            endpoint@,
            registered(*component_schemas),
            policy,
        ),
{
    let request_tree = match &endpoint.request {
        None => None,
        Some(body) => {
            let schema = json_schema_of(&body.content);
            match body_tree_of(schema, component_schemas, policy) {
                Err(e) => {
                    return Err(e);
                },
                Ok(tree) => tree,
            }
        },
    };
    let response_schema = match &endpoint.response {
        Some(response) => json_schema_of(&response.content),
        None => None,
    };
    let response_tree = match body_tree_of(response_schema, component_schemas, policy) {
        Err(e) => {
            return Err(e);
        },
        Ok(tree) => tree,
    };
    let mut extracted = EndpointExtracted::from(endpoint);
    extracted.request = request_tree;
    extracted.response = response_tree;
    proof {
        assert(extracted@.flat_response =~= Seq::<Node>::empty());
        assert(extracted@.flat_request =~= Seq::<Node>::empty());
    }
    Ok(extracted)
}

/// Once an endpoint fails, the endpoints that follow do not change the
/// outcome.
proof fn lemma_extraction_failure_stays(
    endpoints: Seq<EndpointView>,
    entries: Seq<(Seq<char>, SchemaRef)>,
    policy: Policy,
    upto: int,
)
    requires
        0 <= upto <= endpoints.len(),
        extracted_endpoints(endpoints.take(upto), entries, policy) is Err,
    ensures
        extracted_endpoints(endpoints, entries, policy) == extracted_endpoints(
            endpoints.take(upto),
            entries,
            policy,
        ),
    decreases endpoints.len(),
{
    if upto == endpoints.len() {
        assert(endpoints.take(upto) =~= endpoints);
    } else {
        let front = endpoints.drop_last();
        assert(front.take(upto) =~= endpoints.take(upto));
        lemma_extraction_failure_stays(front, entries, policy, upto);
    }
}

/// The value of the outcome of an extraction.
pub open spec fn template_outcome(res: Result<TemplateData, Error>) -> Result<
    TemplateDataView,
    ErrorView,
> {
    match res {
        Ok(data) => Ok(data@),
        Err(e) => Err(e@),
    }
}

/// Extracts the template data of a document: its endpoints, each with the
/// trees of its request and of its response. The lists of models are left
/// empty.
///
/// The endpoints are read off the paths first, and a path item, a parameter
/// or a request body given by reference fails the extraction as a construct
/// that is not covered. A document without components fails it as lacking
/// content. The trees are built endpoint by endpoint, the request before the
/// response, under the policy given.
#[verifier::loop_isolation(false)]
pub fn serde_openapi(document: Document, policy: Policy) -> (res: Result<TemplateData, Error>)
    ensures
        template_outcome(res) == extracted(document, policy),
{
    let Document { paths, schemas } = document;
    let endpoints = match endpoints_from(paths) {
        Err(e) => {
            return Err(e);
        },
        Ok(list) => list,
    };
    let component_schemas = match schemas {
        None => {
            return Err(Error::MissingRequiredContent);
        },
        Some(registry) => registry,
    };
    let ghost entries = registered(component_schemas);
    let ghost all = endpoint_views(endpoints@);
    let mut rest = endpoints;
    let mut template_data = TemplateData::new();
    let ghost mut done: int = 0;
    proof {
        assert(all.skip(0) =~= all);
        assert(all.take(0) =~= Seq::<EndpointView>::empty());
    }
    while rest.len() > 0
        invariant
            entries == registered(component_schemas),
            0 <= done <= all.len(),
            endpoint_views(rest@) == all.skip(done),
            template_data@.responses == Seq::<Node>::empty(),
            template_data@.requests == Seq::<Node>::empty(),
            extracted_endpoints(all.take(done), entries, policy) == Ok::<
                Seq<ExtractedView>,
                ErrorView,
            >(template_data@.endpoints),
        decreases rest.len(),
    {
        let ghost before = template_data@.endpoints;
        let ghost views = endpoint_views(rest@);
        proof {
            assert(views.len() == rest@.len());
            assert(all.skip(done).len() == all.len() - done);
            assert(views[0] == all.skip(done)[0]);
            assert(views[0] == rest@[0]@);
            assert(endpoint_views(rest@.remove(0)) =~= views.drop_first());
            assert(all.skip(done).drop_first() =~= all.skip(done + 1));
            assert(all.take(done + 1).drop_last() =~= all.take(done));
            assert(all.take(done + 1).last() == all[done]);
        }
        let endpoint = rest.remove(0);
        match extract_endpoint(endpoint, &component_schemas, policy) {
            Err(e) => {
                proof {
                    lemma_extraction_failure_stays(all, entries, policy, done + 1);
                }
                return Err(e);
            },
            Ok(extracted) => {
                let ghost view = extracted@;
                template_data.endpoints.push(extracted);
                proof {
                    assert(template_data@.endpoints =~= before.push(view));
                }
            },
        }
        proof {
            done = done + 1;
        }
    }
    proof {
        assert(all.take(done) =~= all);
    }
    Ok(template_data)
}

} // verus!
