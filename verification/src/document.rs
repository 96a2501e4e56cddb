use indexmap::IndexMap;
use openapiv3::Parameter;
use vstd::prelude::*;
use crate::model::{nodes_of, DataStructure, Node};
use crate::text::text_of;
use crate::schema::SchemaRef;

verus! {

/// `openapiv3::Parameter`, a parameter of an operation. The library carries
/// parameters from the document to the template data and reads nothing in
/// them.
#[verifier::external_type_specification]
#[verifier::external_body]
pub struct ExParameter(Parameter);

/// The schema that a body offers for one media type.
#[derive(Debug)]
pub struct ContentEntry {
    pub media_type: String,
    pub schema: Option<SchemaRef>,
}

/// The body of a request: what it offers for each media type, in the order
/// of the document.
#[derive(Debug)]
pub struct RequestBody {
    pub content: Vec<ContentEntry>,
}

/// A response: what it offers for each media type, in the order of the
/// document.
#[derive(Debug)]
pub struct Response {
    pub content: Vec<ContentEntry>,
}

/// The status that a response is declared for: one code, or a range of a
/// hundred codes given by its first digit.
#[derive(Clone, Copy, Debug, PartialEq, Eq, Structural)]
pub enum StatusCode {
    Code(u16),
    Range(u16),
}

/// A response as an operation declares it. A response given by reference
/// stands as `None`.
#[derive(Debug)]
pub struct ResponseEntry {
    pub status: StatusCode,
    pub response: Option<Response>,
}

/// One operation of a path. A parameter, and a request body, given by
/// reference stands as `None`.
#[derive(Debug)]
pub struct Operation {
    pub method: String,
    pub description: Option<String>,
    pub parameters: Vec<Option<Parameter>>,
    pub responses: Vec<ResponseEntry>,
    pub request_body: Option<Option<RequestBody>>,
}

/// One path of a document with its operations in the order of their
/// methods. A path item given by reference stands as `None`.
#[derive(Debug)]
pub struct PathEntry {
    pub path: String,
    pub operations: Option<Vec<Operation>>,
}

/// A document: its paths in their order, and the named schemas of its
/// components where it has components.
#[derive(Debug)]
pub struct Document {
    pub paths: Vec<PathEntry>,
    pub schemas: Option<IndexMap<String, SchemaRef>>,
}

/// One operation of one path, with the request body and the response from
/// which its models are built.
#[derive(Debug)]
pub struct Endpoint {
    pub path: String,
    pub method: String,
    pub description: Option<String>,
    pub parameters: Vec<Parameter>,
    pub request: Option<RequestBody>,
    pub response: Option<Response>,
}

/// One operation of one path with its models: the trees of its request and
/// of its response, and the lists of the models in each.
#[derive(Debug)]
pub struct EndpointExtracted {
    pub path: String,
    pub method: String,
    pub description: Option<String>,
    pub parameters: Vec<Parameter>,
    pub request: Option<DataStructure>,
    pub response: Option<DataStructure>,
    pub flat_response: Vec<DataStructure>,
    pub flat_request: Vec<DataStructure>,
}

/// What the templates are rendered from: the endpoints, and the models of
/// all requests and of all responses, each model once.
#[derive(Debug)]
pub struct TemplateData {
    pub endpoints: Vec<EndpointExtracted>,
    pub responses: Vec<DataStructure>,
    pub requests: Vec<DataStructure>,
}

/// What to do where a document lacks something or cannot be built.
#[derive(Clone, Copy, Debug, PartialEq, Eq, Structural)]
pub struct Policy {
    /// Whether a body without a JSON schema fails the extraction. Where it
    /// does not, the endpoint stands without that body.
    pub require_content: bool,
    /// Whether a body whose tree cannot be built is left out. Where it is
    /// not, its failure fails the extraction.
    pub partial_output: bool,
}

/// The mathematical value of an endpoint before its models are built.
pub struct EndpointView {
    pub path: Seq<char>,
    pub method: Seq<char>,
    pub description: Option<Seq<char>>,
    pub parameters: Seq<Parameter>,
    pub request: Option<RequestBody>,
    pub response: Option<Response>,
}

impl View for Endpoint {
    type V = EndpointView;

    open spec fn view(&self) -> EndpointView {
        EndpointView {
            path: self.path@,
            method: self.method@,
            description: text_of(self.description),
            parameters: self.parameters@,
            request: self.request,
            response: self.response,
        }
    }
}

/// The value of an optional tree.
pub open spec fn tree_of(tree: Option<DataStructure>) -> Option<Node> {
    match tree {
        Some(d) => Some(d@),
        None => None,
    }
}

/// The mathematical value of an endpoint with its models.
pub struct ExtractedView {
    pub path: Seq<char>,
    pub method: Seq<char>,
    pub description: Option<Seq<char>>,
    pub parameters: Seq<Parameter>,
    pub request: Option<Node>,
    pub response: Option<Node>,
    pub flat_response: Seq<Node>,
    pub flat_request: Seq<Node>,
}

impl View for EndpointExtracted {
    type V = ExtractedView;

    open spec fn view(&self) -> ExtractedView {
        ExtractedView {
            path: self.path@,
            method: self.method@,
            description: text_of(self.description),
            parameters: self.parameters@,
            request: tree_of(self.request),
            response: tree_of(self.response),
            flat_response: nodes_of(self.flat_response@),
            flat_request: nodes_of(self.flat_request@),
        }
    }
}

/// The values of a list of endpoints with their models.
pub open spec fn extracted_views(list: Seq<EndpointExtracted>) -> Seq<ExtractedView> {
    list.map_values(|e: EndpointExtracted| e@)
}

/// The mathematical value of the template data.
pub struct TemplateDataView {
    pub endpoints: Seq<ExtractedView>,
    pub responses: Seq<Node>,
    pub requests: Seq<Node>,
}

impl View for TemplateData {
    type V = TemplateDataView;

    open spec fn view(&self) -> TemplateDataView {
        TemplateDataView {
            endpoints: extracted_views(self.endpoints@),
            responses: nodes_of(self.responses@),
            requests: nodes_of(self.requests@),
        }
    }
}

impl EndpointExtracted {
    /// Makes the endpoint with models yet to be built from an endpoint of the
    /// document: it takes over path, method, description and parameters.
    pub fn from(endpoint: Endpoint) -> (res: EndpointExtracted)
        ensures
            res@ == (ExtractedView {
                path: endpoint@.path,
                method: endpoint@.method,
                description: endpoint@.description,
                parameters: endpoint@.parameters,
                request: None,
                response: None,
                flat_response: Seq::empty(),
                flat_request: Seq::empty(),
            }),
    {
        let res = EndpointExtracted {
            path: endpoint.path,
            method: endpoint.method,
            description: endpoint.description,
            parameters: endpoint.parameters,
            request: None,
            response: None,
            flat_response: Vec::new(),
            flat_request: Vec::new(),
        };
        assert(res@.flat_response =~= Seq::<Node>::empty());
        assert(res@.flat_request =~= Seq::<Node>::empty());
        res
    }
}

impl TemplateData {
    /// Makes template data with no endpoint and no model.
    pub fn new() -> (res: TemplateData)
        ensures
            res@ == (TemplateDataView {
                endpoints: Seq::empty(),
                responses: Seq::empty(),
                requests: Seq::empty(),
            }),
    {
        let res = TemplateData { endpoints: Vec::new(), responses: Vec::new(), requests: Vec::new() };
        assert(res@.endpoints =~= Seq::<ExtractedView>::empty());
        assert(res@.responses =~= Seq::<Node>::empty());
        assert(res@.requests =~= Seq::<Node>::empty());
        res
    }
}

impl Default for TemplateData {
    fn default() -> (res: TemplateData)
        ensures
            res@ == (TemplateDataView {
                endpoints: Seq::empty(),
                responses: Seq::empty(),
                requests: Seq::empty(),
            }),
    {
        TemplateData::new()
    }
}

} // verus!
