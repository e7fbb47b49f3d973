//! The description of an API: servers, routes with their operations and
//! parameters, and the table of reusable components.

use vstd::prelude::*;
use crate::reference::{RefOr, RefOrView};
use crate::schema::{copy_slot, Schema, SchemaView};
use crate::table::ComponentTable;

verus! {

/// The models of a sequence of values.
pub open spec fn views<T: View>(items: Seq<T>) -> Seq<T::V> {
    Seq::new(items.len(), |i: int| items[i]@)
}

/// The model of an optional value.
pub open spec fn option_view<T: View>(item: Option<T>) -> Option<T::V> {
    match item {
        Some(value) => Some(value@),
        None => None,
    }
}

/// Where a parameter stands in a request.
#[derive(Debug, Clone, Copy, PartialEq, Eq, Structural)]
pub enum Location {
    Query,
    Header,
    Path,
    Cookie,
}

/// How a parameter describes its value: by a schema, or by media types.
#[derive(Debug)]
pub enum ParameterSchemaOrContent {
    Schema(RefOr<Schema>),
    Content,
}

pub enum FormatView {
    Schema(RefOrView<SchemaView>),
    Content,
}

impl View for ParameterSchemaOrContent {
    type V = FormatView;

    open spec fn view(&self) -> FormatView {
        match *self {
            ParameterSchemaOrContent::Schema(slot) => FormatView::Schema(slot@),
            ParameterSchemaOrContent::Content => FormatView::Content,
        }
    }
}

#[derive(Debug)]
pub struct ParameterData {
    pub name: String,
    pub required: bool,
    pub format: ParameterSchemaOrContent,
}

/// A declared parameter; the variant says where it stands in a request.
#[derive(Debug)]
pub enum Parameter {
    Query { parameter_data: ParameterData },
    Header { parameter_data: ParameterData },
    Path { parameter_data: ParameterData },
    Cookie { parameter_data: ParameterData },
}

pub struct ParameterView {
    pub location: Location,
    pub name: Seq<char>,
    pub required: bool,
    pub format: FormatView,
}

impl Parameter {
    /// The data of the parameter, whatever its location.
    pub open spec fn data(self) -> ParameterData {
        match self {
            Parameter::Query { parameter_data } => parameter_data,
            Parameter::Header { parameter_data } => parameter_data,
            Parameter::Path { parameter_data } => parameter_data,
            Parameter::Cookie { parameter_data } => parameter_data,
        }
    }

    /// Where the parameter stands in a request.
    pub open spec fn place(self) -> Location {
        match self {
            Parameter::Query { .. } => Location::Query,
            Parameter::Header { .. } => Location::Header,
            Parameter::Path { .. } => Location::Path,
            Parameter::Cookie { .. } => Location::Cookie,
        }
    }
}

impl View for Parameter {
    type V = ParameterView;

    open spec fn view(&self) -> ParameterView {
        ParameterView {
            location: self.place(),
            name: self.data().name@,
            required: self.data().required,
            format: self.data().format@,
        }
    }
}

/// A response header.
#[derive(Debug)]
pub struct Header {
    pub required: bool,
    pub description: String,
}

pub struct HeaderView {
    pub required: bool,
    pub description: Seq<char>,
}

impl View for Header {
    type V = HeaderView;

    open spec fn view(&self) -> HeaderView {
        HeaderView { required: self.required, description: self.description@ }
    }
}

/// One media type of a body, with the schema of its content. Media types
/// stand in a list in the order of the description; where a name occurs more
/// than once, a lookup finds the first.
#[derive(Debug)]
pub struct MediaType {
    pub name: String,
    pub schema: Option<RefOr<Schema>>,
}

pub struct MediaTypeView {
    pub name: Seq<char>,
    pub schema: Option<RefOrView<SchemaView>>,
}

impl View for MediaType {
    type V = MediaTypeView;

    open spec fn view(&self) -> MediaTypeView {
        MediaTypeView { name: self.name@, schema: option_view(self.schema) }
    }
}

#[derive(Debug)]
pub struct RequestBody {
    pub required: bool,
    pub content: Vec<MediaType>,
}

pub struct RequestBodyView {
    pub required: bool,
    pub content: Seq<MediaTypeView>,
}

impl View for RequestBody {
    type V = RequestBodyView;

    open spec fn view(&self) -> RequestBodyView {
        RequestBodyView { required: self.required, content: views(self.content@) }
    }
}

/// A header of a response, under its name. Headers stand in a list in the
/// order of the description; nothing looks one up by its name.
#[derive(Debug)]
pub struct NamedHeader {
    pub name: String,
    pub header: RefOr<Header>,
}

pub struct NamedHeaderView {
    pub name: Seq<char>,
    pub header: RefOrView<HeaderView>,
}

impl View for NamedHeader {
    type V = NamedHeaderView;

    open spec fn view(&self) -> NamedHeaderView {
        NamedHeaderView { name: self.name@, header: self.header@ }
    }
}

#[derive(Debug)]
pub struct Response {
    pub description: String,
    pub headers: Vec<NamedHeader>,
    pub content: Vec<MediaType>,
}

pub struct ResponseView {
    pub description: Seq<char>,
    pub headers: Seq<NamedHeaderView>,
    pub content: Seq<MediaTypeView>,
}

impl View for Response {
    type V = ResponseView;

    open spec fn view(&self) -> ResponseView {
        ResponseView {
            description: self.description@,
            headers: views(self.headers@),
            content: views(self.content@),
        }
    }
}

/// The status that a response is declared for: one code, or a range of a
/// hundred codes given by its first digit.
#[derive(Debug, Clone, Copy, PartialEq, Eq, Structural)]
pub enum StatusCode {
    Code(u16),
    Range(u16),
}

/// A response of an operation, under its status. Responses stand in a list
/// in the order of the description; where a status occurs more than once, a
/// lookup finds the first.
#[derive(Debug)]
pub struct StatusResponse {
    pub status: StatusCode,
    pub response: RefOr<Response>,
}

pub struct StatusResponseView {
    pub status: StatusCode,
    pub response: RefOrView<ResponseView>,
}

impl View for StatusResponse {
    type V = StatusResponseView;

    open spec fn view(&self) -> StatusResponseView {
        StatusResponseView { status: self.status, response: self.response@ }
    }
}

/// What one method of a route accepts and returns.
#[derive(Debug)]
pub struct Operation {
    pub parameters: Vec<RefOr<Parameter>>,
    pub request_body: Option<RefOr<RequestBody>>,
    pub responses: Vec<StatusResponse>,
}

pub struct OperationView {
    pub parameters: Seq<RefOrView<ParameterView>>,
    pub request_body: Option<RefOrView<RequestBodyView>>,
    pub responses: Seq<StatusResponseView>,
}

impl View for Operation {
    type V = OperationView;

    open spec fn view(&self) -> OperationView {
        OperationView {
            parameters: views(self.parameters@),
            request_body: option_view(self.request_body),
            responses: views(self.responses@),
        }
    }
}

/// The operations of one route, by method, and the parameters that all of
/// them share.
#[derive(Debug)]
pub struct PathItem {
    pub get: Option<Operation>,
    pub put: Option<Operation>,
    pub post: Option<Operation>,
    pub delete: Option<Operation>,
    pub options: Option<Operation>,
    pub head: Option<Operation>,
    pub patch: Option<Operation>,
    pub trace: Option<Operation>,
    pub parameters: Vec<RefOr<Parameter>>,
}

/// The model of a path item. Its operations stand in the order
/// delete, get, head, options, patch, post, put, trace.
pub struct PathItemView {
    pub parameters: Seq<RefOrView<ParameterView>>,
    pub operations: Seq<Option<OperationView>>,
}

impl View for PathItem {
    type V = PathItemView;

    open spec fn view(&self) -> PathItemView {
        PathItemView {
            parameters: views(self.parameters@),
            operations: seq![
                option_view(self.delete),
                option_view(self.get),
                option_view(self.head),
                option_view(self.options),
                option_view(self.patch),
                option_view(self.post),
                option_view(self.put),
                option_view(self.trace),
            ],
        }
    }
}

/// A variable of a server's address, with the value it has by default.
/// Variables stand in a list in the order of the description; where a name
/// occurs more than once, a lookup finds the first.
#[derive(Debug)]
pub struct ServerVariable {
    pub name: String,
    pub default: String,
}

#[derive(Debug)]
pub struct Server {
    pub url: String,
    pub variables: Option<Vec<ServerVariable>>,
}

pub struct ServerVariableView {
    pub name: Seq<char>,
    pub default: Seq<char>,
}

impl View for ServerVariable {
    type V = ServerVariableView;

    open spec fn view(&self) -> ServerVariableView {
        ServerVariableView { name: self.name@, default: self.default@ }
    }
}

pub struct ServerView {
    pub url: Seq<char>,
    pub variables: Option<Seq<ServerVariableView>>,
}

impl View for Server {
    type V = ServerView;

    open spec fn view(&self) -> ServerView {
        ServerView {
            url: self.url@,
            variables: match self.variables {
                Some(variables) => Some(views(variables@)),
                None => None,
            },
        }
    }
}

/// The categories of reusable components.
pub struct Components {
    pub schemas: ComponentTable<Schema>,
    pub parameters: ComponentTable<Parameter>,
    pub request_bodies: ComponentTable<RequestBody>,
    pub responses: ComponentTable<Response>,
    pub headers: ComponentTable<Header>,
}

pub struct ComponentsView {
    pub schemas: Map<Seq<char>, RefOrView<SchemaView>>,
    pub parameters: Map<Seq<char>, RefOrView<ParameterView>>,
    pub request_bodies: Map<Seq<char>, RefOrView<RequestBodyView>>,
    pub responses: Map<Seq<char>, RefOrView<ResponseView>>,
    pub headers: Map<Seq<char>, RefOrView<HeaderView>>,
}

impl View for Components {
    type V = ComponentsView;

    open spec fn view(&self) -> ComponentsView {
        ComponentsView {
            schemas: self.schemas@,
            parameters: self.parameters@,
            request_bodies: self.request_bodies@,
            responses: self.responses@,
            headers: self.headers@,
        }
    }
}

/// A route template with what it declares. Routes stand in a list in the
/// order of the description, and a template may occur more than once: each
/// occurrence is a route of its own, and of routes that match a path equally
/// well the first is chosen.
#[derive(Debug)]
pub struct Route {
    pub template: String,
    pub item: PathItem,
}

pub struct RouteView {
    pub template: Seq<char>,
    pub item: PathItemView,
}

impl View for Route {
    type V = RouteView;

    open spec fn view(&self) -> RouteView {
        RouteView { template: self.template@, item: self.item@ }
    }
}

/// A description of an API.
pub struct Document {
    pub servers: Vec<Server>,
    pub paths: Vec<Route>,
    pub components: Option<Components>,
}

pub struct DocumentView {
    pub servers: Seq<ServerView>,
    pub paths: Seq<RouteView>,
    pub components: Option<ComponentsView>,
}

impl View for Document {
    type V = DocumentView;

    open spec fn view(&self) -> DocumentView {
        DocumentView {
            servers: views(self.servers@),
            paths: views(self.paths@),
            components: option_view(self.components),
        }
    }
}

/// Components without any name.
pub open spec fn empty_components() -> ComponentsView {
    ComponentsView {
        schemas: Map::empty(),
        parameters: Map::empty(),
        request_bodies: Map::empty(),
        responses: Map::empty(),
        headers: Map::empty(),
    }
}

impl Components {
    /// Components without any name.
    pub fn new() -> (components: Components)
        ensures
            components@ == empty_components(),
    {
        let components = Components {
            schemas: ComponentTable::new(),
            parameters: ComponentTable::new(),
            request_bodies: ComponentTable::new(),
            responses: ComponentTable::new(),
            headers: ComponentTable::new(),
        };
        assert(components.schemas@ =~= Map::empty());
        assert(components.parameters@ =~= Map::empty());
        assert(components.request_bodies@ =~= Map::empty());
        assert(components.responses@ =~= Map::empty());
        assert(components.headers@ =~= Map::empty());
        components
    }
}

impl ParameterSchemaOrContent {
    /// A copy with the same model.
    pub fn copy(&self) -> (out: ParameterSchemaOrContent)
        ensures
            out@ == self@,
    {
        match self {
            ParameterSchemaOrContent::Schema(slot) => ParameterSchemaOrContent::Schema(
                copy_slot(slot),
            ),
            ParameterSchemaOrContent::Content => ParameterSchemaOrContent::Content,
        }
    }
}

impl Parameter {
    /// The parameter that stands where `like` stands and holds
    /// `parameter_data`.
    pub fn with_data(like: &Parameter, parameter_data: ParameterData) -> (out: Parameter)
        ensures
            out.place() == like.place(),
            out.data() == parameter_data,
    {
        match like {
            Parameter::Query { .. } => Parameter::Query { parameter_data },
            Parameter::Header { .. } => Parameter::Header { parameter_data },
            Parameter::Path { .. } => Parameter::Path { parameter_data },
            Parameter::Cookie { .. } => Parameter::Cookie { parameter_data },
        }
    }

    /// The data of the parameter, whatever its location.
    pub fn parameter_data(&self) -> (data: &ParameterData)
        ensures
            *data == self.data(),
    {
        match self {
            Parameter::Query { parameter_data } => parameter_data,
            Parameter::Header { parameter_data } => parameter_data,
            Parameter::Path { parameter_data } => parameter_data,
            Parameter::Cookie { parameter_data } => parameter_data,
        }
    }

    /// A copy with the same model.
    pub fn copy(&self) -> (out: Parameter)
        ensures
            out@ == self@,
    {
        let data = self.parameter_data();
        Parameter::with_data(
            self,
            ParameterData {
                name: data.name.clone(),
                required: data.required,
                format: data.format.copy(),
            },
        )
    }
}

impl Header {
    /// A copy with the same model.
    pub fn copy(&self) -> (out: Header)
        ensures
            out@ == self@,
    {
        Header { required: self.required, description: self.description.clone() }
    }
}

} // verus!
