//! The API-description document that conversion produces, and its meaning as
//! spec values.
//!
//! Named tables are lists of `(name, value)` entries with distinct names, in
//! the order the names first appeared.
use vstd::prelude::*;
use crate::data::Literal;
use crate::table::table_view;

verus! {

/// Extension fields: a literal value, or `None` for a value that renders as null.
pub type Attributes = Vec<(String, Option<Literal>)>;

#[derive(Debug)]
pub struct OpenApi {
    pub openapi: String,
    pub info: Info,
    pub servers: Vec<Server>,
    pub paths: Paths,
    pub components: Components,
    pub tags: Vec<Tag>,
}

#[derive(Debug)]
pub struct Info {
    pub title: String,
    pub version: String,
    pub description: Option<String>,
    pub terms_of_service: Option<String>,
}

#[derive(Debug)]
pub struct Server {
    pub url: String,
    pub attributes: Attributes,
}

#[derive(Debug)]
pub struct Paths {
    pub content: Vec<(String, Path)>,
}

#[derive(Debug)]
pub struct Components {
    pub schemas: Vec<(String, ReferenceOr<Schema>)>,
    pub responses: Vec<(String, Response)>,
    pub parameters: Vec<(String, Parameter)>,
    pub request_bodies: Vec<(String, ReferenceOr<RequestBody>)>,
    pub headers: Vec<(String, Parameter)>,
}

#[derive(Debug)]
pub struct Tag {
    pub name: String,
    pub attributes: Attributes,
}

#[derive(Debug)]
pub struct Path {
    pub parameters: Vec<ReferenceOr<Parameter>>,
    pub get: Option<Operation>,
    pub post: Option<Operation>,
    pub put: Option<Operation>,
    pub delete: Option<Operation>,
    pub options: Option<Operation>,
    pub head: Option<Operation>,
    pub patch: Option<Operation>,
    pub trace: Option<Operation>,
}

#[derive(Debug)]
pub struct Operation {
    pub operation_id: String,
    pub tags: Vec<String>,
    pub parameters: Vec<ReferenceOr<Parameter>>,
    pub request_body: Option<ReferenceOr<RequestBody>>,
    pub responses: Responses,
    pub attributes: Attributes,
}

#[derive(Debug)]
pub struct Responses {
    pub default: Option<ReferenceOr<Response>>,
    pub code: Vec<(String, ReferenceOr<Response>)>,
}

#[derive(Debug)]
pub enum Schema {
    String { format: Option<String>, selection: Option<Vec<String>>, attributes: Attributes },
    Object {
        required: Vec<String>,
        properties: Vec<(String, ReferenceOr<Schema>)>,
        attributes: Attributes,
    },
    Integer { format: Option<String>, attributes: Attributes },
    Number { attributes: Attributes },
    Boolean { attributes: Attributes },
    Array { items: Box<ReferenceOr<Schema>>, attributes: Attributes },
}

#[derive(Debug)]
pub struct Response {
    pub headers: Vec<(String, ReferenceOr<Parameter>)>,
    pub content: Vec<(String, MediaType)>,
    pub attributes: Attributes,
}

#[derive(Debug)]
pub struct Parameter {
    pub name: String,
    pub parameter_in: ParameterIn,
    pub required: bool,
    pub schema: ReferenceOr<Schema>,
    pub attributes: Attributes,
}

/// A pointer to a named component, or the value itself.
#[derive(Debug)]
pub enum ReferenceOr<T> {
    Ref { ref_path: String },
    Value(T),
}

#[derive(Debug, Clone, Copy, PartialEq, Eq, Structural)]
pub enum ParameterIn {
    Query,
    Header,
    Path,
    Cookie,
}

#[derive(Debug)]
pub struct RequestBody {
    pub content: Vec<(String, MediaType)>,
    pub attributes: Attributes,
}

#[derive(Debug)]
pub struct MediaType {
    pub schema: ReferenceOr<Schema>,
}

// ---- meaning ----

pub type AttributesView = Seq<(Seq<char>, Option<Literal>)>;

pub enum RefView<T> {
    Ref(Seq<char>),
    Value(T),
}

pub enum SchemaView {
    String {
        format: Option<Seq<char>>,
        selection: Option<Seq<Seq<char>>>,
        attributes: AttributesView,
    },
    Object {
        required: Seq<Seq<char>>,
        properties: Seq<(Seq<char>, RefView<SchemaView>)>,
        attributes: AttributesView,
    },
    Integer { format: Option<Seq<char>>, attributes: AttributesView },
    Number { attributes: AttributesView },
    Boolean { attributes: AttributesView },
    Array { items: Box<RefView<SchemaView>>, attributes: AttributesView },
}

pub struct ParameterView {
    pub name: Seq<char>,
    pub parameter_in: ParameterIn,
    pub required: bool,
    pub schema: RefView<SchemaView>,
    pub attributes: AttributesView,
}

/// A response has one media entry, `application/json`, holding its schema.
pub struct ResponseView {
    pub headers: Seq<(Seq<char>, RefView<ParameterView>)>,
    pub content: Seq<(Seq<char>, RefView<SchemaView>)>,
    pub attributes: AttributesView,
}

pub struct RequestBodyView {
    pub content: Seq<(Seq<char>, RefView<SchemaView>)>,
    pub attributes: AttributesView,
}

pub struct OperationView {
    pub operation_id: Seq<char>,
    pub parameters: Seq<RefView<ParameterView>>,
    pub request_body: Option<RefView<RequestBodyView>>,
    pub default_response: Option<RefView<ResponseView>>,
    pub responses: Seq<(Seq<char>, RefView<ResponseView>)>,
    pub tags: Seq<Seq<char>>,
    pub attributes: AttributesView,
}

pub struct PathView {
    pub parameters: Seq<RefView<ParameterView>>,
    pub get: Option<OperationView>,
    pub post: Option<OperationView>,
    pub put: Option<OperationView>,
    pub delete: Option<OperationView>,
    pub options: Option<OperationView>,
    pub head: Option<OperationView>,
    pub patch: Option<OperationView>,
    pub trace: Option<OperationView>,
}

pub struct InfoView {
    pub title: Seq<char>,
    pub version: Seq<char>,
    pub description: Option<Seq<char>>,
    pub terms_of_service: Option<Seq<char>>,
}

pub struct ComponentsView {
    pub schemas: Seq<(Seq<char>, RefView<SchemaView>)>,
    pub responses: Seq<(Seq<char>, ResponseView)>,
    pub request_bodies: Seq<(Seq<char>, RefView<RequestBodyView>)>,
    pub parameters: Seq<(Seq<char>, ParameterView)>,
    pub headers: Seq<(Seq<char>, ParameterView)>,
}

pub struct ServerView {
    pub url: Seq<char>,
    pub attributes: AttributesView,
}

pub struct TagView {
    pub name: Seq<char>,
    pub attributes: AttributesView,
}

pub struct OpenApiView {
    pub openapi: Seq<char>,
    pub info: InfoView,
    pub paths: Seq<(Seq<char>, PathView)>,
    pub components: ComponentsView,
    pub tags: Seq<TagView>,
    pub servers: Seq<ServerView>,
}

pub open spec fn opt_view(o: Option<String>) -> Option<Seq<char>> {
    match o {
        Some(s) => Some(s@),
        None => None,
    }
}

pub open spec fn attributes_view(a: Seq<(String, Option<Literal>)>) -> AttributesView {
    a.map_values(|p: (String, Option<Literal>)| (p.0@, p.1))
}

pub open spec fn strings_view(v: Seq<String>) -> Seq<Seq<char>> {
    v.map_values(|s: String| s@)
}

pub open spec fn schema_ref_view(r: ReferenceOr<Schema>) -> RefView<SchemaView>
    decreases r, 1nat,
{
    match r {
        ReferenceOr::Ref { ref_path } => RefView::Ref(ref_path@),
        ReferenceOr::Value(s) => RefView::Value(schema_view(s)),
    }
}

pub open spec fn schema_view(s: Schema) -> SchemaView
    decreases s, 0nat,
{
    match s {
        Schema::String { format, selection, attributes } => SchemaView::String {
            format: opt_view(format),
            selection: match selection {
                Some(v) => Some(strings_view(v@)),
                None => None,
            },
            attributes: attributes_view(attributes@),
        },
        Schema::Object { required, properties, attributes } => SchemaView::Object {
            required: strings_view(required@),
            properties: properties_view(properties, properties@.len() as int),
            attributes: attributes_view(attributes@),
        },
        Schema::Integer { format, attributes } => SchemaView::Integer {
            format: opt_view(format),
            attributes: attributes_view(attributes@),
        },
        Schema::Number { attributes } => SchemaView::Number { attributes: attributes_view(attributes@) },
        Schema::Boolean { attributes } => SchemaView::Boolean {
            attributes: attributes_view(attributes@),
        },
        Schema::Array { items, attributes } => SchemaView::Array {
            items: Box::new(schema_ref_view(*items)),
            attributes: attributes_view(attributes@),
        },
    }
}

/// The meaning of the first `n` properties.
pub open spec fn properties_view(p: Vec<(String, ReferenceOr<Schema>)>, n: int) -> Seq<
    (Seq<char>, RefView<SchemaView>),
>
    decreases p, n,
{
    if n <= 0 || n > p@.len() {
        Seq::empty()
    } else {
        properties_view(p, n - 1).push((p@[n - 1].0@, schema_ref_view(p@[n - 1].1)))
    }
}

pub open spec fn media_view(m: Seq<(String, MediaType)>) -> Seq<(Seq<char>, RefView<SchemaView>)> {
    m.map_values(|e: (String, MediaType)| (e.0@, schema_ref_view(e.1.schema)))
}

pub open spec fn parameter_view(p: Parameter) -> ParameterView {
    ParameterView {
        name: p.name@,
        parameter_in: p.parameter_in,
        required: p.required,
        schema: schema_ref_view(p.schema),
        attributes: attributes_view(p.attributes@),
    }
}

pub open spec fn parameter_ref_view(r: ReferenceOr<Parameter>) -> RefView<ParameterView> {
    match r {
        ReferenceOr::Ref { ref_path } => RefView::Ref(ref_path@),
        ReferenceOr::Value(p) => RefView::Value(parameter_view(p)),
    }
}

pub open spec fn parameter_ref_fn() -> spec_fn(ReferenceOr<Parameter>) -> RefView<ParameterView> {
    |p: ReferenceOr<Parameter>| parameter_ref_view(p)
}

pub open spec fn response_view(r: Response) -> ResponseView {
    ResponseView {
        headers: table_view(r.headers@, parameter_ref_fn()),
        content: media_view(r.content@),
        attributes: attributes_view(r.attributes@),
    }
}

pub open spec fn response_ref_view(r: ReferenceOr<Response>) -> RefView<ResponseView> {
    match r {
        ReferenceOr::Ref { ref_path } => RefView::Ref(ref_path@),
        ReferenceOr::Value(v) => RefView::Value(response_view(v)),
    }
}

pub open spec fn response_ref_fn() -> spec_fn(ReferenceOr<Response>) -> RefView<ResponseView> {
    |r: ReferenceOr<Response>| response_ref_view(r)
}

pub open spec fn request_body_view(b: RequestBody) -> RequestBodyView {
    RequestBodyView { content: media_view(b.content@), attributes: attributes_view(b.attributes@) }
}

pub open spec fn request_body_ref_view(r: ReferenceOr<RequestBody>) -> RefView<RequestBodyView> {
    match r {
        ReferenceOr::Ref { ref_path } => RefView::Ref(ref_path@),
        ReferenceOr::Value(v) => RefView::Value(request_body_view(v)),
    }
}

pub open spec fn operation_view(o: Operation) -> OperationView {
    OperationView {
        operation_id: o.operation_id@,
        parameters: o.parameters@.map_values(|p: ReferenceOr<Parameter>| parameter_ref_view(p)),
        request_body: match o.request_body {
            Some(b) => Some(request_body_ref_view(b)),
            None => None,
        },
        default_response: match o.responses.default {
            Some(r) => Some(response_ref_view(r)),
            None => None,
        },
        responses: table_view(o.responses.code@, response_ref_fn()),
        tags: strings_view(o.tags@),
        attributes: attributes_view(o.attributes@),
    }
}

pub open spec fn opt_operation_view(o: Option<Operation>) -> Option<OperationView> {
    match o {
        Some(o) => Some(operation_view(o)),
        None => None,
    }
}

pub open spec fn path_view(p: Path) -> PathView {
    PathView {
        parameters: p.parameters@.map_values(|q: ReferenceOr<Parameter>| parameter_ref_view(q)),
        get: opt_operation_view(p.get),
        post: opt_operation_view(p.post),
        put: opt_operation_view(p.put),
        delete: opt_operation_view(p.delete),
        options: opt_operation_view(p.options),
        head: opt_operation_view(p.head),
        patch: opt_operation_view(p.patch),
        trace: opt_operation_view(p.trace),
    }
}

pub open spec fn info_view(i: Info) -> InfoView {
    InfoView {
        title: i.title@,
        version: i.version@,
        description: opt_view(i.description),
        terms_of_service: opt_view(i.terms_of_service),
    }
}

pub open spec fn schema_ref_fn() -> spec_fn(ReferenceOr<Schema>) -> RefView<SchemaView> {
    |r: ReferenceOr<Schema>| schema_ref_view(r)
}

pub open spec fn response_fn() -> spec_fn(Response) -> ResponseView {
    |r: Response| response_view(r)
}

pub open spec fn request_body_ref_fn() -> spec_fn(ReferenceOr<RequestBody>) -> RefView<RequestBodyView> {
    |r: ReferenceOr<RequestBody>| request_body_ref_view(r)
}

pub open spec fn path_fn() -> spec_fn(Path) -> PathView {
    |p: Path| path_view(p)
}

pub open spec fn schema_table_view(t: Seq<(String, ReferenceOr<Schema>)>) -> Seq<
    (Seq<char>, RefView<SchemaView>),
> {
    table_view(t, schema_ref_fn())
}

pub open spec fn response_table_view(t: Seq<(String, Response)>) -> Seq<(Seq<char>, ResponseView)> {
    table_view(t, response_fn())
}

pub open spec fn request_body_table_view(t: Seq<(String, ReferenceOr<RequestBody>)>) -> Seq<
    (Seq<char>, RefView<RequestBodyView>),
> {
    table_view(t, request_body_ref_fn())
}

pub open spec fn path_table_view(t: Seq<(String, Path)>) -> Seq<(Seq<char>, PathView)> {
    table_view(t, path_fn())
}

pub open spec fn tags_view(t: Seq<Tag>) -> Seq<TagView> {
    t.map_values(|e: Tag| tag_view(e))
}

pub open spec fn components_view(c: Components) -> ComponentsView {
    ComponentsView {
        schemas: schema_table_view(c.schemas@),
        responses: response_table_view(c.responses@),
        request_bodies: request_body_table_view(c.request_bodies@),
        parameters: c.parameters@.map_values(|e: (String, Parameter)| (e.0@, parameter_view(e.1))),
        headers: c.headers@.map_values(|e: (String, Parameter)| (e.0@, parameter_view(e.1))),
    }
}

pub open spec fn tag_view(t: Tag) -> TagView {
    TagView { name: t.name@, attributes: attributes_view(t.attributes@) }
}

/// The meaning of a document.
pub open spec fn document_view(d: OpenApi) -> OpenApiView {
    OpenApiView {
        openapi: d.openapi@,
        info: info_view(d.info),
        paths: path_table_view(d.paths.content@),
        components: components_view(d.components),
        tags: tags_view(d.tags@),
        servers: d.servers@.map_values(
            |v: Server| ServerView { url: v.url@, attributes: attributes_view(v.attributes@) },
        ),
    }
}

} // verus!
