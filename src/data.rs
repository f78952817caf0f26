//! The syntax tree that parsing one source file produces.
use vstd::prelude::*;

verus! {

/// Either a name to be resolved later, or a value written in place.
#[derive(Debug)]
pub enum ReferenceOr<T> {
    Ref(String),
    Value(T),
}

/// A top-level construct of a source file.
#[derive(Debug)]
pub enum Object {
    Schema(Schema),
    Tag(Tag),
    Response(Response),
    Path(Path),
    RequestBody(RequestBody),
    Enum(Enum),
    Info(Info),
}

/// An attribute value: a literal, or a bare identifier that nothing binds.
#[derive(Debug)]
pub enum Value {
    Immediate(Literal),
    Identifier(String),
}

/// Attributes, in order of first appearance; each name occurs at most once.
pub type Attributes = Vec<(String, Value)>;

#[derive(Debug, Clone)]
pub struct Import {
    pub file: String,
}

#[derive(Debug)]
pub struct SourceFileContent {
    pub imports: Vec<Import>,
    pub objects: Vec<Object>,
}

#[derive(Debug, Clone)]
pub struct Info {
    pub is_default: bool,
    pub config_name: String,
    pub title: Option<String>,
    pub summary: Option<String>,
    pub description: Option<String>,
    pub terms_of_service: Option<String>,
    pub version: Option<String>,
    pub base: Option<String>,
}

#[derive(Debug)]
pub struct Parameters {
    pub parameters: Vec<Parameter>,
}

#[derive(Debug)]
pub struct Parameter {
    pub name: String,
    pub ty: Option<ParameterType>,
    pub content: ParameterContent,
}

#[derive(Debug, Clone, Copy, PartialEq, Eq, Structural)]
pub enum ParameterType {
    Query,
    Header,
    Path,
    Cookie,
}

#[derive(Debug)]
pub struct ParameterContent {
    pub content: TypeWithAttributes,
    pub requirement: Requirement,
    pub attributes: Attributes,
}

#[derive(Debug)]
pub struct Path {
    pub name: String,
    pub attributes: Attributes,
    pub content: PathContent,
}

/// The shared parameters of a route and at most one operation per verb.
#[derive(Debug)]
pub struct PathContent {
    pub parameters: Parameters,
    pub get: Option<Operation>,
    pub post: Option<Operation>,
    pub put: Option<Operation>,
    pub delete: Option<Operation>,
    pub options: Option<Operation>,
    pub patch: Option<Operation>,
    pub head: Option<Operation>,
    pub trace: Option<Operation>,
}

#[derive(Debug, Clone, Copy, PartialEq, Eq, Structural)]
pub enum HttpMethod {
    Default,
    Get,
    Post,
    Put,
    Delete,
    Options,
    Head,
    Trace,
    Patch,
}

#[derive(Debug)]
pub struct Operation {
    pub name: String,
    pub method: HttpMethod,
    pub parameters: Parameters,
    pub content: OperationContent,
    pub request_body: Option<ReferenceOr<RequestBodyContent>>,
}

/// The responses of an operation: the default one and one per status code,
/// each code occurring at most once.
#[derive(Debug)]
pub struct OperationContent {
    pub default: Option<ReferenceOr<ResponseContent>>,
    pub response: Vec<(String, ReferenceOr<ResponseContent>)>,
}

#[derive(Debug)]
pub struct RequestBody {
    pub name: String,
    pub content: RequestBodyContent,
}

#[derive(Debug)]
pub struct RequestBodyContent {
    pub content: TypeWithAttributes,
    pub attributes: Attributes,
}

#[derive(Debug)]
pub struct Response {
    pub name: String,
    pub content: ResponseContent,
}

#[derive(Debug)]
pub struct ResponseContent {
    pub attributes: Attributes,
    pub headers: Parameters,
    pub content: TypeWithAttributes,
}

#[derive(Debug)]
pub struct Header {
    pub name: String,
    pub schema: TypeWithAttributes,
}

#[derive(Debug)]
pub struct Schema {
    pub name: Option<String>,
    pub content: SchemaContent,
}

#[derive(Debug)]
pub enum SchemaContent {
    Typedef(Box<TypeWithAttributes>),
    Definition { fields: Vec<SchemaField>, attributes: Attributes },
}

#[derive(Debug)]
pub struct SchemaField {
    pub name: String,
    pub requirement: Requirement,
    pub target_type: TypeWithAttributes,
}

#[derive(Debug, Clone, Copy, PartialEq, Eq, Structural)]
pub enum Requirement {
    Required,
    Optional,
}

#[derive(Debug)]
pub struct TypeWithAttributes {
    pub target_type: Type,
    pub attributes: Attributes,
}

#[derive(Debug)]
pub enum Type {
    Integer { format: Option<String> },
    String { format: Option<String> },
    Float,
    Bool,
    List { item_type: Box<TypeWithAttributes> },
    Object,
    Schema(ReferenceOr<SchemaContent>),
    Enum(EnumContent),
}

#[derive(Debug)]
pub enum Literal {
    String(String),
    Int(i64),
    Bool(bool),
    List(Vec<Literal>),
}

#[derive(Debug)]
pub struct Tag {
    pub name: String,
    pub attributes: Attributes,
}

#[derive(Debug)]
pub struct Enum {
    pub name: String,
    pub content: EnumContent,
}

#[derive(Debug)]
pub struct EnumContent {
    pub selection: Vec<String>,
    pub attributes: Attributes,
}

} // verus!
