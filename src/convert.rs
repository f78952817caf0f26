//! Conversion of syntax-tree values into document values.  Each conversion
//! consumes its input and has a spec function that states its result.
use vstd::prelude::*;
use crate::data::{
    EnumContent, Literal, ParameterType, Requirement, SchemaContent, SchemaField, Type,
    TypeWithAttributes, Value,
};
use crate::data;
use crate::table::{lemma_table_set, set_entry, table_set, table_view};
use crate::openapi::{
    attributes_view, media_view, operation_view, opt_view, parameter_ref_view, path_view,
    properties_view, request_body_ref_view, request_body_view, response_ref_view, response_view,
    parameter_ref_fn, response_ref_fn, schema_ref_fn, schema_ref_view, strings_view, AttributesView, MediaType, Operation, OperationView,
    Parameter, ParameterIn, ParameterView, Path, PathView, RefView, ReferenceOr, RequestBody,
    RequestBodyView, Response, ResponseView, Responses, Schema, SchemaView,
};

verus! {

// ---- what conversion yields ----

/// An identifier-valued attribute has no binding and renders as null.
pub open spec fn json_of(v: Value) -> Option<Literal> {
    match v {
        Value::Immediate(l) => Some(l),
        Value::Identifier(_) => None,
    }
}

pub open spec fn attributes_spec(a: Seq<(String, Value)>) -> AttributesView {
    a.map_values(|p: (String, Value)| (p.0@, json_of(p.1)))
}

pub open spec fn schema_pointer(name: Seq<char>) -> Seq<char> {
    "#/components/schemas/"@ + name
}

pub open spec fn response_pointer(name: Seq<char>) -> Seq<char> {
    "#/components/responses/"@ + name
}

pub open spec fn request_body_pointer(name: Seq<char>) -> Seq<char> {
    "#/components/requestBodies/"@ + name
}

pub open spec fn json_media(t: RefView<SchemaView>) -> Seq<(Seq<char>, RefView<SchemaView>)> {
    seq![("application/json"@, t)]
}

/// The schema a type expression stands for.  A named schema becomes a pointer
/// into the schema table, whether or not the name is defined; inline schemas
/// and enums are converted in place.
pub open spec fn type_spec(t: TypeWithAttributes) -> RefView<SchemaView>
    decreases t, 2nat,
{
    let attributes = attributes_spec(t.attributes@);
    match t.target_type {
        Type::Integer { format } => RefView::Value(
            SchemaView::Integer { format: opt_view(format), attributes },
        ),
        Type::String { format } => RefView::Value(
            SchemaView::String { format: opt_view(format), selection: None, attributes },
        ),
        Type::Float => RefView::Value(SchemaView::Number { attributes }),
        Type::Bool => RefView::Value(SchemaView::Boolean { attributes }),
        Type::List { item_type } => RefView::Value(
            SchemaView::Array { items: Box::new(type_spec(*item_type)), attributes },
        ),
        Type::Object => RefView::Value(
            SchemaView::Object { required: Seq::empty(), properties: Seq::empty(), attributes },
        ),
        Type::Schema(data::ReferenceOr::Ref(name)) => RefView::Ref(schema_pointer(name@)),
        Type::Schema(data::ReferenceOr::Value(c)) => content_spec(c),
        Type::Enum(e) => enum_spec(e),
    }
}

/// A typedef is its type; a field list is an object whose `required` list
/// names the required fields, in order, and whose properties are the fields.
pub open spec fn content_spec(c: SchemaContent) -> RefView<SchemaView>
    decreases c, 2nat,
{
    match c {
        SchemaContent::Typedef(t) => type_spec(*t),
        SchemaContent::Definition { fields, attributes } => RefView::Value(
            SchemaView::Object {
                required: required_names(fields@),
                properties: fields_spec(fields, fields@.len() as int),
                attributes: attributes_spec(attributes@),
            },
        ),
    }
}

/// The properties of the first `n` fields; a later field of the same name
/// replaces an earlier one.
pub open spec fn fields_spec(f: Vec<SchemaField>, n: int) -> Seq<(Seq<char>, RefView<SchemaView>)>
    decreases f, n,
{
    if n <= 0 || n > f@.len() {
        Seq::empty()
    } else {
        table_set(fields_spec(f, n - 1), f@[n - 1].name@, type_spec(f@[n - 1].target_type))
    }
}

/// The names of the required fields, in order.
pub open spec fn required_names(f: Seq<SchemaField>) -> Seq<Seq<char>>
    decreases f.len(),
{
    if f.len() == 0 {
        Seq::empty()
    } else if f.last().requirement == Requirement::Required {
        required_names(f.drop_last()).push(f.last().name@)
    } else {
        required_names(f.drop_last())
    }
}

/// An enum is a string schema listing its members in order.
pub open spec fn enum_spec(e: EnumContent) -> RefView<SchemaView> {
    RefView::Value(
        SchemaView::String {
            format: None,
            selection: Some(strings_view(e.selection@)),
            attributes: attributes_spec(e.attributes@),
        },
    )
}

pub open spec fn kind_in(k: ParameterType) -> ParameterIn {
    match k {
        ParameterType::Query => ParameterIn::Query,
        ParameterType::Header => ParameterIn::Header,
        ParameterType::Path => ParameterIn::Path,
        ParameterType::Cookie => ParameterIn::Cookie,
    }
}

/// A parameter's own kind, else the one its context supplies.
pub open spec fn kind_of(p: data::Parameter, context: Option<ParameterType>) -> Option<ParameterType> {
    match p.ty {
        Some(k) => Some(k),
        None => context,
    }
}

pub open spec fn kinds_known(ps: Seq<data::Parameter>, context: Option<ParameterType>) -> bool {
    forall|x: int| 0 <= x < ps.len() ==> (#[trigger] kind_of(ps[x], context)) is Some
}

pub open spec fn parameter_spec(p: data::Parameter, context: Option<ParameterType>) -> ParameterView {
    ParameterView {
        name: p.name@,
        parameter_in: kind_in(kind_of(p, context)->0),
        required: p.content.requirement == Requirement::Required,
        schema: type_spec(p.content.content),
        attributes: attributes_spec(p.content.attributes@),
    }
}

pub open spec fn parameters_spec(ps: Seq<data::Parameter>, context: Option<ParameterType>) -> Seq<
    RefView<ParameterView>,
> {
    ps.map_values(|p: data::Parameter| RefView::Value(parameter_spec(p, context)))
}

/// The header table of a response: each header keyed by its name; a later
/// header of the same name replaces an earlier one.
pub open spec fn headers_spec(ps: Seq<data::Parameter>, context: Option<ParameterType>) -> Seq<
    (Seq<char>, RefView<ParameterView>),
>
    decreases ps.len(),
{
    if ps.len() == 0 {
        Seq::empty()
    } else {
        table_set(
            headers_spec(ps.drop_last(), context),
            ps.last().name@,
            RefView::Value(parameter_spec(ps.last(), context)),
        )
    }
}

/// A response: its headers keyed by name, its content as JSON, its attributes.
pub open spec fn response_spec(r: data::ResponseContent, context: Option<ParameterType>) -> ResponseView {
    ResponseView {
        headers: headers_spec(r.headers.parameters@, context),
        content: json_media(type_spec(r.content)),
        attributes: attributes_spec(r.attributes@),
    }
}

/// A response named in an operation points into the response table; one
/// written in place takes its headers' kind from where it stands.
pub open spec fn response_ref_spec(r: data::ReferenceOr<data::ResponseContent>) -> RefView<ResponseView> {
    match r {
        data::ReferenceOr::Ref(name) => RefView::Ref(response_pointer(name@)),
        data::ReferenceOr::Value(v) => RefView::Value(response_spec(v, Some(ParameterType::Header))),
    }
}

pub open spec fn request_body_spec(b: data::RequestBodyContent) -> RequestBodyView {
    RequestBodyView {
        content: json_media(type_spec(b.content)),
        attributes: attributes_spec(b.attributes@),
    }
}

pub open spec fn request_body_ref_spec(r: data::ReferenceOr<data::RequestBodyContent>) -> RefView<
    RequestBodyView,
> {
    match r {
        data::ReferenceOr::Ref(name) => RefView::Ref(request_body_pointer(name@)),
        data::ReferenceOr::Value(v) => RefView::Value(request_body_spec(v)),
    }
}

/// The responses of an operation keyed by status code; a later response for
/// the same code replaces an earlier one.
pub open spec fn responses_by_code(rs: Seq<(String, data::ReferenceOr<data::ResponseContent>)>) -> Seq<
    (Seq<char>, RefView<ResponseView>),
>
    decreases rs.len(),
{
    if rs.len() == 0 {
        Seq::empty()
    } else {
        table_set(responses_by_code(rs.drop_last()), rs.last().0@, response_ref_spec(rs.last().1))
    }
}

pub open spec fn operation_spec(op: data::Operation) -> OperationView {
    OperationView {
        operation_id: op.name@,
        parameters: parameters_spec(op.parameters.parameters@, None),
        request_body: match op.request_body {
            Some(b) => Some(request_body_ref_spec(b)),
            None => None,
        },
        default_response: match op.content.default {
            Some(r) => Some(response_ref_spec(r)),
            None => None,
        },
        responses: responses_by_code(op.content.response@),
        tags: Seq::empty(),
        attributes: Seq::empty(),
    }
}

pub open spec fn opt_operation_spec(o: Option<data::Operation>) -> Option<OperationView> {
    match o {
        Some(o) => Some(operation_spec(o)),
        None => None,
    }
}

pub open spec fn operation_kinds_known(o: Option<data::Operation>) -> bool {
    match o {
        Some(o) => kinds_known(o.parameters.parameters@, None),
        None => true,
    }
}

/// Every parameter of a path has a kind of its own.
pub open spec fn path_kinds_known(p: data::Path) -> bool {
    &&& kinds_known(p.content.parameters.parameters@, None)
    &&& operation_kinds_known(p.content.get)
    &&& operation_kinds_known(p.content.post)
    &&& operation_kinds_known(p.content.put)
    &&& operation_kinds_known(p.content.delete)
    &&& operation_kinds_known(p.content.options)
    &&& operation_kinds_known(p.content.head)
    &&& operation_kinds_known(p.content.patch)
    &&& operation_kinds_known(p.content.trace)
}

pub open spec fn path_spec(p: data::Path) -> PathView {
    PathView {
        parameters: parameters_spec(p.content.parameters.parameters@, None),
        get: opt_operation_spec(p.content.get),
        post: opt_operation_spec(p.content.post),
        put: opt_operation_spec(p.content.put),
        delete: opt_operation_spec(p.content.delete),
        options: opt_operation_spec(p.content.options),
        head: opt_operation_spec(p.content.head),
        patch: opt_operation_spec(p.content.patch),
        trace: opt_operation_spec(p.content.trace),
    }
}

// ---- conversion ----

fn pointer(prefix: &str, name: String) -> (r: String)
    ensures
        r@ == prefix@ + name@,
{
    let mut p = String::from_str(prefix);
    p.append(name.as_str());
    p
}

pub fn convert_attributes(a: data::Attributes) -> (r: crate::openapi::Attributes)
    ensures
        attributes_view(r@) == attributes_spec(a@),
{
    let mut rest = a;
    let ghost all = rest@;
    let n = rest.len();
    let mut r: crate::openapi::Attributes = Vec::new();
    let mut k: usize = 0;
    while k < n
        invariant
            n == all.len(),
            k <= n,
            rest@ == all.subrange(k as int, n as int),
            attributes_view(r@) == attributes_spec(all.subrange(0, k as int)),
        decreases n - k,
    {
        let (name, v) = rest.remove(0);
        let j = match v {
            Value::Immediate(l) => Some(l),
            Value::Identifier(_) => None,
        };
        let ghost before = r@;
        r.push((name, j));
        k += 1;
        assert(attributes_view(r@) =~= attributes_view(before).push((r@[k - 1].0@, r@[k - 1].1)));
        assert(attributes_spec(all.subrange(0, k as int)) =~= attributes_spec(
            all.subrange(0, k - 1),
        ).push((all[k - 1].0@, json_of(all[k - 1].1))));
        assert(rest@ =~= all.subrange(k as int, n as int));
    }
    assert(all.subrange(0, n as int) =~= all);
    r
}

fn format_of(f: Option<String>) -> (r: Option<String>)
    ensures
        opt_view(r) == opt_view(f),
{
    f
}

/// The schema a type expression stands for.
pub fn convert_type(t: TypeWithAttributes) -> (r: ReferenceOr<Schema>)
    ensures
        schema_ref_view(r) == type_spec(t),
    decreases t, 2nat,
{
    let ghost tt = t;
    let TypeWithAttributes { target_type, attributes } = t;
    let attributes = convert_attributes(attributes);
    match target_type {
        Type::Integer { format } => {
            let r = ReferenceOr::Value(Schema::Integer { format: format_of(format), attributes });
            assert(schema_ref_view(r) == type_spec(tt));
            r
        },
        Type::String { format } => {
            let r = ReferenceOr::Value(
                Schema::String { format: format_of(format), selection: None, attributes },
            );
            assert(schema_ref_view(r) == type_spec(tt));
            r
        },
        Type::Float => {
            let r = ReferenceOr::Value(Schema::Number { attributes });
            assert(schema_ref_view(r) == type_spec(tt));
            r
        },
        Type::Bool => {
            let r = ReferenceOr::Value(Schema::Boolean { attributes });
            assert(schema_ref_view(r) == type_spec(tt));
            r
        },
        Type::List { item_type } => {
            let items = convert_type(*item_type);
            let r = ReferenceOr::Value(Schema::Array { items: Box::new(items), attributes });
            assert(schema_ref_view(r) == type_spec(tt));
            r
        },
        Type::Object => {
            let required: Vec<String> = Vec::new();
            let properties: Vec<(String, ReferenceOr<Schema>)> = Vec::new();
            proof {
                assert(strings_view(required@) =~= Seq::empty());
                assert(properties_view(properties, properties@.len() as int) =~= Seq::empty());
            }
            let r = ReferenceOr::Value(Schema::Object { required, properties, attributes });
            assert(schema_ref_view(r) == type_spec(tt));
            r
        },
        Type::Schema(data::ReferenceOr::Ref(name)) => {
            proof {
                reveal_strlit("#/components/schemas/");
            }
            let r = ReferenceOr::Ref { ref_path: pointer("#/components/schemas/", name) };
            assert(schema_ref_view(r) == type_spec(tt));
            r
        },
        Type::Schema(data::ReferenceOr::Value(c)) => {
            let r = convert_content(c);
            assert(schema_ref_view(r) == type_spec(tt));
            r
        },
        Type::Enum(e) => {
            let r = convert_enum(e);
            assert(schema_ref_view(r) == type_spec(tt));
            r
        },
    }
}

/// The schema an enum stands for.
pub fn convert_enum(e: EnumContent) -> (r: ReferenceOr<Schema>)
    ensures
        schema_ref_view(r) == enum_spec(e),
{
    let EnumContent { selection, attributes } = e;
    ReferenceOr::Value(
        Schema::String {
            format: None,
            selection: Some(selection),
            attributes: convert_attributes(attributes),
        },
    )
}

proof fn lemma_properties_table(p: Vec<(String, ReferenceOr<Schema>)>, n: int)
    requires
        0 <= n <= p@.len(),
    ensures
        properties_view(p, n) == table_view(p@.subrange(0, n), schema_ref_fn()),
    decreases n,
{
    if n > 0 {
        lemma_properties_table(p, n - 1);
        assert(table_view(p@.subrange(0, n), schema_ref_fn()) =~= table_view(
            p@.subrange(0, n - 1),
            schema_ref_fn(),
        ).push((p@[n - 1].0@, schema_ref_view(p@[n - 1].1))));
    } else {
        assert(table_view(p@.subrange(0, n), schema_ref_fn()) =~= Seq::empty());
    }
}

/// The schema a schema body stands for.
pub fn convert_content(c: SchemaContent) -> (r: ReferenceOr<Schema>)
    ensures
        schema_ref_view(r) == content_spec(c),
    decreases c, 2nat,
{
    match c {
        SchemaContent::Typedef(t) => convert_type(*t),
        SchemaContent::Definition { fields, attributes } => {
            let (required, properties) = convert_fields(fields);
            ReferenceOr::Value(
                Schema::Object { required, properties, attributes: convert_attributes(attributes) },
            )
        },
    }
}

/// The `required` list and the properties of a field list.
fn convert_fields(f: Vec<SchemaField>) -> (r: (Vec<String>, Vec<(String, ReferenceOr<Schema>)>))
    ensures
        strings_view(r.0@) == required_names(f@),
        properties_view(r.1, r.1@.len() as int) == fields_spec(f, f@.len() as int),
    decreases f, 1nat,
{
    let ghost orig = f;
    assert(table_view(Seq::<(String, ReferenceOr<Schema>)>::empty(), schema_ref_fn()) =~= Seq::empty());
    let mut rest = f;
    let n = rest.len();
    let mut required: Vec<String> = Vec::new();
    let mut properties: Vec<(String, ReferenceOr<Schema>)> = Vec::new();
    let mut k: usize = 0;
    while k < n
        invariant
            n == orig@.len(),
            orig == f,
            k <= n,
            rest@ == orig@.subrange(k as int, n as int),
            strings_view(required@) == required_names(orig@.subrange(0, k as int)),
            table_view(properties@, schema_ref_fn()) == fields_spec(orig, k as int),
        decreases n - k,
    {
        let field = rest.remove(0);
        assert(field == orig@[k as int]);
        proof {
            assert(decreases_to!(orig => orig@));
            assert(decreases_to!(orig@ => orig@[k as int]));
            assert(decreases_to!(orig => orig@[k as int].target_type));
        }
        assert(orig@.subrange(0, k + 1).drop_last() =~= orig@.subrange(0, k as int));
        let SchemaField { name, requirement, target_type } = field;
        let ghost nv = name@;
        assert(decreases_to!(orig => target_type));
        assert(decreases_to!(f => target_type));
        let t = convert_type(target_type);
        let pname = name.clone();
        let ghost before_r = required@;
        if requirement == Requirement::Required {
            required.push(name);
            assert(strings_view(required@) =~= strings_view(before_r).push(nv));
        }
        let ghost before = properties@;
        proof {
            lemma_table_set(before, pname, t, schema_ref_fn());
        }
        set_entry(&mut properties, pname, t);
        k += 1;
        assert(rest@ =~= orig@.subrange(k as int, n as int));
    }
    assert(orig@.subrange(0, n as int) =~= orig@);
    proof {
        lemma_properties_table(properties, properties@.len() as int);
        assert(properties@.subrange(0, properties@.len() as int) =~= properties@);
    }
    (required, properties)
}

fn convert_kind(k: ParameterType) -> (r: ParameterIn)
    ensures
        r == kind_in(k),
{
    match k {
        ParameterType::Query => ParameterIn::Query,
        ParameterType::Header => ParameterIn::Header,
        ParameterType::Path => ParameterIn::Path,
        ParameterType::Cookie => ParameterIn::Cookie,
    }
}

/// A parameter, whose kind is its own or else the one its context supplies.
pub fn convert_parameter(p: data::Parameter, context: Option<ParameterType>) -> (r: Parameter)
    requires
        kind_of(p, context) is Some,
    ensures
        crate::openapi::parameter_view(r) == parameter_spec(p, context),
{
    let kind = match p.ty {
        Some(k) => k,
        None => match context {
            Some(k) => k,
            None => ParameterType::Query,
        },
    };
    let data::Parameter { name, ty, content } = p;
    let data::ParameterContent { content, requirement, attributes } = content;
    Parameter {
        name,
        parameter_in: convert_kind(kind),
        required: requirement == Requirement::Required,
        schema: convert_type(content),
        attributes: convert_attributes(attributes),
    }
}

/// A list of parameters, each converted in its context.
pub fn convert_parameters(ps: Vec<data::Parameter>, context: Option<ParameterType>) -> (r: Vec<
    ReferenceOr<Parameter>,
>)
    requires
        kinds_known(ps@, context),
    ensures
        r@.map_values(|q: ReferenceOr<Parameter>| parameter_ref_view(q)) == parameters_spec(
            ps@,
            context,
        ),
{
    let mut rest = ps;
    let ghost all = rest@;
    let n = rest.len();
    let mut r: Vec<ReferenceOr<Parameter>> = Vec::new();
    let mut k: usize = 0;
    while k < n
        invariant
            n == all.len(),
            k <= n,
            kinds_known(all, context),
            rest@ == all.subrange(k as int, n as int),
            r@.map_values(|q: ReferenceOr<Parameter>| parameter_ref_view(q)) == parameters_spec(
                all.subrange(0, k as int),
                context,
            ),
        decreases n - k,
    {
        let p = rest.remove(0);
        assert(p == all[k as int]);
        assert(kind_of(all[k as int], context) is Some);
        let ghost before = r@;
        r.push(ReferenceOr::Value(convert_parameter(p, context)));
        k += 1;
        assert(r@.map_values(|q: ReferenceOr<Parameter>| parameter_ref_view(q)) =~= before.map_values(
            |q: ReferenceOr<Parameter>| parameter_ref_view(q),
        ).push(parameter_ref_view(r@[k - 1])));
        assert(parameters_spec(all.subrange(0, k as int), context) =~= parameters_spec(
            all.subrange(0, k - 1),
            context,
        ).push(RefView::Value(parameter_spec(all[k - 1], context))));
        assert(rest@ =~= all.subrange(k as int, n as int));
    }
    assert(all.subrange(0, n as int) =~= all);
    r
}

fn json_content(t: TypeWithAttributes) -> (r: Vec<(String, MediaType)>)
    ensures
        media_view(r@) == json_media(type_spec(t)),
{
    let schema = convert_type(t);
    let mut r: Vec<(String, MediaType)> = Vec::new();
    r.push((String::from_str("application/json"), MediaType { schema }));
    assert(media_view(r@) =~= json_media(type_spec(t)));
    r
}

/// A response; header parameters without a kind take the one of `context`.
pub fn convert_response(res: data::ResponseContent, context: Option<ParameterType>) -> (r: Response)
    requires
        kinds_known(res.headers.parameters@, context),
    ensures
        response_view(r) == response_spec(res, context),
{
    let data::ResponseContent { attributes, headers, content } = res;
    let mut rest = headers.parameters;
    let ghost all = rest@;
    let n = rest.len();
    let mut hs: Vec<(String, ReferenceOr<Parameter>)> = Vec::new();
    let mut k: usize = 0;
    assert(table_view(hs@, parameter_ref_fn()) =~= Seq::empty());
    while k < n
        invariant
            n == all.len(),
            k <= n,
            kinds_known(all, context),
            rest@ == all.subrange(k as int, n as int),
            table_view(hs@, parameter_ref_fn()) == headers_spec(all.subrange(0, k as int), context),
        decreases n - k,
    {
        let p = rest.remove(0);
        assert(p == all[k as int]);
        assert(kind_of(all[k as int], context) is Some);
        assert(all.subrange(0, k + 1).drop_last() =~= all.subrange(0, k as int));
        let name = p.name.clone();
        let v = ReferenceOr::Value(convert_parameter(p, context));
        proof {
            lemma_table_set(hs@, name, v, parameter_ref_fn());
        }
        set_entry(&mut hs, name, v);
        k += 1;
        assert(rest@ =~= all.subrange(k as int, n as int));
    }
    assert(all.subrange(0, n as int) =~= all);
    Response { headers: hs, content: json_content(content), attributes: convert_attributes(attributes) }
}

/// A request body.
pub fn convert_request_body(b: data::RequestBodyContent) -> (r: RequestBody)
    ensures
        request_body_view(r) == request_body_spec(b),
{
    let data::RequestBodyContent { content, attributes } = b;
    RequestBody { content: json_content(content), attributes: convert_attributes(attributes) }
}

fn convert_response_ref(r: data::ReferenceOr<data::ResponseContent>) -> (o: ReferenceOr<Response>)
    requires
        r matches data::ReferenceOr::Value(v) ==> kinds_known(
            v.headers.parameters@,
            Some(ParameterType::Header),
        ),
    ensures
        response_ref_view(o) == response_ref_spec(r),
{
    match r {
        data::ReferenceOr::Ref(name) => {
            proof {
                reveal_strlit("#/components/responses/");
            }
            ReferenceOr::Ref { ref_path: pointer("#/components/responses/", name) }
        },
        data::ReferenceOr::Value(v) => ReferenceOr::Value(
            convert_response(v, Some(ParameterType::Header)),
        ),
    }
}

fn convert_request_body_ref(r: data::ReferenceOr<data::RequestBodyContent>) -> (o: ReferenceOr<RequestBody>)
    ensures
        request_body_ref_view(o) == request_body_ref_spec(r),
{
    match r {
        data::ReferenceOr::Ref(name) => {
            proof {
                reveal_strlit("#/components/requestBodies/");
            }
            ReferenceOr::Ref { ref_path: pointer("#/components/requestBodies/", name) }
        },
        data::ReferenceOr::Value(v) => ReferenceOr::Value(convert_request_body(v)),
    }
}

/// An operation: its name becomes the operation id.
pub fn convert_operation(op: data::Operation) -> (r: Operation)
    requires
        kinds_known(op.parameters.parameters@, None),
    ensures
        operation_view(r) == operation_spec(op),
{
    let data::Operation { name, method, parameters, content, request_body } = op;
    let parameters = convert_parameters(parameters.parameters, None);
    let request_body = match request_body {
        Some(b) => Some(convert_request_body_ref(b)),
        None => None,
    };
    let data::OperationContent { default, response } = content;
    let default = match default {
        Some(d) => {
            Some(convert_response_ref(d))
        },
        None => None,
    };
    let mut rest = response;
    let ghost all = rest@;
    let n = rest.len();
    let mut code: Vec<(String, ReferenceOr<Response>)> = Vec::new();
    let mut k: usize = 0;
    assert(table_view(code@, response_ref_fn()) =~= Seq::empty());
    while k < n
        invariant
            n == all.len(),
            k <= n,
            rest@ == all.subrange(k as int, n as int),
            table_view(code@, response_ref_fn()) == responses_by_code(all.subrange(0, k as int)),
        decreases n - k,
    {
        let (c, res) = rest.remove(0);
        assert(all.subrange(0, k + 1).drop_last() =~= all.subrange(0, k as int));
        let v = convert_response_ref(res);
        proof {
            lemma_table_set(code@, c, v, response_ref_fn());
        }
        set_entry(&mut code, c, v);
        k += 1;
        assert(rest@ =~= all.subrange(k as int, n as int));
    }
    assert(all.subrange(0, n as int) =~= all);
    let r = Operation {
        operation_id: name,
        tags: Vec::new(),
        parameters,
        request_body,
        responses: Responses { default, code },
        attributes: Vec::new(),
    };
    assert(strings_view(r.tags@) =~= Seq::empty());
    assert(attributes_view(r.attributes@) =~= Seq::empty());
    r
}

fn convert_opt_operation(o: Option<data::Operation>) -> (r: Option<Operation>)
    requires
        operation_kinds_known(o),
    ensures
        crate::openapi::opt_operation_view(r) == opt_operation_spec(o),
{
    match o {
        Some(op) => Some(convert_operation(op)),
        None => None,
    }
}

/// A path: its shared parameters and one operation slot per verb.
pub fn convert_path(p: data::Path) -> (r: Path)
    requires
        path_kinds_known(p),
    ensures
        path_view(r) == path_spec(p),
{
    let data::Path { name, attributes, content } = p;
    let data::PathContent { parameters, get, post, put, delete, options, patch, head, trace } =
        content;
    Path {
        parameters: convert_parameters(parameters.parameters, None),
        get: convert_opt_operation(get),
        post: convert_opt_operation(post),
        put: convert_opt_operation(put),
        delete: convert_opt_operation(delete),
        options: convert_opt_operation(options),
        head: convert_opt_operation(head),
        patch: convert_opt_operation(patch),
        trace: convert_opt_operation(trace),
    }
}

} // verus!
