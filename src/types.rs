//! Type expressions and the bodies that nest them: schema bodies, enum bodies,
//! parameter blocks, request bodies and responses.
use vstd::prelude::*;
use crate::data::{
    EnumContent, Parameter, ParameterContent, ParameterType, Parameters, ReferenceOr,
    Requirement, RequestBodyContent, ResponseContent, SchemaContent, SchemaField, Type,
    TypeWithAttributes,
};
use crate::lex::{
    has_identifier, identifier, identifier_end, identifier_or_empty, keyword, padded_symbol, padded_symbol_spec, run_end, starts_with,
    string_literal, string_literal_spec, substring, symbol, ws0, ws1, CharClass,
};
use crate::literals::{attributes_denoted, names_unique, opt_attributes, opt_attributes_end};
use crate::openapi::strings_view;

verus! {

/// The precondition shared by every parser: a position inside the text, and a
/// text whose length leaves room to count one past its end.
pub open spec fn at(s: Seq<char>, i: int) -> bool {
    0 <= i <= s.len() && s.len() < usize::MAX
}

fn format_string(f: &str) -> (r: Option<String>)
    ensures
        r matches Some(t) && t@ == f@,
{
    Some(String::from_str(f))
}

/// The primitive type keywords.
#[derive(Debug, Clone, Copy, PartialEq, Eq, Structural)]
pub enum Primitive {
    String,
    Object,
    Bool,
    Int32,
    Int64,
    Float,
    Number,
    Int,
    DateTime,
    Date,
    Time,
    Duration,
    Email,
    Uuid,
    Uri,
}

/// The primitive keyword at `i` and where it ends.  The keywords are tried in
/// a fixed order, so that one is never taken for the prefix of a longer one
/// listed after it.
pub open spec fn primitive_spec(s: Seq<char>, i: int) -> Option<(Primitive, int)> {
    if starts_with(s, i, "String"@) {
        Some((Primitive::String, i + "String"@.len()))
    } else if starts_with(s, i, "Object"@) {
        Some((Primitive::Object, i + "Object"@.len()))
    } else if starts_with(s, i, "Bool"@) {
        Some((Primitive::Bool, i + "Bool"@.len()))
    } else if starts_with(s, i, "Int32"@) {
        Some((Primitive::Int32, i + "Int32"@.len()))
    } else if starts_with(s, i, "Int64"@) {
        Some((Primitive::Int64, i + "Int64"@.len()))
    } else if starts_with(s, i, "Float"@) {
        Some((Primitive::Float, i + "Float"@.len()))
    } else if starts_with(s, i, "Number"@) {
        Some((Primitive::Number, i + "Number"@.len()))
    } else if starts_with(s, i, "Int"@) {
        Some((Primitive::Int, i + "Int"@.len()))
    } else if starts_with(s, i, "DateTime"@) {
        Some((Primitive::DateTime, i + "DateTime"@.len()))
    } else if starts_with(s, i, "Date"@) {
        Some((Primitive::Date, i + "Date"@.len()))
    } else if starts_with(s, i, "Time"@) {
        Some((Primitive::Time, i + "Time"@.len()))
    } else if starts_with(s, i, "Duration"@) {
        Some((Primitive::Duration, i + "Duration"@.len()))
    } else if starts_with(s, i, "Email"@) {
        Some((Primitive::Email, i + "Email"@.len()))
    } else if starts_with(s, i, "Uuid"@) {
        Some((Primitive::Uuid, i + "Uuid"@.len()))
    } else if starts_with(s, i, "Uri"@) {
        Some((Primitive::Uri, i + "Uri"@.len()))
    } else {
        None
    }
}

/// The type a primitive keyword stands for; `Number` is a synonym of `Float`.
pub open spec fn primitive_type(p: Primitive, t: Type) -> bool {
    match p {
        Primitive::String => t matches Type::String { format: None },
        Primitive::Object => t matches Type::Object,
        Primitive::Bool => t matches Type::Bool,
        Primitive::Int32 => t matches Type::Integer { format: Some(f) } && f@ == "int32"@,
        Primitive::Int64 => t matches Type::Integer { format: Some(f) } && f@ == "int64"@,
        Primitive::Float => t matches Type::Float,
        Primitive::Number => t matches Type::Float,
        Primitive::Int => t matches Type::Integer { format: None },
        Primitive::DateTime => t matches Type::String { format: Some(f) } && f@ == "date-time"@,
        Primitive::Date => t matches Type::String { format: Some(f) } && f@ == "date"@,
        Primitive::Time => t matches Type::String { format: Some(f) } && f@ == "time"@,
        Primitive::Duration => t matches Type::String { format: Some(f) } && f@ == "duration"@,
        Primitive::Email => t matches Type::String { format: Some(f) } && f@ == "email"@,
        Primitive::Uuid => t matches Type::String { format: Some(f) } && f@ == "uuid"@,
        Primitive::Uri => t matches Type::String { format: Some(f) } && f@ == "uri"@,
    }
}

fn primitive_keyword(s: &Vec<char>, i: usize) -> (r: Option<(Type, usize)>)
    requires
        at(s@, i as int),
    ensures
        match primitive_spec(s@, i as int) {
            Some((p, j)) => r matches Some((t, e)) && primitive_type(p, t) && e == j,
            None => r is None,
        },
        r matches Some((_, e)) ==> i <= e <= s@.len(),
{
    if let Some(j) = keyword(s, i, "String") {
        return Some((Type::String { format: None }, j));
    }
    if let Some(j) = keyword(s, i, "Object") {
        return Some((Type::Object, j));
    }
    if let Some(j) = keyword(s, i, "Bool") {
        return Some((Type::Bool, j));
    }
    if let Some(j) = keyword(s, i, "Int32") {
        return Some((Type::Integer { format: format_string("int32") }, j));
    }
    if let Some(j) = keyword(s, i, "Int64") {
        return Some((Type::Integer { format: format_string("int64") }, j));
    }
    if let Some(j) = keyword(s, i, "Float") {
        return Some((Type::Float, j));
    }
    if let Some(j) = keyword(s, i, "Number") {
        return Some((Type::Float, j));
    }
    if let Some(j) = keyword(s, i, "Int") {
        return Some((Type::Integer { format: None }, j));
    }
    if let Some(j) = keyword(s, i, "DateTime") {
        return Some((Type::String { format: format_string("date-time") }, j));
    }
    if let Some(j) = keyword(s, i, "Date") {
        return Some((Type::String { format: format_string("date") }, j));
    }
    if let Some(j) = keyword(s, i, "Time") {
        return Some((Type::String { format: format_string("time") }, j));
    }
    if let Some(j) = keyword(s, i, "Duration") {
        return Some((Type::String { format: format_string("duration") }, j));
    }
    if let Some(j) = keyword(s, i, "Email") {
        return Some((Type::String { format: format_string("email") }, j));
    }
    if let Some(j) = keyword(s, i, "Uuid") {
        return Some((Type::String { format: format_string("uuid") }, j));
    }
    if let Some(j) = keyword(s, i, "Uri") {
        return Some((Type::String { format: format_string("uri") }, j));
    }
    None
}

/// `required` or `optional` at `i`, followed by whitespace: the requirement
/// and where the whitespace ends.
pub open spec fn requirement_of(s: Seq<char>, i: int) -> Option<(Requirement, int)> {
    let (req, k) = if starts_with(s, i, "required"@) {
        (Requirement::Required, i + "required"@.len())
    } else {
        (Requirement::Optional, i + "optional"@.len())
    };
    if (starts_with(s, i, "required"@) || starts_with(s, i, "optional"@)) && run_end(
        s,
        k,
        CharClass::Space,
    ) > k {
        Some((req, run_end(s, k, CharClass::Space)))
    } else {
        None
    }
}

/// Where the type expression at `i` ends, if one stands there: a primitive
/// keyword, `List<T>`, an inline schema or enum, or else an identifier naming
/// a schema.
pub open spec fn type_end(s: Seq<char>, i: int) -> Option<int>
    decreases s.len() - i, 5nat,
{
    if !(0 <= i <= s.len()) {
        None
    } else {
        match primitive_spec(s, i) {
            Some((_, j)) => Some(opt_attributes_end(s, j)),
            None => {
                let l = i + "List"@.len();
                let c = run_end(s, i + "schema"@.len(), CharClass::Space);
                let id = if has_identifier(s, i) {
                    Some(identifier_end(s, i))
                } else {
                    None
                };
                if starts_with(s, i, "List"@) && i < l && list_end(s, l) is Some {
                    list_end(s, l)
                } else if starts_with(s, i, "schema"@) && i < c <= s.len() && schema_body_end(s, c) is Some {
                    schema_body_end(s, c)
                } else {
                    match enum_members_spec(s, i + "enum"@.len()) {
                        Some((_, e)) => if starts_with(s, i, "enum"@) {
                            Some(e)
                        } else {
                            id
                        },
                        None => id,
                    }
                }
            },
        }
    }
}

/// Where `<T>` and the attributes after it end, at `i`.
pub open spec fn list_end(s: Seq<char>, i: int) -> Option<int>
    decreases s.len() - i, 4nat,
{
    match padded_symbol_spec(s, i, '<') {
        Some(k) => if i < k <= s.len() {
            match type_end(s, k) {
                Some(t) => match padded_symbol_spec(s, t, '>') {
                    Some(m) => Some(opt_attributes_end(s, m)),
                    None => None,
                },
                None => None,
            }
        } else {
            None
        },
        None => None,
    }
}

/// Where the schema body at `i` ends: attributes and a braced field list, or
/// else `= Type`.
pub open spec fn schema_body_end(s: Seq<char>, i: int) -> Option<int>
    decreases s.len() - i, 4nat,
{
    if !(0 <= i <= s.len()) {
        None
    } else {
        let j = run_end(s, opt_attributes_end(s, i), CharClass::Space);
        let p = run_end(s, j + 1, CharClass::Space);
        let brace = if j < s.len() && s[j] == '{' && i <= j < p <= s.len() {
            let q = run_end(s, fields_end(s, p), CharClass::Space);
            if 0 <= q < s.len() && s[q] == '}' {
                Some(q + 1)
            } else {
                None
            }
        } else {
            None
        };
        let t = run_end(s, i + 1, CharClass::Space);
        if brace is Some {
            brace
        } else if i < s.len() && s[i] == '=' && i < t <= s.len() {
            type_end(s, t)
        } else {
            None
        }
    }
}

/// Where the field list at `i` ends, trailing comma and whitespace included.
pub open spec fn fields_end(s: Seq<char>, i: int) -> int
    decreases s.len() - i, 3nat,
{
    if !(0 <= i <= s.len()) {
        i
    } else {
        let j = run_end(s, i, CharClass::Space);
        let pos = if i <= j <= s.len() {
            match field_end(s, j) {
                Some(e) => if j < e <= s.len() {
                    fields_tail_end(s, e)
                } else {
                    j
                },
                None => j,
            }
        } else {
            j
        };
        let q = run_end(s, pos, CharClass::Space);
        let q2 = if 0 <= q < s.len() && s[q] == ',' {
            q + 1
        } else {
            q
        };
        run_end(s, q2, CharClass::Space)
    }
}

/// Where the run of `, field` continuations from `pos` ends.
pub open spec fn fields_tail_end(s: Seq<char>, pos: int) -> int
    decreases s.len() - pos, 3nat,
{
    if 0 <= pos < s.len() && s[pos] == ',' {
        match field_end(s, pos + 1) {
            Some(e) => if pos < e <= s.len() {
                fields_tail_end(s, e)
            } else {
                pos
            },
            None => pos,
        }
    } else {
        pos
    }
}

/// Where each `, field` continuation from `pos` starts (after its comma).
pub open spec fn fields_tail(s: Seq<char>, pos: int) -> Seq<int>
    decreases s.len() - pos,
{
    if 0 <= pos < s.len() && s[pos] == ',' {
        match field_end(s, pos + 1) {
            Some(e) => if pos < e <= s.len() {
                seq![pos + 1] + fields_tail(s, e)
            } else {
                Seq::empty()
            },
            None => Seq::empty(),
        }
    } else {
        Seq::empty()
    }
}

/// Where each field of the field list at `i` starts.
pub open spec fn field_starts(s: Seq<char>, i: int) -> Seq<int> {
    let j = run_end(s, i, CharClass::Space);
    if 0 <= i <= j <= s.len() {
        match field_end(s, j) {
            Some(e) => if j < e <= s.len() {
                seq![j] + fields_tail(s, e)
            } else {
                Seq::empty()
            },
            None => Seq::empty(),
        }
    } else {
        Seq::empty()
    }
}

/// Where the field list of a braced schema body at `i` starts.
pub open spec fn body_fields_start(s: Seq<char>, i: int) -> int {
    run_end(s, run_end(s, opt_attributes_end(s, i), CharClass::Space) + 1, CharClass::Space)
}

/// Each field is the one written at its start.
pub open spec fn fields_parsed(s: Seq<char>, starts: Seq<int>, fields: Seq<SchemaField>) -> bool {
    fields.len() == starts.len() && forall|x: int|
        0 <= x < fields.len() ==> field_parsed(s, starts[x], #[trigger] fields[x])
}

/// Where the field `name: [required|optional] Type` at `i` ends, whitespace
/// around it included.
pub open spec fn field_end(s: Seq<char>, i: int) -> Option<int>
    decreases s.len() - i, 2nat,
{
    if !(0 <= i <= s.len()) {
        None
    } else {
        match padded_symbol_spec(s, identifier_end(s, run_end(s, i, CharClass::Space)), ':') {
            Some(m) => if !has_identifier(s, run_end(s, i, CharClass::Space)) {
                None
            } else {
                let r = match requirement_of(s, m) {
                    Some((_, e)) => e,
                    None => m,
                };
                if i < r <= s.len() {
                    match type_end(s, r) {
                        Some(t) => Some(run_end(s, t, CharClass::Space)),
                        None => None,
                    }
                } else {
                    None
                }
            },
            None => None,
        }
    }
}

/// Where the item type of `List<..>` starts, `l` being just after `List`.
pub open spec fn list_item_start(s: Seq<char>, l: int) -> int {
    match padded_symbol_spec(s, l, '<') {
        Some(k) => k,
        None => l,
    }
}

/// Where the attributes of `List<..>` start, `l` being just after `List`.
pub open spec fn list_attributes_start(s: Seq<char>, l: int) -> int {
    match type_end(s, list_item_start(s, l)) {
        Some(t) => match padded_symbol_spec(s, t, '>') {
            Some(m) => m,
            None => l,
        },
        None => l,
    }
}

/// Whether the braced form of a schema body stands at `i`.
pub open spec fn schema_brace_at(s: Seq<char>, i: int) -> bool {
    let j = run_end(s, opt_attributes_end(s, i), CharClass::Space);
    let p = run_end(s, j + 1, CharClass::Space);
    let q = run_end(s, fields_end(s, p), CharClass::Space);
    0 <= i <= s.len() && j < s.len() && s[j] == '{' && i <= j < p <= s.len() && 0 <= q < s.len()
        && s[q] == '}'
}

/// Where the type of the field at `i` starts: after the colon and any
/// requirement keyword.
pub open spec fn field_type_start(s: Seq<char>, i: int) -> int {
    let m = match padded_symbol_spec(s, identifier_end(s, run_end(s, i, CharClass::Space)), ':') {
        Some(m) => m,
        None => i,
    };
    match requirement_of(s, m) {
        Some((_, e)) => e,
        None => m,
    }
}

/// Whether `e` is the enum that the body at `i` denotes: its non-empty members
/// in order, and the attributes written before the brace.
pub open spec fn enum_denoted(s: Seq<char>, i: int, e: EnumContent) -> bool {
    &&& enum_body_spec(s, i) matches Some((ms, _)) && strings_view(e.selection@) == ms
    &&& attributes_denoted(s, i, e.attributes@)
}

/// Whether `t` is the type expression that the text at `i` denotes.
pub open spec fn type_denoted(s: Seq<char>, i: int, t: TypeWithAttributes) -> bool
    decreases t, 2nat,
{
    match primitive_spec(s, i) {
        Some((p, j)) => primitive_type(p, t.target_type) && attributes_denoted(s, j, t.attributes@),
        None => {
            let l = i + "List"@.len();
            let c = run_end(s, i + "schema"@.len(), CharClass::Space);
            if starts_with(s, i, "List"@) && i < l && list_end(s, l) is Some {
                match t.target_type {
                    Type::List { item_type } => type_denoted(s, list_item_start(s, l), *item_type)
                        && attributes_denoted(s, list_attributes_start(s, l), t.attributes@),
                    _ => false,
                }
            } else if starts_with(s, i, "schema"@) && i < c <= s.len() && schema_body_end(s, c) is Some {
                match t.target_type {
                    Type::Schema(ReferenceOr::Value(content)) => content_denoted(s, c, content)
                        && t.attributes@.len() == 0,
                    _ => false,
                }
            } else if starts_with(s, i, "enum"@) && enum_members_spec(s, i + "enum"@.len()) is Some {
                match t.target_type {
                    Type::Enum(e) => enum_denoted(s, i + "enum"@.len(), e) && t.attributes@.len() == 0,
                    _ => false,
                }
            } else {
                match t.target_type {
                    Type::Schema(ReferenceOr::Ref(n)) => has_identifier(s, i) && n@ == s.subrange(
                        i,
                        identifier_end(s, i),
                    ) && t.attributes@.len() == 0,
                    _ => false,
                }
            }
        },
    }
}

/// Whether `c` is the schema body that the text at `i` denotes: a field list
/// with the attributes before it, or a typedef after `=`.
pub open spec fn content_denoted(s: Seq<char>, i: int, c: SchemaContent) -> bool
    decreases c, 2nat,
{
    if schema_brace_at(s, i) {
        let j = run_end(s, opt_attributes_end(s, i), CharClass::Space);
        let p = run_end(s, j + 1, CharClass::Space);
        match c {
            SchemaContent::Definition { fields, attributes } => attributes_denoted(
                s,
                i,
                attributes@,
            ) && fields@.len() == field_starts(s, p).len() && fields_denoted(
                s,
                field_starts(s, p),
                fields,
                fields@.len() as int,
            ),
            _ => false,
        }
    } else {
        match c {
            SchemaContent::Typedef(t) => type_denoted(s, run_end(s, i + 1, CharClass::Space), *t),
            _ => false,
        }
    }
}

/// Whether the first `n` fields are those written at their starts.
pub open spec fn fields_denoted(s: Seq<char>, starts: Seq<int>, f: Vec<SchemaField>, n: int) -> bool
    decreases f, n,
{
    if n <= 0 || n > f@.len() {
        n <= 0
    } else {
        fields_denoted(s, starts, f, n - 1) && field_denoted(s, starts[n - 1], f@[n - 1])
    }
}

proof fn lemma_fields_denoted_push(
    s: Seq<char>,
    starts: Seq<int>,
    p: Vec<SchemaField>,
    q: Vec<SchemaField>,
    n: int,
)
    requires
        0 <= n <= p@.len(),
        p@.len() <= q@.len(),
        forall|x: int| 0 <= x < p@.len() ==> #[trigger] q@[x] == p@[x],
    ensures
        fields_denoted(s, starts, q, n) == fields_denoted(s, starts, p, n),
    decreases n,
{
    if n > 0 {
        lemma_fields_denoted_push(s, starts, p, q, n - 1);
    }
}

/// Whether `f` is the field written at `i`: its name, its requirement and its
/// type.
pub open spec fn field_denoted(s: Seq<char>, i: int, f: SchemaField) -> bool
    decreases f, 2nat,
{
    field_parsed(s, i, f) && type_denoted(s, field_type_start(s, i), f.target_type)
}

/// Whether the type expression at `i` is a bare name: no primitive keyword,
/// `List<..>`, inline schema or inline enum stands there.
pub open spec fn type_is_name(s: Seq<char>, i: int) -> bool {
    let l = i + "List"@.len();
    let c = run_end(s, i + "schema"@.len(), CharClass::Space);
    &&& primitive_spec(s, i) is None
    &&& !(starts_with(s, i, "List"@) && i < l && list_end(s, l) is Some)
    &&& !(starts_with(s, i, "schema"@) && i < c <= s.len() && schema_body_end(s, c) is Some)
    &&& !(starts_with(s, i, "enum"@) && enum_members_spec(s, i + "enum"@.len()) is Some)
}

/// What a parsed type expression says of the text at `i`: a primitive is the
/// keyword there; otherwise `List`, `schema` or `enum` starts there, or else
/// the type names the schema whose name is the identifier there.
pub open spec fn type_parsed(s: Seq<char>, i: int, t: Type, e: int) -> bool {
    match primitive_spec(s, i) {
        Some((p, j)) => primitive_type(p, t) && j <= e,
        None => match t {
            Type::List { .. } => starts_with(s, i, "List"@),
            Type::Schema(ReferenceOr::Value(_)) => starts_with(s, i, "schema"@),
            Type::Enum(_) => starts_with(s, i, "enum"@),
            Type::Schema(ReferenceOr::Ref(n)) => has_identifier(s, i) && e == identifier_end(s, i)
                && n@ == s.subrange(i, e),
            _ => false,
        },
    }
}

/// A type expression: a primitive keyword with optional attributes,
/// `List<T>`, an inline `schema` or `enum` body, or else an identifier naming
/// a schema.  Where none of these stands, nothing is parsed.
pub fn data_type(s: &Vec<char>, i: usize) -> (r: Option<(TypeWithAttributes, usize)>)
    requires
        at(s@, i as int),
    ensures
        match type_end(s@, i as int) {
            Some(e) => r matches Some((t, f)) && f as int == e && i <= f <= s@.len()
                && names_unique(t.attributes@) && type_parsed(s@, i as int, t.target_type, e)
                && (type_is_name(s@, i as int) <==> t.target_type matches Type::Schema(
                ReferenceOr::Ref(_),
            )),
            None => r is None,
        },
        r matches Some((t, _)) ==> type_denoted(s@, i as int, t),
    decreases s@.len() - i, 5nat,
{
    proof {
        reveal_strlit("List");
        reveal_strlit("schema");
        reveal_strlit("enum");
    }
    if let Some((t, j)) = primitive_keyword(s, i) {
        let (attributes, e) = opt_attributes(s, j);
        return Some((TypeWithAttributes { target_type: t, attributes }, e));
    }
    if let Some(j) = keyword(s, i, "List") {
        if let Some(r) = list_rest(s, j) {
            return Some(r);
        }
    }
    if let Some(j) = keyword(s, i, "schema") {
        let j = ws0(s, j);
        if let Some((content, e)) = schema_body(s, j) {
            return Some(
                (
                    TypeWithAttributes {
                        target_type: Type::Schema(ReferenceOr::Value(content)),
                        attributes: Vec::new(),
                    },
                    e,
                ),
            );
        }
    }
    if let Some(j) = keyword(s, i, "enum") {
        if let Some((content, e)) = enum_body(s, j) {
            return Some(
                (TypeWithAttributes { target_type: Type::Enum(content), attributes: Vec::new() }, e),
            );
        }
    }
    match identifier(s, i) {
        Some((name, e)) => Some(
            (
                TypeWithAttributes {
                    target_type: Type::Schema(ReferenceOr::Ref(name)),
                    attributes: Vec::new(),
                },
                e,
            ),
        ),
        None => None,
    }
}

/// What follows `List`: `<T>` with optional whitespace, then optional attributes.
fn list_rest(s: &Vec<char>, i: usize) -> (r: Option<(TypeWithAttributes, usize)>)
    requires
        at(s@, i as int),
    ensures
        r matches Some((t, e)) ==> i < e <= s@.len() && names_unique(t.attributes@)
            && t.target_type is List,
        match list_end(s@, i as int) {
            Some(e) => r matches Some((_, f)) && f as int == e,
            None => r is None,
        },
        r matches Some((t, _)) ==> match t.target_type {
            Type::List { item_type } => type_denoted(s@, list_item_start(s@, i as int), *item_type)
                && attributes_denoted(s@, list_attributes_start(s@, i as int), t.attributes@),
            _ => false,
        },
    decreases s@.len() - i, 4nat,
{
    let j = match padded_symbol(s, i, '<') {
        Some(j) => j,
        None => return None,
    };
    let (item, j) = match data_type(s, j) {
        Some(t) => t,
        None => return None,
    };
    let j = match padded_symbol(s, j, '>') {
        Some(j) => j,
        None => return None,
    };
    let (attributes, e) = opt_attributes(s, j);
    Some(
        (
            TypeWithAttributes {
                target_type: Type::List { item_type: Box::new(item) },
                attributes,
            },
            e,
        ),
    )
}

/// A schema body: optional attributes and a brace-delimited field list, or
/// `= Type`.
pub fn schema_body(s: &Vec<char>, i: usize) -> (r: Option<(SchemaContent, usize)>)
    requires
        at(s@, i as int),
    ensures
        r matches Some((_, e)) ==> i < e <= s@.len(),
        match schema_body_end(s@, i as int) {
            Some(e) => r matches Some((_, f)) && f as int == e,
            None => r is None,
        },
        r matches Some((SchemaContent::Definition { fields, .. }, _)) ==> fields_parsed(
            s@,
            field_starts(s@, body_fields_start(s@, i as int)),
            fields@,
        ),
        r matches Some((c, _)) ==> content_denoted(s@, i as int, c),
    decreases s@.len() - i, 4nat,
{
    let (attributes, j) = opt_attributes(s, i);
    let j = ws0(s, j);
    if let Some(j) = symbol(s, j, '{') {
        let j = ws0(s, j);
        let (fields, j) = schema_fields(s, j);
        let j = ws0(s, j);
        if let Some(e) = symbol(s, j, '}') {
            return Some((SchemaContent::Definition { fields, attributes }, e));
        }
    }
    if let Some(j) = symbol(s, i, '=') {
        let j = ws0(s, j);
        return match data_type(s, j) {
            Some((t, e)) => Some((SchemaContent::Typedef(Box::new(t)), e)),
            None => None,
        };
    }
    None
}

/// Fields separated by commas, with an optional trailing comma.
#[verifier::rlimit(40)]
fn schema_fields(s: &Vec<char>, i: usize) -> (r: (Vec<SchemaField>, usize))
    requires
        at(s@, i as int),
    ensures
        i <= r.1 <= s@.len(),
        r.1 == fields_end(s@, i as int),
        fields_parsed(s@, field_starts(s@, i as int), r.0@),
        fields_denoted(s@, field_starts(s@, i as int), r.0, r.0@.len() as int),
    decreases s@.len() - i, 3nat,
{
    let mut fields: Vec<SchemaField> = Vec::new();
    let j = ws0(s, i);
    let mut pos = j;
    let ghost all = field_starts(s@, i as int);
    if let Some((f, e)) = schema_field(s, j) {
        let ghost empty = fields;
        fields.push(f);
        pos = e;
        let ghost first = e as int;
        let ghost starts: Seq<int> = seq![j as int];
        assert(all == starts + fields_tail(s@, pos as int));
        proof {
            assert(all[0] == j as int);
            lemma_fields_denoted_push(s@, all, empty, fields, 0);
        }
        loop
            invariant
                i <= j <= pos <= s@.len(),
                j < first,
                at(s@, pos as int),
                fields_tail_end(s@, first) == fields_tail_end(s@, pos as int),
                fields_parsed(s@, starts, fields@),
                all == starts + fields_tail(s@, pos as int),
                fields_denoted(s@, all, fields, fields@.len() as int),
            ensures
                i <= j <= pos <= s@.len(),
                fields_tail_end(s@, first) == pos,
                fields_parsed(s@, all, fields@),
                fields_denoted(s@, all, fields, fields@.len() as int),
            decreases s@.len() - pos,
        {
            let k = match symbol(s, pos, ',') {
                Some(k) => k,
                None => {
                    assert(starts + Seq::<int>::empty() =~= starts);
                    break;
                },
            };
            match schema_field(s, k) {
                Some((f, e)) => {
                    let ghost before = fields@;
                    let ghost bv = fields;
                    fields.push(f);
                    proof {
                        lemma_fields_denoted_push(s@, all, bv, fields, before.len() as int);
                        assert(all[before.len() as int] == k as int) by {
                            assert(fields_tail(s@, pos as int) == seq![k as int] + fields_tail(s@, e as int));
                            assert(all == starts + (seq![k as int] + fields_tail(s@, e as int)));
                            assert(starts.len() == before.len());
                        }
                        assert(fields_tail(s@, pos as int) == seq![k as int] + fields_tail(s@, e as int));
                        assert(starts + (seq![k as int] + fields_tail(s@, e as int)) =~= starts.push(k as int) + fields_tail(s@, e as int));
                        assert forall|x: int| 0 <= x < fields@.len() implies field_parsed(s@, starts.push(k as int)[x], #[trigger] fields@[x]) by {
                            if x < before.len() {
                                assert(fields@[x] == before[x]);
                            }
                        }
                        starts = starts.push(k as int);
                    }
                    pos = e;
                },
                None => {
                    assert(starts + Seq::<int>::empty() =~= starts);
                    break;
                },
            }
        }
    } else {
        assert(fields_parsed(s@, all, fields@));
        assert(fields_denoted(s@, all, fields, 0));
    }
    let pos = ws0(s, pos);
    let pos = match symbol(s, pos, ',') {
        Some(k) => k,
        None => pos,
    };
    (fields, ws0(s, pos))
}

/// The name of the field at `i` is the identifier after the leading
/// whitespace, and it is optional exactly when `optional` follows the colon.
pub open spec fn field_parsed(s: Seq<char>, i: int, f: SchemaField) -> bool {
    let j = run_end(s, i, CharClass::Space);
    let k = identifier_end(s, j);
    f.name@ == s.subrange(j, k) && match padded_symbol_spec(s, k, ':') {
        Some(m) => f.requirement == match requirement_of(s, m) {
            Some((q, _)) => q,
            None => Requirement::Required,
        },
        None => false,
    }
}

/// `name: [required|optional] Type`, surrounded by optional whitespace; a field
/// is required unless marked `optional`.
fn schema_field(s: &Vec<char>, i: usize) -> (r: Option<(SchemaField, usize)>)
    requires
        at(s@, i as int),
    ensures
        r matches Some((_, e)) ==> i < e <= s@.len(),
        match field_end(s@, i as int) {
            Some(e) => r matches Some((_, f)) && f as int == e,
            None => r is None,
        },
        r matches Some((f, _)) ==> field_parsed(s@, i as int, f),
        r matches Some((f, _)) ==> field_denoted(s@, i as int, f),
    decreases s@.len() - i, 2nat,
{
    let j = ws0(s, i);
    let (name, j) = match identifier(s, j) {
        Some(t) => t,
        None => return None,
    };
    let j = match padded_symbol(s, j, ':') {
        Some(j) => j,
        None => return None,
    };
    let (requirement, j) = match requirement_spec(s, j) {
        Some(t) => t,
        None => (Requirement::Required, j),
    };
    let (target_type, j) = match data_type(s, j) {
        Some(t) => t,
        None => return None,
    };
    let e = ws0(s, j);
    Some((SchemaField { name, requirement, target_type }, e))
}

/// `required` or `optional`, followed by whitespace.
pub fn requirement_spec(s: &Vec<char>, i: usize) -> (r: Option<(Requirement, usize)>)
    requires
        at(s@, i as int),
    ensures
        r matches Some((_, e)) ==> i < e <= s@.len(),
        match requirement_of(s@, i as int) {
            Some((q, e)) => r matches Some((q2, f)) && q2 == q && f as int == e,
            None => r is None,
        },
{
    let (req, j) = if let Some(j) = keyword(s, i, "required") {
        (Requirement::Required, j)
    } else if let Some(j) = keyword(s, i, "optional") {
        (Requirement::Optional, j)
    } else {
        return None;
    };
    match ws1(s, j) {
        Some(e) => Some((req, e)),
        None => None,
    }
}

/// The members of an enum body with the empty ones left out, in order.
pub open spec fn non_empty(items: Seq<String>) -> Seq<String>
    decreases items.len(),
{
    if items.len() == 0 {
        Seq::empty()
    } else if items.last()@.len() == 0 {
        non_empty(items.drop_last())
    } else {
        non_empty(items.drop_last()).push(items.last())
    }
}

/// Drops the empty members, keeping the order of the others.
pub fn drop_empty_members(items: Vec<String>) -> (r: Vec<String>)
    ensures
        r@ == non_empty(items@),
{
    let mut items = items;
    let ghost all = items@;
    let mut r: Vec<String> = Vec::new();
    let mut k: usize = 0;
    let n = items.len();
    while k < n
        invariant
            n == all.len(),
            k <= n,
            items@ == all.subrange(k as int, n as int),
            r@ == non_empty(all.subrange(0, k as int)),
        decreases n - k,
    {
        let m = items.remove(0);
        assert(all.subrange(0, k + 1).drop_last() =~= all.subrange(0, k as int));
        if m.unicode_len() != 0 {
            r.push(m);
        }
        k += 1;
        assert(items@ =~= all.subrange(k as int, n as int));
    }
    assert(all.subrange(0, n as int) =~= all);
    r
}

/// The member texts with the empty ones left out, in order.
pub open spec fn non_empty_texts(items: Seq<Seq<char>>) -> Seq<Seq<char>>
    decreases items.len(),
{
    if items.len() == 0 {
        Seq::empty()
    } else if items.last().len() == 0 {
        non_empty_texts(items.drop_last())
    } else {
        non_empty_texts(items.drop_last()).push(items.last())
    }
}

proof fn lemma_non_empty_texts(items: Seq<String>)
    ensures
        strings_view(non_empty(items)) == non_empty_texts(strings_view(items)),
    decreases items.len(),
{
    if items.len() > 0 {
        lemma_non_empty_texts(items.drop_last());
        assert(strings_view(items).drop_last() =~= strings_view(items.drop_last()));
        if items.last()@.len() != 0 {
            assert(strings_view(non_empty(items)) =~= strings_view(non_empty(items.drop_last())).push(
                items.last()@,
            ));
        }
    } else {
        assert(strings_view(non_empty(items)) =~= Seq::empty());
    }
}

/// One enum member at `i`: the content of a string literal or an identifier,
/// with optional whitespace around it; its text and where it ends.
pub open spec fn member_spec(s: Seq<char>, i: int) -> (Seq<char>, int) {
    let j = run_end(s, i, CharClass::Space);
    match string_literal_spec(s, j) {
        Some((a, b, e)) => (s.subrange(a, b), run_end(s, e, CharClass::Space)),
        None => (s.subrange(j, identifier_end(s, j)), run_end(s, identifier_end(s, j), CharClass::Space)),
    }
}

/// The members that follow, each after a comma, from `pos`; and where they end.
pub open spec fn members_after(s: Seq<char>, pos: int) -> (Seq<Seq<char>>, int)
    decreases s.len() - pos,
{
    if 0 <= pos < s.len() && s[pos] == ',' {
        let (m, e) = member_spec(s, pos + 1);
        if pos < e <= s.len() {
            let (rest, f) = members_after(s, e);
            (seq![m] + rest, f)
        } else {
            (Seq::empty(), pos)
        }
    } else {
        (Seq::empty(), pos)
    }
}

/// The members an enum body at `i` declares, empty ones included, in order;
/// and where the body ends.
pub open spec fn enum_members_spec(s: Seq<char>, i: int) -> Option<(Seq<Seq<char>>, int)> {
    let j = run_end(s, opt_attributes_end(s, i), CharClass::Space);
    if j < s.len() && s[j] == '{' {
        let (m0, e0) = member_spec(s, run_end(s, j + 1, CharClass::Space));
        let (ms, p) = members_after(s, e0);
        let q = run_end(s, p, CharClass::Space);
        let q2 = if q < s.len() && s[q] == ',' {
            q + 1
        } else {
            q
        };
        let q3 = run_end(s, q2, CharClass::Space);
        if q3 < s.len() && s[q3] == '}' {
            Some((seq![m0] + ms, q3 + 1))
        } else {
            None
        }
    } else {
        None
    }
}

/// An enum body at `i`: its non-empty members in the order declared, and where
/// it ends.
pub open spec fn enum_body_spec(s: Seq<char>, i: int) -> Option<(Seq<Seq<char>>, int)> {
    match enum_members_spec(s, i) {
        Some((ms, e)) => Some((non_empty_texts(ms), e)),
        None => None,
    }
}

/// One enum member: a string literal's content or an identifier, with optional
/// whitespace around it.
fn enum_member(s: &Vec<char>, i: usize) -> (r: (String, usize))
    requires
        at(s@, i as int),
    ensures
        i <= r.1 <= s@.len(),
        (r.0@, r.1 as int) == member_spec(s@, i as int),
{
    let j = ws0(s, i);
    let (m, j) = match string_literal(s, j) {
        Some((a, b, e)) => (substring(s, a, b), e),
        None => identifier_or_empty(s, j),
    };
    (m, ws0(s, j))
}

/// An enum body: optional attributes, then `{ member, member, ... }` with an
/// optional trailing comma; members that are empty are left out.
pub fn enum_body(s: &Vec<char>, i: usize) -> (r: Option<(EnumContent, usize)>)
    requires
        at(s@, i as int),
    ensures
        r matches Some((c, e)) ==> i < e <= s@.len() && names_unique(c.attributes@),
        match enum_body_spec(s@, i as int) {
            Some((ms, e)) => r matches Some((c, f)) && strings_view(c.selection@) == ms && f as int
                == e,
            None => r is None,
        },
        r matches Some((c, _)) ==> enum_denoted(s@, i as int, c),
{
    let (attributes, j) = opt_attributes(s, i);
    let j = ws0(s, j);
    let j = match symbol(s, j, '{') {
        Some(j) => j,
        None => return None,
    };
    let j = ws0(s, j);
    let mut items: Vec<String> = Vec::new();
    let (m, mut pos) = enum_member(s, j);
    let ghost m0 = m@;
    let ghost e0 = pos as int;
    let ghost acc: Seq<Seq<char>> = Seq::empty();
    items.push(m);
    assert(strings_view(items@) =~= seq![m0] + acc);
    assert(members_after(s@, e0) == (acc + members_after(s@, pos as int).0, members_after(s@, pos as int).1)) by {
        assert(acc + members_after(s@, pos as int).0 =~= members_after(s@, pos as int).0);
    }
    loop
        invariant
            j <= pos <= s@.len(),
            at(s@, pos as int),
            i < j,
            strings_view(items@) == seq![m0] + acc,
            members_after(s@, e0) == (acc + members_after(s@, pos as int).0, members_after(s@, pos as int).1),
        ensures
            j <= pos <= s@.len(),
            strings_view(items@) == seq![m0] + acc,
            members_after(s@, e0) == (acc, pos as int),
        decreases s@.len() - pos,
    {
        let k = match symbol(s, pos, ',') {
            Some(k) => k,
            None => {
                assert(acc + Seq::<Seq<char>>::empty() =~= acc);
                break;
            },
        };
        let (m, e) = enum_member(s, k);
        proof {
            let rest = members_after(s@, e as int);
            assert(members_after(s@, pos as int) == (seq![m@] + rest.0, rest.1));
            assert(acc + (seq![m@] + rest.0) =~= acc.push(m@) + rest.0);
            acc = acc.push(m@);
        }
        let ghost before = items@;
        items.push(m);
        assert(strings_view(items@) =~= strings_view(before).push(items@.last()@));
        assert(seq![m0] + acc =~= (seq![m0] + acc.drop_last()).push(acc.last()));
        pos = e;
    }
    let pos = ws0(s, pos);
    let pos = match symbol(s, pos, ',') {
        Some(k) => k,
        None => pos,
    };
    let pos = ws0(s, pos);
    match symbol(s, pos, '}') {
        Some(e) => {
            let selection = drop_empty_members(items);
            proof {
                lemma_non_empty_texts(items@);
            }
            Some((EnumContent { selection, attributes }, e))
        },
        None => None,
    }
}

/// Whether the character at `i` is `c`.
pub open spec fn char_at(s: Seq<char>, i: int, c: char) -> bool {
    0 <= i < s.len() && s[i] == c
}

/// Where `{ <content> }` ends, when the braces hold what `inner` accepts:
/// optional whitespace inside on both sides.
pub open spec fn braced_end(s: Seq<char>, j: int, inner: Option<int>) -> Option<int> {
    match inner {
        Some(c) => {
            let q = run_end(s, c, CharClass::Space);
            if char_at(s, q, '}') {
                Some(q + 1)
            } else {
                None
            }
        },
        None => None,
    }
}

/// Where the parameter content at `i` ends: optional attributes, then
/// `{ content = [required|optional] Type }`.
pub open spec fn parameter_content_end(s: Seq<char>, i: int) -> Option<int> {
    let j = run_end(s, opt_attributes_end(s, i), CharClass::Space);
    let c = run_end(s, j + 1, CharClass::Space);
    if char_at(s, j, '{') && starts_with(s, c, "content"@) {
        match padded_symbol_spec(s, c + "content"@.len(), '=') {
            Some(m) => {
                let r = match requirement_of(s, m) {
                    Some((_, e)) => e,
                    None => m,
                };
                braced_end(s, j, type_end(s, r))
            },
            None => None,
        }
    } else {
        None
    }
}

/// The keyword of a parameter kind.
pub open spec fn kind_word(kind: ParameterType) -> Seq<char> {
    match kind {
        ParameterType::Query => "query"@,
        ParameterType::Header => "header"@,
        ParameterType::Path => "pathParameter"@,
        ParameterType::Cookie => "cookie"@,
    }
}

/// Where a parameter in a block of the given kind ends: `parameter { ... }`,
/// else the kind's keyword followed by `{ ... }`.
pub open spec fn inferred_parameter_end(s: Seq<char>, i: int, kind: ParameterType) -> Option<int> {
    if starts_with(s, i, "parameter"@) && parameter_content_end(s, i + "parameter"@.len()) is Some {
        parameter_content_end(s, i + "parameter"@.len())
    } else if starts_with(s, i, kind_word(kind)) {
        parameter_content_end(s, i + kind_word(kind).len())
    } else {
        None
    }
}

/// Where the entry `name: <parameter>` at `i` ends, whitespace around it
/// included; the name is a string literal or an identifier.
pub open spec fn parameter_entry_end(s: Seq<char>, i: int, kind: ParameterType) -> Option<int> {
    let j = run_end(s, i, CharClass::Space);
    let n = match string_literal_spec(s, j) {
        Some((_, _, e)) => e,
        None => identifier_end(s, j),
    };
    let named = string_literal_spec(s, j) is Some || has_identifier(s, j);
    match padded_symbol_spec(s, n, ':') {
        Some(m) => if named {
            match inferred_parameter_end(s, m, kind) {
                Some(e) => Some(run_end(s, e, CharClass::Space)),
                None => None,
            }
        } else {
            None
        },
        None => None,
    }
}

/// Where the run of `, entry` continuations from `pos` ends.
pub open spec fn entries_tail_end(s: Seq<char>, pos: int, kind: ParameterType) -> int
    decreases s.len() - pos,
{
    if char_at(s, pos, ',') {
        match parameter_entry_end(s, pos + 1, kind) {
            Some(e) => if pos < e <= s.len() {
                entries_tail_end(s, e, kind)
            } else {
                pos
            },
            None => pos,
        }
    } else {
        pos
    }
}

/// Where the block `parameters { entry, ... }` at `i` ends.
pub open spec fn parameters_block_end(s: Seq<char>, i: int, kind: ParameterType) -> Option<int> {
    let j = run_end(s, i + "parameters"@.len(), CharClass::Space);
    let p = run_end(s, j + 1, CharClass::Space);
    if starts_with(s, i, "parameters"@) && char_at(s, j, '{') {
        let pos = match parameter_entry_end(s, p, kind) {
            Some(e) => entries_tail_end(s, e, kind),
            None => p,
        };
        let pos2 = if char_at(s, pos, ',') {
            pos + 1
        } else {
            pos
        };
        braced_end(s, j, Some(pos2))
    } else {
        None
    }
}

/// Where `content = Type` at `i` ends, whitespace around it included.
pub open spec fn content_assignment_end(s: Seq<char>, i: int) -> Option<int> {
    let j = run_end(s, i, CharClass::Space);
    if starts_with(s, j, "content"@) {
        match padded_symbol_spec(s, j + "content"@.len(), '=') {
            Some(m) => match type_end(s, m) {
                Some(t) => Some(run_end(s, t, CharClass::Space)),
                None => None,
            },
            None => None,
        }
    } else {
        None
    }
}

/// Where `headers = parameters { ... }` at `i` ends.
pub open spec fn headers_assignment_end(s: Seq<char>, i: int) -> Option<int> {
    let j = run_end(s, i, CharClass::Space);
    if starts_with(s, j, "headers"@) {
        match padded_symbol_spec(s, j + "headers"@.len(), '=') {
            Some(m) => parameters_block_end(s, m, ParameterType::Header),
            None => None,
        }
    } else {
        None
    }
}

/// Where a request body's content at `i` ends: optional attributes, then
/// `{ content = Type }`.
pub open spec fn request_body_content_end(s: Seq<char>, i: int) -> Option<int> {
    let j = run_end(s, opt_attributes_end(s, i), CharClass::Space);
    if char_at(s, j, '{') {
        braced_end(s, j, content_assignment_end(s, run_end(s, j + 1, CharClass::Space)))
    } else {
        None
    }
}

/// Where a response's content at `i` ends: optional attributes, then braces
/// holding a content assignment and an optional headers assignment, in either
/// order.
pub open spec fn response_content_end(s: Seq<char>, i: int) -> Option<int> {
    let j = run_end(s, opt_attributes_end(s, i), CharClass::Space);
    let p = run_end(s, j + 1, CharClass::Space);
    if char_at(s, j, '{') {
        let (h, p1) = match headers_assignment_end(s, p) {
            Some(e) => (true, e),
            None => (false, p),
        };
        match content_assignment_end(s, p1) {
            Some(c) => {
                let p2 = if h {
                    c
                } else {
                    match headers_assignment_end(s, c) {
                        Some(e) => e,
                        None => c,
                    }
                };
                braced_end(s, j, Some(p2))
            },
            None => None,
        }
    } else {
        None
    }
}

/// Whether `c` is the parameter content written at `i`: its attributes, its
/// requirement (required unless marked `optional`) and its type.
pub open spec fn parameter_content_denoted(s: Seq<char>, i: int, c: ParameterContent) -> bool {
    let j = run_end(s, opt_attributes_end(s, i), CharClass::Space);
    let c0 = run_end(s, j + 1, CharClass::Space);
    let m = match padded_symbol_spec(s, c0 + "content"@.len(), '=') {
        Some(m) => m,
        None => i,
    };
    let (req, r) = match requirement_of(s, m) {
        Some((q, e)) => (q, e),
        None => (Requirement::Required, m),
    };
    attributes_denoted(s, i, c.attributes@) && c.requirement == req && type_denoted(s, r, c.content)
}

/// Whether `c` is the content of the parameter written at `i` in a block of
/// the given kind.
pub open spec fn inferred_parameter_denoted(s: Seq<char>, i: int, kind: ParameterType, c: ParameterContent) -> bool {
    if starts_with(s, i, "parameter"@) && parameter_content_end(s, i + "parameter"@.len()) is Some {
        parameter_content_denoted(s, i + "parameter"@.len(), c)
    } else {
        parameter_content_denoted(s, i + kind_word(kind).len(), c)
    }
}

/// Whether `p` is the entry written at `i` in a block of the given kind: its
/// name, the block's kind, and its content.
pub open spec fn entry_denoted(s: Seq<char>, i: int, kind: ParameterType, p: Parameter) -> bool {
    let j = run_end(s, i, CharClass::Space);
    let (name, n) = match string_literal_spec(s, j) {
        Some((a, b, e)) => (s.subrange(a, b), e),
        None => (s.subrange(j, identifier_end(s, j)), identifier_end(s, j)),
    };
    let m = match padded_symbol_spec(s, n, ':') {
        Some(m) => m,
        None => i,
    };
    p.name@ == name && p.ty == Some(kind) && inferred_parameter_denoted(s, m, kind, p.content)
}

/// Where each `, entry` continuation from `pos` starts (after its comma).
pub open spec fn entries_tail(s: Seq<char>, pos: int, kind: ParameterType) -> Seq<int>
    decreases s.len() - pos,
{
    if char_at(s, pos, ',') {
        match parameter_entry_end(s, pos + 1, kind) {
            Some(e) => if pos < e <= s.len() {
                seq![pos + 1] + entries_tail(s, e, kind)
            } else {
                Seq::empty()
            },
            None => Seq::empty(),
        }
    } else {
        Seq::empty()
    }
}

/// Where each entry of the block `parameters { ... }` at `i` starts.
pub open spec fn entry_starts(s: Seq<char>, i: int, kind: ParameterType) -> Seq<int> {
    let j = run_end(s, i + "parameters"@.len(), CharClass::Space);
    let p = run_end(s, j + 1, CharClass::Space);
    match parameter_entry_end(s, p, kind) {
        Some(e) => seq![p] + entries_tail(s, e, kind),
        None => Seq::empty(),
    }
}

/// Whether `ps` are the entries of the block written at `i`, in order.
pub open spec fn parameters_denoted(s: Seq<char>, i: int, kind: ParameterType, ps: Seq<Parameter>) -> bool {
    let st = entry_starts(s, i, kind);
    ps.len() == st.len() && forall|x: int| 0 <= x < ps.len() ==> entry_denoted(s, st[x], kind, #[trigger] ps[x])
}

/// Where the type of a `content = Type` assignment at `i` starts.
pub open spec fn content_type_start(s: Seq<char>, i: int) -> int {
    let j = run_end(s, i, CharClass::Space);
    match padded_symbol_spec(s, j + "content"@.len(), '=') {
        Some(m) => m,
        None => i,
    }
}

/// Where the block of a `headers = parameters { ... }` assignment at `i` starts.
pub open spec fn headers_block_start(s: Seq<char>, i: int) -> int {
    let j = run_end(s, i, CharClass::Space);
    match padded_symbol_spec(s, j + "headers"@.len(), '=') {
        Some(m) => m,
        None => i,
    }
}

/// Whether `b` is the request body content written at `i`.
pub open spec fn request_body_denoted(s: Seq<char>, i: int, b: RequestBodyContent) -> bool {
    let j = run_end(s, opt_attributes_end(s, i), CharClass::Space);
    attributes_denoted(s, i, b.attributes@) && type_denoted(
        s,
        content_type_start(s, run_end(s, j + 1, CharClass::Space)),
        b.content,
    )
}

/// Whether `r` is the response content written at `i`: its attributes, its
/// content type, and its headers whether written before or after the content
/// (none where not written).
pub open spec fn response_denoted(s: Seq<char>, i: int, r: ResponseContent) -> bool {
    let j = run_end(s, opt_attributes_end(s, i), CharClass::Space);
    let p = run_end(s, j + 1, CharClass::Space);
    let (h, p1) = match headers_assignment_end(s, p) {
        Some(e) => (true, e),
        None => (false, p),
    };
    let c = match content_assignment_end(s, p1) {
        Some(c) => c,
        None => p1,
    };
    &&& attributes_denoted(s, i, r.attributes@)
    &&& type_denoted(s, content_type_start(s, p1), r.content)
    &&& if h {
        parameters_denoted(s, headers_block_start(s, p), ParameterType::Header, r.headers.parameters@)
    } else if headers_assignment_end(s, c) is Some {
        parameters_denoted(s, headers_block_start(s, c), ParameterType::Header, r.headers.parameters@)
    } else {
        r.headers.parameters@.len() == 0
    }
}

/// The keyword that introduces a parameter of the given kind.
fn kind_keyword(s: &Vec<char>, i: usize, kind: ParameterType) -> (r: Option<usize>)
    requires
        at(s@, i as int),
    ensures
        r matches Some(e) ==> i <= e <= s@.len(),
        r == (if starts_with(s@, i as int, kind_word(kind)) {
            Some((i + kind_word(kind).len()) as usize)
        } else {
            None
        }),
{
    match kind {
        ParameterType::Query => keyword(s, i, "query"),
        ParameterType::Header => keyword(s, i, "header"),
        ParameterType::Path => keyword(s, i, "pathParameter"),
        ParameterType::Cookie => keyword(s, i, "cookie"),
    }
}

/// Optional attributes, then `{ content = [required|optional] Type }`.
pub fn parameter_content(s: &Vec<char>, i: usize) -> (r: Option<(ParameterContent, usize)>)
    requires
        at(s@, i as int),
    ensures
        r matches Some((_, e)) ==> i < e <= s@.len(),
        match parameter_content_end(s@, i as int) {
            Some(e) => r matches Some((_, f)) && f as int == e,
            None => r is None,
        },
        r matches Some((c, _)) ==> parameter_content_denoted(s@, i as int, c),
{
    let (attributes, j) = opt_attributes(s, i);
    let j = ws0(s, j);
    let j = match symbol(s, j, '{') {
        Some(j) => j,
        None => return None,
    };
    let j = ws0(s, j);
    let j = match keyword(s, j, "content") {
        Some(j) => j,
        None => return None,
    };
    let j = match padded_symbol(s, j, '=') {
        Some(j) => j,
        None => return None,
    };
    let (requirement, j) = match requirement_spec(s, j) {
        Some(t) => t,
        None => (Requirement::Required, j),
    };
    let (content, j) = match data_type(s, j) {
        Some(t) => t,
        None => return None,
    };
    let j = ws0(s, j);
    match symbol(s, j, '}') {
        Some(e) => Some((ParameterContent { content, requirement, attributes }, e)),
        None => None,
    }
}

/// A parameter written inside a `parameters` block: `parameter { ... }`, or the
/// keyword of the block's own kind followed by `{ ... }`.
fn inferred_parameter(s: &Vec<char>, i: usize, kind: ParameterType) -> (r: Option<(ParameterContent, usize)>)
    requires
        at(s@, i as int),
    ensures
        r matches Some((_, e)) ==> i < e <= s@.len(),
        match inferred_parameter_end(s@, i as int, kind) {
            Some(e) => r matches Some((_, f)) && f as int == e,
            None => r is None,
        },
        r matches Some((c, _)) ==> inferred_parameter_denoted(s@, i as int, kind, c),
{
    if let Some(j) = keyword(s, i, "parameter") {
        if let Some(r) = parameter_content(s, j) {
            return Some(r);
        }
    }
    match kind_keyword(s, i, kind) {
        Some(j) => parameter_content(s, j),
        None => None,
    }
}

/// `name: <parameter>` in a `parameters` block, surrounded by optional
/// whitespace; the name is a string literal or an identifier.
fn parameter_entry(s: &Vec<char>, i: usize, kind: ParameterType) -> (r: Option<(Parameter, usize)>)
    requires
        at(s@, i as int),
    ensures
        r matches Some((p, e)) ==> i < e <= s@.len() && p.ty == Some(kind),
        match parameter_entry_end(s@, i as int, kind) {
            Some(e) => r matches Some((_, f)) && f as int == e,
            None => r is None,
        },
        r matches Some((p, _)) ==> entry_denoted(s@, i as int, kind, p),
{
    let j = ws0(s, i);
    let (name, j) = match string_literal(s, j) {
        Some((a, b, e)) => (substring(s, a, b), e),
        None => match identifier(s, j) {
            Some(t) => t,
            None => return None,
        },
    };
    let j = match padded_symbol(s, j, ':') {
        Some(j) => j,
        None => return None,
    };
    let (content, j) = match inferred_parameter(s, j, kind) {
        Some(t) => t,
        None => return None,
    };
    let e = ws0(s, j);
    Some((Parameter { name, ty: Some(kind), content }, e))
}

/// `parameters { name: ..., name: ... }`: every entry takes the kind of the
/// block it stands in.
#[verifier::rlimit(80)]
pub fn parameters_block(s: &Vec<char>, i: usize, kind: ParameterType) -> (r: Option<(Parameters, usize)>)
    requires
        at(s@, i as int),
    ensures
        r matches Some((p, e)) ==> i < e <= s@.len() && forall|x: int|
            0 <= x < p.parameters@.len() ==> #[trigger] p.parameters@[x].ty == Some(kind),
        match parameters_block_end(s@, i as int, kind) {
            Some(e) => r matches Some((_, f)) && f as int == e,
            None => r is None,
        },
        r matches Some((p, _)) ==> parameters_denoted(s@, i as int, kind, p.parameters@),
{
    let j = match keyword(s, i, "parameters") {
        Some(j) => j,
        None => return None,
    };
    let j = ws0(s, j);
    let j = match symbol(s, j, '{') {
        Some(j) => j,
        None => return None,
    };
    let j = ws0(s, j);
    let mut parameters: Vec<Parameter> = Vec::new();
    let mut pos = j;
    let ghost all = entry_starts(s@, i as int, kind);
    if let Some((p, e)) = parameter_entry(s, j, kind) {
        parameters.push(p);
        pos = e;
        let ghost first = e as int;
        let ghost starts: Seq<int> = seq![j as int];
        assert(all == starts + entries_tail(s@, pos as int, kind));
        loop
            invariant
                all == entry_starts(s@, i as int, kind),
                all == starts + entries_tail(s@, pos as int, kind),
                parameters@.len() == starts.len(),
                forall|x: int|
                    0 <= x < parameters@.len() ==> entry_denoted(s@, all[x], kind, #[trigger] parameters@[x]),
                i < j <= pos <= s@.len(),
                j < first,
                at(s@, pos as int),
                forall|x: int|
                    0 <= x < parameters@.len() ==> #[trigger] parameters@[x].ty == Some(kind),
                entries_tail_end(s@, first, kind) == entries_tail_end(s@, pos as int, kind),
            ensures
                i < j <= pos <= s@.len(),
                forall|x: int|
                    0 <= x < parameters@.len() ==> #[trigger] parameters@[x].ty == Some(kind),
                entries_tail_end(s@, first, kind) == pos,
                parameters_denoted(s@, i as int, kind, parameters@),
            decreases s@.len() - pos,
        {
            let k = match symbol(s, pos, ',') {
                Some(k) => k,
                None => {
                    proof {
                        assert(entries_tail(s@, pos as int, kind) == Seq::<int>::empty());
                        assert(all =~= starts);
                        assert(all == entry_starts(s@, i as int, kind));
                        assert forall|x: int| 0 <= x < parameters@.len() implies entry_denoted(
                            s@,
                            entry_starts(s@, i as int, kind)[x],
                            kind,
                            #[trigger] parameters@[x],
                        ) by {
                            assert(entry_denoted(s@, all[x], kind, parameters@[x]));
                        }
                    }
                    break;
                },
            };
            match parameter_entry(s, k, kind) {
                Some((p, e)) => {
                    let ghost before = parameters@;
                    parameters.push(p);
                    proof {
                        assert(entries_tail(s@, pos as int, kind) == seq![k as int] + entries_tail(s@, e as int, kind));
                        assert(starts + (seq![k as int] + entries_tail(s@, e as int, kind)) =~= starts.push(k as int) + entries_tail(s@, e as int, kind));
                        assert(all == starts.push(k as int) + entries_tail(s@, e as int, kind));
                        assert(starts.push(k as int)[before.len() as int] == k as int);
                        assert(all[before.len() as int] == k as int);
                        assert forall|x: int| 0 <= x < parameters@.len() implies entry_denoted(s@, all[x], kind, #[trigger] parameters@[x]) by {
                            if x < before.len() {
                                assert(parameters@[x] == before[x]);
                            }
                        }
                        starts = starts.push(k as int);
                    }
                    pos = e;
                },
                None => {
                    proof {
                        assert(entries_tail(s@, pos as int, kind) == Seq::<int>::empty());
                        assert(all =~= starts);
                        assert(all == entry_starts(s@, i as int, kind));
                        assert forall|x: int| 0 <= x < parameters@.len() implies entry_denoted(
                            s@,
                            entry_starts(s@, i as int, kind)[x],
                            kind,
                            #[trigger] parameters@[x],
                        ) by {
                            assert(entry_denoted(s@, all[x], kind, parameters@[x]));
                        }
                    }
                    break;
                },
            }
        }
    } else {
        assert(parameters_denoted(s@, i as int, kind, parameters@));
    }
    let pos = match symbol(s, pos, ',') {
        Some(k) => k,
        None => pos,
    };
    let pos = ws0(s, pos);
    match symbol(s, pos, '}') {
        Some(e) => Some((Parameters { parameters }, e)),
        None => None,
    }
}

/// `content = Type`, surrounded by optional whitespace.
fn content_assignment(s: &Vec<char>, i: usize) -> (r: Option<(TypeWithAttributes, usize)>)
    requires
        at(s@, i as int),
    ensures
        r matches Some((_, e)) ==> i < e <= s@.len(),
        match content_assignment_end(s@, i as int) {
            Some(e) => r matches Some((_, f)) && f as int == e,
            None => r is None,
        },
        r matches Some((t, _)) ==> type_denoted(s@, content_type_start(s@, i as int), t),
{
    let j = ws0(s, i);
    let j = match keyword(s, j, "content") {
        Some(j) => j,
        None => return None,
    };
    let j = match padded_symbol(s, j, '=') {
        Some(j) => j,
        None => return None,
    };
    let (t, j) = match data_type(s, j) {
        Some(t) => t,
        None => return None,
    };
    Some((t, ws0(s, j)))
}

/// `headers = parameters { ... }`, after optional whitespace.
fn headers_assignment(s: &Vec<char>, i: usize) -> (r: Option<(Parameters, usize)>)
    requires
        at(s@, i as int),
    ensures
        r matches Some((_, e)) ==> i < e <= s@.len(),
        match headers_assignment_end(s@, i as int) {
            Some(e) => r matches Some((_, f)) && f as int == e,
            None => r is None,
        },
        r matches Some((p, _)) ==> parameters_denoted(s@, headers_block_start(s@, i as int), ParameterType::Header, p.parameters@),
{
    let j = ws0(s, i);
    let j = match keyword(s, j, "headers") {
        Some(j) => j,
        None => return None,
    };
    let j = match padded_symbol(s, j, '=') {
        Some(j) => j,
        None => return None,
    };
    parameters_block(s, j, ParameterType::Header)
}

/// The body of a request body: optional attributes, then `{ content = Type }`.
pub fn request_body_content(s: &Vec<char>, i: usize) -> (r: Option<(RequestBodyContent, usize)>)
    requires
        at(s@, i as int),
    ensures
        r matches Some((_, e)) ==> i < e <= s@.len(),
        match request_body_content_end(s@, i as int) {
            Some(e) => r matches Some((_, f)) && f as int == e,
            None => r is None,
        },
        r matches Some((b, _)) ==> request_body_denoted(s@, i as int, b),
{
    let (attributes, j) = opt_attributes(s, i);
    let j = ws0(s, j);
    let j = match symbol(s, j, '{') {
        Some(j) => j,
        None => return None,
    };
    let j = ws0(s, j);
    let (content, j) = match content_assignment(s, j) {
        Some(t) => t,
        None => return None,
    };
    let j = ws0(s, j);
    match symbol(s, j, '}') {
        Some(e) => Some((RequestBodyContent { content, attributes }, e)),
        None => None,
    }
}

/// The body of a response: optional attributes, then braces holding a
/// `content` assignment and an optional `headers` assignment in either order.
/// Headers default to none.
pub fn response_content(s: &Vec<char>, i: usize) -> (r: Option<(ResponseContent, usize)>)
    requires
        at(s@, i as int),
    ensures
        r matches Some((_, e)) ==> i < e <= s@.len(),
        match response_content_end(s@, i as int) {
            Some(e) => r matches Some((_, f)) && f as int == e,
            None => r is None,
        },
        r matches Some((c, _)) ==> response_denoted(s@, i as int, c),
{
    let (attributes, j) = opt_attributes(s, i);
    let j = ws0(s, j);
    let j = match symbol(s, j, '{') {
        Some(j) => j,
        None => return None,
    };
    let j = ws0(s, j);
    let (headers, j) = match headers_assignment(s, j) {
        Some((h, e)) => (Some(h), e),
        None => (None, j),
    };
    let (content, j) = match content_assignment(s, j) {
        Some(t) => t,
        None => return None,
    };
    let (headers, j) = match headers {
        Some(h) => (h, j),
        None => match headers_assignment(s, j) {
            Some((h, e)) => (h, e),
            None => (Parameters { parameters: Vec::new() }, j),
        },
    };
    let j = ws0(s, j);
    match symbol(s, j, '}') {
        Some(e) => Some((ResponseContent { attributes, headers, content }, e)),
        None => None,
    }
}

} // verus!
