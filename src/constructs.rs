//! Top-level constructs: operations and paths, info blocks, named schemas,
//! enums, tags, request bodies and responses, imports, and whole source files.
use vstd::prelude::*;
use crate::data::{
    Enum, HttpMethod, Import, Info, Object, Operation, OperationContent, Parameter,
    ParameterType, Parameters, Path, PathContent, ReferenceOr, RequestBody, RequestBodyContent,
    Response, ResponseContent, Schema, SourceFileContent, Tag, Type, TypeWithAttributes,
};
use crate::lex::{
    has_identifier, identifier, identifier_end, keyword, padded_symbol, padded_symbol_spec, run_end, scan,
    starts_with, string_literal, string_literal_spec, substring, symbol, ws0, ws1, CharClass,
};
use crate::literals::{attributes_denoted, opt_attributes, opt_attributes_end};
use crate::table::{entries_set, set_entry};
use crate::openapi::strings_view;
use crate::openapi::opt_view;
use crate::types::{
    at, braced_end, char_at, content_denoted, data_type, enum_denoted, enum_body, enum_body_spec, enum_members_spec,
    parameter_content, parameter_content_denoted, parameter_content_end, parameters_block, parameters_block_end, request_body_content,
    request_body_content_end, response_content, response_content_end, schema_body,
    schema_body_end, type_end, type_is_name, type_parsed, type_denoted, request_body_denoted,
    response_denoted, parameters_denoted,
};

verus! {

/// One argument of an operation: a block of parameters of one kind, or the
/// request body.
#[derive(Debug)]
pub enum ParameterWithType {
    Queries(Parameters),
    Headers(Parameters),
    PathParameters(Parameters),
    Cookies(Parameters),
    RequestBody(ReferenceOr<RequestBodyContent>),
}

/// The request body of an argument list: the one written last, if any.
pub open spec fn last_body(args: Seq<ParameterWithType>) -> Option<ReferenceOr<RequestBodyContent>>
    decreases args.len(),
{
    if args.len() == 0 {
        None
    } else {
        match args.last() {
            ParameterWithType::RequestBody(b) => Some(b),
            _ => last_body(args.drop_last()),
        }
    }
}

/// The parameters of an argument list: those of every parameter block, in order.
pub open spec fn all_parameters(args: Seq<ParameterWithType>) -> Seq<Parameter>
    decreases args.len(),
{
    if args.len() == 0 {
        Seq::empty()
    } else {
        all_parameters(args.drop_last()) + match args.last() {
            ParameterWithType::Queries(p) => p.parameters@,
            ParameterWithType::Headers(p) => p.parameters@,
            ParameterWithType::PathParameters(p) => p.parameters@,
            ParameterWithType::Cookies(p) => p.parameters@,
            ParameterWithType::RequestBody(_) => Seq::empty(),
        }
    }
}

/// Splits an argument list into its parameters and its request body.  A body
/// given more than once is the last one written.
pub fn merge_arguments(args: Vec<ParameterWithType>) -> (r: (
    Parameters,
    Option<ReferenceOr<RequestBodyContent>>,
))
    ensures
        r.0.parameters@ == all_parameters(args@),
        r.1 == last_body(args@),
{
    let mut rest = args;
    let ghost all = rest@;
    let n = rest.len();
    let mut parameters: Vec<Parameter> = Vec::new();
    let mut body: Option<ReferenceOr<RequestBodyContent>> = None;
    let mut k: usize = 0;
    while k < n
        invariant
            n == all.len(),
            k <= n,
            rest@ == all.subrange(k as int, n as int),
            parameters@ == all_parameters(all.subrange(0, k as int)),
            body == last_body(all.subrange(0, k as int)),
        decreases n - k,
    {
        let a = rest.remove(0);
        assert(all.subrange(0, k + 1).drop_last() =~= all.subrange(0, k as int));
        assert(all.subrange(0, k + 1).last() == a);
        match a {
            ParameterWithType::Queries(p) => {
                let mut p = p;
                parameters.append(&mut p.parameters);
            },
            ParameterWithType::Headers(p) => {
                let mut p = p;
                parameters.append(&mut p.parameters);
            },
            ParameterWithType::PathParameters(p) => {
                let mut p = p;
                parameters.append(&mut p.parameters);
            },
            ParameterWithType::Cookies(p) => {
                let mut p = p;
                parameters.append(&mut p.parameters);
            },
            ParameterWithType::RequestBody(b) => {
                body = Some(b);
                assert(parameters@ =~= parameters@ + Seq::<Parameter>::empty());
            },
        }
        k += 1;
        assert(rest@ =~= all.subrange(k as int, n as int));
    }
    assert(all.subrange(0, n as int) =~= all);
    (Parameters { parameters }, body)
}

/// Where a request body in an argument ends: an inline `requestBody { ... }`,
/// else the identifier naming one.
pub open spec fn operation_request_body_end(s: Seq<char>, i: int) -> Option<int> {
    if starts_with(s, i, "requestBody"@) && request_body_content_end(s, i + "requestBody"@.len()) is Some {
        request_body_content_end(s, i + "requestBody"@.len())
    } else {
        type_end(s, i)
    }
}

/// The keyword an argument starts with: the kind of its parameter block, or
/// none for `body`; and where the keyword ends.
pub open spec fn argument_word(s: Seq<char>, i: int) -> Option<(Option<ParameterType>, int)> {
    if starts_with(s, i, "queries"@) {
        Some((Some(ParameterType::Query), i + "queries"@.len()))
    } else if starts_with(s, i, "headers"@) {
        Some((Some(ParameterType::Header), i + "headers"@.len()))
    } else if starts_with(s, i, "pathParameters"@) {
        Some((Some(ParameterType::Path), i + "pathParameters"@.len()))
    } else if starts_with(s, i, "cookie"@) {
        Some((Some(ParameterType::Cookie), i + "cookie"@.len()))
    } else if starts_with(s, i, "body"@) {
        Some((None, i + "body"@.len()))
    } else {
        None
    }
}

/// Where the argument at `i` ends.
pub open spec fn argument_end(s: Seq<char>, i: int) -> Option<int> {
    match argument_word(s, i) {
        Some((kind, j)) => match padded_symbol_spec(s, j, '=') {
            Some(m) => match kind {
                Some(k) => parameters_block_end(s, m, k),
                None => operation_request_body_end(s, m),
            },
            None => None,
        },
        None => None,
    }
}

/// Where the run of `, argument` continuations from `pos` ends.
pub open spec fn arguments_tail_end(s: Seq<char>, pos: int) -> int
    decreases s.len() - pos,
{
    match padded_symbol_spec(s, pos, ',') {
        Some(k) => match argument_end(s, k) {
            Some(e) => if pos < e <= s.len() {
                arguments_tail_end(s, e)
            } else {
                pos
            },
            None => pos,
        },
        None => pos,
    }
}

/// Where the parenthesised argument list at `i` ends.
pub open spec fn arguments_end(s: Seq<char>, i: int) -> Option<int> {
    match padded_symbol_spec(s, i, '(') {
        Some(j) => {
            let pos = match argument_end(s, j) {
                Some(e) => arguments_tail_end(s, e),
                None => j,
            };
            let p2 = match padded_symbol_spec(s, pos, ',') {
                Some(k) => k,
                None => run_end(s, pos, CharClass::Space),
            };
            padded_symbol_spec(s, p2, ')')
        },
        None => None,
    }
}

/// Where a response in a return statement ends: an inline `response { ... }`,
/// else the identifier naming one.
pub open spec fn operation_response_end(s: Seq<char>, i: int) -> Option<int> {
    if starts_with(s, i, "response"@) && response_content_end(s, i + "response"@.len()) is Some {
        response_content_end(s, i + "response"@.len())
    } else {
        type_end(s, i)
    }
}


/// Where the statement `return <code|default> <response>` at `i` ends; a code
/// is exactly three decimal digits.
pub open spec fn return_end(s: Seq<char>, i: int) -> Option<int> {
    let j = i + "return"@.len();
    let k = run_end(s, j, CharClass::Space);
    if starts_with(s, i, "return"@) && k > j {
        let d = starts_with(s, k, "default"@);
        let c = if d {
            k + "default"@.len()
        } else {
            run_end(s, k, CharClass::Decimal)
        };
        let m = run_end(s, c, CharClass::Space);
        if (d || run_end(s, k, CharClass::Decimal) - k == 3) && m > c {
            operation_response_end(s, m)
        } else {
            None
        }
    } else {
        None
    }
}

/// Where the run of return statements that follow `pos`, each after
/// whitespace, ends.
pub open spec fn returns_tail_end(s: Seq<char>, pos: int) -> int
    decreases s.len() - pos,
{
    let k = run_end(s, pos, CharClass::Space);
    if k > pos {
        match return_end(s, k) {
            Some(e) => if pos < e <= s.len() {
                returns_tail_end(s, e)
            } else {
                pos
            },
            None => pos,
        }
    } else {
        pos
    }
}

/// Where the operation at `i` ends.
pub open spec fn operation_end(s: Seq<char>, i: int) -> Option<int> {
    match method_spec(s, i) {
        Some((_, j)) => {
            let k = run_end(s, j, CharClass::Space);
            if k > j && has_identifier(s, k) {
                match arguments_end(s, identifier_end(s, k)) {
                    Some(a) => {
                        let b = run_end(s, a, CharClass::Space);
                        if char_at(s, b, '{') {
                            match return_end(s, run_end(s, b + 1, CharClass::Space)) {
                                Some(e) => braced_end(s, b, Some(returns_tail_end(s, e))),
                                None => None,
                            }
                        } else {
                            None
                        }
                    },
                    None => None,
                }
            } else {
                None
            }
        },
        None => None,
    }
}

/// Whether `b` is the request body written at `i`: a full `requestBody { ... }`;
/// else a bare name, which refers to a named request body; else a type, which
/// is the content of a request body written in place.
#[verifier::opaque]
pub open spec fn body_denoted(s: Seq<char>, i: int, b: ReferenceOr<RequestBodyContent>) -> bool {
    if starts_with(s, i, "requestBody"@) && request_body_content_end(s, i + "requestBody"@.len()) is Some {
        b matches ReferenceOr::Value(c) && request_body_denoted(s, i + "requestBody"@.len(), c)
    } else if type_is_name(s, i) {
        b matches ReferenceOr::Ref(n) && has_identifier(s, i) && n@ == s.subrange(i, identifier_end(s, i))
    } else {
        b matches ReferenceOr::Value(c) && c.attributes@.len() == 0 && type_denoted(s, i, c.content)
    }
}

/// Whether `r` is the response written at `i` after a status code: a full
/// `response { ... }`; else a bare name, which refers to a named response;
/// else a type, which is the content of a response written in place.
#[verifier::opaque]
pub open spec fn response_ref_denoted(s: Seq<char>, i: int, r: ReferenceOr<ResponseContent>) -> bool {
    if starts_with(s, i, "response"@) && response_content_end(s, i + "response"@.len()) is Some {
        r matches ReferenceOr::Value(c) && response_denoted(s, i + "response"@.len(), c)
    } else if type_is_name(s, i) {
        r matches ReferenceOr::Ref(n) && has_identifier(s, i) && n@ == s.subrange(i, identifier_end(s, i))
    } else {
        r matches ReferenceOr::Value(c) && c.attributes@.len() == 0 && c.headers.parameters@.len() == 0
            && type_denoted(s, i, c.content)
    }
}

/// Whether `a` is the argument written at `i`.
#[verifier::opaque]
pub open spec fn argument_denoted(s: Seq<char>, i: int, a: ParameterWithType) -> bool {
    match argument_word(s, i) {
        Some((kind, j)) => {
            let m = match padded_symbol_spec(s, j, '=') {
                Some(m) => m,
                None => j,
            };
            match (kind, a) {
                (Some(ParameterType::Query), ParameterWithType::Queries(p)) => parameters_denoted(
                    s,
                    m,
                    ParameterType::Query,
                    p.parameters@,
                ),
                (Some(ParameterType::Header), ParameterWithType::Headers(p)) => parameters_denoted(
                    s,
                    m,
                    ParameterType::Header,
                    p.parameters@,
                ),
                (Some(ParameterType::Path), ParameterWithType::PathParameters(p)) => parameters_denoted(
                    s,
                    m,
                    ParameterType::Path,
                    p.parameters@,
                ),
                (Some(ParameterType::Cookie), ParameterWithType::Cookies(p)) => parameters_denoted(
                    s,
                    m,
                    ParameterType::Cookie,
                    p.parameters@,
                ),
                (None, ParameterWithType::RequestBody(b)) => body_denoted(s, m, b),
                _ => false,
            }
        },
        None => false,
    }
}

/// Where each `, argument` continuation from `pos` starts.
pub open spec fn arguments_tail(s: Seq<char>, pos: int) -> Seq<int>
    decreases s.len() - pos,
{
    match padded_symbol_spec(s, pos, ',') {
        Some(k) => match argument_end(s, k) {
            Some(e) => if pos < e <= s.len() {
                seq![k] + arguments_tail(s, e)
            } else {
                Seq::empty()
            },
            None => Seq::empty(),
        },
        None => Seq::empty(),
    }
}

/// Where each argument of the parenthesised list at `i` starts.
pub open spec fn argument_starts(s: Seq<char>, i: int) -> Seq<int> {
    match padded_symbol_spec(s, i, '(') {
        Some(j) => match argument_end(s, j) {
            Some(e) => seq![j] + arguments_tail(s, e),
            None => Seq::empty(),
        },
        None => Seq::empty(),
    }
}

/// Whether `args` are the arguments written at `starts`, in order.
pub open spec fn arguments_denoted(s: Seq<char>, starts: Seq<int>, args: Seq<ParameterWithType>) -> bool {
    args.len() == starts.len() && forall|x: int|
        0 <= x < args.len() ==> argument_denoted(s, starts[x], #[trigger] args[x])
}

/// A request body in an argument: a full `requestBody { ... }`; else a type,
/// where a bare name refers to a named request body and any other type is the
/// content of a request body written in place.
fn operation_request_body(s: &Vec<char>, i: usize) -> (r: Option<(ReferenceOr<RequestBodyContent>, usize)>)
    requires
        at(s@, i as int),
    ensures
        match operation_request_body_end(s@, i as int) {
            Some(e) => r matches Some((_, f)) && f as int == e && i <= f <= s@.len(),
            None => r is None,
        },
        r matches Some((b, e)) ==> match b {
            ReferenceOr::Ref(n) => !(starts_with(s@, i as int, "requestBody"@)
                && request_body_content_end(s@, i + "requestBody"@.len()) is Some) && type_is_name(
                s@,
                i as int,
            ) && n@ == s@.subrange(i as int, e as int),
            ReferenceOr::Value(c) => (starts_with(s@, i as int, "requestBody"@)
                && request_body_content_end(s@, i + "requestBody"@.len()) is Some) || (
            !type_is_name(s@, i as int) && c.attributes@.len() == 0 && type_parsed(
                s@,
                i as int,
                c.content.target_type,
                e as int,
            )),
        },
        r matches Some((b, _)) ==> body_denoted(s@, i as int, b),
{
    proof {
        reveal(body_denoted);
    }
    if let Some(j) = keyword(s, i, "requestBody") {
        if let Some((c, e)) = request_body_content(s, j) {
            return Some((ReferenceOr::Value(c), e));
        }
    }
    match data_type(s, i) {
        Some((t, e)) => {
            let TypeWithAttributes { target_type, attributes } = t;
            match target_type {
                Type::Schema(ReferenceOr::Ref(n)) => Some((ReferenceOr::Ref(n), e)),
                other => Some(
                    (
                        ReferenceOr::Value(
                            RequestBodyContent {
                                content: TypeWithAttributes { target_type: other, attributes },
                                attributes: Vec::new(),
                            },
                        ),
                        e,
                    ),
                ),
            }
        },
        None => None,
    }
}

/// Every parameter of the block has the given kind.
pub open spec fn all_of_kind(p: Parameters, k: ParameterType) -> bool {
    forall|x: int| 0 <= x < p.parameters@.len() ==> #[trigger] p.parameters@[x].ty == Some(k)
}

/// Which keyword an argument starts with, the keywords being tried in the
/// order `queries`, `headers`, `pathParameters`, `cookie`, `body`; each block
/// gives its parameters its own kind.
pub open spec fn argument_parsed(s: Seq<char>, i: int, a: ParameterWithType) -> bool {
    let q = starts_with(s, i, "queries"@);
    let h = starts_with(s, i, "headers"@);
    let p = starts_with(s, i, "pathParameters"@);
    let c = starts_with(s, i, "cookie"@);
    match a {
        ParameterWithType::Queries(ps) => q && all_of_kind(ps, ParameterType::Query),
        ParameterWithType::Headers(ps) => !q && h && all_of_kind(ps, ParameterType::Header),
        ParameterWithType::PathParameters(ps) => !q && !h && p && all_of_kind(ps, ParameterType::Path),
        ParameterWithType::Cookies(ps) => !q && !h && !p && c && all_of_kind(ps, ParameterType::Cookie),
        ParameterWithType::RequestBody(_) => !q && !h && !p && !c && starts_with(s, i, "body"@),
    }
}

/// One argument: `queries=`, `headers=`, `pathParameters=` or `cookie=`
/// followed by a parameters block, or `body=` followed by a request body.
fn operation_argument(s: &Vec<char>, i: usize) -> (r: Option<(ParameterWithType, usize)>)
    requires
        at(s@, i as int),
    ensures
        r matches Some((a, e)) ==> i < e <= s@.len() && argument_parsed(s@, i as int, a),
        match argument_end(s@, i as int) {
            Some(e) => r matches Some(t) && t.1 as int == e,
            None => r is None,
        },
        r matches Some((a, _)) ==> (a is RequestBody <==> argument_is_body(s@, i as int)),
        r matches Some((a, _)) ==> argument_denoted(s@, i as int, a),
{
    proof {
        reveal(argument_denoted);
    }
    proof {
        reveal_strlit("body");
    }
    let (kind, j) = if let Some(j) = keyword(s, i, "queries") {
        (Some(ParameterType::Query), j)
    } else if let Some(j) = keyword(s, i, "headers") {
        (Some(ParameterType::Header), j)
    } else if let Some(j) = keyword(s, i, "pathParameters") {
        (Some(ParameterType::Path), j)
    } else if let Some(j) = keyword(s, i, "cookie") {
        (Some(ParameterType::Cookie), j)
    } else if let Some(j) = keyword(s, i, "body") {
        (None, j)
    } else {
        return None;
    };
    let j = match padded_symbol(s, j, '=') {
        Some(j) => j,
        None => return None,
    };
    match kind {
        Some(kind) => {
            let (p, e) = match parameters_block(s, j, kind) {
                Some(t) => t,
                None => return None,
            };
            let a = match kind {
                ParameterType::Query => ParameterWithType::Queries(p),
                ParameterType::Header => ParameterWithType::Headers(p),
                ParameterType::Path => ParameterWithType::PathParameters(p),
                ParameterType::Cookie => ParameterWithType::Cookies(p),
            };
            Some((a, e))
        },
        None => {
            match operation_request_body(s, j) {
                Some((b, e)) => Some((ParameterWithType::RequestBody(b), e)),
                None => None,
            }
        },
    }
}

/// `( argument, argument, ... )` with optional whitespace around the
/// parentheses, the commas and the arguments, and an optional trailing comma.
fn arguments(s: &Vec<char>, i: usize) -> (r: Option<(Vec<ParameterWithType>, usize)>)
    requires
        at(s@, i as int),
    ensures
        r matches Some((_, e)) ==> i < e <= s@.len(),
        match arguments_end(s@, i as int) {
            Some(e) => r matches Some(t) && t.1 as int == e,
            None => r is None,
        },
        r matches Some((args, _)) ==> arguments_denoted(s@, argument_starts(s@, i as int), args@),
{
    let j = match padded_symbol(s, i, '(') {
        Some(j) => j,
        None => return None,
    };
    let mut args: Vec<ParameterWithType> = Vec::new();
    let mut pos = j;
    let ghost all = argument_starts(s@, i as int);
    if let Some((a, e)) = operation_argument(s, j) {
        args.push(a);
        pos = e;
        let ghost first = e as int;
        let ghost starts: Seq<int> = seq![j as int];
        loop
            invariant
                i < j <= pos <= s@.len(),
                j < first,
                at(s@, pos as int),
                arguments_tail_end(s@, first) == arguments_tail_end(s@, pos as int),
                all == argument_starts(s@, i as int),
                all == starts + arguments_tail(s@, pos as int),
                args@.len() == starts.len(),
                forall|x: int| 0 <= x < args@.len() ==> argument_denoted(s@, all[x], #[trigger] args@[x]),
            ensures
                i < j <= pos <= s@.len(),
                arguments_tail_end(s@, first) == pos,
                arguments_denoted(s@, argument_starts(s@, i as int), args@),
            decreases s@.len() - pos,
        {
            let k = match padded_symbol(s, pos, ',') {
                Some(k) => k,
                None => {
                    proof {
                        assert(arguments_tail(s@, pos as int) == Seq::<int>::empty());
                        assert(all =~= starts);
                    }
                    break;
                },
            };
            match operation_argument(s, k) {
                Some((a, e)) => {
                    let ghost before = args@;
                    args.push(a);
                    proof {
                        assert(arguments_tail(s@, pos as int) == seq![k as int] + arguments_tail(s@, e as int));
                        assert(starts + (seq![k as int] + arguments_tail(s@, e as int)) =~= starts.push(k as int) + arguments_tail(s@, e as int));
                        assert(starts.push(k as int)[before.len() as int] == k as int);
                        assert forall|x: int| 0 <= x < args@.len() implies argument_denoted(s@, all[x], #[trigger] args@[x]) by {
                            if x < before.len() {
                                assert(args@[x] == before[x]);
                            }
                        }
                        starts = starts.push(k as int);
                    }
                    pos = e;
                },
                None => {
                    proof {
                        assert(arguments_tail(s@, pos as int) == Seq::<int>::empty());
                        assert(all =~= starts);
                    }
                    break;
                },
            }
        }
    } else {
        assert(arguments_denoted(s@, argument_starts(s@, i as int), args@));
    }
    let pos = match padded_symbol(s, pos, ',') {
        Some(k) => k,
        None => ws0(s, pos),
    };
    match padded_symbol(s, pos, ')') {
        Some(e) => Some((args, e)),
        None => None,
    }
}

/// A response in a return statement: a full `response { ... }`; else a type,
/// where a bare name refers to a named response and any other type is the
/// content of a response written in place.
fn operation_response(s: &Vec<char>, i: usize) -> (r: Option<(ReferenceOr<ResponseContent>, usize)>)
    requires
        at(s@, i as int),
    ensures
        match operation_response_end(s@, i as int) {
            Some(e) => r matches Some((_, f)) && f as int == e && i <= f <= s@.len(),
            None => r is None,
        },
        r matches Some((x, e)) ==> match x {
            ReferenceOr::Ref(n) => !(starts_with(s@, i as int, "response"@) && response_content_end(
                s@,
                i + "response"@.len(),
            ) is Some) && type_is_name(s@, i as int) && n@ == s@.subrange(i as int, e as int),
            ReferenceOr::Value(c) => (starts_with(s@, i as int, "response"@) && response_content_end(
                s@,
                i + "response"@.len(),
            ) is Some) || (!type_is_name(s@, i as int) && c.attributes@.len() == 0
                && c.headers.parameters@.len() == 0 && type_parsed(
                s@,
                i as int,
                c.content.target_type,
                e as int,
            )),
        },
        r matches Some((x, _)) ==> response_ref_denoted(s@, i as int, x),
{
    proof {
        reveal(response_ref_denoted);
    }
    if let Some(j) = keyword(s, i, "response") {
        if let Some((c, e)) = response_content(s, j) {
            return Some((ReferenceOr::Value(c), e));
        }
    }
    match data_type(s, i) {
        Some((t, e)) => {
            let TypeWithAttributes { target_type, attributes } = t;
            match target_type {
                Type::Schema(ReferenceOr::Ref(n)) => Some((ReferenceOr::Ref(n), e)),
                other => Some(
                    (
                        ReferenceOr::Value(
                            ResponseContent {
                                attributes: Vec::new(),
                                headers: Parameters { parameters: Vec::new() },
                                content: TypeWithAttributes { target_type: other, attributes },
                            },
                        ),
                        e,
                    ),
                ),
            }
        },
        None => None,
    }
}

/// `return <code|default> <response>`; a code is a run of exactly three
/// decimal digits.  The code is absent for `default`.
fn return_statement(s: &Vec<char>, i: usize) -> (r: Option<(Option<String>, ReferenceOr<ResponseContent>, usize)>)
    requires
        at(s@, i as int),
    ensures
        r matches Some((c, _, e)) ==> i < e <= s@.len() && (c matches Some(code) ==> code@.len()
            == 3),
        match return_end(s@, i as int) {
            Some(e) => r matches Some(t) && t.2 as int == e,
            None => r is None,
        },
        r matches Some((c, _, _)) ==> ({
            let k = run_end(s@, i + "return"@.len(), CharClass::Space);
            match c {
                None => starts_with(s@, k, "default"@),
                Some(code) => !starts_with(s@, k, "default"@) && code@ == s@.subrange(k, k + 3),
            }
        }),
        r matches Some((_, x, _)) ==> response_ref_denoted(s@, return_response_start(s@, i as int), x),
{
    let j = match keyword(s, i, "return") {
        Some(j) => j,
        None => return None,
    };
    let j = match ws1(s, j) {
        Some(j) => j,
        None => return None,
    };
    let (code, j) = if let Some(k) = keyword(s, j, "default") {
        (None, k)
    } else {
        let k = scan(s, j, CharClass::Decimal);
        if k - j != 3 {
            return None;
        }
        (Some(substring(s, j, k)), k)
    };
    let j = match ws1(s, j) {
        Some(j) => j,
        None => return None,
    };
    match operation_response(s, j) {
        Some((res, e)) => Some((code, res, e)),
        None => None,
    }
}

/// Where the response of the return statement at `k` starts.
pub open spec fn return_response_start(s: Seq<char>, k: int) -> int {
    let c0 = run_end(s, k + "return"@.len(), CharClass::Space);
    let c = if starts_with(s, c0, "default"@) {
        c0 + "default"@.len()
    } else {
        run_end(s, c0, CharClass::Decimal)
    };
    run_end(s, c, CharClass::Space)
}

/// Whether `st` is the return statement written at `k`: its code (none for
/// `default`) and its response.
pub open spec fn return_denoted(s: Seq<char>, k: int, st: (Option<String>, ReferenceOr<ResponseContent>)) -> bool {
    let c0 = run_end(s, k + "return"@.len(), CharClass::Space);
    &&& match st.0 {
        None => starts_with(s, c0, "default"@),
        Some(code) => !starts_with(s, c0, "default"@) && code@ == s.subrange(c0, c0 + 3),
    }
    &&& response_ref_denoted(s, return_response_start(s, k), st.1)
}

/// Where each return statement after `pos`, following whitespace, starts.
pub open spec fn returns_tail_starts(s: Seq<char>, pos: int) -> Seq<int>
    decreases s.len() - pos,
{
    let k = run_end(s, pos, CharClass::Space);
    if k > pos {
        match return_end(s, k) {
            Some(e) => if pos < e <= s.len() {
                seq![k] + returns_tail_starts(s, e)
            } else {
                Seq::empty()
            },
            None => Seq::empty(),
        }
    } else {
        Seq::empty()
    }
}

/// Where each return statement of the list at `i` starts.
pub open spec fn return_starts(s: Seq<char>, i: int) -> Seq<int> {
    match return_end(s, i) {
        Some(e) => seq![i] + returns_tail_starts(s, e),
        None => Seq::empty(),
    }
}

pub open spec fn returns_denoted(
    s: Seq<char>,
    starts: Seq<int>,
    stmts: Seq<(Option<String>, ReferenceOr<ResponseContent>)>,
) -> bool {
    stmts.len() == starts.len() && forall|x: int|
        0 <= x < stmts.len() ==> return_denoted(s, starts[x], #[trigger] stmts[x])
}

/// The default response: that of the last `return default`.
pub open spec fn default_of(stmts: Seq<(Option<String>, ReferenceOr<ResponseContent>)>) -> Option<
    ReferenceOr<ResponseContent>,
>
    decreases stmts.len(),
{
    if stmts.len() == 0 {
        None
    } else {
        match stmts.last().0 {
            None => Some(stmts.last().1),
            Some(_) => default_of(stmts.drop_last()),
        }
    }
}

/// The responses by status code: a later statement for a code replaces an
/// earlier one.
pub open spec fn codes_of(stmts: Seq<(Option<String>, ReferenceOr<ResponseContent>)>) -> Seq<
    (String, ReferenceOr<ResponseContent>),
>
    decreases stmts.len(),
{
    if stmts.len() == 0 {
        Seq::empty()
    } else {
        match stmts.last().0 {
            Some(c) => entries_set(codes_of(stmts.drop_last()), c, stmts.last().1),
            None => codes_of(stmts.drop_last()),
        }
    }
}

/// One or more return statements separated by whitespace.  The last
/// `default` and, per status code, the last response given are kept.
/// Records one return statement: a `default` one replaces the default
/// response, one with a code sets the response of that code.
fn add_return(
    content: &mut OperationContent,
    code: Option<String>,
    res: ReferenceOr<ResponseContent>,
    Ghost(stmts): Ghost<Seq<(Option<String>, ReferenceOr<ResponseContent>)>>,
)
    requires
        old(content).default == default_of(stmts),
        old(content).response@ == codes_of(stmts),
    ensures
        final(content).default == default_of(stmts.push((code, res))),
        final(content).response@ == codes_of(stmts.push((code, res))),
{
    let ghost g = (code, res);
    proof {
        assert(stmts.push(g).drop_last() =~= stmts);
    }
    match code {
        None => {
            content.default = Some(res);
        },
        Some(c) => {
            set_entry(&mut content.response, c, res);
        },
    }
}

#[verifier::rlimit(80)]
fn operation_content(s: &Vec<char>, i: usize) -> (r: Option<(OperationContent, usize)>)
    requires
        at(s@, i as int),
    ensures
        r matches Some((c, e)) ==> i < e <= s@.len(),
        match return_end(s@, i as int) {
            Some(e) => r matches Some(t) && t.1 as int == returns_tail_end(s@, e),
            None => r is None,
        },
        r matches Some((c, _)) ==> exists|stmts: Seq<(Option<String>, ReferenceOr<ResponseContent>)>|
            returns_denoted(s@, return_starts(s@, i as int), stmts) && c.default == default_of(stmts)
                && c.response@ == codes_of(stmts),
{
    let (code, res, mut pos) = match return_statement(s, i) {
        Some(t) => t,
        None => return None,
    };
    let ghost all = return_starts(s@, i as int);
    let ghost empty = Seq::<(Option<String>, ReferenceOr<ResponseContent>)>::empty();
    let ghost stmts: Seq<(Option<String>, ReferenceOr<ResponseContent>)> = seq![(code, res)];
    let mut content = OperationContent { default: None, response: Vec::new() };
    assert(content.response@ =~= codes_of(empty));
    assert(empty.push((code, res)) =~= stmts);
    add_return(&mut content, code, res, Ghost(empty));
    let ghost first = pos as int;
    let ghost starts: Seq<int> = seq![i as int];
    proof {
        assert(all == starts + returns_tail_starts(s@, pos as int));
        assert(all[0] == i as int);
        assert(return_denoted(s@, all[0], stmts[0]));
    }
    loop
        invariant
            i < pos <= s@.len(),
            at(s@, pos as int),
            returns_tail_end(s@, first) == returns_tail_end(s@, pos as int),
            all == return_starts(s@, i as int),
            all == starts + returns_tail_starts(s@, pos as int),
            stmts.len() == starts.len(),
            forall|x: int| 0 <= x < stmts.len() ==> return_denoted(s@, all[x], #[trigger] stmts[x]),
            content.default == default_of(stmts),
            content.response@ == codes_of(stmts),
        ensures
            i < pos <= s@.len(),
            returns_tail_end(s@, first) == pos,
            returns_denoted(s@, all, stmts),
            content.default == default_of(stmts),
            content.response@ == codes_of(stmts),
        decreases s@.len() - pos,
    {
        let k = match ws1(s, pos) {
            Some(k) => k,
            None => {
                proof {
                    assert(returns_tail_starts(s@, pos as int) == Seq::<int>::empty());
                    assert(all =~= starts);
                }
                break;
            },
        };
        match return_statement(s, k) {
            Some((code, res, e)) => {
                let ghost g = (code, res);
                let ghost before = stmts;
                add_return(&mut content, code, res, Ghost(stmts));
                proof {
                    stmts = stmts.push(g);
                    assert(returns_tail_starts(s@, pos as int) == seq![k as int] + returns_tail_starts(s@, e as int));
                    assert(starts + (seq![k as int] + returns_tail_starts(s@, e as int)) =~= starts.push(k as int) + returns_tail_starts(s@, e as int));
                    assert(starts.push(k as int)[before.len() as int] == k as int);
                    assert forall|x: int| 0 <= x < stmts.len() implies return_denoted(s@, all[x], #[trigger] stmts[x]) by {
                        if x < before.len() {
                            assert(stmts[x] == before[x]);
                        }
                    }
                    starts = starts.push(k as int);
                }
                pos = e;
            },
            None => {
                proof {
                    assert(returns_tail_starts(s@, pos as int) == Seq::<int>::empty());
                    assert(all =~= starts);
                }
                break;
            },
        }
    }
    assert(returns_denoted(s@, return_starts(s@, i as int), stmts));
    Some((content, pos))
}

/// The verb at `i`, tried in this order; `patch` is not among them.
pub open spec fn method_spec(s: Seq<char>, i: int) -> Option<(HttpMethod, int)> {
    if starts_with(s, i, "get"@) {
        Some((HttpMethod::Get, i + "get"@.len()))
    } else if starts_with(s, i, "post"@) {
        Some((HttpMethod::Post, i + "post"@.len()))
    } else if starts_with(s, i, "put"@) {
        Some((HttpMethod::Put, i + "put"@.len()))
    } else if starts_with(s, i, "delete"@) {
        Some((HttpMethod::Delete, i + "delete"@.len()))
    } else if starts_with(s, i, "options"@) {
        Some((HttpMethod::Options, i + "options"@.len()))
    } else if starts_with(s, i, "head"@) {
        Some((HttpMethod::Head, i + "head"@.len()))
    } else if starts_with(s, i, "trace"@) {
        Some((HttpMethod::Trace, i + "trace"@.len()))
    } else if starts_with(s, i, "default"@) {
        Some((HttpMethod::Default, i + "default"@.len()))
    } else {
        None
    }
}

fn method(s: &Vec<char>, i: usize) -> (r: Option<(HttpMethod, usize)>)
    requires
        at(s@, i as int),
    ensures
        match method_spec(s@, i as int) {
            Some((m, e)) => r matches Some((m2, e2)) && m2 == m && e2 as int == e,
            None => r is None,
        },
        r matches Some((_, e)) ==> i <= e <= s@.len(),
{
    if let Some(j) = keyword(s, i, "get") {
        Some((HttpMethod::Get, j))
    } else if let Some(j) = keyword(s, i, "post") {
        Some((HttpMethod::Post, j))
    } else if let Some(j) = keyword(s, i, "put") {
        Some((HttpMethod::Put, j))
    } else if let Some(j) = keyword(s, i, "delete") {
        Some((HttpMethod::Delete, j))
    } else if let Some(j) = keyword(s, i, "options") {
        Some((HttpMethod::Options, j))
    } else if let Some(j) = keyword(s, i, "head") {
        Some((HttpMethod::Head, j))
    } else if let Some(j) = keyword(s, i, "trace") {
        Some((HttpMethod::Trace, j))
    } else if let Some(j) = keyword(s, i, "default") {
        Some((HttpMethod::Default, j))
    } else {
        None
    }
}

/// The verb of `op` is the one at `i`, and its name the identifier after the
/// whitespace that follows the verb.
pub open spec fn operation_head(s: Seq<char>, i: int, op: Operation) -> bool {
    match method_spec(s, i) {
        Some((m, j)) => {
            let k = run_end(s, j, CharClass::Space);
            op.method == m && op.name@ == s.subrange(k, identifier_end(s, k))
        },
        None => false,
    }
}

/// Where the verb of the operation at `i` ends.
pub open spec fn method_end(s: Seq<char>, i: int) -> int {
    match method_spec(s, i) {
        Some((_, j)) => j,
        None => i,
    }
}

/// Where the argument list of the operation at `i` starts.
pub open spec fn operation_arguments_start(s: Seq<char>, i: int) -> int {
    identifier_end(s, run_end(s, method_end(s, i), CharClass::Space))
}

/// Where the return statements of the operation at `i` start.
pub open spec fn operation_returns_start(s: Seq<char>, i: int) -> int {
    let a = match arguments_end(s, operation_arguments_start(s, i)) {
        Some(a) => a,
        None => i,
    };
    run_end(s, run_end(s, a, CharClass::Space) + 1, CharClass::Space)
}

/// Whether `op` is the operation written at `i`: its verb and name, the
/// parameters of its parameter arguments in order, its last body argument,
/// and the responses of its return statements.
#[verifier::opaque]
pub open spec fn operation_denoted(s: Seq<char>, i: int, op: Operation) -> bool {
    &&& operation_head(s, i, op)
    &&& exists|args: Seq<ParameterWithType>|
        arguments_denoted(s, argument_starts(s, operation_arguments_start(s, i)), args)
            && op.parameters.parameters@ == all_parameters(args) && op.request_body == last_body(args)
    &&& exists|stmts: Seq<(Option<String>, ReferenceOr<ResponseContent>)>|
        returns_denoted(s, return_starts(s, operation_returns_start(s, i)), stmts)
            && op.content.default == default_of(stmts) && op.content.response@ == codes_of(stmts)
}

/// `<verb> <name>(<arguments>) { <return statements> }`.  The name is the
/// identifier after the whitespace that follows the verb.
pub fn operation(s: &Vec<char>, i: usize) -> (r: Option<(Operation, usize)>)
    requires
        at(s@, i as int),
    ensures
        r matches Some((op, e)) ==> i < e <= s@.len() && operation_head(s@, i as int, op),
        match operation_end(s@, i as int) {
            Some(e) => r matches Some(t) && t.1 as int == e,
            None => r is None,
        },
        r matches Some((op, _)) ==> operation_denoted(s@, i as int, op),
{
    proof {
        reveal(operation_denoted);
    }
    let (method, j) = match method(s, i) {
        Some(t) => t,
        None => return None,
    };
    let j = match ws1(s, j) {
        Some(j) => j,
        None => return None,
    };
    let (name, j) = match identifier(s, j) {
        Some(t) => t,
        None => return None,
    };
    let (args, j) = match arguments(s, j) {
        Some(t) => t,
        None => return None,
    };
    let (parameters, request_body) = merge_arguments(args);
    let j = ws0(s, j);
    let j = match symbol(s, j, '{') {
        Some(j) => j,
        None => return None,
    };
    let j = ws0(s, j);
    let (content, j) = match operation_content(s, j) {
        Some(t) => t,
        None => return None,
    };
    let j = ws0(s, j);
    match symbol(s, j, '}') {
        Some(e) => Some((Operation { name, method, parameters, content, request_body }, e)),
        None => None,
    }
}

/// The operation written last for a verb, among `ops`.
pub open spec fn last_with_method(ops: Seq<Operation>, m: HttpMethod) -> Option<Operation>
    decreases ops.len(),
{
    if ops.len() == 0 {
        None
    } else if ops.last().method == m {
        Some(ops.last())
    } else {
        last_with_method(ops.drop_last(), m)
    }
}

/// What a path holds for its verbs, given its operations and shared parameters.
pub open spec fn path_content_of(parameters: Parameters, ops: Seq<Operation>) -> PathContent {
    PathContent {
        parameters,
        get: last_with_method(ops, HttpMethod::Get),
        post: last_with_method(ops, HttpMethod::Post),
        put: last_with_method(ops, HttpMethod::Put),
        delete: last_with_method(ops, HttpMethod::Delete),
        options: last_with_method(ops, HttpMethod::Options),
        patch: last_with_method(ops, HttpMethod::Patch),
        head: last_with_method(ops, HttpMethod::Head),
        trace: last_with_method(ops, HttpMethod::Trace),
    }
}

/// Each filled slot of a path holds an operation of the slot's verb.
pub open spec fn slots_match_verbs(c: PathContent) -> bool {
    &&& c.get matches Some(op) ==> op.method == HttpMethod::Get
    &&& c.post matches Some(op) ==> op.method == HttpMethod::Post
    &&& c.put matches Some(op) ==> op.method == HttpMethod::Put
    &&& c.delete matches Some(op) ==> op.method == HttpMethod::Delete
    &&& c.options matches Some(op) ==> op.method == HttpMethod::Options
    &&& c.patch matches Some(op) ==> op.method == HttpMethod::Patch
    &&& c.head matches Some(op) ==> op.method == HttpMethod::Head
    &&& c.trace matches Some(op) ==> op.method == HttpMethod::Trace
}

pub proof fn lemma_last_with_method(ops: Seq<Operation>, m: HttpMethod)
    ensures
        last_with_method(ops, m) matches Some(op) ==> op.method == m,
    decreases ops.len(),
{
    if ops.len() > 0 && ops.last().method != m {
        lemma_last_with_method(ops.drop_last(), m);
    }
}

/// Files each operation under its verb; a later operation for the same verb
/// replaces an earlier one, and an operation of the `default` verb is dropped.
pub fn collect_operations(parameters: Parameters, ops: Vec<Operation>) -> (r: PathContent)
    ensures
        r == path_content_of(parameters, ops@),
        slots_match_verbs(r),
{
    proof {
        lemma_last_with_method(ops@, HttpMethod::Get);
        lemma_last_with_method(ops@, HttpMethod::Post);
        lemma_last_with_method(ops@, HttpMethod::Put);
        lemma_last_with_method(ops@, HttpMethod::Delete);
        lemma_last_with_method(ops@, HttpMethod::Options);
        lemma_last_with_method(ops@, HttpMethod::Patch);
        lemma_last_with_method(ops@, HttpMethod::Head);
        lemma_last_with_method(ops@, HttpMethod::Trace);
    }
    let mut rest = ops;
    let ghost all = rest@;
    let n = rest.len();
    let mut c = PathContent {
        parameters,
        get: None,
        post: None,
        put: None,
        delete: None,
        options: None,
        patch: None,
        head: None,
        trace: None,
    };
    let mut k: usize = 0;
    while k < n
        invariant
            n == all.len(),
            k <= n,
            rest@ == all.subrange(k as int, n as int),
            c == path_content_of(parameters, all.subrange(0, k as int)),
        decreases n - k,
    {
        let op = rest.remove(0);
        assert(all.subrange(0, k + 1).drop_last() =~= all.subrange(0, k as int));
        assert(all.subrange(0, k + 1).last() == op);
        match op.method {
            HttpMethod::Default => {},
            HttpMethod::Get => {
                c.get = Some(op);
            },
            HttpMethod::Post => {
                c.post = Some(op);
            },
            HttpMethod::Put => {
                c.put = Some(op);
            },
            HttpMethod::Delete => {
                c.delete = Some(op);
            },
            HttpMethod::Options => {
                c.options = Some(op);
            },
            HttpMethod::Head => {
                c.head = Some(op);
            },
            HttpMethod::Trace => {
                c.trace = Some(op);
            },
            HttpMethod::Patch => {
                c.patch = Some(op);
            },
        }
        k += 1;
        assert(rest@ =~= all.subrange(k as int, n as int));
    }
    assert(all.subrange(0, n as int) =~= all);
    c
}

/// Whether the argument at `i` is a request body.
pub open spec fn argument_is_body(s: Seq<char>, i: int) -> bool {
    argument_word(s, i) matches Some((None, _))
}

/// The arguments that follow `pos`, each after whitespace: whether a request
/// body is among them, and where they end.
pub open spec fn ws_arguments(s: Seq<char>, pos: int) -> (bool, int)
    decreases s.len() - pos,
{
    let k = run_end(s, pos, CharClass::Space);
    if k > pos {
        match argument_end(s, k) {
            Some(e) => if pos < e <= s.len() {
                let (b, f) = ws_arguments(s, e);
                (argument_is_body(s, k) || b, f)
            } else {
                (false, pos)
            },
            None => (false, pos),
        }
    } else {
        (false, pos)
    }
}

/// Where the shared parameters of a path at `i` end: arguments separated by
/// whitespace, none of them a request body, then optional whitespace.
pub open spec fn path_parameters_end(s: Seq<char>, i: int) -> Option<int> {
    match argument_end(s, i) {
        Some(e) => {
            let (b, f) = ws_arguments(s, e);
            if argument_is_body(s, i) || b {
                None
            } else {
                Some(run_end(s, f, CharClass::Space))
            }
        },
        None => None,
    }
}

/// Where the operations that follow `pos`, each after whitespace, end.
pub open spec fn operations_tail_end(s: Seq<char>, pos: int) -> int
    decreases s.len() - pos,
{
    let k = run_end(s, pos, CharClass::Space);
    if k > pos {
        match operation_end(s, k) {
            Some(e) => if pos < e <= s.len() {
                operations_tail_end(s, e)
            } else {
                pos
            },
            None => pos,
        }
    } else {
        pos
    }
}

/// Where a path's content at `i` ends: optional shared parameters, then one or
/// more operations separated by whitespace.
pub open spec fn path_content_end(s: Seq<char>, i: int) -> Option<int> {
    let p = match path_parameters_end(s, i) {
        Some(e) => e,
        None => i,
    };
    match operation_end(s, p) {
        Some(e) => Some(operations_tail_end(s, e)),
        None => None,
    }
}

/// Where the path definition at `i` ends.
pub open spec fn path_definition_end(s: Seq<char>, i: int) -> Option<int> {
    let j = i + "path"@.len();
    let k = run_end(s, j, CharClass::Space);
    if starts_with(s, i, "path"@) && k > j {
        match string_literal_spec(s, k) {
            Some((_, _, e)) => {
                let b = run_end(s, opt_attributes_end(s, e), CharClass::Space);
                if char_at(s, b, '{') {
                    braced_end(s, b, path_content_end(s, run_end(s, b + 1, CharClass::Space)))
                } else {
                    None
                }
            },
            None => None,
        }
    } else {
        None
    }
}

proof fn lemma_last_body_some(args: Seq<ParameterWithType>)
    ensures
        last_body(args) is Some <==> exists|k: int| 0 <= k < args.len() && #[trigger] args[k] is RequestBody,
    decreases args.len(),
{
    if args.len() > 0 {
        let prev = args.drop_last();
        lemma_last_body_some(prev);
        if last_body(args) is Some && !(args.last() is RequestBody) {
            let k = choose|k: int| 0 <= k < prev.len() && #[trigger] prev[k] is RequestBody;
            assert(args[k] == prev[k]);
        }
        if exists|k: int| 0 <= k < args.len() && #[trigger] args[k] is RequestBody {
            let k = choose|k: int| 0 <= k < args.len() && #[trigger] args[k] is RequestBody;
            if k < args.len() - 1 {
                assert(prev[k] == args[k]);
            }
        }
    }
}

/// Where each argument after `pos`, following whitespace, starts.
pub open spec fn ws_argument_tail(s: Seq<char>, pos: int) -> Seq<int>
    decreases s.len() - pos,
{
    let k = run_end(s, pos, CharClass::Space);
    if k > pos {
        match argument_end(s, k) {
            Some(e) => if pos < e <= s.len() {
                seq![k] + ws_argument_tail(s, e)
            } else {
                Seq::empty()
            },
            None => Seq::empty(),
        }
    } else {
        Seq::empty()
    }
}

/// Where each of the whitespace-separated arguments at `i` starts.
pub open spec fn ws_argument_starts(s: Seq<char>, i: int) -> Seq<int> {
    match argument_end(s, i) {
        Some(e) => seq![i] + ws_argument_tail(s, e),
        None => Seq::empty(),
    }
}

/// Where each operation after `pos`, following whitespace, starts.
pub open spec fn operations_tail(s: Seq<char>, pos: int) -> Seq<int>
    decreases s.len() - pos,
{
    let k = run_end(s, pos, CharClass::Space);
    if k > pos {
        match operation_end(s, k) {
            Some(e) => if pos < e <= s.len() {
                seq![k] + operations_tail(s, e)
            } else {
                Seq::empty()
            },
            None => Seq::empty(),
        }
    } else {
        Seq::empty()
    }
}

/// Where each operation of the list at `i` starts.
pub open spec fn operation_starts(s: Seq<char>, i: int) -> Seq<int> {
    match operation_end(s, i) {
        Some(e) => seq![i] + operations_tail(s, e),
        None => Seq::empty(),
    }
}

/// Whether `c` is the path content written at `i`: the parameters of its
/// shared parameter arguments, and each verb's slot holding the last
/// operation written for that verb.
pub open spec fn path_content_denoted(s: Seq<char>, i: int, c: PathContent) -> bool {
    let p = match path_parameters_end(s, i) {
        Some(e) => e,
        None => i,
    };
    &&& match path_parameters_end(s, i) {
        Some(_) => exists|args: Seq<ParameterWithType>|
            arguments_denoted(s, ws_argument_starts(s, i), args) && c.parameters.parameters@
                == all_parameters(args),
        None => c.parameters.parameters@.len() == 0,
    }
    &&& exists|ops: Seq<Operation>|
        ops.len() == operation_starts(s, p).len() && (forall|x: int|
            0 <= x < ops.len() ==> operation_denoted(s, operation_starts(s, p)[x], #[trigger] ops[x]))
            && c == path_content_of(c.parameters, ops)
}

/// Whether `p` is the path written at `i`: its route template, its attributes
/// and its content.
pub open spec fn path_denoted(s: Seq<char>, i: int, p: Path) -> bool {
    let k = run_end(s, i + "path"@.len(), CharClass::Space);
    match string_literal_spec(s, k) {
        Some((a, b, e)) => {
            let br = run_end(s, opt_attributes_end(s, e), CharClass::Space);
            p.name@ == s.subrange(a, b) && attributes_denoted(s, e, p.attributes@)
                && path_content_denoted(s, run_end(s, br + 1, CharClass::Space), p.content)
        },
        None => false,
    }
}

/// Parameters shared by all operations of a path: one or more parameter
/// arguments separated by whitespace, then optional whitespace.  A request
/// body among them makes this fail.
fn path_parameters(s: &Vec<char>, i: usize) -> (r: Option<(Parameters, usize)>)
    requires
        at(s@, i as int),
    ensures
        r matches Some((_, e)) ==> i < e <= s@.len(),
        match path_parameters_end(s@, i as int) {
            Some(e) => r matches Some(t) && t.1 as int == e,
            None => r is None,
        },
        r matches Some((p, _)) ==> exists|args: Seq<ParameterWithType>|
            arguments_denoted(s@, ws_argument_starts(s@, i as int), args) && p.parameters@
                == all_parameters(args),
{
    let (a, mut pos) = match operation_argument(s, i) {
        Some(t) => t,
        None => return None,
    };
    let ghost first = pos as int;
    let ghost b_acc = a is RequestBody;
    let ghost all = ws_argument_starts(s@, i as int);
    let ghost starts: Seq<int> = seq![i as int];
    let mut args: Vec<ParameterWithType> = Vec::new();
    args.push(a);
    assert(args@[0] is RequestBody == b_acc);
    loop
        invariant
            all == ws_argument_starts(s@, i as int),
            all == starts + ws_argument_tail(s@, pos as int),
            args@.len() == starts.len(),
            forall|x: int| 0 <= x < args@.len() ==> argument_denoted(s@, all[x], #[trigger] args@[x]),
            i < pos <= s@.len(),
            i < first,
            at(s@, pos as int),
            args@.len() > 0,
            b_acc == exists|x: int| 0 <= x < args@.len() && #[trigger] args@[x] is RequestBody,
            (argument_is_body(s@, i as int) || ws_arguments(s@, first).0) == (b_acc
                || ws_arguments(s@, pos as int).0),
            ws_arguments(s@, first).1 == ws_arguments(s@, pos as int).1,
        ensures
            i < pos <= s@.len(),
            b_acc == exists|x: int| 0 <= x < args@.len() && #[trigger] args@[x] is RequestBody,
            (argument_is_body(s@, i as int) || ws_arguments(s@, first).0) == b_acc,
            ws_arguments(s@, first).1 == pos,
            arguments_denoted(s@, ws_argument_starts(s@, i as int), args@),
        decreases s@.len() - pos,
    {
        let k = match ws1(s, pos) {
            Some(k) => k,
            None => {
                proof {
                    assert(ws_argument_tail(s@, pos as int) == Seq::<int>::empty());
                    assert(all =~= starts);
                }
                break;
            },
        };
        match operation_argument(s, k) {
            Some((a, e)) => {
                let ghost before = args@;
                let ghost isb = a is RequestBody;
                args.push(a);
                proof {
                    assert(args@[args@.len() - 1] is RequestBody == isb);
                    if b_acc {
                        let x = choose|x: int| 0 <= x < before.len() && #[trigger] before[x] is RequestBody;
                        assert(args@[x] == before[x]);
                    }
                    if exists|x: int| 0 <= x < args@.len() && #[trigger] args@[x] is RequestBody {
                        let x = choose|x: int| 0 <= x < args@.len() && #[trigger] args@[x] is RequestBody;
                        if x < before.len() {
                            assert(before[x] == args@[x]);
                        }
                    }
                    b_acc = b_acc || isb;
                    assert(ws_argument_tail(s@, pos as int) == seq![k as int] + ws_argument_tail(s@, e as int));
                    assert(starts + (seq![k as int] + ws_argument_tail(s@, e as int)) =~= starts.push(k as int) + ws_argument_tail(s@, e as int));
                    assert(starts.push(k as int)[before.len() as int] == k as int);
                    assert forall|x: int| 0 <= x < args@.len() implies argument_denoted(s@, all[x], #[trigger] args@[x]) by {
                        if x < before.len() {
                            assert(args@[x] == before[x]);
                        }
                    }
                    starts = starts.push(k as int);
                }
                pos = e;
            },
            None => {
                proof {
                    assert(ws_argument_tail(s@, pos as int) == Seq::<int>::empty());
                    assert(all =~= starts);
                }
                break;
            },
        }
    }
    proof {
        lemma_last_body_some(args@);
    }
    let ghost av = args@;
    let (parameters, body) = merge_arguments(args);
    assert(arguments_denoted(s@, ws_argument_starts(s@, i as int), av) && parameters.parameters@
        == all_parameters(av));
    if body.is_some() {
        return None;
    }
    Some((parameters, ws0(s, pos)))
}

/// Optional shared parameters, then one or more operations separated by
/// whitespace.
#[verifier::rlimit(80)]
fn path_content(s: &Vec<char>, i: usize) -> (r: Option<(PathContent, usize)>)
    requires
        at(s@, i as int),
    ensures
        r matches Some((c, e)) ==> i < e <= s@.len() && slots_match_verbs(c),
        match path_content_end(s@, i as int) {
            Some(e) => r matches Some(t) && t.1 as int == e,
            None => r is None,
        },
        r matches Some((c, _)) ==> path_content_denoted(s@, i as int, c),
{
    let (parameters, j) = match path_parameters(s, i) {
        Some(t) => t,
        None => (Parameters { parameters: Vec::new() }, i),
    };
    let (op, mut pos) = match operation(s, j) {
        Some(t) => t,
        None => return None,
    };
    let ghost all = operation_starts(s@, j as int);
    let ghost starts: Seq<int> = seq![j as int];
    let mut ops: Vec<Operation> = Vec::new();
    ops.push(op);
    let ghost first = pos as int;
    loop
        invariant
            all == operation_starts(s@, j as int),
            all == starts + operations_tail(s@, pos as int),
            ops@.len() == starts.len(),
            forall|x: int| 0 <= x < ops@.len() ==> operation_denoted(s@, all[x], #[trigger] ops@[x]),
            i < pos <= s@.len(),
            at(s@, pos as int),
            operations_tail_end(s@, first) == operations_tail_end(s@, pos as int),
        ensures
            i < pos <= s@.len(),
            operations_tail_end(s@, first) == pos,
            ops@.len() == all.len(),
            forall|x: int| 0 <= x < ops@.len() ==> operation_denoted(s@, all[x], #[trigger] ops@[x]),
        decreases s@.len() - pos,
    {
        let k = match ws1(s, pos) {
            Some(k) => k,
            None => {
                proof {
                    assert(operations_tail(s@, pos as int) == Seq::<int>::empty());
                    assert(all =~= starts);
                }
                break;
            },
        };
        match operation(s, k) {
            Some((op, e)) => {
                let ghost before = ops@;
                ops.push(op);
                proof {
                    assert(operations_tail(s@, pos as int) == seq![k as int] + operations_tail(s@, e as int));
                    assert(starts + (seq![k as int] + operations_tail(s@, e as int)) =~= starts.push(k as int) + operations_tail(s@, e as int));
                    assert(starts.push(k as int)[before.len() as int] == k as int);
                    assert forall|x: int| 0 <= x < ops@.len() implies operation_denoted(s@, all[x], #[trigger] ops@[x]) by {
                        if x < before.len() {
                            assert(ops@[x] == before[x]);
                        }
                    }
                    starts = starts.push(k as int);
                }
                pos = e;
            },
            None => {
                proof {
                    assert(operations_tail(s@, pos as int) == Seq::<int>::empty());
                    assert(all =~= starts);
                }
                break;
            },
        }
    }
    let ghost ov = ops@;
    let c = collect_operations(parameters, ops);
    assert(ov.len() == operation_starts(s@, j as int).len() && (forall|x: int|
        0 <= x < ov.len() ==> operation_denoted(s@, operation_starts(s@, j as int)[x], #[trigger] ov[x]))
        && c == path_content_of(c.parameters, ov));
    Some((c, pos))
}

/// `<keyword> <identifier>`, with whitespace between.
pub open spec fn definition_head_spec(s: Seq<char>, i: int, kw: Seq<char>) -> Option<(Seq<char>, int)> {
    let j = i + kw.len();
    let k = run_end(s, j, CharClass::Space);
    if starts_with(s, i, kw) && k > j && has_identifier(s, k) {
        Some((s.subrange(k, identifier_end(s, k)), identifier_end(s, k)))
    } else {
        None
    }
}

fn definition_head(s: &Vec<char>, i: usize, kw: &str) -> (r: Option<(String, usize)>)
    requires
        at(s@, i as int),
    ensures
        r matches Some((_, e)) ==> i < e <= s@.len(),
        match definition_head_spec(s@, i as int, kw@) {
            Some((n, e)) => r matches Some((m, f)) && m@ == n && f as int == e,
            None => r is None,
        },
{
    let j = match keyword(s, i, kw) {
        Some(j) => j,
        None => return None,
    };
    let j = match ws1(s, j) {
        Some(j) => j,
        None => return None,
    };
    identifier(s, j)
}

/// The kind that the keyword of a stand-alone parameter at `i` binds: none
/// for `parameter`, else that of `query`, `header`, `pathParameter` or
/// `cookie`.
pub open spec fn parameter_keyword(s: Seq<char>, i: int) -> Option<(Option<ParameterType>, Seq<char>)> {
    if definition_head_spec(s, i, "parameter"@) is Some {
        Some((None, "parameter"@))
    } else if definition_head_spec(s, i, "query"@) is Some {
        Some((Some(ParameterType::Query), "query"@))
    } else if definition_head_spec(s, i, "header"@) is Some {
        Some((Some(ParameterType::Header), "header"@))
    } else if definition_head_spec(s, i, "pathParameter"@) is Some {
        Some((Some(ParameterType::Path), "pathParameter"@))
    } else if definition_head_spec(s, i, "cookie"@) is Some {
        Some((Some(ParameterType::Cookie), "cookie"@))
    } else {
        None
    }
}

/// A stand-alone parameter's kind is the one its keyword binds, and its name
/// the identifier after the keyword.
pub open spec fn parameter_parsed(s: Seq<char>, i: int, p: Parameter) -> bool {
    match parameter_keyword(s, i) {
        Some((kind, w)) => p.ty == kind && match definition_head_spec(s, i, w) {
            Some((n, _)) => p.name@ == n,
            None => false,
        },
        None => false,
    }
}

/// A parameter defined on its own: its keyword, its name, then its content.
/// The keyword decides its kind; `parameter` leaves the kind to its context.
pub fn parameter_definition(s: &Vec<char>, i: usize) -> (r: Option<(Parameter, usize)>)
    requires
        at(s@, i as int),
    ensures
        r matches Some((p, e)) ==> i < e <= s@.len() && parameter_parsed(s@, i as int, p),
        r matches Some((p, _)) ==> (parameter_keyword(s@, i as int) matches Some((_, w))
            && parameter_content_denoted(s@, head_end(s@, i as int, w), p.content)),
        match parameter_keyword(s@, i as int) {
            Some((_, w)) => match definition_head_spec(s@, i as int, w) {
                Some((_, j)) => match parameter_content_end(s@, j) {
                    Some(e) => r matches Some((_, f)) && f as int == e,
                    None => r is None,
                },
                None => r is None,
            },
            None => r is None,
        },
{
    let (ty, head) = if let Some(h) = definition_head(s, i, "parameter") {
        (None, h)
    } else if let Some(h) = definition_head(s, i, "query") {
        (Some(ParameterType::Query), h)
    } else if let Some(h) = definition_head(s, i, "header") {
        (Some(ParameterType::Header), h)
    } else if let Some(h) = definition_head(s, i, "pathParameter") {
        (Some(ParameterType::Path), h)
    } else if let Some(h) = definition_head(s, i, "cookie") {
        (Some(ParameterType::Cookie), h)
    } else {
        return None;
    };
    let (name, j) = head;
    match parameter_content(s, j) {
        Some((content, e)) => Some((Parameter { name, ty, content }, e)),
        None => None,
    }
}

/// `path "<template>" [with ...] { <path content> }`.
pub fn path_definition(s: &Vec<char>, i: usize) -> (r: Option<(Path, usize)>)
    requires
        at(s@, i as int),
    ensures
        r matches Some((p, e)) ==> i < e <= s@.len() && slots_match_verbs(p.content)
            && starts_with(s@, i as int, "path"@),
        match path_definition_end(s@, i as int) {
            Some(e) => r matches Some(t) && t.1 as int == e,
            None => r is None,
        },
        r matches Some((p, _)) ==> path_denoted(s@, i as int, p),
{
    let j = match keyword(s, i, "path") {
        Some(j) => j,
        None => return None,
    };
    let j = match ws1(s, j) {
        Some(j) => j,
        None => return None,
    };
    let (name, j) = match string_literal(s, j) {
        Some((a, b, e)) => (substring(s, a, b), e),
        None => return None,
    };
    let (attributes, j) = opt_attributes(s, j);
    let j = ws0(s, j);
    let j = match symbol(s, j, '{') {
        Some(j) => j,
        None => return None,
    };
    let j = ws0(s, j);
    let (content, j) = match path_content(s, j) {
        Some(t) => t,
        None => return None,
    };
    let j = ws0(s, j);
    match symbol(s, j, '}') {
        Some(e) => Some((Path { name, attributes, content }, e)),
        None => None,
    }
}

/// `= "<string>"` with optional whitespace around `=` and after the string.
pub open spec fn string_assignment_spec(s: Seq<char>, i: int) -> Option<(Seq<char>, int)> {
    match padded_symbol_spec(s, i, '=') {
        Some(j) => match string_literal_spec(s, j) {
            Some((a, b, e)) => Some((s.subrange(a, b), run_end(s, e, CharClass::Space))),
            None => None,
        },
        None => None,
    }
}

fn string_assignment(s: &Vec<char>, i: usize) -> (r: Option<(String, usize)>)
    requires
        at(s@, i as int),
    ensures
        r matches Some((_, e)) ==> i < e <= s@.len(),
        match string_assignment_spec(s@, i as int) {
            Some((v, e)) => r matches Some((w, f)) && w@ == v && f as int == e,
            None => r is None,
        },
{
    let j = match padded_symbol(s, i, '=') {
        Some(j) => j,
        None => return None,
    };
    match string_literal(s, j) {
        Some((a, b, e)) => Some((substring(s, a, b), ws0(s, e))),
        None => None,
    }
}

/// The base of an info block: `: Base`, or ` extends Base`.
pub open spec fn info_base_spec(s: Seq<char>, i: int) -> Option<(Seq<char>, int)> {
    match padded_symbol_spec(s, i, ':') {
        Some(j) => if has_identifier(s, j) {
            Some((s.subrange(j, identifier_end(s, j)), identifier_end(s, j)))
        } else {
            None
        },
        None => {
            let j = run_end(s, i, CharClass::Space);
            if j > i && definition_head_spec(s, j, "extends"@) is Some {
                definition_head_spec(s, j, "extends"@)
            } else {
                None
            }
        },
    }
}

fn info_base(s: &Vec<char>, i: usize) -> (r: Option<(String, usize)>)
    requires
        at(s@, i as int),
    ensures
        r matches Some((_, e)) ==> i < e <= s@.len(),
        match info_base_spec(s@, i as int) {
            Some((n, e)) => r matches Some((m, f)) && m@ == n && f as int == e,
            None => r is None,
        },
{
    if let Some(j) = padded_symbol(s, i, ':') {
        return identifier(s, j);
    }
    match ws1(s, i) {
        Some(j) => definition_head(s, j, "extends"),
        None => None,
    }
}

/// The fields an info block assigns.
pub struct InfoText {
    pub title: Option<Seq<char>>,
    pub summary: Option<Seq<char>>,
    pub description: Option<Seq<char>>,
    pub version: Option<Seq<char>>,
}

/// What an info block says: its `default` mark, its name, its base, its fields.
pub struct InfoParse {
    pub is_default: bool,
    pub name: Seq<char>,
    pub base: Option<Seq<char>>,
    pub fields: InfoText,
}

pub open spec fn unset_count(f: InfoText) -> nat {
    (if f.title is None { 1nat } else { 0nat }) + (if f.summary is None { 1nat } else { 0nat }) + (
    if f.description is None { 1nat } else { 0nat }) + (if f.version is None { 1nat } else { 0nat })
}

/// The assignments at `pos`, given the fields already set: the first field,
/// in the order title, summary, description, version, that is not yet set and
/// whose assignment stands at `pos` is taken next; the list ends where none
/// stands.
pub open spec fn info_assignments(s: Seq<char>, pos: int, f: InfoText) -> (InfoText, int)
    decreases unset_count(f),
{
    if f.title is None && starts_with(s, pos, "title"@) && string_assignment_spec(
        s,
        pos + "title"@.len(),
    ) is Some {
        let (v, e) = string_assignment_spec(s, pos + "title"@.len())->0;
        info_assignments(s, e, InfoText { title: Some(v), ..f })
    } else if f.summary is None && starts_with(s, pos, "summary"@) && string_assignment_spec(
        s,
        pos + "summary"@.len(),
    ) is Some {
        let (v, e) = string_assignment_spec(s, pos + "summary"@.len())->0;
        info_assignments(s, e, InfoText { summary: Some(v), ..f })
    } else if f.description is None && starts_with(s, pos, "description"@)
        && string_assignment_spec(s, pos + "description"@.len()) is Some {
        let (v, e) = string_assignment_spec(s, pos + "description"@.len())->0;
        info_assignments(s, e, InfoText { description: Some(v), ..f })
    } else if f.version is None && starts_with(s, pos, "version"@) && string_assignment_spec(
        s,
        pos + "version"@.len(),
    ) is Some {
        let (v, e) = string_assignment_spec(s, pos + "version"@.len())->0;
        info_assignments(s, e, InfoText { version: Some(v), ..f })
    } else {
        (f, pos)
    }
}

/// An info block at `i`: `[default] info Name [: Base | extends Base] { ... }`.
pub open spec fn info_spec(s: Seq<char>, i: int) -> Option<(InfoParse, int)> {
    let d = starts_with(s, i, "default"@) && run_end(s, i + "default"@.len(), CharClass::Space) > i
        + "default"@.len();
    let start = if d {
        run_end(s, i + "default"@.len(), CharClass::Space)
    } else {
        i
    };
    match definition_head_spec(s, start, "info"@) {
        None => None,
        Some((name, e1)) => {
            let (base, e2) = match info_base_spec(s, e1) {
                Some((b, e)) => (Some(b), e),
                None => (None, e1),
            };
            let j = run_end(s, e2, CharClass::Space);
            if j < s.len() && s[j] == '{' {
                let none = InfoText { title: None, summary: None, description: None, version: None };
                let (f, p) = info_assignments(s, run_end(s, j + 1, CharClass::Space), none);
                let q = run_end(s, p, CharClass::Space);
                if q < s.len() && s[q] == '}' {
                    Some((InfoParse { is_default: d, name, base, fields: f }, q + 1))
                } else {
                    None
                }
            } else {
                None
            }
        },
    }
}

pub open spec fn info_text_view(
    title: Option<String>,
    summary: Option<String>,
    description: Option<String>,
    version: Option<String>,
) -> InfoText {
    InfoText {
        title: opt_view(title),
        summary: opt_view(summary),
        description: opt_view(description),
        version: opt_view(version),
    }
}

pub open spec fn info_parse_view(info: Info) -> InfoParse {
    InfoParse {
        is_default: info.is_default,
        name: info.config_name@,
        base: opt_view(info.base),
        fields: info_text_view(info.title, info.summary, info.description, info.version),
    }
}

/// `[default] info Name [: Base] { title = "..." summary = "..." description =
/// "..." version = "..." }`: each assignment optional, at most once, in any
/// order.
pub fn info_definition(s: &Vec<char>, i: usize) -> (r: Option<(Info, usize)>)
    requires
        at(s@, i as int),
    ensures
        r matches Some((info, e)) ==> i < e <= s@.len() && info.terms_of_service is None,
        match info_spec(s@, i as int) {
            Some((v, e)) => r matches Some((info, f)) && info_parse_view(info) == v && f as int == e,
            None => r is None,
        },
{
    let (is_default, j) = match keyword(s, i, "default") {
        Some(j) => match ws1(s, j) {
            Some(k) => (true, k),
            None => (false, i),
        },
        None => (false, i),
    };
    let ghost d = starts_with(s@, i as int, "default"@) && run_end(
        s@,
        i + "default"@.len(),
        CharClass::Space,
    ) > i + "default"@.len();
    assert(is_default == d);
    assert(j == (if d {
        run_end(s@, i + "default"@.len(), CharClass::Space)
    } else {
        i as int
    }));
    let (config_name, j) = match definition_head(s, j, "info") {
        Some(t) => t,
        None => return None,
    };
    let (base, j) = match info_base(s, j) {
        Some((b, e)) => (Some(b), e),
        None => (None, j),
    };
    let j = ws0(s, j);
    let j = match symbol(s, j, '{') {
        Some(j) => j,
        None => return None,
    };
    let mut pos = ws0(s, j);
    let ghost start = pos as int;
    let mut title: Option<String> = None;
    let mut summary: Option<String> = None;
    let mut description: Option<String> = None;
    let mut version: Option<String> = None;
    let ghost none = InfoText { title: None, summary: None, description: None, version: None };
    loop
        invariant
            i < start <= pos <= s@.len(),
            at(s@, pos as int),
            info_assignments(s@, start, none) == info_assignments(
                s@,
                pos as int,
                info_text_view(title, summary, description, version),
            ),
        ensures
            i < start <= pos <= s@.len(),
            info_assignments(s@, start, none) == (
                info_text_view(title, summary, description, version),
                pos as int,
            ),
        decreases s@.len() - pos,
    {
        if title.is_none() {
            if let Some(k) = keyword(s, pos, "title") {
                if let Some((v, e)) = string_assignment(s, k) {
                    title = Some(v);
                    pos = e;
                    continue;
                }
            }
        }
        if summary.is_none() {
            if let Some(k) = keyword(s, pos, "summary") {
                if let Some((v, e)) = string_assignment(s, k) {
                    summary = Some(v);
                    pos = e;
                    continue;
                }
            }
        }
        if description.is_none() {
            if let Some(k) = keyword(s, pos, "description") {
                if let Some((v, e)) = string_assignment(s, k) {
                    description = Some(v);
                    pos = e;
                    continue;
                }
            }
        }
        if version.is_none() {
            if let Some(k) = keyword(s, pos, "version") {
                if let Some((v, e)) = string_assignment(s, k) {
                    version = Some(v);
                    pos = e;
                    continue;
                }
            }
        }
        break;
    }
    let pos = ws0(s, pos);
    match symbol(s, pos, '}') {
        Some(e) => Some(
            (
                Info {
                    is_default,
                    config_name,
                    title,
                    summary,
                    description,
                    terms_of_service: None,
                    version,
                    base,
                },
                e,
            ),
        ),
        None => None,
    }
}

/// Where the top-level construct at `i` ends; the kinds are tried in the
/// order schema, enum, tag, response, path, request body, info.
pub open spec fn object_end(s: Seq<char>, i: int) -> Option<int> {
    let sch = match definition_head_spec(s, i, "schema"@) {
        Some((_, j)) => schema_body_end(s, run_end(s, j, CharClass::Space)),
        None => None,
    };
    let en = match definition_head_spec(s, i, "enum"@) {
        Some((_, j)) => match enum_members_spec(s, j) {
            Some((_, e)) => Some(e),
            None => None,
        },
        None => None,
    };
    let tg = match definition_head_spec(s, i, "tag"@) {
        Some((_, j)) => Some(opt_attributes_end(s, j)),
        None => None,
    };
    let rs = match definition_head_spec(s, i, "response"@) {
        Some((_, j)) => response_content_end(s, j),
        None => None,
    };
    let rb = match definition_head_spec(s, i, "requestBody"@) {
        Some((_, j)) => request_body_content_end(s, j),
        None => None,
    };
    if sch is Some {
        sch
    } else if en is Some {
        en
    } else if tg is Some {
        tg
    } else if rs is Some {
        rs
    } else if path_definition_end(s, i) is Some {
        path_definition_end(s, i)
    } else if rb is Some {
        rb
    } else {
        match info_spec(s, i) {
            Some((_, e)) => Some(e),
            None => None,
        }
    }
}

/// Where the objects that follow `pos`, each after whitespace, end.
pub open spec fn objects_tail_end(s: Seq<char>, pos: int) -> int
    decreases s.len() - pos,
{
    let k = run_end(s, pos, CharClass::Space);
    if k > pos {
        match object_end(s, k) {
            Some(e) => if pos < e <= s.len() {
                objects_tail_end(s, e)
            } else {
                pos
            },
            None => pos,
        }
    } else {
        pos
    }
}

/// Where the text that a source file's grammar accepts ends: imports
/// separated by whitespace, then objects separated by whitespace, with
/// optional whitespace between and after.
pub open spec fn source_end(s: Seq<char>) -> int {
    let q = run_end(s, imports_spec(s).1, CharClass::Space);
    let p = match object_end(s, q) {
        Some(e) => objects_tail_end(s, e),
        None => q,
    };
    run_end(s, p, CharClass::Space)
}

/// What a parsed object says of the text at `i`: the keyword of its kind and
/// the name after it; an enum's members and an info block are given exactly.
pub open spec fn object_parsed(s: Seq<char>, i: int, o: Object, e: int) -> bool {
    match o {
        Object::Schema(x) => match (definition_head_spec(s, i, "schema"@), x.name) {
            (Some((n, _)), Some(m)) => m@ == n,
            _ => false,
        },
        Object::Enum(x) => match definition_head_spec(s, i, "enum"@) {
            Some((n, j)) => x.name@ == n && enum_body_spec(s, j) == Some(
                (strings_view(x.content.selection@), e),
            ),
            None => false,
        },
        Object::Tag(x) => match definition_head_spec(s, i, "tag"@) {
            Some((n, j)) => x.name@ == n && e == opt_attributes_end(s, j),
            None => false,
        },
        Object::Response(x) => match definition_head_spec(s, i, "response"@) {
            Some((n, _)) => x.name@ == n,
            None => false,
        },
        Object::Path(p) => starts_with(s, i, "path"@) && slots_match_verbs(p.content),
        Object::RequestBody(x) => match definition_head_spec(s, i, "requestBody"@) {
            Some((n, _)) => x.name@ == n,
            None => false,
        },
        Object::Info(x) => info_spec(s, i) == Some((info_parse_view(x), e)),
    }
}

/// Where the name of a definition headed by `kw` at `i` ends.
pub open spec fn head_end(s: Seq<char>, i: int, kw: Seq<char>) -> int {
    match definition_head_spec(s, i, kw) {
        Some((_, j)) => j,
        None => i,
    }
}

/// Whether `o` is the object written at `i`: its kind and name, and its whole
/// content as the text gives it.
#[verifier::opaque]
pub open spec fn object_denoted(s: Seq<char>, i: int, o: Object) -> bool {
    &&& object_parsed(s, i, o, match object_end(s, i) {
        Some(e) => e,
        None => i,
    })
    &&& match o {
        Object::Schema(x) => content_denoted(
            s,
            run_end(s, head_end(s, i, "schema"@), CharClass::Space),
            x.content,
        ),
        Object::Enum(x) => enum_denoted(s, head_end(s, i, "enum"@), x.content),
        Object::Tag(x) => attributes_denoted(s, head_end(s, i, "tag"@), x.attributes@),
        Object::Response(x) => response_denoted(s, head_end(s, i, "response"@), x.content),
        Object::Path(p) => path_denoted(s, i, p),
        Object::RequestBody(x) => request_body_denoted(s, head_end(s, i, "requestBody"@), x.content),
        Object::Info(_) => true,
    }
}

/// Where each object after `pos`, following whitespace, starts.
pub open spec fn objects_tail(s: Seq<char>, pos: int) -> Seq<int>
    decreases s.len() - pos,
{
    let k = run_end(s, pos, CharClass::Space);
    if k > pos {
        match object_end(s, k) {
            Some(e) => if pos < e <= s.len() {
                seq![k] + objects_tail(s, e)
            } else {
                Seq::empty()
            },
            None => Seq::empty(),
        }
    } else {
        Seq::empty()
    }
}

/// Where each object of a source file starts.
pub open spec fn object_starts(s: Seq<char>) -> Seq<int> {
    let q = run_end(s, imports_spec(s).1, CharClass::Space);
    match object_end(s, q) {
        Some(e) => seq![q] + objects_tail(s, e),
        None => Seq::empty(),
    }
}

/// Whether `objs` are the objects of the source file `s`, in order.
pub open spec fn objects_denoted(s: Seq<char>, objs: Seq<Object>) -> bool {
    objs.len() == object_starts(s).len() && forall|x: int|
        0 <= x < objs.len() ==> object_denoted(s, object_starts(s)[x], #[trigger] objs[x])
}

/// One top-level construct; the kinds are tried in a fixed order.
pub fn object_definition(s: &Vec<char>, i: usize) -> (r: Option<(Object, usize)>)
    requires
        at(s@, i as int),
    ensures
        r matches Some((o, e)) ==> i < e <= s@.len() && object_parsed(s@, i as int, o, e as int),
        match object_end(s@, i as int) {
            Some(e) => r matches Some(t) && t.1 as int == e,
            None => r is None,
        },
        r matches Some((o, _)) ==> object_denoted(s@, i as int, o),
{
    proof {
        reveal(object_denoted);
    }
    if let Some((name, j)) = definition_head(s, i, "schema") {
        let j = ws0(s, j);
        if let Some((content, e)) = schema_body(s, j) {
            return Some((Object::Schema(Schema { name: Some(name), content }), e));
        }
    }
    if let Some((name, j)) = definition_head(s, i, "enum") {
        if let Some((content, e)) = enum_body(s, j) {
            return Some((Object::Enum(Enum { name, content }), e));
        }
    }
    if let Some((name, j)) = definition_head(s, i, "tag") {
        let (attributes, e) = opt_attributes(s, j);
        return Some((Object::Tag(Tag { name, attributes }), e));
    }
    if let Some((name, j)) = definition_head(s, i, "response") {
        if let Some((content, e)) = response_content(s, j) {
            return Some((Object::Response(Response { name, content }), e));
        }
    }
    if let Some((p, e)) = path_definition(s, i) {
        return Some((Object::Path(p), e));
    }
    if let Some((name, j)) = definition_head(s, i, "requestBody") {
        if let Some((content, e)) = request_body_content(s, j) {
            return Some((Object::RequestBody(RequestBody { name, content }), e));
        }
    }
    if let Some((info, e)) = info_definition(s, i) {
        return Some((Object::Info(info), e));
    }
    None
}

/// The import at `i`: the file it names, and where it ends.
pub open spec fn import_spec(s: Seq<char>, i: int) -> Option<(Seq<char>, int)> {
    let j = i + "import"@.len();
    let k = run_end(s, j, CharClass::Space);
    if starts_with(s, i, "import"@) && k > j {
        match string_literal_spec(s, k) {
            Some((a, b, e)) => Some((s.subrange(a, b), e)),
            None => None,
        }
    } else {
        None
    }
}

/// `import "<file>"`.
pub fn import_statement(s: &Vec<char>, i: usize) -> (r: Option<(Import, usize)>)
    requires
        at(s@, i as int),
    ensures
        r matches Some((_, e)) ==> i < e <= s@.len(),
        match import_spec(s@, i as int) {
            Some((f, e)) => r matches Some((im, g)) && im.file@ == f && g as int == e,
            None => r is None,
        },
{
    let j = match keyword(s, i, "import") {
        Some(j) => j,
        None => return None,
    };
    let j = match ws1(s, j) {
        Some(j) => j,
        None => return None,
    };
    match string_literal(s, j) {
        Some((a, b, e)) => Some((Import { file: substring(s, a, b) }, e)),
        None => None,
    }
}

/// A syntax error: where the text stopped matching the grammar.
#[derive(Debug, Clone, Copy, PartialEq, Eq, Structural)]
pub struct ParseError {
    pub position: usize,
}

/// The imports that follow from `pos`, each after whitespace: the files they
/// name, and where they end.
pub open spec fn imports_after(s: Seq<char>, pos: int) -> (Seq<Seq<char>>, int)
    decreases s.len() - pos,
{
    let k = run_end(s, pos, CharClass::Space);
    if k > pos {
        match import_spec(s, k) {
            Some((f, e)) => if pos < e <= s.len() {
                let (rest, g) = imports_after(s, e);
                (seq![f] + rest, g)
            } else {
                (Seq::empty(), pos)
            },
            None => (Seq::empty(), pos),
        }
    } else {
        (Seq::empty(), pos)
    }
}

/// The imports at the start of a source file: the files they name, in order,
/// and where they end.
pub open spec fn imports_spec(s: Seq<char>) -> (Seq<Seq<char>>, int) {
    match import_spec(s, 0) {
        Some((f, e)) => {
            let (rest, g) = imports_after(s, e);
            (seq![f] + rest, g)
        },
        None => (Seq::empty(), 0),
    }
}

pub open spec fn import_files(ims: Seq<Import>) -> Seq<Seq<char>> {
    ims.map_values(|im: Import| im.file@)
}

/// Imports separated by whitespace, then objects separated by whitespace, with
/// optional whitespace between and after; the end of the consumed text.
#[verifier::rlimit(80)]
fn source_file_content(s: &Vec<char>) -> (r: (SourceFileContent, usize))
    requires
        at(s@, 0),
    ensures
        r.1 <= s@.len(),
        import_files(r.0.imports@) == imports_spec(s@).0,
        r.1 == source_end(s@),
        objects_denoted(s@, r.0.objects@),
{
    let mut imports: Vec<Import> = Vec::new();
    let mut pos: usize = 0;
    assert(import_files(imports@) =~= Seq::empty());
    if let Some((im, e)) = import_statement(s, 0) {
        let ghost f0 = im.file@;
        let ghost e0 = e as int;
        let ghost acc: Seq<Seq<char>> = Seq::empty();
        imports.push(im);
        pos = e;
        assert(import_files(imports@) =~= seq![f0] + acc);
        assert(acc + imports_after(s@, pos as int).0 =~= imports_after(s@, pos as int).0);
        loop
            invariant
                pos <= s@.len(),
                at(s@, pos as int),
                import_files(imports@) == seq![f0] + acc,
                imports_spec(s@).0 == seq![f0] + imports_after(s@, e0).0,
                imports_after(s@, e0).0 == acc + imports_after(s@, pos as int).0,
                imports_spec(s@).1 == imports_after(s@, pos as int).1,
            ensures
                pos <= s@.len(),
                import_files(imports@) == imports_spec(s@).0,
                imports_spec(s@).1 == pos,
            decreases s@.len() - pos,
        {
            let k = match ws1(s, pos) {
                Some(k) => k,
                None => {
                    assert(acc + Seq::<Seq<char>>::empty() =~= acc);
                    break;
                },
            };
            match import_statement(s, k) {
                Some((im, e)) => {
                    proof {
                        let rest = imports_after(s@, e as int);
                        assert(imports_after(s@, pos as int).0 == seq![im.file@] + rest.0);
                        assert(acc + (seq![im.file@] + rest.0) =~= acc.push(im.file@) + rest.0);
                        acc = acc.push(im.file@);
                    }
                    let ghost before = imports@;
                    imports.push(im);
                    assert(import_files(imports@) =~= import_files(before).push(imports@.last().file@));
                    assert(seq![f0] + acc =~= (seq![f0] + acc.drop_last()).push(acc.last()));
                    pos = e;
                },
                None => {
                    assert(acc + Seq::<Seq<char>>::empty() =~= acc);
                    break;
                },
            }
        }
    }
    let start = ws0(s, pos);
    let mut objects: Vec<Object> = Vec::new();
    let mut pos = start;
    let ghost all = object_starts(s@);
    if let Some((o, e)) = object_definition(s, start) {
        objects.push(o);
        pos = e;
        let ghost first = e as int;
        let ghost starts: Seq<int> = seq![start as int];
        loop
            invariant
                all == object_starts(s@),
                all == starts + objects_tail(s@, pos as int),
                objects@.len() == starts.len(),
                forall|x: int| 0 <= x < objects@.len() ==> object_denoted(s@, all[x], #[trigger] objects@[x]),
                pos <= s@.len(),
                at(s@, pos as int),
                objects_tail_end(s@, first) == objects_tail_end(s@, pos as int),
            ensures
                pos <= s@.len(),
                objects_tail_end(s@, first) == pos,
                objects_denoted(s@, objects@),
            decreases s@.len() - pos,
        {
            let k = match ws1(s, pos) {
                Some(k) => k,
                None => {
                    proof {
                        assert(objects_tail(s@, pos as int) == Seq::<int>::empty());
                        assert(all =~= starts);
                    }
                    break;
                },
            };
            match object_definition(s, k) {
                Some((o, e)) => {
                    let ghost before = objects@;
                    objects.push(o);
                    proof {
                        assert(objects_tail(s@, pos as int) == seq![k as int] + objects_tail(s@, e as int));
                        assert(starts + (seq![k as int] + objects_tail(s@, e as int)) =~= starts.push(k as int) + objects_tail(s@, e as int));
                        assert(starts.push(k as int)[before.len() as int] == k as int);
                        assert forall|x: int| 0 <= x < objects@.len() implies object_denoted(s@, all[x], #[trigger] objects@[x]) by {
                            if x < before.len() {
                                assert(objects@[x] == before[x]);
                            }
                        }
                        starts = starts.push(k as int);
                    }
                    pos = e;
                },
                None => {
                    proof {
                        assert(objects_tail(s@, pos as int) == Seq::<int>::empty());
                        assert(all =~= starts);
                    }
                    break;
                },
            }
        }
    } else {
        assert(objects_denoted(s@, objects@));
    }
    (SourceFileContent { imports, objects }, ws0(s, pos))
}

/// Parses a whole source file, given as its characters.  Text left over after
/// the last construct is a syntax error at the first character not consumed.
pub fn parse_chars(s: &Vec<char>) -> (r: Result<SourceFileContent, ParseError>)
    ensures
        r matches Err(e) ==> e.position < s@.len(),
        r matches Ok(c) ==> import_files(c.imports@) == imports_spec(s@).0,
        s@.len() < usize::MAX ==> (r is Ok <==> source_end(s@) == s@.len()),
        s@.len() < usize::MAX ==> (r matches Err(e) ==> e.position == source_end(s@)),
        r matches Ok(c) ==> objects_denoted(s@, c.objects@),
{
    if s.len() == usize::MAX {
        return Err(ParseError { position: 0 });
    }
    let (content, e) = source_file_content(s);
    if e == s.len() {
        Ok(content)
    } else {
        Err(ParseError { position: e })
    }
}

/// Parses a whole source file.  Text left over after the last construct is a
/// syntax error at the first character not consumed.
pub fn parse(input: &str) -> (r: Result<SourceFileContent, ParseError>)
    ensures
        r matches Err(e) ==> e.position < input@.len(),
        r matches Ok(c) ==> import_files(c.imports@) == imports_spec(input@).0,
        input@.len() < usize::MAX ==> (r is Ok <==> source_end(input@) == input@.len()),
        input@.len() < usize::MAX ==> (r matches Err(e) ==> e.position == source_end(input@)),
        r matches Ok(c) ==> objects_denoted(input@, c.objects@),
{
    let s = crate::lex::to_chars(input);
    parse_chars(&s)
}

} // verus!
