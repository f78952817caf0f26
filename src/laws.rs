//! Facts that hold of every input, proved from the specifications of parsing
//! and conversion.
use vstd::prelude::*;
use vstd::arithmetic::div_mod::{lemma_fundamental_div_mod, lemma_mod_pos_bound};
use crate::constructs::{last_body, ParameterWithType};
use crate::convert::{content_spec, enum_spec, required_names};
use crate::data::{EnumContent, Info, Requirement, SchemaContent, SchemaField};
use crate::generate::{
    find_info, generation_spec, lemma_find_info_bounds, merged_info, overlay, own_fields,
    resolve_spec, result_view, ConvertError, ConvertErrorView, InfoFields,
};
use crate::lex::{
    base_of, digit_value, digits_value, identifier_end, in_class, padded_symbol_spec, run_end,
    starts_with, CharClass,
};
use crate::literals::{integer_literal_spec, is_digit_class, radix_literal};
use crate::openapi::{strings_view, OpenApi, RefView, SchemaView};
use crate::types::{
    enum_body_spec, enum_members_spec, field_parsed, fields_parsed, non_empty_texts, requirement_of,
};

verus! {

/// Converting the same objects twice yields the same document, or the same
/// error: the result is a function of the objects and the configuration asked
/// for.
pub proof fn conversion_is_deterministic(
    objs: Seq<crate::data::Object>,
    config: Option<Seq<char>>,
    r1: Result<OpenApi, ConvertError>,
    r2: Result<OpenApi, ConvertError>,
)
    requires
        result_view(r1) == generation_spec(objs, config),
        result_view(r2) == generation_spec(objs, config),
    ensures
        result_view(r1) == result_view(r2),
{
}

/// A name is in the `required` list exactly when some field of that name is
/// required.
pub proof fn required_list_names_required_fields(fields: Seq<SchemaField>, name: Seq<char>)
    ensures
        required_names(fields).contains(name) <==> exists|i: int|
            0 <= i < fields.len() && (#[trigger] fields[i]).name@ == name && fields[i].requirement
                == Requirement::Required,
    decreases fields.len(),
{
    if fields.len() > 0 {
        let prev = fields.drop_last();
        required_list_names_required_fields(prev, name);
        if required_names(fields).contains(name) {
            if fields.last().requirement == Requirement::Required && fields.last().name@ == name {
                assert(fields[fields.len() - 1].name@ == name);
            } else {
                if fields.last().requirement == Requirement::Required {
                    let k = choose|k: int|
                        0 <= k < required_names(fields).len() && required_names(fields)[k] == name;
                    assert(required_names(prev).contains(name)) by {
                        assert(required_names(prev)[k] == name);
                    }
                }
                let i = choose|i: int|
                    0 <= i < prev.len() && (#[trigger] prev[i]).name@ == name && prev[i].requirement
                        == Requirement::Required;
                assert(fields[i] == prev[i]);
            }
        } else {
            assert forall|i: int|
                0 <= i < fields.len() && (#[trigger] fields[i]).name@ == name implies fields[i].requirement
                != Requirement::Required by {
                if i < fields.len() - 1 {
                    assert(fields[i] == prev[i]);
                    if prev[i].requirement == Requirement::Required {
                        let k = choose|k: int|
                            0 <= k < required_names(prev).len() && required_names(prev)[k] == name;
                        if fields.last().requirement == Requirement::Required {
                            assert(required_names(fields)[k] == name);
                        }
                    }
                } else if fields.last().requirement == Requirement::Required {
                    assert(required_names(fields)[required_names(fields).len() - 1] == name);
                }
            }
        }
    }
}

/// The schema of a field list lists in `required` the names of its required
/// fields and no other name.
pub proof fn schema_requires_its_required_fields(c: SchemaContent, name: Seq<char>)
    requires
        c is Definition,
    ensures
        content_spec(c) matches RefView::Value(SchemaView::Object { required, .. }) && (
        required.contains(name) <==> exists|i: int|
            0 <= i < c->fields@.len() && (#[trigger] c->fields@[i]).name@ == name
                && c->fields@[i].requirement == Requirement::Required),
{
    required_list_names_required_fields(c->fields@, name);
}

/// A block whose base has no base of its own keeps the fields it sets and
/// takes the others from that base.
pub proof fn child_fields_override_base(infos: Seq<Info>, child: Info, fuel: nat)
    requires
        fuel > 0,
        child.base matches Some(b) && find_info(infos, b@) matches Some(j) && infos[j].base is None,
    ensures
        merged_info(infos, child, fuel) == Ok::<InfoFields, ConvertErrorView>(
            overlay(own_fields(child), own_fields(infos[find_info(infos, child.base->0@)->0])),
        ),
{
    lemma_find_info_bounds(infos, child.base->0@);
    reveal_with_fuel(merged_info, 2);
}

/// A block with a base keeps every field it sets and takes each other field
/// from its base as resolved along the base's own chain; resolution fails
/// where the base's does.
pub proof fn child_fields_override_resolved_base(infos: Seq<Info>, child: Info, fuel: nat)
    requires
        fuel > 0,
        child.base matches Some(b) && find_info(infos, b@) is Some,
    ensures
        merged_info(infos, child, fuel) == match merged_info(
            infos,
            infos[find_info(infos, child.base->0@)->0],
            (fuel - 1) as nat,
        ) {
            Ok(f) => Ok::<InfoFields, ConvertErrorView>(overlay(own_fields(child), f)),
            Err(e) => Err(e),
        },
{
}

/// Asking for a configuration that no block has fails, whatever the default.
pub proof fn unknown_configuration_fails(infos: Seq<Info>, default: Option<Seq<char>>, name: Seq<char>)
    requires
        find_info(infos, name) is None,
    ensures
        resolve_spec(infos, default, Some(name)) == Err::<crate::openapi::InfoView, ConvertErrorView>(
            ConvertErrorView::UnknownConfig(name),
        ),
{
}

/// With no configuration asked for and no block marked default, resolution
/// fails.
pub proof fn no_configuration_fails(infos: Seq<Info>)
    ensures
        resolve_spec(infos, None, None) == Err::<crate::openapi::InfoView, ConvertErrorView>(
            ConvertErrorView::NoConfig,
        ),
{
}

/// The digit for a value below sixteen; letters are lower case.
pub open spec fn digit_char(d: int) -> char {
    if d == 0 { '0' } else if d == 1 { '1' } else if d == 2 { '2' } else if d == 3 { '3' }
    else if d == 4 { '4' } else if d == 5 { '5' } else if d == 6 { '6' } else if d == 7 { '7' }
    else if d == 8 { '8' } else if d == 9 { '9' } else if d == 10 { 'a' } else if d == 11 { 'b' }
    else if d == 12 { 'c' } else if d == 13 { 'd' } else if d == 14 { 'e' } else { 'f' }
}

/// The digits of `n` in the base of a digit class, most significant first and
/// without leading zeros.
pub open spec fn digits_of(n: nat, k: CharClass) -> Seq<char>
    decreases n,
{
    match k {
        CharClass::Binary => if n < 2 {
            seq![digit_char(n as int)]
        } else {
            digits_of(n / 2, k).push(digit_char(n as int % 2))
        },
        CharClass::Octal => if n < 8 {
            seq![digit_char(n as int)]
        } else {
            digits_of(n / 8, k).push(digit_char(n as int % 8))
        },
        CharClass::Hexadecimal => if n < 16 {
            seq![digit_char(n as int)]
        } else {
            digits_of(n / 16, k).push(digit_char(n as int % 16))
        },
        _ => if n < 10 {
            seq![digit_char(n as int)]
        } else {
            digits_of(n / 10, k).push(digit_char(n as int % 10))
        },
    }
}

proof fn lemma_digit_char(d: int)
    requires
        0 <= d < 16,
    ensures
        digit_value(digit_char(d)) == d,
{
}

proof fn lemma_digits_of(n: nat, k: CharClass)
    requires
        is_digit_class(k),
    ensures
        digits_value(digits_of(n, k), base_of(k)) == n,
        digits_of(n, k).len() >= 1,
        forall|j: int| 0 <= j < digits_of(n, k).len() ==> in_class(k, #[trigger] digits_of(n, k)[j]),
        n >= 1 ==> digits_of(n, k)[0] != '0',
    decreases n,
{
    let b = base_of(k);
    if n < b {
        lemma_digit_char(n as int);
        let ds = digits_of(n, k);
        assert(ds == seq![digit_char(n as int)]);
        assert(ds.drop_last() =~= Seq::<char>::empty());
        assert(digits_value(ds.drop_last(), b) == 0);
        assert(ds.last() == digit_char(n as int));
        assert(digits_value(ds, b) == digits_value(ds.drop_last(), b) * b + digit_value(ds.last()));
        assert(0 * b == 0) by (nonlinear_arith);
    } else {
        let q = n / (b as nat);
        let r = n as int % b;
        lemma_fundamental_div_mod(n as int, b);
        lemma_mod_pos_bound(n as int, b);
        assert(q >= 1) by (nonlinear_arith)
            requires
                n >= b,
                b >= 2,
                q == n / (b as nat),
        ;
        lemma_digits_of(q, k);
        lemma_digit_char(r);
        let ds = digits_of(n, k);
        assert(ds =~= digits_of(q, k).push(digit_char(r)));
        assert(ds.drop_last() =~= digits_of(q, k));
        assert(ds[0] == digits_of(q, k)[0]);
        assert(ds.last() == digit_char(r));
        assert(digits_value(ds, b) == digits_value(ds.drop_last(), b) * b + digit_value(ds.last()));
        assert(q * b == b * q) by (nonlinear_arith);
        assert(digits_value(ds, b) == n);
        assert forall|j: int| 0 <= j < ds.len() implies in_class(k, #[trigger] ds[j]) by {
            if j < ds.len() - 1 {
                assert(ds[j] == digits_of(q, k)[j]);
            }
        }
    }
}

proof fn lemma_run_to_end(s: Seq<char>, i: int, k: CharClass)
    requires
        0 <= i <= s.len(),
        forall|j: int| i <= j < s.len() ==> in_class(k, #[trigger] s[j]),
    ensures
        run_end(s, i, k) == s.len(),
    decreases s.len() - i,
{
    if i < s.len() {
        lemma_run_to_end(s, i + 1, k);
    }
}

proof fn lemma_prefixed_literal(n: nat, k: CharClass, p: Seq<char>)
    requires
        n <= i64::MAX,
        is_digit_class(k),
        p.len() == 2,
    ensures
        radix_literal(p + digits_of(n, k), 2, k) == Some((n as int, 2 + digits_of(n, k).len() as int)),
{
    let ds = digits_of(n, k);
    let s = p + ds;
    lemma_digits_of(n, k);
    assert forall|j: int| 2 <= j < s.len() implies in_class(k, #[trigger] s[j]) by {
        assert(s[j] == ds[j - 2]);
    }
    lemma_run_to_end(s, 2, k);
    assert(s.subrange(2, s.len() as int) =~= ds);
}

/// A digit written in upper case: the letters `a` to `f` become `A` to `F`.
pub open spec fn upper_digit(c: char) -> char {
    if c == 'a' { 'A' } else if c == 'b' { 'B' } else if c == 'c' { 'C' } else if c == 'd' { 'D' }
    else if c == 'e' { 'E' } else if c == 'f' { 'F' } else { c }
}

pub open spec fn upper_digits(d: Seq<char>) -> Seq<char> {
    d.map_values(|c: char| upper_digit(c))
}

proof fn lemma_upper_digits(d: Seq<char>, k: CharClass)
    requires
        is_digit_class(k),
        forall|j: int| 0 <= j < d.len() ==> in_class(k, #[trigger] d[j]),
    ensures
        digits_value(upper_digits(d), base_of(k)) == digits_value(d, base_of(k)),
        forall|j: int| 0 <= j < d.len() ==> in_class(k, #[trigger] upper_digits(d)[j]),
        upper_digits(d).len() == d.len(),
    decreases d.len(),
{
    if d.len() > 0 {
        lemma_upper_digits(d.drop_last(), k);
        assert(upper_digits(d).drop_last() =~= upper_digits(d.drop_last()));
        assert(upper_digits(d).last() == upper_digit(d.last()));
        assert(in_class(k, d[d.len() - 1]));
    }
}

/// Hexadecimal digits read the same in upper case as in lower case.
pub proof fn upper_case_hex_agrees(n: nat)
    requires
        n <= i64::MAX,
    ensures
        integer_literal_spec(seq!['0', 'x'] + upper_digits(digits_of(n, CharClass::Hexadecimal)), 0)
            == Some((n as int, 2 + digits_of(n, CharClass::Hexadecimal).len() as int)),
{
    let ds = digits_of(n, CharClass::Hexadecimal);
    lemma_digits_of(n, CharClass::Hexadecimal);
    lemma_upper_digits(ds, CharClass::Hexadecimal);
    let us = upper_digits(ds);
    let px = seq!['0', 'x'];
    let sx = px + us;
    assert forall|j: int| 2 <= j < sx.len() implies in_class(CharClass::Hexadecimal, #[trigger] sx[j]) by {
        assert(sx[j] == us[j - 2]);
    }
    lemma_run_to_end(sx, 2, CharClass::Hexadecimal);
    assert(sx.subrange(2, sx.len() as int) =~= us);
    assert(sx.subrange(0, 2) =~= px);
    assert(!starts_with(sx, 0, seq!['0', 'b'])) by {
        if starts_with(sx, 0, seq!['0', 'b']) {
            assert(sx.subrange(0, 2)[1] == 'b');
        }
    }
    assert(!starts_with(sx, 0, seq!['0', 'o'])) by {
        if starts_with(sx, 0, seq!['0', 'o']) {
            assert(sx.subrange(0, 2)[1] == 'o');
        }
    }
}

/// Every value from zero to `i64::MAX`, written in binary after `0b`, in octal
/// after `0o`, in hexadecimal after `0x`, or in decimal, reads as itself.
pub proof fn integer_literal_bases_agree(n: nat)
    requires
        n <= i64::MAX,
    ensures
        integer_literal_spec(digits_of(n, CharClass::Decimal), 0) == Some(
            (n as int, digits_of(n, CharClass::Decimal).len() as int),
        ),
        integer_literal_spec(seq!['0', 'b'] + digits_of(n, CharClass::Binary), 0) == Some(
            (n as int, 2 + digits_of(n, CharClass::Binary).len() as int),
        ),
        integer_literal_spec(seq!['0', 'o'] + digits_of(n, CharClass::Octal), 0) == Some(
            (n as int, 2 + digits_of(n, CharClass::Octal).len() as int),
        ),
        integer_literal_spec(seq!['0', 'x'] + digits_of(n, CharClass::Hexadecimal), 0) == Some(
            (n as int, 2 + digits_of(n, CharClass::Hexadecimal).len() as int),
        ),
{
    let pb = seq!['0', 'b'];
    let po = seq!['0', 'o'];
    let px = seq!['0', 'x'];
    lemma_prefixed_literal(n, CharClass::Binary, pb);
    lemma_prefixed_literal(n, CharClass::Octal, po);
    lemma_prefixed_literal(n, CharClass::Hexadecimal, px);
    let sb = pb + digits_of(n, CharClass::Binary);
    let so = po + digits_of(n, CharClass::Octal);
    let sx = px + digits_of(n, CharClass::Hexadecimal);
    assert(sb.subrange(0, 2) =~= pb);
    assert(so.subrange(0, 2) =~= po);
    assert(sx.subrange(0, 2) =~= px);
    assert(!starts_with(so, 0, pb)) by {
        if starts_with(so, 0, pb) {
            assert(so.subrange(0, 2)[1] == pb[1]);
        }
    }
    assert(!starts_with(sx, 0, pb)) by {
        if starts_with(sx, 0, pb) {
            assert(sx.subrange(0, 2)[1] == pb[1]);
        }
    }
    assert(!starts_with(sx, 0, po)) by {
        if starts_with(sx, 0, po) {
            assert(sx.subrange(0, 2)[1] == po[1]);
        }
    }
    let d = digits_of(n, CharClass::Decimal);
    lemma_digits_of(n, CharClass::Decimal);
    assert forall|q: Seq<char>| q.len() == 2 && q[0] == '0' implies !starts_with(d, 0, q) by {
        if starts_with(d, 0, q) {
            assert(d.subrange(0, 2)[0] == q[0]);
            if n >= 1 {
                assert(d[0] != '0');
            } else {
                assert(d.len() == 1);
            }
        }
    }
    assert(pb[0] == '0' && po[0] == '0' && px[0] == '0');
    lemma_run_to_end(d, 0, CharClass::Decimal);
    assert(d.subrange(0, d.len() as int) =~= d);
}

/// The schema of a parsed enum lists the members the enum declares, in the
/// order declared, without the empty ones; and no member it lists is empty.
pub proof fn enum_schema_keeps_declared_order(s: Seq<char>, i: int, c: EnumContent)
    requires
        enum_body_spec(s, i) matches Some((ms, _)) && strings_view(c.selection@) == ms,
    ensures
        enum_members_spec(s, i) matches Some((declared, _)) && enum_spec(c) matches RefView::Value(
            SchemaView::String { selection: Some(sel), .. },
        ) && sel == non_empty_texts(declared) && forall|k: int|
            0 <= k < sel.len() ==> (#[trigger] sel[k]).len() > 0,
{
    let (declared, _) = enum_members_spec(s, i)->0;
    lemma_non_empty_texts_non_empty(declared);
}

proof fn lemma_non_empty_texts_non_empty(items: Seq<Seq<char>>)
    ensures
        forall|k: int|
            0 <= k < non_empty_texts(items).len() ==> (#[trigger] non_empty_texts(items)[k]).len() > 0,
    decreases items.len(),
{
    if items.len() > 0 {
        let prev = non_empty_texts(items.drop_last());
        lemma_non_empty_texts_non_empty(items.drop_last());
        assert forall|k: int| 0 <= k < non_empty_texts(items).len() implies (#[trigger] non_empty_texts(
            items,
        )[k]).len() > 0 by {
            if k < prev.len() {
                assert(non_empty_texts(items)[k] == prev[k]);
            }
        }
    }
}

/// When an argument list gives a request body more than once, the operation's
/// request body is the one written last.
pub proof fn last_body_argument_wins(args: Seq<ParameterWithType>, k: int)
    requires
        0 <= k < args.len(),
        args[k] is RequestBody,
        forall|m: int| k < m < args.len() ==> !(#[trigger] args[m] is RequestBody),
    ensures
        last_body(args) == Some(args[k]->RequestBody_0),
    decreases args.len(),
{
    if k < args.len() - 1 {
        let prev = args.drop_last();
        assert forall|m: int| k < m < prev.len() implies !(#[trigger] prev[m] is RequestBody) by {
            assert(prev[m] == args[m]);
        }
        assert(!(args[args.len() - 1] is RequestBody));
        last_body_argument_wins(prev, k);
        assert(prev[k] == args[k]);
    }
}

/// The name written for the field at `p`.
pub open spec fn field_text_name(s: Seq<char>, p: int) -> Seq<char> {
    let j = run_end(s, p, CharClass::Space);
    s.subrange(j, identifier_end(s, j))
}

/// Whether the field at `p` is written required: `required`, or no marker.
pub open spec fn field_text_required(s: Seq<char>, p: int) -> bool {
    match padded_symbol_spec(s, identifier_end(s, run_end(s, p, CharClass::Space)), ':') {
        Some(m) => !(requirement_of(s, m) matches Some((Requirement::Optional, _))),
        None => false,
    }
}

/// For a field list read from the text, a name is in the `required` list of
/// the converted schema exactly when some field of that name is written
/// `required` or without a marker; a field written `optional` puts nothing
/// there.
pub proof fn required_list_follows_text(
    s: Seq<char>,
    starts: Seq<int>,
    fields: Seq<SchemaField>,
    name: Seq<char>,
)
    requires
        fields_parsed(s, starts, fields),
    ensures
        required_names(fields).contains(name) <==> exists|x: int|
            0 <= x < starts.len() && field_text_name(s, starts[x]) == name && #[trigger] field_text_required(
                s,
                starts[x],
            ),
{
    required_list_names_required_fields(fields, name);
    assert forall|x: int| 0 <= x < fields.len() implies (fields[x].name@ == field_text_name(
        s,
        starts[x],
    ) && (fields[x].requirement == Requirement::Required <==> field_text_required(s, starts[x]))) by {
        assert(field_parsed(s, starts[x], fields[x]));
    }
    if required_names(fields).contains(name) {
        let i = choose|i: int|
            0 <= i < fields.len() && (#[trigger] fields[i]).name@ == name && fields[i].requirement
                == Requirement::Required;
        assert(field_text_required(s, starts[i]));
    }
    if exists|x: int|
        0 <= x < starts.len() && field_text_name(s, starts[x]) == name && #[trigger] field_text_required(
            s,
            starts[x],
        ) {
        let x = choose|x: int|
            0 <= x < starts.len() && field_text_name(s, starts[x]) == name && #[trigger] field_text_required(
                s,
                starts[x],
            );
        assert(fields[x].name@ == name && fields[x].requirement == Requirement::Required);
    }
}

} // verus!
