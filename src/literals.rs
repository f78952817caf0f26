//! Literals, attribute values and `with key = value, ...` attribute lists.
use vstd::prelude::*;
use crate::data::{Attributes, Literal, Value};
use vstd::arithmetic::div_mod::{lemma_fundamental_div_mod, lemma_mod_pos_bound};
use crate::lex::{
    base_of, digit_value, digits_value, has_identifier, identifier, identifier_end, in_class, keyword,
    lemma_run_end_bounds, padded_symbol, padded_symbol_spec, run_end, scan, starts_with,
    string_literal, string_literal_spec, substring, ws1, CharClass,
};

verus! {

/// A run of at least one digit of the class's base at `start`, whose value
/// fits in an `i64`: its value and its end.
pub open spec fn radix_literal(s: Seq<char>, start: int, k: CharClass) -> Option<(int, int)> {
    let end = run_end(s, start, k);
    if start < end && digits_value(s.subrange(start, end), base_of(k)) <= i64::MAX {
        Some((digits_value(s.subrange(start, end), base_of(k)), end))
    } else {
        None
    }
}

/// An integer literal: `0b` binary, `0o` octal, `0x` hexadecimal, or else
/// decimal.  The prefixes exclude one another: after a prefix, digits of its
/// base must follow, or the literal fails.
pub open spec fn integer_literal_spec(s: Seq<char>, i: int) -> Option<(int, int)> {
    if starts_with(s, i, seq!['0', 'b']) {
        radix_literal(s, i + 2, CharClass::Binary)
    } else if starts_with(s, i, seq!['0', 'o']) {
        radix_literal(s, i + 2, CharClass::Octal)
    } else if starts_with(s, i, seq!['0', 'x']) {
        radix_literal(s, i + 2, CharClass::Hexadecimal)
    } else {
        radix_literal(s, i, CharClass::Decimal)
    }
}

pub open spec fn is_digit_class(k: CharClass) -> bool {
    k == CharClass::Binary || k == CharClass::Octal || k == CharClass::Decimal || k
        == CharClass::Hexadecimal
}

proof fn lemma_digits_value_nonneg(d: Seq<char>, base: int)
    requires
        base >= 1,
    ensures
        digits_value(d, base) >= 0,
    decreases d.len(),
{
    if d.len() > 0 {
        lemma_digits_value_nonneg(d.drop_last(), base);
        assert(digits_value(d.drop_last(), base) * base >= 0) by (nonlinear_arith)
            requires
                digits_value(d.drop_last(), base) >= 0,
                base >= 1,
        ;
    }
}

/// Appending digits never lowers the value.
proof fn lemma_digits_value_grows(s: Seq<char>, a: int, m: int, n: int, base: int)
    requires
        base >= 1,
        0 <= a <= m <= n <= s.len(),
    ensures
        digits_value(s.subrange(a, m), base) <= digits_value(s.subrange(a, n), base),
    decreases n - m,
{
    if m < n {
        lemma_digits_value_grows(s, a, m, n - 1, base);
        assert(s.subrange(a, n).drop_last() =~= s.subrange(a, n - 1));
        let v = digits_value(s.subrange(a, n - 1), base);
        lemma_digits_value_nonneg(s.subrange(a, n - 1), base);
        assert(v * base >= v) by (nonlinear_arith)
            requires
                v >= 0,
                base >= 1,
        ;
    }
}

fn digit_of(c: char) -> (r: u32)
    requires
        digit_value(c) < 16,
    ensures
        r == digit_value(c),
{
    if '0' <= c && c <= '9' {
        (c as u32) - ('0' as u32)
    } else if 'a' <= c && c <= 'f' {
        (c as u32) - ('a' as u32) + 10
    } else {
        (c as u32) - ('A' as u32) + 10
    }
}

/// The value of the digits from `start` up to the end of their run, if there is
/// at least one and the value fits in an `i64`.
fn radix_digits(s: &Vec<char>, start: usize, k: CharClass) -> (r: Option<(i64, usize)>)
    requires
        start <= s@.len(),
        is_digit_class(k),
    ensures
        match radix_literal(s@, start as int, k) {
            Some((v, e)) => r == Some((v as i64, e as usize)),
            None => r is None,
        },
{
    proof {
        lemma_run_end_bounds(s@, start as int, k);
    }
    let end = scan(s, start, k);
    if end == start {
        return None;
    }
    let b: i64 = match k {
        CharClass::Binary => 2,
        CharClass::Octal => 8,
        CharClass::Hexadecimal => 16,
        _ => 10,
    };
    let ghost base = base_of(k);
    let mut acc: i64 = 0;
    let mut j = start;
    assert(s@.subrange(start as int, start as int) =~= Seq::<char>::empty());
    while j < end
        invariant
            start <= j <= end <= s@.len(),
            end == run_end(s@, start as int, k),
            b as int == base,
            base == base_of(k),
            2 <= base <= 16,
            is_digit_class(k),
            forall|x: int| start <= x < end ==> in_class(k, #[trigger] s@[x]),
            acc as int == digits_value(s@.subrange(start as int, j as int), base),
            acc >= 0,
        decreases end - j,
    {
        assert(in_class(k, s@[j as int]));
        let d = digit_of(s[j]) as i64;
        assert(s@.subrange(start as int, j + 1).drop_last() =~= s@.subrange(start as int, j as int));
        assert(s@.subrange(start as int, j + 1).last() == s@[j as int]);
        if acc > (i64::MAX - d) / b {
            proof {
                let v = digits_value(s@.subrange(start as int, j + 1), base);
                assert(v == acc * base + d);
                let x = i64::MAX as int - d as int;
                let q = x / (b as int);
                lemma_fundamental_div_mod(x, b as int);
                lemma_mod_pos_bound(x, b as int);
                assert(acc * base >= (q + 1) * base) by (nonlinear_arith)
                    requires
                        acc >= q + 1,
                        base >= 2,
                ;
                assert((q + 1) * base == base * q + base) by (nonlinear_arith);
                assert(acc * base + d > i64::MAX);
                lemma_digits_value_grows(s@, start as int, j + 1, end as int, base);
            }
            return None;
        }
        assert(acc * b + d <= i64::MAX) by (nonlinear_arith)
            requires
                acc <= (i64::MAX as int - d as int) / (b as int),
                b >= 2,
                0 <= d < b,
                acc >= 0,
        ;
        assert(acc * b + d >= 0) by (nonlinear_arith)
            requires
                b >= 2,
                0 <= d < b,
                acc >= 0,
        ;
        acc = acc * b + d;
        j += 1;
    }
    Some((acc, end))
}

/// An integer literal in any of the four bases; its value and its end.
pub fn integer_literal(s: &Vec<char>, i: usize) -> (r: Option<(i64, usize)>)
    requires
        i <= s@.len(),
    ensures
        match integer_literal_spec(s@, i as int) {
            Some((v, e)) => r == Some((v as i64, e as usize)),
            None => r is None,
        },
{
    proof {
        lemma_integer_literal_bounds(s@, i as int);
    }
    let ghost sv = s@;
    let ghost ii = i as int;
    let k = keyword(s, i, "0b");
    proof {
        reveal_strlit("0b");
        assert("0b"@ =~= seq!['0', 'b']);
    }
    if let Some(j) = k {
        assert(j == i + 2 && starts_with(sv, ii, seq!['0', 'b']));
        return radix_digits(s, j, CharClass::Binary);
    }
    let k = keyword(s, i, "0o");
    proof {
        reveal_strlit("0o");
        assert("0o"@ =~= seq!['0', 'o']);
    }
    if let Some(j) = k {
        assert(j == i + 2 && starts_with(sv, ii, seq!['0', 'o']));
        return radix_digits(s, j, CharClass::Octal);
    }
    let k = keyword(s, i, "0x");
    proof {
        reveal_strlit("0x");
        assert("0x"@ =~= seq!['0', 'x']);
    }
    if let Some(j) = k {
        assert(j == i + 2 && starts_with(sv, ii, seq!['0', 'x']));
        return radix_digits(s, j, CharClass::Hexadecimal);
    }
    radix_digits(s, i, CharClass::Decimal)
}

/// `true` or `false`.
pub open spec fn bool_literal_spec(s: Seq<char>, i: int) -> Option<(bool, int)> {
    if starts_with(s, i, seq!['t', 'r', 'u', 'e']) {
        Some((true, i + 4))
    } else if starts_with(s, i, seq!['f', 'a', 'l', 's', 'e']) {
        Some((false, i + 5))
    } else {
        None
    }
}

pub fn bool_literal(s: &Vec<char>, i: usize) -> (r: Option<(bool, usize)>)
    requires
        i <= s@.len(),
    ensures
        match bool_literal_spec(s@, i as int) {
            Some((b, e)) => r == Some((b, e as usize)),
            None => r is None,
        },
{
    proof {
        reveal_strlit("true");
        reveal_strlit("false");
        assert("true"@ =~= seq!['t', 'r', 'u', 'e']);
        assert("false"@ =~= seq!['f', 'a', 'l', 's', 'e']);
    }
    if let Some(j) = keyword(s, i, "true") {
        Some((true, j))
    } else if let Some(j) = keyword(s, i, "false") {
        Some((false, j))
    } else {
        None
    }
}

/// What a literal at `i` denotes, and where it ends: a string, else an
/// integer, else a boolean.
pub open spec fn literal_parsed(s: Seq<char>, i: int, l: Literal, e: int) -> bool {
    match l {
        Literal::String(t) => match string_literal_spec(s, i) {
            Some((a, b, end)) => t@ == s.subrange(a, b) && e == end,
            None => false,
        },
        Literal::Int(v) => string_literal_spec(s, i) is None && integer_literal_spec(s, i)
            == Some((v as int, e)),
        Literal::Bool(v) => string_literal_spec(s, i) is None && integer_literal_spec(s, i) is None
            && bool_literal_spec(s, i) == Some((v, e)),
        Literal::List(_) => false,
    }
}

pub open spec fn literal_fails(s: Seq<char>, i: int) -> bool {
    string_literal_spec(s, i) is None && integer_literal_spec(s, i) is None && bool_literal_spec(
        s,
        i,
    ) is None
}

pub fn literal(s: &Vec<char>, i: usize) -> (r: Option<(Literal, usize)>)
    requires
        i <= s@.len(),
        s@.len() < usize::MAX,
    ensures
        match r {
            Some((l, e)) => literal_parsed(s@, i as int, l, e as int) && i < e <= s@.len(),
            None => literal_fails(s@, i as int),
        },
{
    if let Some((a, b, e)) = string_literal(s, i) {
        return Some((Literal::String(substring(s, a, b)), e));
    }
    if let Some((v, e)) = integer_literal(s, i) {
        proof {
            lemma_integer_literal_bounds(s@, i as int);
        }
        return Some((Literal::Int(v), e));
    }
    if let Some((v, e)) = bool_literal(s, i) {
        return Some((Literal::Bool(v), e));
    }
    None
}

proof fn lemma_radix_bounds(s: Seq<char>, start: int, k: CharClass)
    requires
        0 <= start <= s.len(),
    ensures
        radix_literal(s, start, k) matches Some((v, e)) ==> start < e <= s.len() && 0 <= v
            <= i64::MAX,
{
    lemma_run_end_bounds(s, start, k);
    if radix_literal(s, start, k) is Some {
        let end = run_end(s, start, k);
        lemma_digits_value_nonneg(s.subrange(start, end), base_of(k));
    }
}

proof fn lemma_integer_literal_bounds(s: Seq<char>, i: int)
    requires
        0 <= i <= s.len(),
    ensures
        integer_literal_spec(s, i) matches Some((v, e)) ==> i < e <= s.len() && 0 <= v
            <= i64::MAX,
{
    lemma_radix_bounds(s, i, CharClass::Decimal);
    if i + 2 <= s.len() {
        lemma_radix_bounds(s, i + 2, CharClass::Binary);
        lemma_radix_bounds(s, i + 2, CharClass::Octal);
        lemma_radix_bounds(s, i + 2, CharClass::Hexadecimal);
    }
}

/// Whether a value stands at `i`: a literal or an identifier.
pub open spec fn has_value(s: Seq<char>, i: int) -> bool {
    !literal_fails(s, i) || has_identifier(s, i)
}

/// An attribute value: a literal, else a bare identifier.
pub fn value(s: &Vec<char>, i: usize) -> (r: Option<(Value, usize)>)
    requires
        i <= s@.len(),
        s@.len() < usize::MAX,
    ensures
        has_value(s@, i as int) <==> r is Some,
        r matches Some((v, e)) ==> i <= e <= s@.len() && e == value_end(s@, i as int)
            && value_parsed(s@, i as int, v),
{
    match literal(s, i) {
        Some((l, e)) => Some((Value::Immediate(l), e)),
        None => match identifier(s, i) {
            Some((n, e)) => Some((Value::Identifier(n), e)),
            None => None,
        },
    }
}

/// Each name occurs at most once.
pub open spec fn names_unique(a: Seq<(String, Value)>) -> bool {
    forall|x: int, y: int|
        0 <= x < a.len() && 0 <= y < a.len() && x != y ==> #[trigger] a[x].0@ != #[trigger] a[y].0@
}

/// Sets attribute `k` to `v`: replaces the value of an attribute of that name
/// where there is one, and appends the pair otherwise.
pub fn set_attribute(a: &mut Attributes, k: String, v: Value)
    requires
        names_unique(old(a)@),
    ensures
        names_unique(final(a)@),
        exists|x: int| 0 <= x < final(a)@.len() && final(a)@[x].0@ == k@ && final(a)@[x].1 == v,
        forall|x: int|
            0 <= x < old(a)@.len() && old(a)@[x].0@ != k@ ==> #[trigger] final(a)@[x] == old(
                a,
            )@[x],
        final(a)@.len() == old(a)@.len() || final(a)@.len() == old(a)@.len() + 1,
        forall|x: int| old(a)@.len() <= x < final(a)@.len() ==> #[trigger] final(a)@[x].0@ == k@,
        forall|x: int| 0 <= x < old(a)@.len() ==> #[trigger] final(a)@[x].0@ == old(a)@[x].0@,
{
    let n = a.len();
    let mut x: usize = 0;
    while x < n
        invariant
            n == a@.len(),
            a@ == old(a)@,
            names_unique(old(a)@),
            x <= n,
            forall|y: int| 0 <= y < x ==> #[trigger] a@[y].0@ != k@,
        decreases n - x,
    {
        if a[x].0.eq(&k) {
            let ghost before = a@;
            let ghost kv = k@;
            a.set(x, (k, v));
            proof {
                assert(a@[x as int].0@ == kv);
                assert forall|y: int, z: int|
                    0 <= y < a@.len() && 0 <= z < a@.len() && y != z implies #[trigger] a@[y].0@
                    != #[trigger] a@[z].0@ by {
                    assert(before[y].0@ != before[z].0@);
                }
            }
            return;
        }
        x += 1;
    }
    let ghost before = a@;
    let ghost kv = k@;
    a.push((k, v));
    proof {
        assert(a@[n as int].0@ == kv);
        assert forall|y: int, z: int|
            0 <= y < a@.len() && 0 <= z < a@.len() && y != z implies #[trigger] a@[y].0@ != #[trigger] a@[z].0@ by {
            if y < n && z < n {
                assert(a@[y] == before[y] && a@[z] == before[z]);
            } else if y == n {
                assert(a@[z] == before[z]);
            } else {
                assert(a@[y] == before[y]);
            }
        }
    }
}

/// Where the value at `i` ends: after a literal, else after the identifier
/// there.
pub open spec fn value_end(s: Seq<char>, i: int) -> int {
    match string_literal_spec(s, i) {
        Some((_, _, e)) => e,
        None => match integer_literal_spec(s, i) {
            Some((_, e)) => e,
            None => match bool_literal_spec(s, i) {
                Some((_, e)) => e,
                None => identifier_end(s, i),
            },
        },
    }
}

/// The attribute `name = value` at `i`, if one stands there: its name, where
/// its value starts, and where it ends.
pub open spec fn attribute_at(s: Seq<char>, i: int) -> Option<(Seq<char>, int, int)> {
    let k = identifier_end(s, i);
    match padded_symbol_spec(s, k, '=') {
        Some(j) => if has_identifier(s, i) && has_value(s, j) {
            Some((s.subrange(i, k), j, value_end(s, j)))
        } else {
            None
        },
        None => None,
    }
}

/// Where the value of the attribute at `i` starts.
pub open spec fn value_start(s: Seq<char>, i: int) -> int {
    match attribute_at(s, i) {
        Some((_, v, _)) => v,
        None => i,
    }
}

/// Where the attribute at `i` ends, if one stands there.
pub open spec fn attribute_end(s: Seq<char>, i: int) -> Option<int> {
    match attribute_at(s, i) {
        Some((_, _, e)) => Some(e),
        None => None,
    }
}

/// The `, name = value` continuations from `pos`: each name with where its
/// value starts.
pub open spec fn attribute_tail(s: Seq<char>, pos: int) -> Seq<(Seq<char>, int)>
    decreases s.len() - pos,
{
    match padded_symbol_spec(s, pos, ',') {
        Some(k) => match attribute_at(s, k) {
            Some((n, v, e)) => if pos < e <= s.len() {
                seq![(n, v)] + attribute_tail(s, e)
            } else {
                Seq::empty()
            },
            None => Seq::empty(),
        },
        None => Seq::empty(),
    }
}

/// The attributes written in the list at `i`, in order: each name with where
/// its value starts.
pub open spec fn attributes_written(s: Seq<char>, i: int) -> Seq<(Seq<char>, int)> {
    let j = run_end(s, i, CharClass::Space);
    let k = run_end(s, j + "with"@.len(), CharClass::Space);
    match attribute_at(s, k) {
        Some((n, v, e)) => seq![(n, v)] + attribute_tail(s, e),
        None => Seq::empty(),
    }
}

/// Whether `v` is the value written at `i`.
pub open spec fn value_parsed(s: Seq<char>, i: int, v: Value) -> bool {
    match v {
        Value::Immediate(l) => literal_parsed(s, i, l, value_end(s, i)),
        Value::Identifier(n) => literal_fails(s, i) && has_identifier(s, i) && n@ == s.subrange(
            i,
            identifier_end(s, i),
        ),
    }
}

/// Some attribute written in `w` has the name of `e`, its value is `e`'s, and
/// no later one has that name.
pub open spec fn last_written(s: Seq<char>, w: Seq<(Seq<char>, int)>, e: (String, Value)) -> bool {
    exists|k: int|
        0 <= k < w.len() && w[k].0 == e.0@ && value_parsed(s, w[k].1, e.1) && forall|m: int|
            k < m < w.len() ==> #[trigger] w[m].0 != e.0@
}

pub open spec fn has_name(a: Seq<(String, Value)>, n: Seq<char>) -> bool {
    exists|x: int| 0 <= x < a.len() && #[trigger] a[x].0@ == n
}

/// `a` holds each name written in `w` once, with the value written last for it.
pub open spec fn holds_last_written(s: Seq<char>, a: Seq<(String, Value)>, w: Seq<(Seq<char>, int)>) -> bool {
    &&& names_unique(a)
    &&& forall|x: int| 0 <= x < a.len() ==> last_written(s, w, #[trigger] a[x])
    &&& forall|k: int| 0 <= k < w.len() ==> has_name(a, #[trigger] w[k].0)
}

/// Where the run of `, name = value` continuations from `pos` ends.
pub open spec fn attribute_tail_end(s: Seq<char>, pos: int) -> int
    decreases s.len() - pos,
{
    match padded_symbol_spec(s, pos, ',') {
        Some(j) => match attribute_end(s, j) {
            Some(e) => if pos < e <= s.len() {
                attribute_tail_end(s, e)
            } else {
                pos
            },
            None => pos,
        },
        None => pos,
    }
}

/// Where the attribute list at `i` ends, if one stands there.
pub open spec fn attributes_end(s: Seq<char>, i: int) -> Option<int> {
    let j = run_end(s, i, CharClass::Space);
    let k = run_end(s, j + "with"@.len(), CharClass::Space);
    if j > i && starts_with(s, j, "with"@) && k > j + "with"@.len() {
        match attribute_end(s, k) {
            Some(e) => Some(attribute_tail_end(s, e)),
            None => None,
        }
    } else {
        None
    }
}

/// Where an optional attribute list at `i` ends.
pub open spec fn opt_attributes_end(s: Seq<char>, i: int) -> int {
    match attributes_end(s, i) {
        Some(e) => e,
        None => i,
    }
}

/// Setting the attribute written next keeps every name with the value written
/// last for it.
proof fn lemma_set_written(
    s: Seq<char>,
    a: Seq<(String, Value)>,
    b: Seq<(String, Value)>,
    w: Seq<(Seq<char>, int)>,
    k: String,
    v: Value,
    p: int,
)
    requires
        holds_last_written(s, a, w),
        value_parsed(s, p, v),
        names_unique(b),
        exists|x: int| 0 <= x < b.len() && b[x].0@ == k@ && b[x].1 == v,
        forall|x: int| 0 <= x < a.len() && a[x].0@ != k@ ==> #[trigger] b[x] == a[x],
        b.len() == a.len() || b.len() == a.len() + 1,
        forall|x: int| a.len() <= x < b.len() ==> #[trigger] b[x].0@ == k@,
        forall|x: int| 0 <= x < a.len() ==> #[trigger] b[x].0@ == a[x].0@,
    ensures
        holds_last_written(s, b, w.push((k@, p))),
{
    let w2 = w.push((k@, p));
    let x0 = choose|x: int| 0 <= x < b.len() && b[x].0@ == k@ && b[x].1 == v;
    assert forall|x: int| 0 <= x < b.len() implies last_written(s, w2, #[trigger] b[x]) by {
        if b[x].0@ == k@ {
            if x != x0 {
                assert(b[x].0@ != b[x0].0@);
            }
            assert(w2[w.len() as int] == (k@, p));
            assert(forall|m: int| w.len() < m < w2.len() ==> #[trigger] w2[m].0 != b[x].0@);
        } else {
            assert(x < a.len());
            assert(a[x].0@ == b[x].0@);
            assert(b[x] == a[x]);
            assert(last_written(s, w, a[x]));
            let j = choose|j: int|
                0 <= j < w.len() && w[j].0 == a[x].0@ && value_parsed(s, w[j].1, a[x].1) && forall|
                    m: int,
                | j < m < w.len() ==> #[trigger] w[m].0 != a[x].0@;
            assert(w2[j] == w[j]);
            assert forall|m: int| j < m < w2.len() implies #[trigger] w2[m].0 != b[x].0@ by {
                if m < w.len() {
                    assert(w2[m] == w[m]);
                }
            }
        }
    }
    assert forall|j: int| 0 <= j < w2.len() implies has_name(b, #[trigger] w2[j].0) by {
        if j == w.len() {
            assert(b[x0].0@ == w2[j].0);
        } else {
            assert(w2[j] == w[j]);
            assert(has_name(a, w[j].0));
            let x = choose|x: int| 0 <= x < a.len() && #[trigger] a[x].0@ == w[j].0;
            if a[x].0@ != k@ {
                assert(b[x] == a[x]);
            } else {
                assert(b[x0].0@ == w2[j].0);
            }
        }
    }
}

/// `name = value`, with optional whitespace around `=`.
fn attribute(s: &Vec<char>, i: usize) -> (r: Option<(String, Value, usize)>)
    requires
        i <= s@.len(),
        s@.len() < usize::MAX,
    ensures
        r matches Some((_, _, e)) ==> i < e <= s@.len(),
        match attribute_at(s@, i as int) {
            Some((n, vp, e)) => r matches Some((name, v, f)) && f as int == e && name@ == n
                && value_parsed(s@, vp, v),
            None => r is None,
        },
{
    let (name, j) = match identifier(s, i) {
        Some(t) => t,
        None => return None,
    };
    match padded_symbol(s, j, '=') {
        Some(j) => match value(s, j) {
            Some((v, e)) => Some((name, v, e)),
            None => None,
        },
        None => None,
    }
}

/// An attribute list: whitespace, `with`, whitespace, then one or more
/// `name = value` pairs separated by commas.  A name given twice keeps the
/// value written last.
pub fn with_attributes(s: &Vec<char>, i: usize) -> (r: Option<(Attributes, usize)>)
    requires
        i <= s@.len(),
        s@.len() < usize::MAX,
    ensures
        r matches Some((a, e)) ==> i < e <= s@.len() && names_unique(a@) && a@.len() > 0,
        match attributes_end(s@, i as int) {
            Some(e) => r matches Some((_, f)) && f as int == e,
            None => r is None,
        },
        r matches Some((a, _)) ==> holds_last_written(s@, a@, attributes_written(s@, i as int)),
{
    let j = match ws1(s, i) {
        Some(j) => j,
        None => return None,
    };
    let j = match keyword(s, j, "with") {
        Some(j) => j,
        None => return None,
    };
    let j = match ws1(s, j) {
        Some(j) => j,
        None => return None,
    };
    let (k, v, mut pos) = match attribute(s, j) {
        Some(t) => t,
        None => return None,
    };
    let ghost first = pos as int;
    let ghost all = attributes_written(s@, i as int);
    let ghost written: Seq<(Seq<char>, int)> = seq![(k@, value_start(s@, j as int))];
    let mut attrs: Attributes = Vec::new();
    let ghost a0 = attrs@;
    proof {
        assert(holds_last_written(s@, a0, Seq::empty()));
    }
    set_attribute(&mut attrs, k, v);
    proof {
        lemma_set_written(s@, a0, attrs@, Seq::empty(), k, v, value_start(s@, j as int));
        assert(Seq::<(Seq<char>, int)>::empty().push((k@, value_start(s@, j as int))) =~= written);
        assert(all == written + attribute_tail(s@, pos as int));
    }
    loop
        invariant
            i < pos <= s@.len(),
            s@.len() < usize::MAX,
            names_unique(attrs@),
            attrs@.len() > 0,
            attribute_tail_end(s@, first) == attribute_tail_end(s@, pos as int),
            holds_last_written(s@, attrs@, written),
            all == written + attribute_tail(s@, pos as int),
        ensures
            i < pos <= s@.len(),
            names_unique(attrs@),
            attrs@.len() > 0,
            attribute_tail_end(s@, first) == pos,
            holds_last_written(s@, attrs@, all),
        decreases s@.len() - pos,
    {
        let j = match padded_symbol(s, pos, ',') {
            Some(j) => j,
            None => {
                assert(written + Seq::<(Seq<char>, int)>::empty() =~= written);
                break;
            },
        };
        match attribute(s, j) {
            Some((k, v, e)) => {
                let ghost before = attrs@;
                let ghost vp = value_start(s@, j as int);
                set_attribute(&mut attrs, k, v);
                proof {
                    lemma_set_written(s@, before, attrs@, written, k, v, vp);
                    assert(attribute_tail(s@, pos as int) == seq![(k@, vp)] + attribute_tail(s@, e as int));
                    assert(written + (seq![(k@, vp)] + attribute_tail(s@, e as int)) =~= written.push((k@, vp)) + attribute_tail(s@, e as int));
                    written = written.push((k@, vp));
                }
                pos = e;
            },
            None => {
                assert(written + Seq::<(Seq<char>, int)>::empty() =~= written);
                break;
            },
        }
    }
    Some((attrs, pos))
}

/// Whether `a` is what the text at `i` gives as attributes: those of the
/// `with` list there, each name once with the value written last for it; or
/// none where no list stands.
pub open spec fn attributes_denoted(s: Seq<char>, i: int, a: Seq<(String, Value)>) -> bool {
    match attributes_end(s, i) {
        Some(_) => holds_last_written(s, a, attributes_written(s, i)),
        None => a.len() == 0,
    }
}

/// An optional attribute list: the attributes and the position after them, or
/// no attributes and `i` itself.
pub fn opt_attributes(s: &Vec<char>, i: usize) -> (r: (Attributes, usize))
    requires
        i <= s@.len(),
        s@.len() < usize::MAX,
    ensures
        i <= r.1 <= s@.len(),
        names_unique(r.0@),
        r.1 == opt_attributes_end(s@, i as int),
        attributes_denoted(s@, i as int, r.0@),
{
    match with_attributes(s, i) {
        Some(t) => t,
        None => (Vec::new(), i),
    }
}

} // verus!
