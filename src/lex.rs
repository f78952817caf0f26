//! Character classes and the lexical primitives of the language: whitespace,
//! keywords, identifiers, string literals, integer literals and booleans.
//!
//! Every parser works on the text as a sequence of characters and a position in
//! it; a successful parse returns the position just after what it consumed.
use vstd::prelude::*;

verus! {

/// Whether a character has the Unicode `Alphabetic` property.
pub uninterp spec fn alphabetic(c: char) -> bool;

/// Whether a character is alphabetic or numeric in the Unicode sense.
pub uninterp spec fn alphanumeric(c: char) -> bool;

/// Relies on `char::is_alphabetic`, which depends on the character alone.
#[verifier::external_body]
fn char_is_alphabetic(c: char) -> (r: bool)
    ensures
        r == alphabetic(c),
{
    c.is_alphabetic()
}

/// Relies on `char::is_alphanumeric`, which holds of every character that
/// `is_alphabetic` accepts (and of every numeric one).
#[verifier::external_body]
fn char_is_alphanumeric(c: char) -> (r: bool)
    ensures
        r == alphanumeric(c),
        alphabetic(c) ==> r,
{
    c.is_alphanumeric()
}

/// Relies on `String::push`, which appends one character.
#[verifier::external_body]
fn push_char(s: &mut String, c: char)
    ensures
        final(s)@ == old(s)@.push(c),
{
    s.push(c)
}

/// The character classes that runs of input are scanned for.
#[derive(Clone, Copy, PartialEq, Eq, Structural)]
pub enum CharClass {
    Space,
    IdentPrefix,
    IdentBody,
    Binary,
    Octal,
    Decimal,
    Hexadecimal,
}

pub open spec fn is_space(c: char) -> bool {
    c == ' ' || c == '\t' || c == '\r' || c == '\n'
}

pub open spec fn digit_value(c: char) -> int {
    if '0' <= c <= '9' {
        c as int - '0' as int
    } else if 'a' <= c <= 'f' {
        c as int - 'a' as int + 10
    } else if 'A' <= c <= 'F' {
        c as int - 'A' as int + 10
    } else {
        16
    }
}

pub open spec fn base_of(k: CharClass) -> int {
    match k {
        CharClass::Binary => 2,
        CharClass::Octal => 8,
        CharClass::Hexadecimal => 16,
        _ => 10,
    }
}

pub open spec fn in_class(k: CharClass, c: char) -> bool {
    match k {
        CharClass::Space => is_space(c),
        CharClass::IdentPrefix => alphabetic(c) || c == '_',
        CharClass::IdentBody => alphanumeric(c) || c == '_',
        _ => digit_value(c) < base_of(k),
    }
}

/// The end of the longest run of characters of class `k` that starts at `i`.
pub open spec fn run_end(s: Seq<char>, i: int, k: CharClass) -> int
    decreases s.len() - i,
{
    if 0 <= i < s.len() && in_class(k, s[i]) {
        run_end(s, i + 1, k)
    } else {
        i
    }
}

/// Whether `w` occurs in `s` at position `i`.
pub open spec fn starts_with(s: Seq<char>, i: int, w: Seq<char>) -> bool {
    0 <= i && i + w.len() <= s.len() && s.subrange(i, i + w.len()) == w
}

/// The first position at or after `i` where `w` occurs.
pub open spec fn find_from(s: Seq<char>, i: int, w: Seq<char>) -> Option<int>
    decreases s.len() - i,
{
    if i < 0 || i >= s.len() || i + w.len() > s.len() {
        None
    } else if starts_with(s, i, w) {
        Some(i)
    } else {
        find_from(s, i + 1, w)
    }
}

/// The value of a sequence of digits in the given base, most significant first.
pub open spec fn digits_value(d: Seq<char>, base: int) -> int
    decreases d.len(),
{
    if d.len() == 0 {
        0
    } else {
        digits_value(d.drop_last(), base) * base + digit_value(d.last())
    }
}

pub proof fn lemma_run_end_bounds(s: Seq<char>, i: int, k: CharClass)
    requires
        0 <= i <= s.len(),
    ensures
        i <= run_end(s, i, k) <= s.len(),
        forall|j: int| i <= j < run_end(s, i, k) ==> in_class(k, #[trigger] s[j]),
        run_end(s, i, k) < s.len() ==> !in_class(k, s[run_end(s, i, k)]),
    decreases s.len() - i,
{
    if i < s.len() && in_class(k, s[i]) {
        lemma_run_end_bounds(s, i + 1, k);
    }
}

proof fn lemma_find_from_bounds(s: Seq<char>, i: int, w: Seq<char>)
    ensures
        find_from(s, i, w) matches Some(j) ==> i <= j && j + w.len() <= s.len() && starts_with(s, j, w),
    decreases s.len() - i,
{
    if !(i < 0 || i >= s.len() || i + w.len() > s.len()) && !starts_with(s, i, w) {
        lemma_find_from_bounds(s, i + 1, w);
    }
}

pub fn class_has(k: CharClass, c: char) -> (r: bool)
    ensures
        r == in_class(k, c),
{
    match k {
        CharClass::Space => c == ' ' || c == '\t' || c == '\r' || c == '\n',
        CharClass::IdentPrefix => is_identifier_prefix(c),
        CharClass::IdentBody => is_identifier_body(c),
        CharClass::Binary => c == '0' || c == '1',
        CharClass::Octal => '0' <= c && c <= '7',
        CharClass::Decimal => '0' <= c && c <= '9',
        CharClass::Hexadecimal => ('0' <= c && c <= '9') || ('a' <= c && c <= 'f') || ('A' <= c
            && c <= 'F'),
    }
}

/// Whether `c` may start an identifier.
pub fn is_identifier_prefix(c: char) -> (r: bool)
    ensures
        r == (alphabetic(c) || c == '_'),
{
    char_is_alphabetic(c) || c == '_'
}

/// Whether `c` may continue an identifier.
pub fn is_identifier_body(c: char) -> (r: bool)
    ensures
        r == (alphanumeric(c) || c == '_'),
        alphabetic(c) ==> r,
{
    char_is_alphanumeric(c) || c == '_'
}

/// The characters of a string, in order.
pub fn to_chars(text: &str) -> (r: Vec<char>)
    ensures
        r@ == text@,
{
    let n = text.unicode_len();
    let mut r: Vec<char> = Vec::new();
    let mut i: usize = 0;
    while i < n
        invariant
            n == text@.len(),
            i <= n,
            r@ == text@.subrange(0, i as int),
        decreases n - i,
    {
        r.push(text.get_char(i));
        i += 1;
        assert(r@ =~= text@.subrange(0, i as int));
    }
    r
}

/// A string holding the characters of `s` from `from` up to `to`.
pub fn substring(s: &Vec<char>, from: usize, to: usize) -> (r: String)
    requires
        from <= to <= s@.len(),
    ensures
        r@ == s@.subrange(from as int, to as int),
{
    let mut r = String::new();
    let mut i = from;
    while i < to
        invariant
            from <= i <= to <= s@.len(),
            r@ == s@.subrange(from as int, i as int),
        decreases to - i,
    {
        push_char(&mut r, s[i]);
        i += 1;
        assert(r@ =~= s@.subrange(from as int, i as int));
    }
    r
}

/// The end of the run of characters of class `k` that starts at `i`.
pub fn scan(s: &Vec<char>, i: usize, k: CharClass) -> (r: usize)
    requires
        i <= s@.len(),
    ensures
        r == run_end(s@, i as int, k),
        i <= r <= s@.len(),
{
    proof {
        lemma_run_end_bounds(s@, i as int, k);
    }
    let mut j = i;
    while j < s.len() && class_has(k, s[j])
        invariant
            i <= j <= s@.len(),
            run_end(s@, j as int, k) == run_end(s@, i as int, k),
        decreases s@.len() - j,
    {
        j += 1;
    }
    j
}

/// Zero or more whitespace characters.
pub fn ws0(s: &Vec<char>, i: usize) -> (r: usize)
    requires
        i <= s@.len(),
    ensures
        r == run_end(s@, i as int, CharClass::Space),
        i <= r <= s@.len(),
{
    proof {
        lemma_run_end_bounds(s@, i as int, CharClass::Space);
    }
    scan(s, i, CharClass::Space)
}

/// One or more whitespace characters.
pub fn ws1(s: &Vec<char>, i: usize) -> (r: Option<usize>)
    requires
        i <= s@.len(),
    ensures
        r == (if run_end(s@, i as int, CharClass::Space) > i {
            Some(run_end(s@, i as int, CharClass::Space) as usize)
        } else {
            None
        }),
        r matches Some(j) ==> i < j <= s@.len() && j == run_end(s@, i as int, CharClass::Space),
{
    let j = ws0(s, i);
    if j > i {
        Some(j)
    } else {
        None
    }
}

/// The word `w`, matched exactly.
pub fn keyword(s: &Vec<char>, i: usize, w: &str) -> (r: Option<usize>)
    requires
        i <= s@.len(),
    ensures
        r == (if starts_with(s@, i as int, w@) {
            Some((i + w@.len()) as usize)
        } else {
            None
        }),
        r matches Some(j) ==> i <= j <= s@.len() && j == i + w@.len(),
{
    let n = w.unicode_len();
    if n > s.len() - i {
        return None;
    }
    let mut k: usize = 0;
    while k < n
        invariant
            n == w@.len(),
            i + n <= s@.len(),
            s@.len() <= usize::MAX,
            k <= n,
            s@.subrange(i as int, i + k) == w@.subrange(0, k as int),
        decreases n - k,
    {
        if s[i + k] != w.get_char(k) {
            assert(s@.subrange(i as int, i + n)[k as int] != w@[k as int]);
            return None;
        }
        k += 1;
        assert(s@.subrange(i as int, i + k) =~= w@.subrange(0, k as int));
    }
    assert(w@.subrange(0, n as int) =~= w@);
    Some(i + n)
}

/// The single character `c`.
pub fn symbol(s: &Vec<char>, i: usize, c: char) -> (r: Option<usize>)
    requires
        i <= s@.len(),
    ensures
        r == (if i < s@.len() && s@[i as int] == c {
            Some((i + 1) as usize)
        } else {
            None
        }),
        r matches Some(j) ==> j == i + 1 && j <= s@.len(),
{
    if i < s.len() && s[i] == c {
        Some(i + 1)
    } else {
        None
    }
}

/// The symbol `c` with optional whitespace on both sides.
pub open spec fn padded_symbol_spec(s: Seq<char>, i: int, c: char) -> Option<int> {
    let j = run_end(s, i, CharClass::Space);
    if j < s.len() && s[j] == c {
        Some(run_end(s, j + 1, CharClass::Space))
    } else {
        None
    }
}

pub fn padded_symbol(s: &Vec<char>, i: usize, c: char) -> (r: Option<usize>)
    requires
        i <= s@.len(),
    ensures
        r matches Some(j) ==> i < j <= s@.len(),
        match padded_symbol_spec(s@, i as int, c) {
            Some(j) => r matches Some(k) && k as int == j,
            None => r is None,
        },
{
    let j = ws0(s, i);
    match symbol(s, j, c) {
        Some(k) => Some(ws0(s, k)),
        None => None,
    }
}

/// Whether an identifier starts at `i`: a letter or `_` stands there.
pub open spec fn has_identifier(s: Seq<char>, i: int) -> bool {
    0 <= i < s.len() && in_class(CharClass::IdentPrefix, s[i])
}

/// The end of the identifier at `i`: a letter or `_`, then the longest run of
/// letters, digits and `_`.  Where no identifier starts, `i` itself.
pub open spec fn identifier_end(s: Seq<char>, i: int) -> int {
    if has_identifier(s, i) {
        run_end(s, i + 1, CharClass::IdentBody)
    } else {
        i
    }
}

/// An identifier: a letter or `_`, then letters, digits and `_`, as many as
/// stand there; none where the first character is neither a letter nor `_`.
pub fn identifier(s: &Vec<char>, i: usize) -> (r: Option<(String, usize)>)
    requires
        i <= s@.len(),
    ensures
        has_identifier(s@, i as int) <==> r is Some,
        r matches Some((n, e)) ==> e == identifier_end(s@, i as int) && i < e <= s@.len()
            && n@ == s@.subrange(i as int, e as int),
{
    if i < s.len() && is_identifier_prefix(s[i]) {
        proof {
            lemma_run_end_bounds(s@, i + 1, CharClass::IdentBody);
        }
        let k = scan(s, i + 1, CharClass::IdentBody);
        Some((substring(s, i, k), k))
    } else {
        None
    }
}

/// The identifier at `i`, or the empty text where none starts.
pub fn identifier_or_empty(s: &Vec<char>, i: usize) -> (r: (String, usize))
    requires
        i <= s@.len(),
    ensures
        r.1 == identifier_end(s@, i as int),
        i <= r.1 <= s@.len(),
        r.0@ == s@.subrange(i as int, r.1 as int),
{
    match identifier(s, i) {
        Some(t) => t,
        None => {
            assert(s@.subrange(i as int, i as int) =~= Seq::<char>::empty());
            (String::new(), i)
        },
    }
}

/// The spans of a string literal at `i`: where its content starts and ends, and
/// where the literal ends.  `"..."` has no escapes; `r#"..."#` ends at `"#`.
pub open spec fn string_literal_spec(s: Seq<char>, i: int) -> Option<(int, int, int)> {
    if i < s.len() && s[i] == '"' {
        match find_from(s, i + 1, seq!['"']) {
            Some(j) => Some((i + 1, j, j + 1)),
            None => None,
        }
    } else if starts_with(s, i, seq!['r', '#', '"']) {
        match find_from(s, i + 3, seq!['"', '#']) {
            Some(j) => Some((i + 3, j, j + 2)),
            None => None,
        }
    } else {
        None
    }
}

pub open spec fn as_position(o: Option<int>) -> Option<usize> {
    match o {
        Some(j) => Some(j as usize),
        None => None,
    }
}

fn find_seq(s: &Vec<char>, i: usize, a: char, b: Option<char>) -> (r: Option<usize>)
    requires
        i <= s@.len(),
        s@.len() < usize::MAX,
    ensures
        r == as_position(
            match b {
                None => find_from(s@, i as int, seq![a]),
                Some(b) => find_from(s@, i as int, seq![a, b]),
            },
        ),
{
    let ghost w = match b {
        None => seq![a],
        Some(b) => seq![a, b],
    };
    let wl: usize = match b {
        None => 1,
        Some(_) => 2,
    };
    let mut j = i;
    while j < s.len() && s.len() - j >= wl
        invariant
            i <= j <= s@.len(),
            w.len() == wl,
            wl == (if b is Some { 2usize } else { 1usize }),
            w[0] == a,
            b matches Some(c) ==> w[1] == c,
            w == (match b {
                None => seq![a],
                Some(c) => seq![a, c],
            }),
            find_from(s@, j as int, w) == find_from(s@, i as int, w),
            s@.len() < usize::MAX,
        decreases s@.len() - j,
    {
        let hit = s[j] == a && match b {
            None => true,
            Some(b) => s[j + 1] == b,
        };
        assert(hit == starts_with(s@, j as int, w)) by {
            assert(w[0] == a);
            if b is Some {
                assert(w[1] == b->0);
            }
            if hit {
                assert(s@.subrange(j as int, j + wl) =~= w);
            }
        }
        if hit {
            assert(find_from(s@, j as int, w) == Some(j as int));
            return Some(j);
        }
        j += 1;
    }
    None
}

/// A string literal; returns the positions where its content starts and ends,
/// and the position after it.
pub fn string_literal(s: &Vec<char>, i: usize) -> (r: Option<(usize, usize, usize)>)
    requires
        i <= s@.len(),
        s@.len() < usize::MAX,
    ensures
        match string_literal_spec(s@, i as int) {
            Some((a, b, e)) => r == Some((a as usize, b as usize, e as usize)) && i < a <= b < e
                <= s@.len(),
            None => r is None,
        },
{
    if i < s.len() && s[i] == '"' {
        proof {
            lemma_find_from_bounds(s@, i + 1, seq!['"']);
        }
        match find_seq(s, i + 1, '"', None) {
            Some(j) => Some((i + 1, j, j + 1)),
            None => None,
        }
    } else {
        let raw = s.len() - i >= 3 && s[i] == 'r' && s[i + 1] == '#' && s[i + 2] == '"';
        assert(raw == starts_with(s@, i as int, seq!['r', '#', '"'])) by {
            if raw {
                assert(s@.subrange(i as int, i + 3) =~= seq!['r', '#', '"']);
            }
            if starts_with(s@, i as int, seq!['r', '#', '"']) {
                assert(s@.subrange(i as int, i + 3)[0] == 'r');
                assert(s@.subrange(i as int, i + 3)[1] == '#');
                assert(s@.subrange(i as int, i + 3)[2] == '"');
            }
        }
        if raw {
            proof {
                lemma_find_from_bounds(s@, i + 3, seq!['"', '#']);
            }
            match find_seq(s, i + 3, '"', Some('#')) {
                Some(j) => Some((i + 3, j, j + 2)),
                None => None,
            }
        } else {
            None
        }
    }
}

} // verus!
