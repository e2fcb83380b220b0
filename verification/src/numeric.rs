//! Number texts: which strings `f32::from_str` accepts, decided on the
//! characters alone. The numbers themselves stay text here; the rendering
//! side turns each accepted text into a float.

use vstd::prelude::*;
use crate::text::{
    chars_of, string_of, slice_chars, all_digits, ascii_digit, index_of_from, lemma_index_of_from, find_char_from,
    trim, trim_chars, split_on, split_chars,
};

verus! {

/// `s` spells `lo` letter by letter, each letter in lowercase (`lo`) or in
/// uppercase (`up`).
pub open spec fn spells(s: Seq<char>, lo: Seq<char>, up: Seq<char>) -> bool {
    &&& s.len() == lo.len()
    &&& s.len() == up.len()
    &&& forall|i: int| 0 <= i < s.len() ==> #[trigger] s[i] == lo[i] || s[i] == up[i]
}

/// One optional leading `+` or `-` removed.
pub open spec fn unsigned_part(s: Seq<char>) -> Seq<char> {
    if s.len() > 0 && (s[0] == '+' || s[0] == '-') {
        s.skip(1)
    } else {
        s
    }
}

/// A mantissa: digits with at most one `.`, and at least one digit.
pub open spec fn mantissa_text(m: Seq<char>) -> bool {
    let d = index_of_from(m, '.', 0);
    &&& all_digits(m.take(d))
    &&& d == m.len() || all_digits(m.skip(d + 1))
    &&& d > 0 || m.len() > d + 1
}

/// The first `e` or `E` of `s`, or `s.len()`.
pub open spec fn exponent_mark(s: Seq<char>) -> int {
    let a = index_of_from(s, 'e', 0);
    let b = index_of_from(s, 'E', 0);
    if a < b { a } else { b }
}

/// A decimal number: a mantissa, then optionally `e` or `E` and an exponent
/// of digits with an optional sign.
pub open spec fn decimal_text(b: Seq<char>) -> bool {
    let e = exponent_mark(b);
    &&& mantissa_text(b.take(e))
    &&& e == b.len() || {
        let x = unsigned_part(b.skip(e + 1));
        x.len() > 0 && all_digits(x)
    }
}

/// The texts that `f32::from_str` accepts, as its documentation gives them:
/// an optional sign, then `inf`, `infinity` or `nan` in any case, or a
/// decimal number. No whitespace is allowed.
pub open spec fn float_text(s: Seq<char>) -> bool {
    let b = unsigned_part(s);
    ||| spells(b, "inf"@, "INF"@)
    ||| spells(b, "infinity"@, "INFINITY"@)
    ||| spells(b, "nan"@, "NAN"@)
    ||| decimal_text(b)
}

/// Tests `spells`.
fn spells_chars(s: &[char], lo: &str, up: &str) -> (b: bool)
    ensures
        b == spells(s@, lo@, up@),
{
    let l = chars_of(lo);
    let u = chars_of(up);
    if s.len() != l.len() || s.len() != u.len() {
        return false;
    }
    let mut i: usize = 0;
    while i < s.len()
        invariant
            s@.len() == l@.len(),
            s@.len() == u@.len(),
            l@ == lo@,
            u@ == up@,
            i <= s@.len(),
            forall|j: int| 0 <= j < i ==> #[trigger] s@[j] == l@[j] || s@[j] == u@[j],
        decreases s.len() - i,
    {
        if s[i] != l[i] && s[i] != u[i] {
            return false;
        }
        i = i + 1;
    }
    true
}

/// Tests that every character is an ASCII digit.
fn digits_only(s: &[char]) -> (b: bool)
    ensures
        b == all_digits(s@),
{
    let mut i: usize = 0;
    while i < s.len()
        invariant
            i <= s@.len(),
            forall|j: int| 0 <= j < i ==> ascii_digit(#[trigger] s@[j]),
        decreases s.len() - i,
    {
        if !('0' <= s[i] && s[i] <= '9') {
            assert(!ascii_digit(s@[i as int]));
            return false;
        }
        i = i + 1;
    }
    true
}

/// Removes one leading sign.
fn unsigned_chars(s: &[char]) -> (r: Vec<char>)
    ensures
        r@ == unsigned_part(s@),
{
    if s.len() > 0 && (s[0] == '+' || s[0] == '-') {
        slice_chars(s, 1, s.len())
    } else {
        slice_chars(s, 0, s.len())
    }
}

/// Tests `mantissa_text`.
fn is_mantissa(m: &[char]) -> (b: bool)
    ensures
        b == mantissa_text(m@),
{
    let d = find_char_from(m, '.', 0);
    proof {
        lemma_index_of_from(m@, '.', 0);
    }
    let head = slice_chars(m, 0, d);
    if !digits_only(head.as_slice()) {
        return false;
    }
    if d < m.len() {
        let tail = slice_chars(m, d + 1, m.len());
        assert(tail@ =~= m@.skip(d + 1));
        if !digits_only(tail.as_slice()) {
            return false;
        }
    }
    d > 0 || m.len() > d + 1
}

/// Tests `decimal_text`.
fn is_decimal(b: &[char]) -> (r: bool)
    ensures
        r == decimal_text(b@),
{
    let a = find_char_from(b, 'e', 0);
    let c = find_char_from(b, 'E', 0);
    proof {
        lemma_index_of_from(b@, 'e', 0);
        lemma_index_of_from(b@, 'E', 0);
    }
    let e = if a < c { a } else { c };
    let m = slice_chars(b, 0, e);
    if !is_mantissa(m.as_slice()) {
        return false;
    }
    if e == b.len() {
        return true;
    }
    let rest = slice_chars(b, e + 1, b.len());
    assert(rest@ =~= b@.skip(e + 1));
    let x = unsigned_chars(rest.as_slice());
    x.len() > 0 && digits_only(x.as_slice())
}

/// Tests whether `f32::from_str` accepts the text.
pub fn is_float_text(s: &[char]) -> (r: bool)
    ensures
        r == float_text(s@),
{
    let b = unsigned_chars(s);
    spells_chars(b.as_slice(), "inf", "INF") || spells_chars(b.as_slice(), "infinity", "INFINITY")
        || spells_chars(b.as_slice(), "nan", "NAN") || is_decimal(b.as_slice())
}

/// The numbers of a comma-separated list: each field trimmed, those that are
/// no number left out, in order.
pub open spec fn numeric_fields(fields: Seq<Seq<char>>) -> Seq<Seq<char>>
    decreases fields.len(),
{
    if fields.len() == 0 {
        Seq::empty()
    } else {
        let rest = numeric_fields(fields.drop_last());
        let f = trim(fields.last());
        if float_text(f) {
            rest.push(f)
        } else {
            rest
        }
    }
}

/// The views of a list of strings.
pub open spec fn string_views(v: Seq<String>) -> Seq<Seq<char>> {
    v.map_values(|s: String| s@)
}

/// The numbers of `s.split(',')`, trimmed, as `filter_map(|v| v.trim().parse().ok())`
/// keeps them.
pub fn parse_number_list(s: &str) -> (r: Vec<String>)
    ensures
        string_views(r@) == numeric_fields(split_on(s@, ',')),
{
    let c = chars_of(s);
    let fields = split_chars(c.as_slice(), ',');
    let ghost f = split_on(s@, ',');
    let mut out: Vec<String> = Vec::new();
    let mut i: usize = 0;
    assert(f.take(0) =~= Seq::<Seq<char>>::empty());
    assert(string_views(out@) =~= Seq::<Seq<char>>::empty());
    while i < fields.len()
        invariant
            i <= fields@.len(),
            fields@.len() == f.len(),
            forall|j: int| 0 <= j < f.len() ==> #[trigger] fields@[j]@ == f[j],
            string_views(out@) == numeric_fields(f.take(i as int)),
        decreases fields.len() - i,
    {
        let t = trim_chars(fields[i].as_slice());
        let ghost prev = out@;
        assert(f.take(i + 1).drop_last() =~= f.take(i as int));
        assert(f.take(i + 1).last() == fields@[i as int]@);
        if is_float_text(t.as_slice()) {
            out.push(string_of(t.as_slice()));
            assert(string_views(out@) =~= string_views(prev).push(t@));
        }
        i = i + 1;
    }
    assert(f.take(i as int) =~= f);
    out
}

} // verus!
