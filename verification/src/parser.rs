//! The template parser: finds `{{...}}` templates in Markdown and expands
//! styles, frames, glyphs, key caps, shields, UI components and partials,
//! leaving fenced code blocks and inline code untouched.

pub mod passthrough;

use vstd::prelude::*;
use crate::error::{Error, Result};
use crate::namemap::NameMap;
use crate::converter::Converter;
use crate::registry::Registry;
use crate::shields::ShieldsRenderer;
use crate::components::{ComponentsRenderer, ComponentOutput, PostProcess, find_from, find_seq_from, lemma_find_from};
use crate::text::{join, grapheme_clusters};
use crate::renderer::{RenderedAsset, Renderer, ShieldsBackend};
use crate::primitive::Primitive;
use crate::text::{
    chars_of, string_of, push_str_chars, push_all, slice_chars, copy_chars, matches_at, occurs_at,
    char_whitespace, char_alphanumeric, is_whitespace, is_alphanumeric, is_alphabetic, char_alphabetic,
};

verus! {

/// Variation selector 15: asks for the text (not emoji) presentation.
pub open spec fn vs15() -> char {
    '\u{FE0E}'
}

/// Each character followed by VS15, whitespace left bare.
pub open spec fn text_style_spec(s: Seq<char>) -> Seq<char>
    decreases s.len(),
{
    if s.len() == 0 {
        Seq::empty()
    } else {
        let c = s.last();
        text_style_spec(s.drop_last()) + (if char_whitespace(c) { seq![c] } else { seq![c, vs15()] })
    }
}

/// Appends VS15 after each non-whitespace character so that glyphs render
/// as text rather than emoji.
pub fn text_style(glyph: &[char]) -> (r: Vec<char>)
    ensures
        r@ == text_style_spec(glyph@),
{
    let mut out: Vec<char> = Vec::new();
    let mut i: usize = 0;
    while i < glyph.len()
        invariant
            i <= glyph@.len(),
            out@ == text_style_spec(glyph@.take(i as int)),
        decreases glyph.len() - i,
    {
        let c = glyph[i];
        proof {
            assert(glyph@.take(i + 1).drop_last() =~= glyph@.take(i as int));
        }
        out.push(c);
        if !is_whitespace(c) {
            out.push('\u{FE0E}');
        }
        i = i + 1;
    }
    proof {
        assert(glyph@.take(glyph@.len() as int) =~= glyph@);
    }
    out
}

/// The first index `>= from` whose character fails `p`, or `s.len()`.
pub open spec fn scan_while(s: Seq<char>, from: int, p: spec_fn(char) -> bool) -> int
    decreases s.len() - from,
{
    if from >= s.len() {
        s.len() as int
    } else if p(s[from]) {
        scan_while(s, from + 1, p)
    } else {
        from
    }
}

/// What `scan_while` returns.
pub proof fn lemma_scan_while(s: Seq<char>, from: int, p: spec_fn(char) -> bool)
    requires
        0 <= from <= s.len(),
    ensures
        from <= scan_while(s, from, p) <= s.len(),
        scan_while(s, from, p) < s.len() ==> !p(s[scan_while(s, from, p)]),
        forall|i: int| from <= i < scan_while(s, from, p) ==> p(#[trigger] s[i]),
    decreases s.len() - from,
{
    if from < s.len() && p(s[from]) {
        lemma_scan_while(s, from + 1, p);
    }
}

/// Characters allowed in glyph names.
pub open spec fn glyph_name_char(c: char) -> bool {
    char_alphanumeric(c) || c == '.' || c == '-' || c == '_'
}

/// `/}}` at `i`.
pub open spec fn self_close_at(s: Seq<char>, i: int) -> bool {
    0 <= i && i + 2 < s.len() && s[i] == '/' && s[i + 1] == '}' && s[i + 2] == '}'
}

/// A `{{glyph:NAME/}}` template at `start`: the name and the end position.
pub open spec fn glyph_at(s: Seq<char>, start: int) -> Option<(Seq<char>, int)> {
    if start + 9 >= s.len() || !occurs_at(s, start, "{{glyph:"@) {
        None
    } else {
        let k = scan_while(s, start + 8, |c: char| glyph_name_char(c));
        if k > start + 8 && self_close_at(s, k) {
            Some((s.subrange(start + 8, k), k + 3))
        } else {
            None
        }
    }
}

/// A `{{kbd:KEYS/}}` template at `start`: the keys and the end position.
pub open spec fn kbd_at(s: Seq<char>, start: int) -> Option<(Seq<char>, int)> {
    if start + 7 >= s.len() || !occurs_at(s, start, "{{kbd:"@) {
        None
    } else {
        let k = scan_while(s, start + 6, |c: char| c != '/');
        if k > start + 6 && self_close_at(s, k) {
            Some((s.subrange(start + 6, k), k + 3))
        } else {
            None
        }
    }
}

/// Each `+`-separated key wrapped in `<kbd>` (trimmed), joined by `+`.
pub open spec fn kbd_html(keys: Seq<char>) -> Seq<char> {
    crate::text::join(crate::text::split_on(keys, '+').map_values(|k: Seq<char>| "<kbd>"@ + crate::text::trim(k) + "</kbd>"@), "+"@)
}

/// Keys without `+` split into themselves alone.
proof fn lemma_split_no_plus(k: Seq<char>)
    requires
        !k.contains('+'),
    ensures
        crate::text::split_on(k, '+') == seq![k],
{
    crate::text::lemma_index_of_from(k, '+', 0);
    if crate::text::index_of_from(k, '+', 0) < k.len() {
        assert(k[crate::text::index_of_from(k, '+', 0)] == '+');
    }
}

/// One key (no `+` in it) becomes that key, trimmed, between `<kbd>` and
/// `</kbd>`.
pub proof fn law_kbd_single(k: Seq<char>)
    requires
        !k.contains('+'),
    ensures
        kbd_html(k) == "<kbd>"@ + crate::text::trim(k) + "</kbd>"@,
{
    lemma_split_no_plus(k);
    assert(seq![k].map_values(|k: Seq<char>| "<kbd>"@ + crate::text::trim(k) + "</kbd>"@)
        =~= seq!["<kbd>"@ + crate::text::trim(k) + "</kbd>"@]);
}

/// A key (no `+` in it), a `+` and further keys become the key's `<kbd>`
/// element, a `+`, then the further keys' elements: the `+` between keys
/// stays between their elements.
pub proof fn law_kbd_plus(k: Seq<char>, rest: Seq<char>)
    requires
        !k.contains('+'),
    ensures
        kbd_html(k + seq!['+'] + rest) == kbd_html(k) + seq!['+'] + kbd_html(rest),
{
    let s = k + seq!['+'] + rest;
    let idx = crate::text::index_of_from(s, '+', 0);
    crate::text::lemma_index_of_from(s, '+', 0);
    assert(s[k.len() as int] == '+');
    if idx < k.len() {
        assert(s[idx] == k[idx]);
    }
    assert(idx == k.len());
    assert(s.take(idx) =~= k);
    assert(s.skip(idx + 1) =~= rest);
    let sp = crate::text::split_on(rest, '+');
    crate::text::lemma_split_nonempty(rest, '+');
    assert(crate::text::split_on(s, '+') == seq![k] + sp);
    let f = |k: Seq<char>| "<kbd>"@ + crate::text::trim(k) + "</kbd>"@;
    assert((seq![k] + sp).map_values(|k: Seq<char>| "<kbd>"@ + crate::text::trim(k) + "</kbd>"@)
        =~= seq![f(k)] + sp.map_values(|k: Seq<char>| "<kbd>"@ + crate::text::trim(k) + "</kbd>"@));
    let sep = "+"@;
    crate::text::lemma_join_prepend(f(k), sp.map_values(|k: Seq<char>| "<kbd>"@ + crate::text::trim(k) + "</kbd>"@), sep);
    law_kbd_single(k);
    reveal_strlit("+");
    assert("+"@ =~= seq!['+']);
}

/// Wraps each `+`-separated key in `<kbd>` tags.
pub fn expand_kbd(keys: &[char]) -> (r: Vec<char>)
    ensures
        r@ == kbd_html(keys@),
{
    let parts = crate::text::split_chars(keys, '+');
    let mut out: Vec<Vec<char>> = Vec::new();
    let mut i: usize = 0;
    proof {
        reveal_strlit("<kbd>");
        reveal_strlit("</kbd>");
        reveal_strlit("+");
    }
    while i < parts.len()
        invariant
            i <= parts@.len(),
            parts@.len() == crate::text::split_on(keys@, '+').len(),
            forall|k: int| 0 <= k < parts@.len() ==> #[trigger] parts@[k]@ == crate::text::split_on(keys@, '+')[k],
            out@.len() == i,
            forall|k: int| 0 <= k < i ==> #[trigger] out@[k]@ == "<kbd>"@ + crate::text::trim(crate::text::split_on(keys@, '+')[k]) + "</kbd>"@,
        decreases parts.len() - i,
    {
        let mut w: Vec<char> = Vec::new();
        push_str_chars(&mut w, "<kbd>");
        let t = crate::text::trim_chars(parts[i].as_slice());
        push_all(&mut w, t.as_slice());
        push_str_chars(&mut w, "</kbd>");
        out.push(w);
        i = i + 1;
    }
    let plus = chars_of("+");
    proof {
        assert(out@.map_values(|p: Vec<char>| p@) =~= crate::text::split_on(keys@, '+').map_values(|k: Seq<char>| "<kbd>"@ + crate::text::trim(k) + "</kbd>"@));
    }
    crate::text::join_chars(&out, plus.as_slice())
}

/// Exec test for `/}}` at `i`.
fn is_self_close_at(s: &[char], i: usize) -> (b: bool)
    ensures
        b == self_close_at(s@, i as int),
{
    i < s.len() && s.len() - i > 2 && s[i] == '/' && s[i + 1] == '}' && s[i + 2] == '}'
}

/// Parses `{{glyph:NAME/}}` at `start`.
pub fn parse_glyph_at(chars: &[char], start: usize) -> (r: Option<(Vec<char>, usize)>)
    ensures
        match glyph_at(chars@, start as int) {
            Some((name, end)) => r matches Some((n, e)) && n@ == name && e as int == end,
            None => r is None,
        },
{
    proof {
        reveal_strlit("{{glyph:");
    }
    let pre = chars_of("{{glyph:");
    if start >= chars.len() || chars.len() - start <= 9 || !matches_at(chars, start, pre.as_slice()) {
        return None;
    }
    let mut k = start + 8;
    proof {
        lemma_scan_while(chars@, start + 8, |c: char| glyph_name_char(c));
    }
    while k < chars.len() && (is_alphanumeric(chars[k]) || chars[k] == '.' || chars[k] == '-' || chars[k] == '_')
        invariant
            start + 8 <= k <= chars@.len(),
            scan_while(chars@, start + 8, |c: char| glyph_name_char(c)) == scan_while(chars@, k as int, |c: char| glyph_name_char(c)),
        decreases chars.len() - k,
    {
        k = k + 1;
    }
    if k > start + 8 && is_self_close_at(chars, k) {
        Some((slice_chars(chars, start + 8, k), k + 3))
    } else {
        None
    }
}

/// Parses `{{kbd:KEYS/}}` at `start`.
pub fn parse_kbd_at(chars: &[char], start: usize) -> (r: Option<(Vec<char>, usize)>)
    ensures
        match kbd_at(chars@, start as int) {
            Some((keys, end)) => r matches Some((k, e)) && k@ == keys && e as int == end,
            None => r is None,
        },
{
    proof {
        reveal_strlit("{{kbd:");
    }
    let pre = chars_of("{{kbd:");
    if start >= chars.len() || chars.len() - start <= 7 || !matches_at(chars, start, pre.as_slice()) {
        return None;
    }
    let mut k = start + 6;
    proof {
        lemma_scan_while(chars@, start + 6, |c: char| c != '/');
    }
    while k < chars.len() && chars[k] != '/'
        invariant
            start + 6 <= k <= chars@.len(),
            scan_while(chars@, start + 6, |c: char| c != '/') == scan_while(chars@, k as int, |c: char| c != '/'),
        decreases chars.len() - k,
    {
        k = k + 1;
    }
    if k > start + 6 && is_self_close_at(chars, k) {
        Some((slice_chars(chars, start + 6, k), k + 3))
    } else {
        None
    }
}


/// A parsed `{{shields:TYPE:key=value.../}}` template.
#[derive(Debug)]
pub struct ShieldData {
    pub end_pos: usize,
    pub shield_type: String,
    pub params: NameMap<String>,
}

/// The `:key=value` pairs of a shield from `i`, in order, with where they
/// end; none when a key has no `=`. A key runs to the first `=`, a value to
/// the first `:`, `/` or `}`.
pub open spec fn shield_pairs(s: Seq<char>, i: int) -> Option<(int, Seq<(Seq<char>, Seq<char>)>)>
    decreases s.len() - i,
{
    if !(0 <= i < s.len() && s[i] == ':') {
        Some((i, Seq::empty()))
    } else {
        proof {
            crate::text::lemma_index_of_from(s, '=', i + 1);
        }
        let ke = crate::text::index_of_from(s, '=', i + 1);
        if ke >= s.len() {
            None
        } else {
            proof {
                crate::components::lemma_value_end(s, ke + 1);
            }
            let ve = crate::components::value_end(s, ke + 1);
            match shield_pairs(s, ve) {
                None => None,
                Some((e, rest)) => Some((e, seq![(s.subrange(i + 1, ke), s.subrange(ke + 1, ve))] + rest)),
            }
        }
    }
}

/// A pair that is kept: key and value both non-empty.
pub open spec fn kept_pair(p: (Seq<char>, Seq<char>)) -> bool {
    p.0.len() > 0 && p.1.len() > 0
}

/// The value of the last kept pair with key `k`.
pub open spec fn last_value(ps: Seq<(Seq<char>, Seq<char>)>, k: Seq<char>) -> Seq<char>
    decreases ps.len(),
{
    if ps.len() == 0 {
        Seq::empty()
    } else if kept_pair(ps.last()) && ps.last().0 == k {
        ps.last().1
    } else {
        last_value(ps.drop_last(), k)
    }
}

/// `m` holds the kept pairs of `ps`, a repeated key with its last value.
pub open spec fn holds_pairs(m: NameMap<String>, ps: Seq<(Seq<char>, Seq<char>)>) -> bool {
    &&& forall|k: Seq<char>| #[trigger] m.has(k) <==> exists|j: int| 0 <= j < ps.len() && kept_pair(#[trigger] ps[j]) && ps[j].0 == k
    &&& forall|k: Seq<char>| #[trigger] m.has(k) ==> m.value_of(k)@ == last_value(ps, k)
}

/// What a shield template at `start` is: none when it is not one, else its
/// end, type and pairs.
pub open spec fn shields_at(s: Seq<char>, start: int) -> Option<(int, Seq<char>, Seq<(Seq<char>, Seq<char>)>)> {
    if start < 0 || start >= s.len() || s.len() - start <= 11 || !occurs_at(s, start, "{{shields:"@) {
        None
    } else {
        let te = scan_while(s, start + 10, |c: char| char_alphanumeric(c));
        if (te < s.len() && !(s[te] == ':' || s[te] == '/')) || te == start + 10 {
            None
        } else {
            match shield_pairs(s, te) {
                None => None,
                Some((e, ps)) => if self_close_at(s, e) {
                    Some((e + 3, s.subrange(start + 10, te), ps))
                } else {
                    None
                },
            }
        }
    }
}

/// Pairs found so far put in front of the pairs still to come.
pub open spec fn after_pairs(acc: Seq<(Seq<char>, Seq<char>)>, r: Option<(int, Seq<(Seq<char>, Seq<char>)>)>) -> Option<
    (int, Seq<(Seq<char>, Seq<char>)>),
> {
    match r {
        None => None,
        Some((e, ps)) => Some((e, acc + ps)),
    }
}

/// Parses `{{shields:TYPE:key=value:.../}}` at `start`; pairs with an empty
/// key or value are dropped, a repeated key keeps its last value.
pub fn parse_shields_at(chars: &[char], start: usize) -> (r: Option<ShieldData>)
    ensures
        match shields_at(chars@, start as int) {
            None => r is None,
            Some((e, ty, ps)) => r matches Some(d) && d.end_pos == e && d.shield_type@ == ty && holds_pairs(d.params, ps),
        },
        r matches Some(d) ==> start < d.end_pos <= chars@.len() && occurs_at(chars@, start as int, "{{shields:"@)
            && self_close_at(chars@, d.end_pos - 3) && d.shield_type@.len() > 0,
{
    proof {
        reveal_strlit("{{shields:");
    }
    let pre = chars_of("{{shields:");
    if start >= chars.len() || chars.len() - start <= 11 || !matches_at(chars, start, pre.as_slice()) {
        return None;
    }
    let mut i = start + 10;
    proof {
        lemma_scan_while(chars@, start + 10, |c: char| char_alphanumeric(c));
    }
    while i < chars.len() && is_alphanumeric(chars[i])
        invariant
            start + 10 <= i <= chars@.len(),
            scan_while(chars@, start + 10, |c: char| char_alphanumeric(c)) == scan_while(chars@, i as int,
                |c: char| char_alphanumeric(c)),
        decreases chars.len() - i,
    {
        i = i + 1;
    }
    if i < chars.len() && !(chars[i] == ':' || chars[i] == '/') {
        return None;
    }
    if i == start + 10 {
        return None;
    }
    let ty = slice_chars(chars, start + 10, i);
    let te = i;
    let mut params: NameMap<String> = NameMap::new();
    let ghost mut acc: Seq<(Seq<char>, Seq<char>)> = Seq::empty();
    assert(after_pairs(acc, shield_pairs(chars@, i as int)) =~= shield_pairs(chars@, te as int)) by {
        match shield_pairs(chars@, i as int) {
            Some((e, ps)) => {
                assert(acc + ps =~= ps);
            },
            None => {},
        }
    }
    while i < chars.len() && chars[i] == ':'
        invariant
            te <= i <= chars@.len(),
            start < chars@.len(),
            chars@.len() - start > 11,
            occurs_at(chars@, start as int, "{{shields:"@),
            te == scan_while(chars@, start + 10, |c: char| char_alphanumeric(c)),
            te < chars@.len() ==> (chars@[te as int] == ':' || chars@[te as int] == '/'),
            te != start + 10,
            ty@ == chars@.subrange(start + 10, te as int),
            after_pairs(acc, shield_pairs(chars@, i as int)) == shield_pairs(chars@, te as int),
            holds_pairs(params, acc),
        decreases chars.len() - i,
    {
        let i0 = i;
        i = i + 1;
        let k0 = i;
        proof {
            crate::text::lemma_index_of_from(chars@, '=', k0 as int);
        }
        while i < chars.len() && chars[i] != '='
            invariant
                k0 <= i <= chars@.len(),
                crate::text::index_of_from(chars@, '=', k0 as int) == crate::text::index_of_from(chars@, '=', i as int),
            decreases chars.len() - i,
        {
            i = i + 1;
        }
        if i >= chars.len() {
            assert(shield_pairs(chars@, i0 as int) is None);
            return None;
        }
        let ke = i;
        i = i + 1;
        proof {
            crate::components::lemma_value_end(chars@, i as int);
        }
        while i < chars.len() && !(chars[i] == ':' || chars[i] == '/' || chars[i] == '}')
            invariant
                ke < i <= chars@.len(),
                crate::components::value_end(chars@, ke + 1) == crate::components::value_end(chars@, i as int),
            decreases chars.len() - i,
        {
            i = i + 1;
        }
        let key = slice_chars(chars, k0, ke);
        let value = slice_chars(chars, ke + 1, i);
        let ghost pair = (key@, value@);
        let ghost old_params = params;
        let ghost old_acc = acc;
        if key.len() > 0 && value.len() > 0 {
            params.insert(string_of(key.as_slice()), string_of(value.as_slice()));
        }
        proof {
            acc = acc.push(pair);
            match shield_pairs(chars@, i as int) {
                Some((e, ps)) => {
                    assert(old_acc + (seq![pair] + ps) =~= acc + ps);
                },
                None => {},
            }
            assert forall|k: Seq<char>| #[trigger] params.has(k) <==> exists|j: int| 0 <= j < acc.len()
                && kept_pair(#[trigger] acc[j]) && acc[j].0 == k by {
                if params.has(k) && !(kept_pair(pair) && pair.0 == k) {
                    assert(old_params.has(k));
                    let j = choose|j: int| 0 <= j < old_acc.len() && kept_pair(#[trigger] old_acc[j]) && old_acc[j].0 == k;
                    assert(acc[j] == old_acc[j]);
                }
                if kept_pair(pair) && pair.0 == k {
                    assert(acc[acc.len() - 1] == pair);
                }
                if exists|j: int| 0 <= j < acc.len() && kept_pair(#[trigger] acc[j]) && acc[j].0 == k {
                    let j = choose|j: int| 0 <= j < acc.len() && kept_pair(#[trigger] acc[j]) && acc[j].0 == k;
                    if j < old_acc.len() {
                        assert(acc[j] == old_acc[j]);
                    }
                }
            }
            assert forall|k: Seq<char>| #[trigger] params.has(k) implies params.value_of(k)@ == last_value(acc, k) by {
                assert(acc.drop_last() =~= old_acc);
                if !(kept_pair(pair) && pair.0 == k) {
                    assert(old_params.has(k));
                }
            }
        }
    }
    if is_self_close_at(chars, i) {
        proof {
            assert(acc + Seq::<(Seq<char>, Seq<char>)>::empty() =~= acc);
        }
        Some(ShieldData { end_pos: i + 3, shield_type: string_of(ty.as_slice()), params })
    } else {
        None
    }
}

/// A parsed `{{partial:NAME}}...{{/partial}}` template.
#[derive(Debug)]
pub struct PartialData {
    pub end_pos: usize,
    pub partial_name: String,
    pub content: String,
}

/// Characters allowed in partial names.
pub open spec fn partial_name_char(c: char) -> bool {
    char_alphanumeric(c) || c == '-' || c == '_'
}

/// The first closer of a partial at or after `i` (`{{/partial}}` or
/// `{{/}}`), with its length.
pub open spec fn partial_close(s: Seq<char>, i: int) -> Option<(int, int)>
    decreases s.len() - i,
{
    if i < 0 || i >= s.len() {
        None
    } else if occurs_at(s, i, "{{/partial}}"@) {
        Some((i, 12))
    } else if occurs_at(s, i, "{{/}}"@) {
        Some((i, 5))
    } else {
        partial_close(s, i + 1)
    }
}

/// What a partial at `start` is: `Ok(None)` when none starts there,
/// `Err(())` when it is never closed, else its end, name and content (empty
/// for the self-closing form).
pub open spec fn partial_at(s: Seq<char>, start: int) -> std::result::Result<Option<(int, Seq<char>, Seq<char>)>, ()> {
    if start < 0 || start >= s.len() || s.len() - start <= 11 || !occurs_at(s, start, "{{partial:"@) {
        Ok(None)
    } else {
        let ne = scan_while(s, start + 10, |c: char| partial_name_char(c));
        let name = s.subrange(start + 10, ne);
        if (ne < s.len() && !(s[ne] == '}' || s[ne] == '/')) || name.len() == 0 {
            Ok(None)
        } else if self_close_at(s, ne) {
            Ok(Some((ne + 3, name, Seq::empty())))
        } else if !(ne + 1 < s.len() && s[ne] == '}' && s[ne + 1] == '}') {
            Ok(None)
        } else {
            match partial_close(s, ne + 2) {
                None => Err(()),
                Some((c, len)) => Ok(Some((c + len, name, s.subrange(ne + 2, c)))),
            }
        }
    }
}

/// Parses `{{partial:NAME/}}` or `{{partial:NAME}}CONTENT{{/partial}}`
/// (also closed by `{{/}}`) at `start`.
pub fn parse_partial_at(chars: &[char], start: usize) -> (r: Result<Option<PartialData>>)
    ensures
        match partial_at(chars@, start as int) {
            Err(()) => r matches Err(Error::UnclosedTag(t)) && t@ == "partial"@,
            Ok(None) => r matches Ok(None),
            Ok(Some((e, name, content))) => r matches Ok(Some(d)) && d.end_pos == e && d.partial_name@ == name
                && d.content@ == content,
        },
        r matches Ok(Some(d)) ==> start < d.end_pos <= chars@.len() && occurs_at(chars@, start as int, "{{partial:"@)
            && d.partial_name@.len() > 0,
{
    proof {
        reveal_strlit("{{partial:");
        reveal_strlit("{{/partial}}");
        reveal_strlit("{{/}}");
        reveal_strlit("partial");
    }
    let pre = chars_of("{{partial:");
    if start >= chars.len() || chars.len() - start <= 11 || !matches_at(chars, start, pre.as_slice()) {
        return Ok(None);
    }
    let mut i = start + 10;
    proof {
        lemma_scan_while(chars@, start + 10, |c: char| partial_name_char(c));
    }
    while i < chars.len() && (is_alphanumeric(chars[i]) || chars[i] == '-' || chars[i] == '_')
        invariant
            start + 10 <= i <= chars@.len(),
            scan_while(chars@, start + 10, |c: char| partial_name_char(c)) == scan_while(chars@, i as int,
                |c: char| partial_name_char(c)),
        decreases chars.len() - i,
    {
        i = i + 1;
    }
    if i < chars.len() && !(chars[i] == '}' || chars[i] == '/') {
        return Ok(None);
    }
    let name = slice_chars(chars, start + 10, i);
    if name.len() == 0 {
        return Ok(None);
    }
    if is_self_close_at(chars, i) {
        return Ok(Some(PartialData { end_pos: i + 3, partial_name: string_of(name.as_slice()), content: String::new() }));
    }
    if i >= chars.len() || chars.len() - i < 2 || chars[i] != '}' || chars[i + 1] != '}' {
        return Ok(None);
    }
    let ghost ne = i;
    i = i + 2;
    let content_start = i;
    let close_long = chars_of("{{/partial}}");
    let close_short = chars_of("{{/}}");
    while i < chars.len()
        invariant
            start < content_start <= i <= chars@.len(),
            content_start == ne + 2,
            start < chars@.len(),
            chars@.len() - start > 11,
            ne == scan_while(chars@, start + 10, |c: char| partial_name_char(c)),
            name@ == chars@.subrange(start + 10, ne as int),
            !self_close_at(chars@, ne as int),
            ne + 1 < chars@.len(),
            chars@[ne as int] == '}',
            chars@[ne + 1] == '}',
            partial_close(chars@, content_start as int) == partial_close(chars@, i as int),
            occurs_at(chars@, start as int, "{{partial:"@),
            name@.len() > 0,
            close_long@ == "{{/partial}}"@,
            close_short@ == "{{/}}"@,
        decreases chars.len() - i,
    {
        proof {
            reveal_strlit("{{/partial}}");
            reveal_strlit("{{/}}");
        }
        if matches_at(chars, i, close_long.as_slice()) {
            let nm = string_of(name.as_slice());
            let content = string_of(slice_chars(chars, content_start, i).as_slice());
            return Ok(Some(PartialData { end_pos: i + 12, partial_name: nm, content }));
        }
        if matches_at(chars, i, close_short.as_slice()) {
            let content = string_of(slice_chars(chars, content_start, i).as_slice());
            return Ok(Some(PartialData { end_pos: i + 5, partial_name: string_of(name.as_slice()), content }));
        }
        i = i + 1;
    }
    Err(Error::UnclosedTag("partial".to_owned()))
}

/// Scanning from `i`, a `/}}` comes before any `}}`.
pub open spec fn closes_itself_from(s: Seq<char>, i: int) -> bool
    decreases s.len() - i,
{
    if i < 0 || i + 2 >= s.len() {
        false
    } else if s[i] == '/' && s[i + 1] == '}' && s[i + 2] == '}' {
        true
    } else if s[i] == '}' && s[i + 1] == '}' {
        false
    } else {
        closes_itself_from(s, i + 1)
    }
}

/// Whether a tag starting at `pos` is self-closing: a `/}}` comes before
/// any `}}`.
pub fn is_self_closing_tag(chars: &[char], pos: usize) -> (b: bool)
    ensures
        b == closes_itself_from(chars@, pos + 2),
{
    if pos > chars.len() || chars.len() - pos < 2 {
        return false;
    }
    is_self_closing_frame(chars, pos + 2)
}

/// Whether a tag whose body starts at `start` is self-closing: a `/}}`
/// comes before any `}}`.
pub fn is_self_closing_frame(chars: &[char], start: usize) -> (b: bool)
    ensures
        b == closes_itself_from(chars@, start as int),
{
    let mut i = start;
    while i < chars.len() && chars.len() - i > 2
        invariant
            start <= i,
            closes_itself_from(chars@, i as int) == closes_itself_from(chars@, start as int),
        decreases chars.len() - i,
    {
        if chars[i] == '/' && chars[i + 1] == '}' && chars[i + 2] == '}' {
            return true;
        }
        if chars[i] == '}' && chars[i + 1] == '}' {
            return false;
        }
        i = i + 1;
    }
    false
}


/// `s` starts with `p`.
pub open spec fn has_prefix(s: Seq<char>, p: Seq<char>) -> bool {
    p.len() <= s.len() && s.take(p.len() as int) == p
}

/// A decimal count as `str::parse::<usize>` reads it.
pub open spec fn count_of(s: Seq<char>) -> Option<nat> {
    crate::text::parse_unsigned(s, usize::MAX as nat)
}

fn parse_count(s: &[char]) -> (r: Option<usize>)
    ensures
        r matches Some(n) ==> count_of(s@) == Some(n as nat),
        r is None ==> count_of(s@) is None,
{
    match crate::text::parse_unsigned_chars(s, usize::MAX as u64) {
        Some(n) => Some(n as usize),
        None => None,
    }
}

fn starts_with_chars(s: &[char], p: &str) -> (b: bool)
    ensures
        b == has_prefix(s@, p@),
{
    let pv = chars_of(p);
    let b = matches_at(s, 0, pv.as_slice());
    proof {
        if b {
            assert(s@.subrange(0, p@.len() as int) =~= s@.take(p@.len() as int));
        } else if has_prefix(s@, p@) {
            assert(s@.subrange(0, p@.len() as int) =~= s@.take(p@.len() as int));
        }
    }
    b
}

/// Options of a glyph frame: padding, separator and spacing.
pub open spec fn glyph_mod(m: Seq<char>, acc: (Seq<char>, Option<Seq<char>>, Option<nat>)) -> (Seq<char>, Option<Seq<char>>, Option<nat>) {
    if has_prefix(m, "pad="@) {
        let v = m.skip(4);
        match count_of(v) {
            Some(n) => (crate::text::repeat(" "@, n), acc.1, acc.2),
            None => (v, acc.1, acc.2),
        }
    } else if has_prefix(m, "separator="@) {
        (acc.0, Some(m.skip(10)), acc.2)
    } else if has_prefix(m, "spacing="@) {
        match count_of(m.skip(8)) {
            Some(n) => (acc.0, acc.1, Some(n)),
            None => acc,
        }
    } else {
        acc
    }
}

/// The glyph-frame options after applying modifiers left to right.
pub open spec fn glyph_mods(ms: Seq<Seq<char>>, acc: (Seq<char>, Option<Seq<char>>, Option<nat>)) -> (Seq<char>, Option<Seq<char>>, Option<nat>)
    decreases ms.len(),
{
    if ms.len() == 0 {
        acc
    } else {
        glyph_mods(ms.skip(1), glyph_mod(ms[0], acc))
    }
}

/// The glyph name and count of a `NAME[*COUNT]` base: the count is capped
/// to 1..=20, and 1 when it does not parse.
pub open spec fn glyph_base(b: Seq<char>) -> (Seq<char>, nat) {
    let st = crate::text::index_of_from(b, '*', 0);
    if st < b.len() {
        match count_of(b.skip(st + 1)) {
            Some(n) => (b.take(st), if n < 1 { 1 } else if n > 20 { 20 } else { n }),
            None => (b.take(st), 1),
        }
    } else {
        (b, 1)
    }
}

/// A glyph frame spec `NAME[*COUNT][/pad=V][/separator=V][/spacing=N]`.
#[derive(Debug)]
pub struct GlyphFrameSpec {
    pub name: Vec<char>,
    pub count: usize,
    pub pad: Vec<char>,
    pub separator: Option<Vec<char>>,
    pub spacing: Option<usize>,
}

/// Parses a glyph frame spec; the padding defaults to one space.
pub fn parse_glyph_frame_spec(spec: &[char]) -> (r: GlyphFrameSpec)
    ensures
        ({
            let ps = crate::text::split_on(spec@, '/');
            let base = glyph_base(ps[0]);
            let mods = glyph_mods(ps.skip(1), (" "@, None, None));
            &&& r.name@ == base.0
            &&& r.count as nat == base.1
            &&& r.pad@ == mods.0
            &&& (match r.separator { Some(v) => Some(v@), None => None }) == mods.1
            &&& (match r.spacing { Some(n) => Some(n as nat), None => None }) == mods.2
        }),
{
    let pieces = crate::text::split_chars(spec, '/');
    proof {
        crate::text::lemma_split_nonempty(spec@, '/');
        reveal_strlit(" ");
        reveal_strlit("pad=");
        reveal_strlit("separator=");
        reveal_strlit("spacing=");
    }
    let ghost ps = crate::text::split_on(spec@, '/');
    let mut pad: Vec<char> = Vec::new();
    pad.push(' ');
    let mut separator: Option<Vec<char>> = None;
    let mut spacing: Option<usize> = None;
    let mut i: usize = 1;
    proof {
        assert(pad@ =~= " "@);
    }
    while i < pieces.len()
        invariant
            1 <= i <= pieces@.len(),
            pieces@.len() == ps.len(),
            forall|k: int| 0 <= k < pieces@.len() ==> #[trigger] pieces@[k]@ == ps[k],
            glyph_mods(ps.skip(1), (" "@, None, None)) == glyph_mods(ps.skip(i as int), (pad@,
                match separator { Some(v) => Some(v@), None => None },
                match spacing { Some(n) => Some(n as nat), None => None })),
        decreases pieces.len() - i,
    {
        proof {
            reveal_strlit("pad=");
            reveal_strlit("separator=");
            reveal_strlit("spacing=");
            reveal_strlit(" ");
            assert(ps.skip(i as int).skip(1) =~= ps.skip(i + 1));
            assert(ps.skip(i as int)[0] == ps[i as int]);
        }
        let m = &pieces[i];
        if starts_with_chars(m.as_slice(), "pad=") {
            let v = slice_chars(m.as_slice(), 4, m.len());
            proof {
                assert(v@ =~= m@.skip(4));
            }
            match parse_count(v.as_slice()) {
                Some(n) => {
                    let sp = chars_of(" ");
                    pad = crate::text::repeat_chars(sp.as_slice(), n);
                },
                None => {
                    pad = v;
                },
            }
        } else if starts_with_chars(m.as_slice(), "separator=") {
            let v = slice_chars(m.as_slice(), 10, m.len());
            proof {
                assert(v@ =~= m@.skip(10));
            }
            separator = Some(v);
        } else if starts_with_chars(m.as_slice(), "spacing=") {
            let v = slice_chars(m.as_slice(), 8, m.len());
            proof {
                assert(v@ =~= m@.skip(8));
            }
            match parse_count(v.as_slice()) {
                Some(n) => {
                    spacing = Some(n);
                },
                None => {},
            }
        }
        i = i + 1;
    }
    proof {
        assert(ps.skip(pieces@.len() as int) =~= Seq::<Seq<char>>::empty());
    }
    let base = &pieces[0];
    let st = crate::text::find_char_from(base.as_slice(), '*', 0);
    let (name, count) = if st < base.len() {
        let rest = slice_chars(base.as_slice(), st + 1, base.len());
        proof {
            assert(rest@ =~= base@.skip(st + 1));
        }
        let n = match parse_count(rest.as_slice()) {
            Some(n) => if n < 1 { 1 } else if n > 20 { 20 } else { n },
            None => 1,
        };
        (slice_chars(base.as_slice(), 0, st), n)
    } else {
        (copy_chars(base.as_slice()), 1)
    };
    proof {
        if st < base@.len() {
            assert(base@.subrange(0, st as int) =~= base@.take(st as int));
        }
    }
    GlyphFrameSpec { name, count, pad, separator, spacing }
}

/// Frame modifiers: separator, spacing, reverse.
pub open spec fn frame_mod(m: Seq<char>, acc: (Option<Seq<char>>, Option<nat>, bool)) -> (Option<Seq<char>>, Option<nat>, bool) {
    if has_prefix(m, "separator="@) {
        (Some(m.skip(10)), acc.1, acc.2)
    } else if has_prefix(m, "spacing="@) {
        match count_of(m.skip(8)) {
            Some(n) => (acc.0, Some(n), acc.2),
            None => acc,
        }
    } else if m == "reverse"@ || m == "rev"@ {
        (acc.0, acc.1, true)
    } else {
        acc
    }
}

/// The frame modifiers after applying them left to right.
pub open spec fn frame_mods(ms: Seq<Seq<char>>, acc: (Option<Seq<char>>, Option<nat>, bool)) -> (Option<Seq<char>>, Option<nat>, bool)
    decreases ms.len(),
{
    if ms.len() == 0 {
        acc
    } else {
        frame_mods(ms.skip(1), frame_mod(ms[0], acc))
    }
}

/// The style and count of a `STYLE[*N]` base: the count is capped at 20; a
/// count that does not parse leaves the style whole.
pub open spec fn frame_base(b: Seq<char>) -> (Seq<char>, Option<nat>) {
    let st = crate::text::index_of_from(b, '*', 0);
    if st < b.len() {
        match count_of(b.skip(st + 1)) {
            Some(n) => (b.take(st), Some(if n < 20 { n } else { 20 })),
            None => (b, None),
        }
    } else {
        (b, None)
    }
}

/// Frame style with its modifiers.
#[derive(Debug)]
pub struct FrameModifiers {
    pub style: Vec<char>,
    pub separator: Option<Vec<char>>,
    pub spacing: Option<usize>,
    pub reverse: bool,
    pub count: Option<usize>,
}

/// Parses `STYLE[*N][/separator=V][/spacing=N][/reverse]`.
pub fn parse_frame_modifiers(style: &[char]) -> (r: FrameModifiers)
    ensures
        ({
            let ps = crate::text::split_on(style@, '/');
            let base = frame_base(ps[0]);
            let mods = frame_mods(ps.skip(1), (None, None, false));
            &&& r.style@ == base.0
            &&& (match r.count { Some(n) => Some(n as nat), None => None }) == base.1
            &&& (match r.separator { Some(v) => Some(v@), None => None }) == mods.0
            &&& (match r.spacing { Some(n) => Some(n as nat), None => None }) == mods.1
            &&& r.reverse == mods.2
        }),
{
    let pieces = crate::text::split_chars(style, '/');
    proof {
        crate::text::lemma_split_nonempty(style@, '/');
    }
    let ghost ps = crate::text::split_on(style@, '/');
    let mut separator: Option<Vec<char>> = None;
    let mut spacing: Option<usize> = None;
    let mut reverse = false;
    let mut i: usize = 1;
    while i < pieces.len()
        invariant
            1 <= i <= pieces@.len(),
            pieces@.len() == ps.len(),
            forall|k: int| 0 <= k < pieces@.len() ==> #[trigger] pieces@[k]@ == ps[k],
            frame_mods(ps.skip(1), (None, None, false)) == frame_mods(ps.skip(i as int), (
                match separator { Some(v) => Some(v@), None => None },
                match spacing { Some(n) => Some(n as nat), None => None }, reverse)),
        decreases pieces.len() - i,
    {
        proof {
            reveal_strlit("separator=");
            reveal_strlit("spacing=");
            reveal_strlit("reverse");
            reveal_strlit("rev");
            assert(ps.skip(i as int).skip(1) =~= ps.skip(i + 1));
            assert(ps.skip(i as int)[0] == ps[i as int]);
        }
        let m = &pieces[i];
        if starts_with_chars(m.as_slice(), "separator=") {
            let v = slice_chars(m.as_slice(), 10, m.len());
            proof {
                assert(v@ =~= m@.skip(10));
            }
            separator = Some(v);
        } else if starts_with_chars(m.as_slice(), "spacing=") {
            let v = slice_chars(m.as_slice(), 8, m.len());
            proof {
                assert(v@ =~= m@.skip(8));
            }
            match parse_count(v.as_slice()) {
                Some(n) => {
                    spacing = Some(n);
                },
                None => {},
            }
        } else {
            let s = string_of(m.as_slice());
            if crate::namemap::str_eq(s.as_str(), "reverse") || crate::namemap::str_eq(s.as_str(), "rev") {
                reverse = true;
            }
        }
        i = i + 1;
    }
    proof {
        assert(ps.skip(pieces@.len() as int) =~= Seq::<Seq<char>>::empty());
    }
    let base = &pieces[0];
    let st = crate::text::find_char_from(base.as_slice(), '*', 0);
    if st < base.len() {
        let rest = slice_chars(base.as_slice(), st + 1, base.len());
        proof {
            assert(rest@ =~= base@.skip(st + 1));
        }
        match parse_count(rest.as_slice()) {
            Some(n) => {
                let name = slice_chars(base.as_slice(), 0, st);
                proof {
                    assert(name@ =~= base@.take(st as int));
                }
                return FrameModifiers { style: name, separator, spacing, reverse, count: Some(if n < 20 { n } else { 20 }) };
            },
            None => {},
        }
    }
    FrameModifiers { style: copy_chars(base.as_slice()), separator, spacing, reverse, count: None }
}


/// A parsed `{{STYLE[:spacing=N][:separator=S]}}CONTENT{{/STYLE}}` template.
#[derive(Debug)]
pub struct TemplateData {
    pub end_pos: usize,
    pub style: String,
    pub spacing: usize,
    pub separator: Option<String>,
    pub content: String,
}

/// Characters allowed in style names.
pub open spec fn style_name_char(c: char) -> bool {
    char_alphanumeric(c) || c == '-'
}

/// The closing tag of a style.
pub open spec fn style_close(style: Seq<char>) -> Seq<char> {
    "{{/"@ + style + "}}"@
}

/// The error for an unknown separator name that is not one character.
fn unknown_separator(sep: &[char], registry: &Registry) -> (e: Error)
    ensures
        e matches Error::ParseError(m) && m@ == unknown_separator_msg(registry.glyphs, sep@),
{
    let glyphs = &registry.glyphs;
    let n = glyphs.len();
    let mut m: Vec<char> = Vec::new();
    push_str_chars(&mut m, "Unknown glyph '");
    push_all(&mut m, sep);
    push_str_chars(&mut m, "'. Available glyphs: ");
    let ghost head = m@;
    let mut i: usize = 0;
    while i < n && i < 8
        invariant
            i <= n,
            i <= 8,
            n == glyphs.names().len(),
            m@ == head + join(glyphs.names().take(i as int), ", "@),
        decreases n - i,
    {
        let ghost before = m@;
        if i > 0 {
            push_str_chars(&mut m, ", ");
        }
        push_str_chars(&mut m, glyphs.name_at(i).as_str());
        proof {
            let t = glyphs.names().take(i + 1);
            assert(t.drop_last() =~= glyphs.names().take(i as int));
            assert(t.last() == glyphs.names()[i as int]);
            if i > 0 {
                assert(m@ =~= head + join(t, ", "@));
            } else {
                assert(t =~= seq![glyphs.names()[0]]);
                assert(m@ =~= head + join(t, ", "@));
            }
        }
        i = i + 1;
    }
    push_str_chars(&mut m, ". Or use a single character like '→' or '·'.");
    Error::ParseError(string_of(m.as_slice()))
}

/// The message for a separator that is neither a glyph name nor one
/// character: the first eight glyph names are offered.
pub open spec fn unknown_separator_msg(glyphs: NameMap<String>, sep: Seq<char>) -> Seq<char> {
    let k = if glyphs.names().len() < 8 { glyphs.names().len() as int } else { 8int };
    "Unknown glyph '"@ + sep + "'. Available glyphs: "@ + join(glyphs.names().take(k), ", "@)
        + ". Or use a single character like '→' or '·'."@
}

/// Where a separator value that starts at `i` ends: at `:` or `}}`.
pub open spec fn sep_end(s: Seq<char>, i: int) -> int
    decreases s.len() - i,
{
    if i < 0 || i >= s.len() {
        s.len() as int
    } else if s[i] == ':' || (s[i] == '}' && i + 1 < s.len() && s[i + 1] == '}') {
        i
    } else {
        sep_end(s, i + 1)
    }
}

pub proof fn lemma_sep_end(s: Seq<char>, i: int)
    requires
        0 <= i <= s.len(),
    ensures
        i <= sep_end(s, i) <= s.len(),
    decreases s.len() - i,
{
    if i < s.len() {
        lemma_sep_end(s, i + 1);
    }
}

/// The modifiers of a style template from `i`: `:spacing=N` and
/// `:separator=NAME` in any order, later ones overriding. `Ok(None)` when
/// something else follows a `:` or a count does not parse; `Err` with the
/// message when a separator is neither a glyph name nor one grapheme;
/// else where they end, the spacing and the separator.
pub open spec fn style_mods(r: Registry, s: Seq<char>, i: int, spacing: nat, sep: Option<Seq<char>>)
    -> std::result::Result<Option<(int, nat, Option<Seq<char>>)>, Seq<char>>
    decreases s.len() - i,
{
    if !(0 <= i < s.len() && s[i] == ':') {
        Ok(Some((i, spacing, sep)))
    } else if occurs_at(s, i + 1, "spacing="@) {
        proof {
            reveal_strlit("spacing=");
            lemma_scan_while(s, i + 9, |c: char| crate::text::ascii_digit(c));
        }
        let de = scan_while(s, i + 9, |c: char| crate::text::ascii_digit(c));
        match count_of(s.subrange(i + 9, de)) {
            Some(v) => style_mods(r, s, de, v, sep),
            None => Ok(None),
        }
    } else if occurs_at(s, i + 1, "separator="@) {
        proof {
            reveal_strlit("separator=");
            lemma_sep_end(s, i + 11);
        }
        let se = sep_end(s, i + 11);
        let name = s.subrange(i + 11, se);
        if r.glyphs.has(name) {
            style_mods(r, s, se, spacing, Some(r.glyphs.value_of(name)@))
        } else if grapheme_clusters(name).len() == 1 {
            style_mods(r, s, se, spacing, Some(name))
        } else {
            Err(unknown_separator_msg(r.glyphs, name))
        }
    } else {
        Ok(None)
    }
}

/// What a style template at `start` is: `Ok(None)` when none starts there;
/// `Err(Some(message))` for an unknown separator, `Err(None)` when the
/// template is never closed; else its end, style, spacing, separator and
/// content (up to the first `{{/STYLE}}`).
pub open spec fn template_at(r: Registry, s: Seq<char>, start: int) -> std::result::Result<
    Option<(int, Seq<char>, nat, Option<Seq<char>>, Seq<char>)>,
    Option<Seq<char>>,
> {
    if start < 0 || start >= s.len() || s.len() - start < 2 || s[start] != '{' || s[start + 1] != '{' {
        Ok(None)
    } else {
        let ne = scan_while(s, start + 2, |c: char| style_name_char(c));
        let style = s.subrange(start + 2, ne);
        if (ne < s.len() && !(s[ne] == ':' || s[ne] == '}')) || style.len() == 0 {
            Ok(None)
        } else {
            match style_mods(r, s, ne, 0, None) {
                Err(m) => Err(Some(m)),
                Ok(None) => Ok(None),
                Ok(Some((m, spacing, sep))) => if !(m + 1 < s.len() && s[m] == '}' && s[m + 1] == '}') {
                    Ok(None)
                } else {
                    let c = find_from(s, style_close(style), m + 2);
                    if c < 0 {
                        Err(None)
                    } else {
                        Ok(Some((c + style_close(style).len(), style, spacing, sep, s.subrange(m + 2, c))))
                    }
                },
            }
        }
    }
}

/// Parses a style template at `start`.
pub fn parse_template_at(registry: &Registry, chars: &[char], start: usize) -> (r: Result<Option<TemplateData>>)
    ensures
        match template_at(*registry, chars@, start as int) {
            Err(Some(m)) => r matches Err(Error::ParseError(e)) && e@ == m,
            Err(None) => r matches Err(Error::UnclosedTag(t)) && t@ == chars@.subrange(start + 2,
                scan_while(chars@, start + 2, |c: char| style_name_char(c))),
            Ok(None) => r matches Ok(None),
            Ok(Some((e, style, spacing, sep, content))) => r matches Ok(Some(d)) && d.end_pos == e && d.style@ == style
                && d.spacing == spacing && d.content@ == content && match sep {
                    Some(x) => d.separator matches Some(y) && y@ == x,
                    None => d.separator is None,
                },
        },
        r matches Ok(Some(d)) ==> start < d.end_pos <= chars@.len() && d.style@.len() > 0
            && chars@.subrange(d.end_pos - style_close(d.style@).len(), d.end_pos as int) == style_close(d.style@),
        r matches Err(e) ==> (e is UnclosedTag || e is ParseError),
{
    if start >= chars.len() || chars.len() - start < 2 || chars[start] != '{' || chars[start + 1] != '{' {
        return Ok(None);
    }
    let mut i = start + 2;
    proof {
        lemma_scan_while(chars@, start + 2, |c: char| style_name_char(c));
    }
    while i < chars.len() && (is_alphanumeric(chars[i]) || chars[i] == '-')
        invariant
            start + 2 <= i <= chars@.len(),
            scan_while(chars@, start + 2, |c: char| style_name_char(c)) == scan_while(chars@, i as int, |c: char| style_name_char(c)),
        decreases chars.len() - i,
    {
        i = i + 1;
    }
    if i < chars.len() && !(chars[i] == ':' || chars[i] == '}') {
        return Ok(None);
    }
    let style = slice_chars(chars, start + 2, i);
    if style.len() == 0 {
        return Ok(None);
    }
    let ne = i;
    let mut spacing: usize = 0;
    let mut separator: Option<String> = None;
    let sp_key = chars_of("spacing=");
    let sep_key = chars_of("separator=");
    proof {
        reveal_strlit("spacing=");
        reveal_strlit("separator=");
    }
    while i < chars.len() && chars[i] == ':'
        invariant
            ne <= i <= chars@.len(),
            start < chars@.len(),
            chars@.len() - start >= 2,
            chars@[start as int] == '{',
            chars@[start + 1] == '{',
            ne == scan_while(chars@, start + 2, |c: char| style_name_char(c)),
            style@ == chars@.subrange(start + 2, ne as int),
            style@.len() > 0,
            ne < chars@.len() ==> (chars@[ne as int] == ':' || chars@[ne as int] == '}'),
            sp_key@ == "spacing="@,
            sep_key@ == "separator="@,
            style_mods(*registry, chars@, ne as int, 0, None) == style_mods(*registry, chars@, i as int, spacing as nat,
                match separator {
                    Some(x) => Some(x@),
                    None => None,
                }),
        decreases chars.len() - i,
    {
        proof {
            reveal_strlit("spacing=");
            reveal_strlit("separator=");
        }
        let ghost i0 = i;
        i = i + 1;
        if matches_at(chars, i, sp_key.as_slice()) {
            i = i + 8;
            let ds = i;
            proof {
                lemma_scan_while(chars@, ds as int, |c: char| crate::text::ascii_digit(c));
            }
            while i < chars.len() && '0' <= chars[i] && chars[i] <= '9'
                invariant
                    ds <= i <= chars@.len(),
                    scan_while(chars@, ds as int, |c: char| crate::text::ascii_digit(c)) == scan_while(chars@, i as int,
                        |c: char| crate::text::ascii_digit(c)),
                decreases chars.len() - i,
            {
                i = i + 1;
            }
            let num = slice_chars(chars, ds, i);
            match parse_count(num.as_slice()) {
                Some(v) => {
                    spacing = v;
                },
                None => {
                    return Ok(None);
                },
            }
        } else if matches_at(chars, i, sep_key.as_slice()) {
            i = i + 10;
            let ss = i;
            proof {
                lemma_sep_end(chars@, ss as int);
            }
            while i < chars.len() && chars[i] != ':' && !(chars[i] == '}' && i + 1 < chars.len() && chars[i + 1] == '}')
                invariant
                    ss <= i <= chars@.len(),
                    sep_end(chars@, ss as int) == sep_end(chars@, i as int),
                decreases chars.len() - i,
            {
                i = i + 1;
            }
            let sep_input = slice_chars(chars, ss, i);
            let sep_str = string_of(sep_input.as_slice());
            match registry.separator(sep_str.as_str()) {
                Some(v) => {
                    separator = Some(v.to_owned());
                },
                None => {
                    let gs = crate::text::graphemes(sep_str.as_str());
                    if gs.len() == 1 {
                        separator = Some(sep_str);
                    } else {
                        return Err(unknown_separator(sep_input.as_slice(), registry));
                    }
                },
            }
        } else {
            return Ok(None);
        }
    }
    if i >= chars.len() || chars.len() - i < 2 || chars[i] != '}' || chars[i + 1] != '}' {
        return Ok(None);
    }
    i = i + 2;
    let content_start = i;
    let mut close: Vec<char> = Vec::new();
    push_str_chars(&mut close, "{{/");
    push_all(&mut close, style.as_slice());
    push_str_chars(&mut close, "}}");
    proof {
        reveal_strlit("{{/");
        reveal_strlit("}}");
        assert(close@ =~= style_close(style@));
    }
    match find_seq_from(chars, close.as_slice(), content_start) {
        Some(c) => {
            proof {
                lemma_find_from(chars@, close@, content_start as int);
            }
            let content = string_of(slice_chars(chars, content_start, c).as_slice());
            let end_pos = c + close.len();
            let st = string_of(style.as_slice());
            Ok(Some(TemplateData { end_pos, style: st, spacing, separator, content }))
        },
        None => Err(Error::UnclosedTag(string_of(style.as_slice()))),
    }
}

/// A parsed UI component template.
#[derive(Debug)]
pub struct UIData {
    pub end_pos: usize,
    pub component_name: String,
    pub args: Vec<String>,
    pub content: Option<String>,
}

/// Characters allowed in component names.
pub open spec fn ui_name_char(c: char) -> bool {
    char_alphanumeric(c) || c == '-' || c == '_'
}

/// Where an argument that starts at `i` ends: at `:` or `}`, or at `/`
/// unless the argument holds `=` (a value may hold `/`) and the `/` does not
/// begin `/}}`.
pub open spec fn arg_end(s: Seq<char>, i: int, has_equals: bool) -> int
    decreases s.len() - i,
{
    if i < 0 || i >= s.len() {
        s.len() as int
    } else if s[i] == '=' {
        arg_end(s, i + 1, true)
    } else if s[i] == ':' || s[i] == '}' {
        i
    } else if s[i] == '/' && (!has_equals || self_close_at(s, i)) {
        i
    } else {
        arg_end(s, i + 1, has_equals)
    }
}

pub proof fn lemma_arg_end(s: Seq<char>, i: int, has_equals: bool)
    requires
        0 <= i <= s.len(),
    ensures
        i <= arg_end(s, i, has_equals) <= s.len(),
    decreases s.len() - i,
{
    if i < s.len() {
        lemma_arg_end(s, i + 1, true);
        lemma_arg_end(s, i + 1, has_equals);
    }
}

/// The `:`-separated arguments from `i`: where they end and the non-empty
/// ones in order.
pub open spec fn ui_args(s: Seq<char>, i: int) -> (int, Seq<Seq<char>>)
    decreases s.len() - i,
{
    if 0 <= i < s.len() && s[i] == ':' {
        proof {
            lemma_arg_end(s, i + 1, false);
        }
        let e = arg_end(s, i + 1, false);
        let rest = ui_args(s, e);
        (rest.0, if e > i + 1 {
            seq![s.subrange(i + 1, e)] + rest.1
        } else {
            rest.1
        })
    } else {
        (i, Seq::empty())
    }
}

/// The first `/}}` (true) or `}}` (false) at or after `k`.
pub open spec fn tag_end_from(s: Seq<char>, k: int) -> Option<(int, bool)>
    decreases s.len() - k,
{
    if k < 0 || k >= s.len() {
        None
    } else if self_close_at(s, k) {
        Some((k, true))
    } else if s[k] == '}' && k + 1 < s.len() && s[k + 1] == '}' {
        Some((k, false))
    } else {
        tag_end_from(s, k + 1)
    }
}

pub proof fn lemma_tag_end_from(s: Seq<char>, k: int)
    requires
        0 <= k,
    ensures
        tag_end_from(s, k) matches Some((e, sc)) ==> k <= e && (sc ==> e + 2 < s.len()) && (!sc ==> e + 1 < s.len()),
    decreases s.len() - k,
{
    if k < s.len() {
        lemma_tag_end_from(s, k + 1);
    }
}

/// The position of the `{{/ui}}` that closes a block component whose
/// content starts at `i`, with `depth` blocks open: nested block
/// components count up, self-closing ones are skipped.
pub open spec fn ui_close(s: Seq<char>, i: int, depth: nat) -> Option<int>
    decreases s.len() - i,
{
    if i < 0 || i >= s.len() {
        None
    } else if s.len() - i > 5 && occurs_at(s, i, "{{ui:"@) && tag_end_from(s, i + 5) is Some {
        proof {
            lemma_tag_end_from(s, i + 5);
        }
        let (k, self_closing) = tag_end_from(s, i + 5).unwrap();
        if self_closing {
            ui_close(s, k + 3, depth)
        } else {
            ui_close(s, k + 2, depth + 1)
        }
    } else if occurs_at(s, i, "{{/ui}}"@) {
        proof {
            reveal_strlit("{{/ui}}");
        }
        if depth <= 1 {
            Some(i)
        } else {
            ui_close(s, i + 7, (depth - 1) as nat)
        }
    } else {
        ui_close(s, i + 1, depth)
    }
}

/// What a UI component at `start` is: `Ok(None)` when none starts there,
/// `Err(())` when a block component is never closed, else its end, name,
/// arguments and (for a block component) content.
pub open spec fn ui_at(s: Seq<char>, start: int) -> std::result::Result<
    Option<(int, Seq<char>, Seq<Seq<char>>, Option<Seq<char>>)>,
    (),
> {
    if start < 0 || start >= s.len() || s.len() - start <= 5 || !occurs_at(s, start, "{{ui:"@) {
        Ok(None)
    } else {
        let ne = scan_while(s, start + 5, |c: char| ui_name_char(c));
        let name = s.subrange(start + 5, ne);
        if (ne < s.len() && !(s[ne] == ':' || s[ne] == '/' || s[ne] == '}')) || name.len() == 0 {
            Ok(None)
        } else {
            let (f, args) = ui_args(s, ne);
            if self_close_at(s, f) {
                Ok(Some((f + 3, name, args, None)))
            } else if !(f + 1 < s.len() && s[f] == '}' && s[f + 1] == '}') {
                Ok(None)
            } else {
                match ui_close(s, f + 2, 1) {
                    None => Err(()),
                    Some(c) => Ok(Some((c + 7, name, args, Some(s.subrange(f + 2, c))))),
                }
            }
        }
    }
}

proof fn lemma_ui_close(s: Seq<char>, i: int, depth: nat)
    requires
        0 <= i,
    ensures
        ui_close(s, i, depth) matches Some(c) ==> i <= c && c + 7 <= s.len(),
    decreases s.len() - i,
{
    reveal_strlit("{{ui:");
    reveal_strlit("{{/ui}}");
    if 0 <= i < s.len() {
        if s.len() - i > 5 && occurs_at(s, i, "{{ui:"@) && tag_end_from(s, i + 5) is Some {
            lemma_tag_end_from(s, i + 5);
            let (k, sc) = tag_end_from(s, i + 5).unwrap();
            if sc {
                lemma_ui_close(s, k + 3, depth);
            } else {
                lemma_ui_close(s, k + 2, depth + 1);
            }
        } else if occurs_at(s, i, "{{/ui}}"@) {
            if depth > 1 {
                lemma_ui_close(s, i + 7, (depth - 1) as nat);
            }
        } else {
            lemma_ui_close(s, i + 1, depth);
        }
    }
}

/// The views of a list of strings.
pub open spec fn arg_views(v: Seq<String>) -> Seq<Seq<char>> {
    v.map_values(|a: String| a@)
}

/// Parses `{{ui:NAME[:ARG...]/}}` or `{{ui:NAME[:ARG...]}}CONTENT{{/ui}}`
/// (nested block components counted) at `start`.
pub fn parse_ui_at(chars: &[char], start: usize) -> (r: Result<Option<UIData>>)
    ensures
        match ui_at(chars@, start as int) {
            Err(()) => r matches Err(Error::UnclosedTag(t)) && t@ == "ui"@,
            Ok(None) => r matches Ok(None),
            Ok(Some((e, name, args, content))) => r matches Ok(Some(d)) && d.end_pos == e && d.component_name@ == name
                && arg_views(d.args@) == args && match content {
                    Some(c) => d.content matches Some(dc) && dc@ == c,
                    None => d.content is None,
                },
        },
        r matches Ok(Some(d)) ==> start < d.end_pos <= chars@.len() && occurs_at(chars@, start as int, "{{ui:"@)
            && d.component_name@.len() > 0,
{
    proof {
        reveal_strlit("{{ui:");
        reveal_strlit("{{/ui}}");
        reveal_strlit("ui");
    }
    let pre = chars_of("{{ui:");
    if start >= chars.len() || chars.len() - start <= 5 || !matches_at(chars, start, pre.as_slice()) {
        return Ok(None);
    }
    let mut i = start + 5;
    proof {
        lemma_scan_while(chars@, start + 5, |c: char| ui_name_char(c));
    }
    while i < chars.len() && (is_alphanumeric(chars[i]) || chars[i] == '-' || chars[i] == '_')
        invariant
            start + 5 <= i <= chars@.len(),
            scan_while(chars@, start + 5, |c: char| ui_name_char(c)) == scan_while(chars@, i as int, |c: char| ui_name_char(c)),
        decreases chars.len() - i,
    {
        i = i + 1;
    }
    if i < chars.len() && !(chars[i] == ':' || chars[i] == '/' || chars[i] == '}') {
        return Ok(None);
    }
    let name = slice_chars(chars, start + 5, i);
    if name.len() == 0 {
        return Ok(None);
    }
    let ne = i;
    let mut args: Vec<String> = Vec::new();
    assert(arg_views(args@) + ui_args(chars@, i as int).1 =~= ui_args(chars@, ne as int).1);
    while i < chars.len() && chars[i] == ':'
        invariant
            ne <= i <= chars@.len(),
            ui_args(chars@, ne as int).0 == ui_args(chars@, i as int).0,
            arg_views(args@) + ui_args(chars@, i as int).1 == ui_args(chars@, ne as int).1,
        decreases chars.len() - i,
    {
        i = i + 1;
        let a0 = i;
        let mut has_equals = false;
        proof {
            lemma_arg_end(chars@, a0 as int, false);
        }
        while i < chars.len()
            invariant
                a0 <= i <= chars@.len(),
                arg_end(chars@, a0 as int, false) == arg_end(chars@, i as int, has_equals),
            ensures
                i == arg_end(chars@, a0 as int, false),
            decreases chars.len() - i,
        {
            let ch = chars[i];
            if ch == '=' {
                has_equals = true;
                i = i + 1;
                continue;
            }
            if ch == ':' || ch == '}' {
                break;
            }
            if ch == '/' && (!has_equals || is_self_close_at(chars, i)) {
                break;
            }
            i = i + 1;
        }
        let ghost before = args@;
        if i > a0 {
            args.push(string_of(slice_chars(chars, a0, i).as_slice()));
        }
        proof {
            let rest = ui_args(chars@, i as int);
            if i > a0 {
                assert(arg_views(args@) =~= arg_views(before).push(chars@.subrange(a0 as int, i as int)));
                assert(arg_views(args@) + rest.1 =~= arg_views(before) + (seq![chars@.subrange(a0 as int, i as int)] + rest.1));
            } else {
                assert(arg_views(args@) =~= arg_views(before));
            }
        }
    }
    assert(arg_views(args@) + Seq::<Seq<char>>::empty() =~= arg_views(args@));
    let nm = string_of(name.as_slice());
    if is_self_close_at(chars, i) {
        return Ok(Some(UIData { end_pos: i + 3, component_name: nm, args, content: None }));
    }
    if i >= chars.len() || chars.len() - i < 2 || chars[i] != '}' || chars[i + 1] != '}' {
        return Ok(None);
    }
    let ghost f = i;
    i = i + 2;
    let content_start = i;
    let close = chars_of("{{/ui}}");
    let mut depth: usize = 1;
    proof {
        lemma_ui_close(chars@, content_start as int, 1);
    }
    while i < chars.len()
        invariant
            start < content_start <= i <= chars@.len(),
            content_start == f + 2,
            start < chars@.len(),
            chars@.len() - start > 5,
            ne == scan_while(chars@, start + 5, |c: char| ui_name_char(c)),
            nm@ == chars@.subrange(start + 5, ne as int),
            ne < chars@.len() ==> (chars@[ne as int] == ':' || chars@[ne as int] == '/' || chars@[ne as int] == '}'),
            ui_args(chars@, ne as int).0 == f,
            arg_views(args@) == ui_args(chars@, ne as int).1,
            !self_close_at(chars@, f as int),
            f + 1 < chars@.len(),
            chars@[f as int] == '}',
            chars@[f + 1] == '}',
            close@ == "{{/ui}}"@,
            pre@ == "{{ui:"@,
            occurs_at(chars@, start as int, "{{ui:"@),
            nm@.len() > 0,
            1 <= depth <= i,
            ui_close(chars@, content_start as int, 1) == ui_close(chars@, i as int, depth as nat),
        decreases chars.len() - i,
    {
        proof {
            reveal_strlit("{{/ui}}");
            reveal_strlit("{{ui:");
            lemma_ui_close(chars@, i as int, depth as nat);
        }
        if chars.len() - i > 5 && matches_at(chars, i, pre.as_slice()) {
            proof {
                lemma_tag_end_from(chars@, i + 5);
            }
            match scan_tag_end(chars, i + 5) {
                Some((k, true)) => {
                    i = k + 3;
                    continue;
                },
                Some((k, false)) => {
                    depth = depth + 1;
                    i = k + 2;
                    continue;
                },
                None => {},
            }
        }
        if matches_at(chars, i, close.as_slice()) {
            if depth == 1 {
                let content = string_of(slice_chars(chars, content_start, i).as_slice());
                assert(ui_close(chars@, i as int, depth as nat) == Some(i as int));
                return Ok(Some(UIData { end_pos: i + 7, component_name: nm, args, content: Some(content) }));
            }
            depth = depth - 1;
            i = i + 7;
            continue;
        }
        i = i + 1;
    }
    Err(Error::UnclosedTag("ui".to_owned()))
}

/// The first `/}}` (true) or `}}` (false) at or after `from`.
fn scan_tag_end(chars: &[char], from: usize) -> (r: Option<(usize, bool)>)
    ensures
        r == match tag_end_from(chars@, from as int) {
            Some((k, sc)) => Some((k as usize, sc)),
            None => None::<(usize, bool)>,
        },
        r matches Some((k, sc)) ==> from <= k && (sc ==> k + 2 < chars@.len()) && (!sc ==> k + 1 < chars@.len()),
{
    let mut k = from;
    proof {
        lemma_tag_end_from(chars@, from as int);
    }
    while k < chars.len()
        invariant
            from <= k,
            tag_end_from(chars@, from as int) == tag_end_from(chars@, k as int),
        decreases chars.len() - k,
    {
        if chars.len() - k > 2 && chars[k] == '/' && chars[k + 1] == '}' && chars[k + 2] == '}' {
            return Some((k, true));
        }
        if chars[k] == '}' && chars.len() - k > 1 && chars[k + 1] == '}' {
            return Some((k, false));
        }
        k = k + 1;
    }
    None
}

/// A parsed frame template.
#[derive(Debug)]
pub struct FrameData {
    pub end_pos: usize,
    pub frame_style: String,
    pub content: String,
}

/// The first position at or after `from` holding `}` or `{`, or the end.
pub open spec fn brace_from(s: Seq<char>, from: int) -> int
    decreases s.len() - from,
{
    if from >= s.len() {
        s.len() as int
    } else if s[from] == '}' || s[from] == '{' {
        from
    } else {
        brace_from(s, from + 1)
    }
}

proof fn lemma_brace_from(s: Seq<char>, from: int)
    requires
        0 <= from <= s.len(),
    ensures
        from <= brace_from(s, from) <= s.len(),
        brace_from(s, from) < s.len() ==> (s[brace_from(s, from)] == '}' || s[brace_from(s, from)] == '{'),
        forall|k: int| from <= k < brace_from(s, from) ==> !(#[trigger] s[k] == '}' || s[k] == '{'),
    decreases s.len() - from,
{
    if from < s.len() && !(s[from] == '}' || s[from] == '{') {
        lemma_brace_from(s, from + 1);
    }
}

/// The position just past the last `:` of `s`, or 0 when it has none.
pub open spec fn after_last_colon(s: Seq<char>) -> int
    decreases s.len(),
{
    if s.len() == 0 {
        0
    } else if s.last() == ':' {
        s.len() as int
    } else {
        after_last_colon(s.drop_last())
    }
}

/// The closer that ends a frame whose content starts at `i`, with `depth`
/// frames open: openers (`{{frame:`, `{{fr:`) count up, `{{/}}` and
/// `{{/frame}}` count down, `{{//}}` closes them all. Gives the closer's
/// position, its length, whether it is `{{//}}`, and the depth there; none
/// when the frame is never closed.
pub open spec fn frame_close(s: Seq<char>, i: int, depth: nat) -> Option<(int, int, bool, nat)>
    decreases s.len() - i,
{
    if i < 0 || i >= s.len() {
        None
    } else if occurs_at(s, i, "{{frame:"@) {
        proof {
            reveal_strlit("{{frame:");
        }
        frame_close(s, i + 8, depth + 1)
    } else if occurs_at(s, i, "{{fr:"@) {
        proof {
            reveal_strlit("{{fr:");
        }
        frame_close(s, i + 5, depth + 1)
    } else {
        let (all, len) = if occurs_at(s, i, "{{//}}"@) {
            (true, 6int)
        } else if occurs_at(s, i, "{{/}}"@) {
            (false, 5int)
        } else if occurs_at(s, i, "{{/frame}}"@) {
            (false, 10int)
        } else {
            (false, 0int)
        };
        if len > 0 && (all || depth == 1) {
            Some((i, len, all, depth))
        } else if len > 0 {
            proof {
                reveal_strlit("{{//}}");
                reveal_strlit("{{/}}");
                reveal_strlit("{{/frame}}");
            }
            frame_close(s, i + len, (depth - 1) as nat)
        } else {
            frame_close(s, i + 1, depth)
        }
    }
}

/// What a frame at `start` is: `Ok(None)` when none starts there,
/// `Err(())` when it is never closed, else its end, style and content. The
/// self-closing `{{fr:STYLE:CONTENT/}}` splits at its last `:`; with
/// `{{//}}` closing nested frames, their closers are added to the content.
pub open spec fn frame_at(s: Seq<char>, start: int) -> std::result::Result<Option<(int, Seq<char>, Seq<char>)>, ()> {
    let plen: int = if occurs_at(s, start, "{{frame:"@) {
        8
    } else if occurs_at(s, start, "{{fr:"@) {
        5
    } else {
        0
    };
    if start < 0 || start >= s.len() || s.len() - start <= 5 || plen == 0 {
        Ok(None)
    } else {
        let p = start + plen;
        let j = brace_from(s, p);
        let style = s.subrange(p, j);
        let closed = j + 1 < s.len() && s[j] == '}' && s[j + 1] == '}';
        if (j < s.len() && s[j] == '{') || style.len() == 0 {
            Ok(None)
        } else if style.last() == '/' {
            let body = style.drop_last();
            let c = after_last_colon(body);
            if !closed || c == 0 || c == 1 {
                Ok(None)
            } else {
                Ok(Some((j + 2, body.take(c - 1), body.skip(c))))
            }
        } else if !closed {
            Ok(None)
        } else {
            match frame_close(s, j + 2, 1) {
                None => Err(()),
                Some((k, len, all, d)) => Ok(Some((k + len, style, s.subrange(j + 2, k) + if all && d > 1 {
                    crate::text::repeat("{{/}}"@, (d - 1) as nat)
                } else {
                    Seq::empty()
                }))),
            }
        }
    }
}

proof fn lemma_after_last_colon(s: Seq<char>)
    ensures
        0 <= after_last_colon(s) <= s.len(),
        after_last_colon(s) > 0 ==> s[after_last_colon(s) - 1] == ':',
    decreases s.len(),
{
    if s.len() > 0 && s.last() != ':' {
        lemma_after_last_colon(s.drop_last());
        assert(s.drop_last().len() < s.len());
        if after_last_colon(s) > 0 {
            assert(s[after_last_colon(s) - 1] == s.drop_last()[after_last_colon(s) - 1]);
        }
    }
}

proof fn lemma_frame_close(s: Seq<char>, i: int, depth: nat)
    requires
        0 <= i,
        depth >= 1,
    ensures
        frame_close(s, i, depth) matches Some((k, len, all, d)) ==> i <= k && k + len <= s.len() && len > 0 && d >= 1
            && (all ==> len == 6) && (!all ==> d == 1),
    decreases s.len() - i,
{
    reveal_strlit("{{frame:");
    reveal_strlit("{{fr:");
    reveal_strlit("{{//}}");
    reveal_strlit("{{/}}");
    reveal_strlit("{{/frame}}");
    if 0 <= i < s.len() {
        if occurs_at(s, i, "{{frame:"@) {
            lemma_frame_close(s, i + 8, depth + 1);
        } else if occurs_at(s, i, "{{fr:"@) {
            lemma_frame_close(s, i + 5, depth + 1);
        } else if occurs_at(s, i, "{{//}}"@) {
        } else if occurs_at(s, i, "{{/}}"@) {
            if depth > 1 {
                lemma_frame_close(s, i + 5, (depth - 1) as nat);
            }
        } else if occurs_at(s, i, "{{/frame}}"@) {
            if depth > 1 {
                lemma_frame_close(s, i + 10, (depth - 1) as nat);
            }
        } else {
            lemma_frame_close(s, i + 1, depth);
        }
    }
}

/// Parses a frame at `start`: `{{frame:STYLE}}...{{/frame}}`, the shorthand
/// `{{fr:STYLE}}...{{/}}`, the close-all `{{//}}`, or the self-closing
/// `{{fr:STYLE:CONTENT/}}`. Nested frames are counted; when `{{//}}` closes
/// nested frames their closers are appended to the content.
pub fn parse_frame_at(chars: &[char], start: usize) -> (r: Result<Option<FrameData>>)
    ensures
        match frame_at(chars@, start as int) {
            Err(()) => r matches Err(Error::UnclosedTag(t)) && t@ == "frame"@,
            Ok(None) => r matches Ok(None),
            Ok(Some((e, st, c))) => r matches Ok(Some(d)) && d.end_pos == e && d.frame_style@ == st && d.content@ == c,
        },
        r matches Ok(Some(d)) ==> start < d.end_pos <= chars@.len() && d.frame_style@.len() > 0,
{
    proof {
        reveal_strlit("{{frame:");
        reveal_strlit("{{fr:");
        reveal_strlit("{{//}}");
        reveal_strlit("{{/}}");
        reveal_strlit("{{/frame}}");
        reveal_strlit("frame");
    }
    if start >= chars.len() || chars.len() - start <= 5 {
        return Ok(None);
    }
    let long = chars_of("{{frame:");
    let short = chars_of("{{fr:");
    let prefix_len: usize = if matches_at(chars, start, long.as_slice()) {
        8
    } else if matches_at(chars, start, short.as_slice()) {
        5
    } else {
        return Ok(None);
    };
    let p = start + prefix_len;
    let mut i = p;
    proof {
        lemma_brace_from(chars@, p as int);
    }
    while i < chars.len() && chars[i] != '}' && chars[i] != '{'
        invariant
            p <= i <= chars@.len(),
            brace_from(chars@, p as int) == brace_from(chars@, i as int),
        decreases chars.len() - i,
    {
        i = i + 1;
    }
    if i < chars.len() && chars[i] == '{' {
        return Ok(None);
    }
    let style = slice_chars(chars, p, i);
    if style.len() == 0 {
        return Ok(None);
    }
    let closed = i < chars.len() && chars.len() - i >= 2 && chars[i] == '}' && chars[i + 1] == '}';
    if style[style.len() - 1] == '/' {
        if !closed {
            return Ok(None);
        }
        let end_pos = i + 2;
        let body = slice_chars(style.as_slice(), 0, style.len() - 1);
        assert(body@ =~= style@.drop_last());
        let mut c = body.len();
        proof {
            assert(body@.take(c as int) =~= body@);
        }
        while c > 0 && body[c - 1] != ':'
            invariant
                c <= body@.len(),
                after_last_colon(body@) == after_last_colon(body@.take(c as int)),
            decreases c,
        {
            assert(body@.take(c as int).drop_last() =~= body@.take(c - 1));
            c = c - 1;
        }
        proof {
            if c > 0 {
                assert(body@.take(c as int).last() == ':');
            }
        }
        if c <= 1 {
            return Ok(None);
        }
        let actual = slice_chars(body.as_slice(), 0, c - 1);
        let content = slice_chars(body.as_slice(), c, body.len());
        assert(content@ =~= body@.skip(c as int));
        return Ok(Some(FrameData { end_pos, frame_style: string_of(actual.as_slice()), content: string_of(content.as_slice()) }));
    }
    if !closed {
        return Ok(None);
    }
    let ghost j = i;
    i = i + 2;
    let content_start = i;
    let close_all = chars_of("{{//}}");
    let close_short = chars_of("{{/}}");
    let close_long = chars_of("{{/frame}}");
    let mut depth: usize = 1;
    let fs = string_of(style.as_slice());
    proof {
        lemma_frame_close(chars@, content_start as int, 1);
    }
    while i < chars.len()
        invariant
            start < content_start <= i <= chars@.len(),
            content_start == j + 2,
            start < chars@.len(),
            chars@.len() - start > 5,
            prefix_len as int == (if occurs_at(chars@, start as int, "{{frame:"@) {
                8int
            } else if occurs_at(chars@, start as int, "{{fr:"@) {
                5int
            } else {
                0int
            }),
            prefix_len > 0,
            style@.len() > 0,
            style@.last() != '/',
            j + 1 < chars@.len(),
            chars@[j as int] == '}',
            chars@[j + 1] == '}',
            brace_from(chars@, p as int) == j as int,
            style@ == chars@.subrange(p as int, j as int),
            start + prefix_len == p,
            long@ == "{{frame:"@,
            short@ == "{{fr:"@,
            close_all@ == "{{//}}"@,
            close_short@ == "{{/}}"@,
            close_long@ == "{{/frame}}"@,
            fs@ == style@,
            fs@.len() > 0,
            1 <= depth <= i,
            frame_close(chars@, content_start as int, 1) == frame_close(chars@, i as int, depth as nat),
        decreases chars.len() - i,
    {
        proof {
            reveal_strlit("{{frame:");
            reveal_strlit("{{fr:");
            reveal_strlit("{{//}}");
            reveal_strlit("{{/}}");
            reveal_strlit("{{/frame}}");
            lemma_frame_close(chars@, i as int, depth as nat);
        }
        if matches_at(chars, i, long.as_slice()) {
            depth = depth + 1;
            i = i + 8;
            continue;
        }
        if matches_at(chars, i, short.as_slice()) {
            depth = depth + 1;
            i = i + 5;
            continue;
        }
        let (is_all, close_len): (bool, usize) = if matches_at(chars, i, close_all.as_slice()) {
            (true, 6)
        } else if matches_at(chars, i, close_short.as_slice()) {
            (false, 5)
        } else if matches_at(chars, i, close_long.as_slice()) {
            (false, 10)
        } else {
            (false, 0)
        };
        if close_len > 0 {
            if is_all || depth == 1 {
                assert(frame_close(chars@, i as int, depth as nat) == Some((i as int, close_len as int, is_all, depth as nat)));
                let mut content = slice_chars(chars, content_start, i);
                let ghost body = content@;
                if is_all && depth > 1 {
                    let closer = chars_of("{{/}}");
                    let extra = crate::text::repeat_chars(closer.as_slice(), depth - 1);
                    push_all(&mut content, extra.as_slice());
                } else {
                    assert(content@ =~= body + Seq::<char>::empty());
                }
                proof {
                    assert(frame_close(chars@, content_start as int, 1) == Some((i as int, close_len as int, is_all, depth as nat)));
                    assert(brace_from(chars@, p as int) == j as int);
                    assert(style@ == chars@.subrange(p as int, j as int));
                    assert(frame_at(chars@, start as int) == Ok::<Option<(int, Seq<char>, Seq<char>)>, ()>(Some(((i + close_len) as int, style@, content@))));
                }
                return Ok(Some(FrameData { end_pos: i + close_len, frame_style: fs, content: string_of(content.as_slice()) }));
            }
            depth = depth - 1;
            i = i + close_len;
            continue;
        }
        i = i + 1;
    }
    Err(Error::UnclosedTag("frame".to_owned()))
}


/// The assets a rendered asset contributes: itself when it is a file.
pub open spec fn asset_list(a: RenderedAsset) -> Seq<RenderedAsset> {
    if a is File {
        seq![a]
    } else {
        Seq::empty()
    }
}

/// Every asset is a file to write.
pub open spec fn files_only(a: Seq<RenderedAsset>) -> bool {
    forall|i: int| 0 <= i < a.len() ==> (#[trigger] a[i]) is File
}

/// Result of processing Markdown with file-based assets.
#[derive(Debug)]
pub struct ProcessedMarkdown {
    /// The processed Markdown.
    pub markdown: String,
    /// File-based assets to write.
    pub assets: Vec<RenderedAsset>,
}

/// How deeply templates may expand inside one another.
pub const MAX_NESTING: u64 = 64;

/// The output of a template handler: text, assets and the position after
/// the template.
pub type Expansion = Option<(Vec<char>, Vec<RenderedAsset>, usize)>;

/// The Markdown template parser.
#[derive(Debug)]
pub struct TemplateParser<R> {
    converter: Converter,
    components_renderer: ComponentsRenderer,
    shields_renderer: ShieldsRenderer,
    backend: R,
    registry: Registry,
    partials: NameMap<String>,
}

impl TemplateParser<ShieldsBackend> {
    /// A parser with the default shields.io backend.
    pub fn new() -> (r: Result<Self>)
        ensures
            r matches Ok(p) && p.is_builtin() && p.backend().shields.is_builtin(),
    {
        let backend = ShieldsBackend::new()?;
        Self::with_backend(backend)
    }
}

/// A swatch's colors and style resolve with the shields.io backend: its
/// color, its style (flat-square unless given) and, with an icon, the
/// icon's color (white unless given).
pub open spec fn swatch_resolves(p: TemplateParser<ShieldsBackend>, args: Seq<Seq<char>>) -> bool {
    let a = crate::components::without_style(args);
    let cr = p.components();
    let sh = p.backend().shields;
    let style = match crate::components::style_in(args) { Some(s) => s, None => "flat-square"@ };
    &&& crate::components::positional(a).len() > 0
    &&& sh.color_for(cr.color_of(crate::components::positional(a)[0])) is Some
    &&& sh.style_for(style) is Some
    &&& crate::components::param_in(a, "icon"@) is Some ==> sh.color_for(match crate::components::param_in(a, "icon_color"@) {
        Some(v) => cr.color_of(v),
        None => "FFFFFF"@,
    }) is Some
}

/// Parameters read from arguments are what the arguments give.
proof fn lemma_params_given(pm: NameMap<String>, a: Seq<Seq<char>>, k: Seq<char>)
    requires
        crate::components::params_of(pm, a),
    ensures
        crate::components::param(pm, k) == crate::components::param_in(a, k),
{
    if pm.has(k) {
        assert(crate::components::param_in(a, k) is Some);
    } else {
        assert(crate::components::param_in(a, k) is None);
    }
}

/// The swatch primitives a swatch component may expand to, and how the
/// shields.io backend renders each: a swatch whose colors resolve is always
/// the same badge.
proof fn lemma_swatch_outcome(p: TemplateParser<ShieldsBackend>, args: Seq<Seq<char>>, content: Option<Seq<char>>,
    out: Result<ComponentOutput>)
    requires
        p.components().components().has("swatch"@),
        p.components().components().value_of("swatch"@).component_type@ == "native"@,
        swatch_resolves(p, args),
        p.components().expand_result("swatch"@, args, content, out),
    ensures
        out matches Ok(ComponentOutput::Primitive(pr)) && pr is Swatch && swatch_view(pr) == swatch_target(p, args)
            && forall|r: crate::error::Result<RenderedAsset>| #[trigger] p.backend().rendered(pr, r)
                ==> (r matches Ok(a) && a.markdown() == swatch_badge(p, args)),
{
    let a = crate::components::without_style(args);
    let cr = p.components();
    let style = match crate::components::style_in(args) { Some(s) => s, None => "flat-square"@ };
    reveal_strlit("swatch");
    reveal_strlit("native");
    let pm = choose|pm: NameMap<String>| #[trigger] crate::components::params_of(pm, a) && cr.native_result("swatch"@,
        crate::components::positional(a), pm, style, content, out);
    lemma_params_given(pm, a, "icon"@);
    lemma_params_given(pm, a, "icon_color"@);
    lemma_params_given(pm, a, "label"@);
}

/// What matters of a swatch to the shields.io backend: its color, style,
/// icon, icon color and label.
pub open spec fn swatch_view(pr: crate::primitive::Primitive) -> (Seq<char>, Seq<char>, Option<Seq<char>>, Option<Seq<char>>, Option<Seq<char>>) {
    match pr {
        crate::primitive::Primitive::Swatch { color, style, icon, icon_color, label, .. } =>
            (color@, style@, crate::data::opt_text(icon), crate::data::opt_text(icon_color), crate::data::opt_text(label)),
        _ => (Seq::empty(), Seq::empty(), None, None, None),
    }
}

/// The swatch a swatch component with `args` describes.
pub open spec fn swatch_target(p: TemplateParser<ShieldsBackend>, args: Seq<Seq<char>>) -> (Seq<char>, Seq<char>, Option<Seq<char>>, Option<Seq<char>>, Option<Seq<char>>) {
    let a = crate::components::without_style(args);
    let cr = p.components();
    (cr.color_of(crate::components::positional(a)[0]),
        match crate::components::style_in(args) { Some(s) => s, None => "flat-square"@ },
        crate::components::param_in(a, "icon"@),
        match crate::components::param_in(a, "icon_color"@) { Some(v) => Some(cr.color_of(v)), None => None },
        crate::components::param_in(a, "label"@))
}

/// The badge the shields.io backend draws for a swatch component whose
/// colors resolve: with an icon, an icon badge; else with a label, a
/// labelled block; else a plain block.
pub open spec fn swatch_badge(p: TemplateParser<ShieldsBackend>, args: Seq<Seq<char>>) -> Seq<char> {
    let (c, st, icon, ic, label) = swatch_target(p, args);
    let s = p.backend().shields;
    match (icon, label) {
        (Some(i), _) => crate::shields::icon_md(i, s.color_for(c).unwrap(), s.color_for(match ic { Some(x) => x, None => "FFFFFF"@ }).unwrap(),
            s.style_for(st).unwrap()),
        (None, Some(l)) => crate::renderer::labeled_md(s.color_for(c).unwrap(), l, s.style_for(st).unwrap()),
        (None, None) => crate::shields::block_md(s.color_for(c).unwrap(), s.style_for(st).unwrap()),
    }
}

/// A percentage chart (progress bar, donut or gauge).
pub open spec fn percent_chart(c: Seq<char>) -> bool {
    c == "progress"@ || c == "donut"@ || c == "gauge"@
}

/// The percentage and fill color a percentage chart with `args` shows.
pub open spec fn percent_target(p: TemplateParser<ShieldsBackend>, args: Seq<Seq<char>>) -> (u8, Seq<char>) {
    let a = crate::components::without_style(args);
    let cr = p.components();
    (crate::components::handlers::percent_of(crate::components::positional(a)[0]).unwrap(),
        match crate::components::param_in(a, "fill"@) { Some(v) => cr.color_of(v), None => cr.color_of("pink"@) })
}

/// The primitives a percentage chart may expand to, and how the shields.io
/// backend renders each: always the same percentage badge.
proof fn lemma_percent_outcome(p: TemplateParser<ShieldsBackend>, c: Seq<char>, args: Seq<Seq<char>>, content: Option<Seq<char>>,
    out: Result<ComponentOutput>)
    requires
        percent_chart(c),
        p.components().components().has(c),
        p.components().components().value_of(c).component_type@ == "native"@,
        crate::components::positional(crate::components::without_style(args)).len() > 0,
        crate::components::handlers::percent_of(crate::components::positional(crate::components::without_style(args))[0]) is Some,
        p.components().expand_result(c, args, content, out),
    ensures
        out matches Ok(ComponentOutput::Primitive(pr)) && forall|r: crate::error::Result<RenderedAsset>| #[trigger] p.backend().rendered(pr, r)
            ==> (r matches Ok(a) && a.markdown() == crate::renderer::percent_md(percent_target(p, args).0, percent_target(p, args).1)),
{
    let a = crate::components::without_style(args);
    let cr = p.components();
    let style = match crate::components::style_in(args) { Some(s) => s, None => "flat-square"@ };
    reveal_strlit("swatch");
    reveal_strlit("tech");
    reveal_strlit("progress");
    reveal_strlit("donut");
    reveal_strlit("gauge");
    reveal_strlit("native");
    assert(c != "swatch"@ && c != "tech"@) by {
        assert(c[0] != "swatch"@[0] && c[0] != "tech"@[0]);
    }
    if c == "donut"@ || c == "gauge"@ {
        assert(c != "progress"@) by {
            assert(c[0] != "progress"@[0]);
        }
    }
    if c == "gauge"@ {
        assert(c != "donut"@) by {
            assert(c[0] != "donut"@[0]);
        }
    }
    let pm = choose|pm: NameMap<String>| #[trigger] crate::components::params_of(pm, a) && cr.native_result(c,
        crate::components::positional(a), pm, style, content, out);
    lemma_params_given(pm, a, "fill"@);
}

impl TemplateParser<ShieldsBackend> {
    /// With the shields.io backend, a progress bar, donut or gauge with a
    /// valid percentage never fails and never leaves processing open: it is
    /// replaced, and what replaces it is its percentage badge (the only
    /// Markdown its rendering can give).
    pub proof fn law_shields_percent_determined(self, c: Seq<char>, args: Seq<Seq<char>>, content: Option<Seq<char>>, e: int,
        fuel: nat)
        requires
            percent_chart(c),
            self.components().components().has(c),
            self.components().components().value_of(c).component_type@ == "native"@,
            crate::components::positional(crate::components::without_style(args)).len() > 0,
            crate::components::handlers::percent_of(crate::components::positional(crate::components::without_style(args))[0]) is Some,
        ensures
            self.native_full_step(c, args, content, e, fuel) matches Some(Ok(Some((_, e2)))) && e2 == e,
            forall|o: Seq<char>| self.native_md(c, args, content, o) ==> o == crate::renderer::percent_md(percent_target(self, args).0,
                percent_target(self, args).1),
    {
        assert forall|out: Result<ComponentOutput>| #[trigger] self.components().expand_result(c, args, content, out)
            implies out matches Ok(ComponentOutput::Primitive(_)) by {
            lemma_percent_outcome(self, c, args, content, out);
        }
        assert(!self.native_may_template(c, args, content));
        assert forall|t: Seq<char>| !self.native_tpl(c, args, content, t) by {
            if self.native_tpl(c, args, content, t) {
                let s = choose|s: String| #[trigger] self.components().expand_result(c, args, content,
                    Ok(ComponentOutput::Template(s))) && s@ == t;
                lemma_percent_outcome(self, c, args, content, Ok(ComponentOutput::Template(s)));
            }
        }
        assert forall|t: Seq<char>, al: Seq<char>| !self.native_row(c, args, content, t, al) by {
            if self.native_row(c, args, content, t, al) {
                let (s, x) = choose|s: String, x: String| #[trigger] self.components().expand_result(c, args, content,
                    Ok(ComponentOutput::TemplateDelayed { template: s, post_process: PostProcess::Row { align: x } })) && s@ == t
                    && x@ == al;
                lemma_percent_outcome(self, c, args, content,
                    Ok(ComponentOutput::TemplateDelayed { template: s, post_process: PostProcess::Row { align: x } }));
            }
        }
        assert(!self.native_tpl_fixed(c, args, content));
        assert(!self.native_row_fixed(c, args, content));
        assert(!self.native_may_fail(c, args, content)) by {
            if self.native_may_fail(c, args, content) {
                let out = choose|out: Result<ComponentOutput>| #[trigger] self.components().expand_result(c, args, content, out)
                    && match out {
                        Err(_) => true,
                        Ok(ComponentOutput::Primitive(pr)) => exists|er: Error| #[trigger] call_ensures(ShieldsBackend::render,
                            (&self.backend(), &pr), Err(er)),
                        _ => false,
                    };
                lemma_percent_outcome(self, c, args, content, out);
                let pr = out->Ok_0->Primitive_0;
                let er = choose|er: Error| #[trigger] call_ensures(ShieldsBackend::render, (&self.backend(), &pr), Err(er));
                assert(self.backend().rendered(pr, Err(er)));
            }
        }
        assert forall|o: Seq<char>| self.native_md(c, args, content, o) implies o == crate::renderer::percent_md(
            percent_target(self, args).0, percent_target(self, args).1) by {
            let (pr, a) = choose|pr: crate::primitive::Primitive, a: RenderedAsset|
                #[trigger] self.components().expand_result(c, args, content, Ok(ComponentOutput::Primitive(pr)))
                    && #[trigger] call_ensures(ShieldsBackend::render, (&self.backend(), &pr), Ok(a)) && o == a.markdown();
            lemma_percent_outcome(self, c, args, content, Ok(ComponentOutput::Primitive(pr)));
            assert(self.backend().rendered(pr, Ok(a)));
        }
    }

    /// With the shields.io backend, a swatch whose color, style and icon
    /// color resolve never fails and never leaves processing open: it is
    /// replaced, and what replaces it is its badge (the only Markdown its
    /// rendering can give).
    pub proof fn law_shields_swatch_determined(self, args: Seq<Seq<char>>, content: Option<Seq<char>>, e: int, fuel: nat)
        requires
            self.components().components().has("swatch"@),
            self.components().components().value_of("swatch"@).component_type@ == "native"@,
            swatch_resolves(self, args),
        ensures
            self.native_full_step("swatch"@, args, content, e, fuel) matches Some(Ok(Some((_, e2)))) && e2 == e,
            forall|o: Seq<char>| self.native_md("swatch"@, args, content, o) ==> o == swatch_badge(self, args),
    {
        let name = "swatch"@;
        assert forall|out: Result<ComponentOutput>| #[trigger] self.components().expand_result(name, args, content, out)
            implies out matches Ok(ComponentOutput::Primitive(_)) by {
            lemma_swatch_outcome(self, args, content, out);
        }
        assert(!self.native_may_template(name, args, content));
        assert forall|t: Seq<char>| !self.native_tpl(name, args, content, t) by {
            if self.native_tpl(name, args, content, t) {
                let s = choose|s: String| #[trigger] self.components().expand_result(name, args, content,
                    Ok(ComponentOutput::Template(s))) && s@ == t;
                lemma_swatch_outcome(self, args, content, Ok(ComponentOutput::Template(s)));
            }
        }
        assert forall|t: Seq<char>, al: Seq<char>| !self.native_row(name, args, content, t, al) by {
            if self.native_row(name, args, content, t, al) {
                let (s, x) = choose|s: String, x: String| #[trigger] self.components().expand_result(name, args, content,
                    Ok(ComponentOutput::TemplateDelayed { template: s, post_process: PostProcess::Row { align: x } })) && s@ == t
                    && x@ == al;
                lemma_swatch_outcome(self, args, content,
                    Ok(ComponentOutput::TemplateDelayed { template: s, post_process: PostProcess::Row { align: x } }));
            }
        }
        assert(!self.native_tpl_fixed(name, args, content));
        assert(!self.native_row_fixed(name, args, content));
        assert(!self.native_may_fail(name, args, content)) by {
            if self.native_may_fail(name, args, content) {
                let out = choose|out: Result<ComponentOutput>| #[trigger] self.components().expand_result(name, args, content, out)
                    && match out {
                        Err(_) => true,
                        Ok(ComponentOutput::Primitive(pr)) => exists|er: Error| #[trigger] call_ensures(ShieldsBackend::render,
                            (&self.backend(), &pr), Err(er)),
                        _ => false,
                    };
                lemma_swatch_outcome(self, args, content, out);
                let pr = out->Ok_0->Primitive_0;
                let er = choose|er: Error| #[trigger] call_ensures(ShieldsBackend::render, (&self.backend(), &pr), Err(er));
                assert(self.backend().rendered(pr, Err(er)));
            }
        }
        assert forall|o: Seq<char>| self.native_md(name, args, content, o) implies o == swatch_badge(self, args) by {
            let (pr, a) = choose|pr: crate::primitive::Primitive, a: RenderedAsset|
                #[trigger] self.components().expand_result(name, args, content, Ok(ComponentOutput::Primitive(pr)))
                    && #[trigger] call_ensures(ShieldsBackend::render, (&self.backend(), &pr), Ok(a)) && o == a.markdown();
            lemma_swatch_outcome(self, args, content, Ok(ComponentOutput::Primitive(pr)));
            assert(self.backend().rendered(pr, Ok(a)));
        }
    }
}

/// What a rendering gives to the text: its Markdown, or `None` for a failure.
pub open spec fn render_key(r: crate::error::Result<RenderedAsset>) -> Option<Seq<char>> {
    match r {
        Ok(a) => Some(a.markdown()),
        Err(_) => None,
    }
}

/// A component's expansion `out` leads to `k` with the shields.io backend:
/// a failure when `k` is `None`; a primitive every rendering of which gives
/// `k`.
pub open spec fn out_leads_to(p: TemplateParser<ShieldsBackend>, out: Result<ComponentOutput>, k: Option<Seq<char>>) -> bool {
    match out {
        Err(_) => k is None,
        Ok(ComponentOutput::Primitive(pr)) => forall|r: crate::error::Result<RenderedAsset>| #[trigger] p.backend().rendered(pr, r)
            ==> render_key(r) == k,
        _ => false,
    }
}

/// The badge a tech component with `args` becomes with the shields.io
/// backend: an icon badge of its name on its background and logo colors,
/// or `None` (a failure) without a name or when a color or the style does
/// not resolve.
pub open spec fn tech_key(p: TemplateParser<ShieldsBackend>, args: Seq<Seq<char>>) -> Option<Seq<char>> {
    let a = crate::components::without_style(args);
    let cr = p.components();
    let s = p.backend().shields;
    let style = match crate::components::style_in(args) { Some(x) => x, None => "flat-square"@ };
    if crate::components::positional(a).len() == 0 {
        None
    } else {
        let bg = match crate::components::param_in(a, "bg"@) { Some(v) => cr.color_of(v), None => cr.color_of("dark1"@) };
        let logo = match crate::components::param_in(a, "logo"@) { Some(v) => cr.color_of(v), None => crate::svg::logo_color_for(bg) };
        if s.color_for(bg) is Some && s.color_for(logo) is Some && s.style_for(style) is Some {
            Some(crate::shields::icon_md(crate::components::positional(a)[0], s.color_for(bg).unwrap(), s.color_for(logo).unwrap(),
                s.style_for(style).unwrap()))
        } else {
            None
        }
    }
}

/// Every expansion of a tech component leads to its `tech_key`.
proof fn lemma_tech_outcome(p: TemplateParser<ShieldsBackend>, args: Seq<Seq<char>>, content: Option<Seq<char>>,
    out: Result<ComponentOutput>)
    requires
        p.components().components().has("tech"@),
        p.components().components().value_of("tech"@).component_type@ == "native"@,
        p.components().expand_result("tech"@, args, content, out),
    ensures
        out_leads_to(p, out, tech_key(p, args)),
{
    let a = crate::components::without_style(args);
    let cr = p.components();
    let style = match crate::components::style_in(args) { Some(s) => s, None => "flat-square"@ };
    reveal_strlit("swatch");
    reveal_strlit("tech");
    reveal_strlit("native");
    assert("tech"@ != "swatch"@) by {
        assert("tech"@[0] != "swatch"@[0]);
    }
    let pm = choose|pm: NameMap<String>| #[trigger] crate::components::params_of(pm, a) && cr.native_result("tech"@,
        crate::components::positional(a), pm, style, content, out);
    lemma_params_given(pm, a, "bg"@);
    lemma_params_given(pm, a, "logo"@);
}

/// The badge components that the shields.io backend draws from their text
/// alone, or refuses: version and license badges, waveforms, sparklines and
/// ratings.
pub open spec fn text_badge(c: Seq<char>) -> bool {
    c == "version"@ || c == "license"@ || c == "waveform"@ || c == "sparkline"@ || c == "rating"@
}

/// The Markdown such a component with `args` becomes with the shields.io
/// backend, or `None` when it fails: a version badge needs a name and a
/// background; a license badge a name, a label and a background; a
/// waveform a name with at least one number (it counts them); a sparkline
/// with data and a rating always fail.
pub open spec fn text_badge_key(p: TemplateParser<ShieldsBackend>, c: Seq<char>, args: Seq<Seq<char>>) -> Option<Seq<char>> {
    let a = crate::components::without_style(args);
    let pos = crate::components::positional(a);
    let cr = p.components();
    let style = match crate::components::style_in(args) { Some(x) => x, None => "flat-square"@ };
    if pos.len() == 0 {
        None
    } else if c == "version"@ {
        match crate::components::param_in(a, "bg"@) {
            Some(v) => Some(crate::renderer::version_md(crate::renderer::version_label(pos[0],
                match crate::components::param_in(a, "prefix"@) { Some(x) => x, None => "v"@ }), cr.color_of(v), style)),
            None => None,
        }
    } else if c == "license"@ {
        match (crate::components::param_in(a, "label"@), crate::components::param_in(a, "bg"@)) {
            (Some(l), Some(v)) => Some(crate::renderer::license_md(l, cr.color_of(v), style)),
            _ => None,
        }
    } else if c == "waveform"@ {
        let n = crate::numeric::numeric_fields(crate::text::split_on(pos[0], ',')).len();
        if n == 0 {
            None
        } else {
            Some(crate::renderer::waveform_md(n, match crate::components::param_in(a, "positive"@) {
                Some(v) => cr.color_of(v),
                None => match crate::components::param_in(a, "up"@) {
                    Some(v) => cr.color_of(v),
                    None => cr.color_of("success"@),
                },
            }))
        }
    } else {
        None
    }
}

/// Every expansion of such a component leads to its `text_badge_key`.
proof fn lemma_text_badge_outcome(p: TemplateParser<ShieldsBackend>, c: Seq<char>, args: Seq<Seq<char>>,
    content: Option<Seq<char>>, out: Result<ComponentOutput>)
    requires
        text_badge(c),
        p.components().components().has(c),
        p.components().components().value_of(c).component_type@ == "native"@,
        p.components().expand_result(c, args, content, out),
    ensures
        out_leads_to(p, out, text_badge_key(p, c, args)),
{
    let a = crate::components::without_style(args);
    let cr = p.components();
    let style = match crate::components::style_in(args) { Some(s) => s, None => "flat-square"@ };
    reveal_strlit("swatch");
    reveal_strlit("tech");
    reveal_strlit("progress");
    reveal_strlit("donut");
    reveal_strlit("gauge");
    reveal_strlit("sparkline");
    reveal_strlit("rating");
    reveal_strlit("waveform");
    reveal_strlit("row");
    reveal_strlit("tech-group");
    reveal_strlit("version");
    reveal_strlit("license");
    reveal_strlit("native");
    assert("version"@ != "swatch"@) by {
        assert("version"@[0] != "swatch"@[0]);
    }
    assert("version"@ != "tech"@) by {
        assert("version"@[0] != "tech"@[0]);
    }
    assert("version"@ != "progress"@) by {
        assert("version"@[0] != "progress"@[0]);
    }
    assert("version"@ != "donut"@) by {
        assert("version"@[0] != "donut"@[0]);
    }
    assert("version"@ != "gauge"@) by {
        assert("version"@[0] != "gauge"@[0]);
    }
    assert("version"@ != "sparkline"@) by {
        assert("version"@[0] != "sparkline"@[0]);
    }
    assert("version"@ != "rating"@) by {
        assert("version"@[0] != "rating"@[0]);
    }
    assert("version"@ != "waveform"@) by {
        assert("version"@[0] != "waveform"@[0]);
    }
    assert("version"@ != "row"@) by {
        assert("version"@[0] != "row"@[0]);
    }
    assert("version"@ != "tech-group"@) by {
        assert("version"@[0] != "tech-group"@[0]);
    }
    assert("license"@ != "swatch"@) by {
        assert("license"@[0] != "swatch"@[0]);
    }
    assert("license"@ != "tech"@) by {
        assert("license"@[0] != "tech"@[0]);
    }
    assert("license"@ != "progress"@) by {
        assert("license"@[0] != "progress"@[0]);
    }
    assert("license"@ != "donut"@) by {
        assert("license"@[0] != "donut"@[0]);
    }
    assert("license"@ != "gauge"@) by {
        assert("license"@[0] != "gauge"@[0]);
    }
    assert("license"@ != "sparkline"@) by {
        assert("license"@[0] != "sparkline"@[0]);
    }
    assert("license"@ != "rating"@) by {
        assert("license"@[0] != "rating"@[0]);
    }
    assert("license"@ != "waveform"@) by {
        assert("license"@[0] != "waveform"@[0]);
    }
    assert("license"@ != "row"@) by {
        assert("license"@[0] != "row"@[0]);
    }
    assert("license"@ != "tech-group"@) by {
        assert("license"@[0] != "tech-group"@[0]);
    }
    assert("license"@ != "version"@) by {
        assert("license"@[0] != "version"@[0]);
    }
    assert("waveform"@ != "swatch"@) by {
        assert("waveform"@[0] != "swatch"@[0]);
    }
    assert("waveform"@ != "tech"@) by {
        assert("waveform"@[0] != "tech"@[0]);
    }
    assert("waveform"@ != "progress"@) by {
        assert("waveform"@[0] != "progress"@[0]);
    }
    assert("waveform"@ != "donut"@) by {
        assert("waveform"@[0] != "donut"@[0]);
    }
    assert("waveform"@ != "gauge"@) by {
        assert("waveform"@[0] != "gauge"@[0]);
    }
    assert("waveform"@ != "sparkline"@) by {
        assert("waveform"@[0] != "sparkline"@[0]);
    }
    assert("waveform"@ != "rating"@) by {
        assert("waveform"@[0] != "rating"@[0]);
    }
    assert("sparkline"@ != "swatch"@) by {
        assert("sparkline"@[1] != "swatch"@[1]);
    }
    assert("sparkline"@ != "tech"@) by {
        assert("sparkline"@[0] != "tech"@[0]);
    }
    assert("sparkline"@ != "progress"@) by {
        assert("sparkline"@[0] != "progress"@[0]);
    }
    assert("sparkline"@ != "donut"@) by {
        assert("sparkline"@[0] != "donut"@[0]);
    }
    assert("sparkline"@ != "gauge"@) by {
        assert("sparkline"@[0] != "gauge"@[0]);
    }
    assert("rating"@ != "swatch"@) by {
        assert("rating"@[0] != "swatch"@[0]);
    }
    assert("rating"@ != "tech"@) by {
        assert("rating"@[0] != "tech"@[0]);
    }
    assert("rating"@ != "progress"@) by {
        assert("rating"@[0] != "progress"@[0]);
    }
    assert("rating"@ != "donut"@) by {
        assert("rating"@[0] != "donut"@[0]);
    }
    assert("rating"@ != "gauge"@) by {
        assert("rating"@[0] != "gauge"@[0]);
    }
    assert("rating"@ != "sparkline"@) by {
        assert("rating"@[0] != "sparkline"@[0]);
    }
    let pm = choose|pm: NameMap<String>| #[trigger] crate::components::params_of(pm, a) && cr.native_result(c,
        crate::components::positional(a), pm, style, content, out);
    lemma_params_given(pm, a, "bg"@);
    lemma_params_given(pm, a, "prefix"@);
    lemma_params_given(pm, a, "label"@);
    lemma_params_given(pm, a, "positive"@);
    lemma_params_given(pm, a, "up"@);
    match out {
        Ok(ComponentOutput::Primitive(Primitive::Sparkline { values, .. })) => {
            assert(crate::numeric::string_views(values@).len() == values@.len());
        },
        Ok(ComponentOutput::Primitive(Primitive::Waveform { values, .. })) => {
            assert(crate::numeric::string_views(values@).len() == values@.len());
        },
        _ => {},
    }
}

/// The badge a swatch component with `args` becomes with the shields.io
/// backend, or `None` (a failure) when it has no color or its colors or
/// style do not resolve.
pub open spec fn swatch_key(p: TemplateParser<ShieldsBackend>, args: Seq<Seq<char>>) -> Option<Seq<char>> {
    if swatch_resolves(p, args) {
        Some(swatch_badge(p, args))
    } else {
        None
    }
}

/// Every expansion of a swatch component leads to its `swatch_key`.
proof fn lemma_swatch_leads(p: TemplateParser<ShieldsBackend>, args: Seq<Seq<char>>, content: Option<Seq<char>>,
    out: Result<ComponentOutput>)
    requires
        p.components().components().has("swatch"@),
        p.components().components().value_of("swatch"@).component_type@ == "native"@,
        p.components().expand_result("swatch"@, args, content, out),
    ensures
        out_leads_to(p, out, swatch_key(p, args)),
{
    if swatch_resolves(p, args) {
        lemma_swatch_outcome(p, args, content, out);
    } else {
        let a = crate::components::without_style(args);
        let cr = p.components();
        let style = match crate::components::style_in(args) { Some(s) => s, None => "flat-square"@ };
        reveal_strlit("swatch");
        reveal_strlit("native");
        let pm = choose|pm: NameMap<String>| #[trigger] crate::components::params_of(pm, a) && cr.native_result("swatch"@,
            crate::components::positional(a), pm, style, content, out);
        lemma_params_given(pm, a, "icon"@);
        lemma_params_given(pm, a, "icon_color"@);
        lemma_params_given(pm, a, "label"@);
    }
}

/// The badge a percentage chart with `args` becomes with the shields.io
/// backend, or `None` (a failure) without a valid percentage.
pub open spec fn percent_key(p: TemplateParser<ShieldsBackend>, args: Seq<Seq<char>>) -> Option<Seq<char>> {
    let pos = crate::components::positional(crate::components::without_style(args));
    if pos.len() > 0 && crate::components::handlers::percent_of(pos[0]) is Some {
        Some(crate::renderer::percent_md(percent_target(p, args).0, percent_target(p, args).1))
    } else {
        None
    }
}

/// Every expansion of a percentage chart leads to its `percent_key`.
proof fn lemma_percent_leads(p: TemplateParser<ShieldsBackend>, c: Seq<char>, args: Seq<Seq<char>>, content: Option<Seq<char>>,
    out: Result<ComponentOutput>)
    requires
        percent_chart(c),
        p.components().components().has(c),
        p.components().components().value_of(c).component_type@ == "native"@,
        p.components().expand_result(c, args, content, out),
    ensures
        out_leads_to(p, out, percent_key(p, args)),
{
    let a = crate::components::without_style(args);
    let pos = crate::components::positional(a);
    if pos.len() > 0 && crate::components::handlers::percent_of(pos[0]) is Some {
        lemma_percent_outcome(p, c, args, content, out);
    } else {
        let cr = p.components();
        let style = match crate::components::style_in(args) { Some(s) => s, None => "flat-square"@ };
        reveal_strlit("swatch");
        reveal_strlit("tech");
        reveal_strlit("progress");
        reveal_strlit("donut");
        reveal_strlit("gauge");
        reveal_strlit("native");
        assert(c != "swatch"@ && c != "tech"@) by {
            assert(c[0] != "swatch"@[0] && c[0] != "tech"@[0]);
        }
        if c == "donut"@ || c == "gauge"@ {
            assert(c != "progress"@) by {
                assert(c[0] != "progress"@[0]);
            }
        }
        if c == "gauge"@ {
            assert(c != "donut"@) by {
                assert(c[0] != "donut"@[0]);
            }
        }
        let pm = choose|pm: NameMap<String>| #[trigger] crate::components::params_of(pm, a) && cr.native_result(c,
            pos, pm, style, content, out);
    }
}

impl TemplateParser<ShieldsBackend> {
    /// A native component whose every expansion leads to `k` never leaves
    /// processing open, and whatever text it becomes is `k`'s.
    pub proof fn lemma_native_leads_to(self, name: Seq<char>, args: Seq<Seq<char>>, content: Option<Seq<char>>, e: int, fuel: nat,
        k: Option<Seq<char>>)
        requires
            forall|out: Result<ComponentOutput>| #[trigger] self.components().expand_result(name, args, content, out)
                ==> out_leads_to(self, out, k),
        ensures
            self.native_full_step(name, args, content, e, fuel) is Some,
            forall|o: Seq<char>| self.native_md(name, args, content, o) ==> k == Some(o),
    {
        assert(!self.native_may_template(name, args, content)) by {
            if self.native_may_template(name, args, content) {
                let out = choose|out: Result<ComponentOutput>| #[trigger] self.components().expand_result(name, args, content, out)
                    && (out matches Ok(ComponentOutput::Template(_)) || out matches Ok(ComponentOutput::TemplateDelayed { .. }));
                assert(out_leads_to(self, out, k));
            }
        }
        assert forall|t: Seq<char>| !self.native_tpl(name, args, content, t) by {
            if self.native_tpl(name, args, content, t) {
                let s = choose|s: String| #[trigger] self.components().expand_result(name, args, content,
                    Ok(ComponentOutput::Template(s))) && s@ == t;
                assert(out_leads_to(self, Ok(ComponentOutput::Template(s)), k));
            }
        }
        assert forall|t: Seq<char>, al: Seq<char>| !self.native_row(name, args, content, t, al) by {
            if self.native_row(name, args, content, t, al) {
                let (s, x) = choose|s: String, x: String| #[trigger] self.components().expand_result(name, args, content,
                    Ok(ComponentOutput::TemplateDelayed { template: s, post_process: PostProcess::Row { align: x } })) && s@ == t
                    && x@ == al;
                assert(out_leads_to(self, Ok(ComponentOutput::TemplateDelayed { template: s, post_process: PostProcess::Row { align: x } }), k));
            }
        }
        assert(!self.native_tpl_fixed(name, args, content));
        assert(!self.native_row_fixed(name, args, content));
        assert forall|o: Seq<char>| self.native_md(name, args, content, o) implies k == Some(o) by {
            let (pr, a) = choose|pr: crate::primitive::Primitive, a: RenderedAsset|
                #[trigger] self.components().expand_result(name, args, content, Ok(ComponentOutput::Primitive(pr)))
                    && #[trigger] call_ensures(ShieldsBackend::render, (&self.backend(), &pr), Ok(a)) && o == a.markdown();
            assert(out_leads_to(self, Ok(ComponentOutput::Primitive(pr)), k));
            assert(self.backend().rendered(pr, Ok(a)));
            assert(render_key(Ok(a)) == Some(o));
        }
        if k is Some {
            assert(!self.native_may_fail(name, args, content)) by {
                if self.native_may_fail(name, args, content) {
                    let out = choose|out: Result<ComponentOutput>| #[trigger] self.components().expand_result(name, args, content, out)
                        && match out {
                            Err(_) => true,
                            Ok(ComponentOutput::Primitive(pr)) => exists|er: Error| #[trigger] call_ensures(ShieldsBackend::render,
                                (&self.backend(), &pr), Err(er)),
                            _ => false,
                        };
                    assert(out_leads_to(self, out, k));
                    let pr = out->Ok_0->Primitive_0;
                    let er = choose|er: Error| #[trigger] call_ensures(ShieldsBackend::render, (&self.backend(), &pr), Err(er));
                    assert(self.backend().rendered(pr, Err(er)));
                    assert(render_key(Err(er)) == k);
                }
            }
        }
    }

    /// With the shields.io backend a tech component never leaves processing
    /// open, and the only text it can become is its icon badge (`tech_key`);
    /// without a name, or when a color or its style does not resolve, it can
    /// become none (it fails).
    pub proof fn law_shields_tech_determined(self, args: Seq<Seq<char>>, content: Option<Seq<char>>, e: int, fuel: nat)
        requires
            self.components().components().has("tech"@),
            self.components().components().value_of("tech"@).component_type@ == "native"@,
        ensures
            self.native_full_step("tech"@, args, content, e, fuel) is Some,
            forall|o: Seq<char>| self.native_md("tech"@, args, content, o) ==> tech_key(self, args) == Some(o),
    {
        assert forall|out: Result<ComponentOutput>| #[trigger] self.components().expand_result("tech"@, args, content, out)
            implies out_leads_to(self, out, tech_key(self, args)) by {
            lemma_tech_outcome(self, args, content, out);
        }
        self.lemma_native_leads_to("tech"@, args, content, e, fuel, tech_key(self, args));
    }

    /// With the shields.io backend expanding text from `i` on collects no
    /// asset: every rendering is inline Markdown.
    proof fn lemma_shields_collects_nothing(self, s: Seq<char>, i: int, fuel: nat, a: Seq<RenderedAsset>)
        requires
            self.collects(s, i, fuel, a),
        ensures
            a.len() == 0,
        decreases fuel, s.len() - i, 1int,
    {
        if 0 <= i < s.len() {
            if i + 1 < s.len() && s[i] == '{' && s[i + 1] == '{' {
                if self.step_at(s, i, fuel) == Some(Ok::<Option<(Seq<char>, int)>, Fault>(None)) && self.collects(s, i + 1, fuel, a) {
                    self.lemma_shields_collects_nothing(s, i + 1, fuel, a);
                } else {
                    let w = choose|w: (Seq<RenderedAsset>, Seq<RenderedAsset>, int)| #[trigger] chosen(w) && i < w.2 <= s.len()
                        && self.template_collects(s, i, fuel, w.0, w.2) && self.collects(s, w.2, fuel, w.1) && a == w.0 + w.1;
                    self.lemma_shields_collects_nothing(s, w.2, fuel, w.1);
                    self.lemma_shields_template_collects_nothing(s, i, fuel, w.0, w.2);
                }
            } else {
                self.lemma_shields_collects_nothing(s, i + 1, fuel, a);
            }
        }
    }

    /// With the shields.io backend a template collects no asset.
    proof fn lemma_shields_template_collects_nothing(self, s: Seq<char>, i: int, fuel: nat, a: Seq<RenderedAsset>, e: int)
        requires
            0 <= i < s.len(),
            self.template_collects(s, i, fuel, a, e),
        ensures
            a.len() == 0,
        decreases fuel, s.len() - i, 0int,
    {
        match partial_at(s, i) {
            Ok(Some((_, name, content))) if self.partials().has(name) => {
                self.lemma_shields_collects_nothing(close_all_from(crate::config::partial_expansion(self.partials().value_of(name)@,
                    content), 0, Seq::empty()), 0, (fuel - 1) as nat, a);
            },
            _ => match ui_at(s, i) {
                Ok(Some((_, name, args, content))) => {
                    let out = choose|out: Result<ComponentOutput>| #[trigger] self.components().expand_result(name, args, content, out)
                        && match out {
                            Ok(ComponentOutput::Primitive(p)) => exists|ra: RenderedAsset|
                                #[trigger] call_ensures(ShieldsBackend::render, (&self.backend(), &p), Ok(ra)) && a == asset_list(ra),
                            Ok(ComponentOutput::Template(t)) => fuel > 0 && self.collects(close_all_from(t@, 0, Seq::empty()), 0,
                                (fuel - 1) as nat, a),
                            Ok(ComponentOutput::TemplateDelayed { template, .. }) => fuel > 0 && self.collects(close_all_from(template@,
                                0, Seq::empty()), 0, (fuel - 1) as nat, a),
                            Err(_) => false,
                        };
                    match out {
                        Ok(ComponentOutput::Primitive(p)) => {
                            let ra = choose|ra: RenderedAsset| #[trigger] call_ensures(ShieldsBackend::render, (&self.backend(), &p), Ok(ra))
                                && a == asset_list(ra);
                            assert(self.backend().rendered(p, Ok(ra)));
                        },
                        Ok(ComponentOutput::Template(t)) => {
                            self.lemma_shields_collects_nothing(close_all_from(t@, 0, Seq::empty()), 0, (fuel - 1) as nat, a);
                        },
                        Ok(ComponentOutput::TemplateDelayed { template, .. }) => {
                            self.lemma_shields_collects_nothing(close_all_from(template@, 0, Seq::empty()), 0, (fuel - 1) as nat, a);
                        },
                        Err(_) => {},
                    }
                },
                _ => match frame_at(s, i) {
                    Ok(Some((_, _, c))) => {
                        self.lemma_shields_collects_nothing(close_all_from(c, 0, Seq::empty()), 0, (fuel - 1) as nat, a);
                    },
                    _ => {},
                },
            },
        }
    }

    /// The shields.io backend brings no file: whatever processing Markdown
    /// with it may collect is empty, as every badge it draws is inline
    /// Markdown.
    pub proof fn law_shields_collects_nothing(self, md: Seq<char>, a: Seq<RenderedAsset>)
        requires
            collected_as(self, md, a),
        ensures
            a.len() == 0,
    {
        self.lemma_shields_sections_nothing(sections_from(crate::text::lines(md), 0), a);
    }

    /// With the shields.io backend text sections collect no asset.
    proof fn lemma_shields_sections_nothing(self, secs: Seq<Seq<char>>, a: Seq<RenderedAsset>)
        requires
            sections_collect(self, secs, a),
        ensures
            a.len() == 0,
        decreases secs.len(),
    {
        if secs.len() > 0 {
            let w = choose|w: (Seq<RenderedAsset>, Seq<RenderedAsset>)| #[trigger] chosen(w)
                && sections_collect(self, secs.drop_last(), w.0) && line_collects(self, secs.last(), w.1) && a == w.0 + w.1;
            self.lemma_shields_sections_nothing(secs.drop_last(), w.0);
            let ps = crate::text::split_on(secs.last(), '`');
            self.lemma_shields_parts_nothing(ps, ps.len() as int, w.1);
        }
    }

    /// With the shields.io backend a line's parts collect no asset.
    proof fn lemma_shields_parts_nothing(self, ps: Seq<Seq<char>>, j: int, a: Seq<RenderedAsset>)
        requires
            parts_collect(self, ps, j, a),
        ensures
            a.len() == 0,
        decreases j,
    {
        if j > 0 {
            if (j - 1) % 2 == 1 {
                self.lemma_shields_parts_nothing(ps, j - 1, a);
            } else {
                let w = choose|w: (Seq<RenderedAsset>, Seq<RenderedAsset>)| #[trigger] chosen(w) && parts_collect(self, ps, j - 1, w.0)
                    && self.collects_text(ps[j - 1], MAX_NESTING as nat, w.1) && a == w.0 + w.1;
                self.lemma_shields_parts_nothing(ps, j - 1, w.0);
                self.lemma_shields_collects_nothing(close_all_from(ps[j - 1], 0, Seq::empty()), 0, MAX_NESTING as nat, w.1);
            }
        }
    }

    /// With the shields.io backend a swatch never leaves processing open, and
    /// the only text it can become is its badge (`swatch_key`); without a
    /// color, or when its colors or style do not resolve, it can become none
    /// (it fails).
    pub proof fn law_shields_swatch_never_open(self, args: Seq<Seq<char>>, content: Option<Seq<char>>, e: int, fuel: nat)
        requires
            self.components().components().has("swatch"@),
            self.components().components().value_of("swatch"@).component_type@ == "native"@,
        ensures
            self.native_full_step("swatch"@, args, content, e, fuel) is Some,
            forall|o: Seq<char>| self.native_md("swatch"@, args, content, o) ==> swatch_key(self, args) == Some(o),
    {
        assert forall|out: Result<ComponentOutput>| #[trigger] self.components().expand_result("swatch"@, args, content, out)
            implies out_leads_to(self, out, swatch_key(self, args)) by {
            lemma_swatch_leads(self, args, content, out);
        }
        self.lemma_native_leads_to("swatch"@, args, content, e, fuel, swatch_key(self, args));
    }

    /// With the shields.io backend a progress bar, donut or gauge never
    /// leaves processing open, and the only text it can become is its
    /// percentage badge (`percent_key`); without a valid percentage it can
    /// become none (it fails).
    pub proof fn law_shields_percent_never_open(self, c: Seq<char>, args: Seq<Seq<char>>, content: Option<Seq<char>>, e: int,
        fuel: nat)
        requires
            percent_chart(c),
            self.components().components().has(c),
            self.components().components().value_of(c).component_type@ == "native"@,
        ensures
            self.native_full_step(c, args, content, e, fuel) is Some,
            forall|o: Seq<char>| self.native_md(c, args, content, o) ==> percent_key(self, args) == Some(o),
    {
        assert forall|out: Result<ComponentOutput>| #[trigger] self.components().expand_result(c, args, content, out)
            implies out_leads_to(self, out, percent_key(self, args)) by {
            lemma_percent_leads(self, c, args, content, out);
        }
        self.lemma_native_leads_to(c, args, content, e, fuel, percent_key(self, args));
    }

    /// With the shields.io backend a version, license, waveform, sparkline
    /// or rating component never leaves processing open, and the only text
    /// it can become is its `text_badge_key`; where that is `None` it can
    /// become none (it fails).
    pub proof fn law_shields_text_badges_determined(self, c: Seq<char>, args: Seq<Seq<char>>, content: Option<Seq<char>>, e: int,
        fuel: nat)
        requires
            text_badge(c),
            self.components().components().has(c),
            self.components().components().value_of(c).component_type@ == "native"@,
        ensures
            self.native_full_step(c, args, content, e, fuel) is Some,
            forall|o: Seq<char>| self.native_md(c, args, content, o) ==> text_badge_key(self, c, args) == Some(o),
    {
        assert forall|out: Result<ComponentOutput>| #[trigger] self.components().expand_result(c, args, content, out)
            implies out_leads_to(self, out, text_badge_key(self, c, args)) by {
            lemma_text_badge_outcome(self, c, args, content, out);
        }
        self.lemma_native_leads_to(c, args, content, e, fuel, text_badge_key(self, c, args));
    }
}

fn nesting_error() -> (e: Error)
    ensures
        e is ParseError,
{
    Error::ParseError("Templates are nested too deeply".to_owned())
}


/// `item` `n` times, `join` between each two.
pub open spec fn repeat_joined(item: Seq<char>, n: nat, join: Seq<char>) -> Seq<char>
    decreases n,
{
    if n == 0 {
        Seq::empty()
    } else if n == 1 {
        item
    } else {
        repeat_joined(item, (n - 1) as nat, join) + join + item
    }
}

/// A separator given by name: the glyph of that name, else the text itself.
pub open spec fn separator_text(reg: Registry, sep: Seq<char>) -> Seq<char> {
    if reg.glyphs.has(sep) {
        reg.glyphs.value_of(sep)@
    } else {
        sep
    }
}

/// What the glyph frame `NAME[*COUNT][/pad=..][/separator=..][/spacing=..]`
/// puts around `content`: the glyph (styled as text) `COUNT` times on each
/// side, joined by the separator or spaces, with the padding inside; `Err`
/// with the glyph's name when the registry has no such glyph.
pub open spec fn glyph_framed(reg: Registry, spec: Seq<char>, content: Seq<char>) -> std::result::Result<Seq<char>, Seq<char>> {
    let ps = crate::text::split_on(spec, '/');
    let base = glyph_base(ps[0]);
    let mods = glyph_mods(ps.skip(1), (" "@, None, None));
    if !reg.glyphs.has(base.0) {
        Err(base.0)
    } else {
        let join = match mods.1 {
            Some(sep) => separator_text(reg, sep),
            None => match mods.2 {
                Some(n) => crate::text::repeat(" "@, n),
                None => Seq::empty(),
            },
        };
        let gs = repeat_joined(text_style_spec(reg.glyphs.value_of(base.0)@), base.1, join);
        Ok(gs + mods.0 + content + mods.0 + gs)
    }
}

/// The frame that a name, trimmed, designates.
pub open spec fn frame_named(reg: Registry, name: Seq<char>) -> Option<crate::registry::Frame> {
    crate::registry::lookup_alias(reg.frames, reg.frame_aliases, crate::text::trim(name))
}

/// The prefixes of the named frames, outermost first.
pub open spec fn combo_prefix(reg: Registry, names: Seq<Seq<char>>) -> Seq<char>
    decreases names.len(),
{
    if names.len() == 0 {
        Seq::empty()
    } else {
        combo_prefix(reg, names.drop_last()) + frame_named(reg, names.last()).unwrap().prefix@
    }
}

/// The suffixes of the named frames, innermost first.
pub open spec fn combo_suffix(reg: Registry, names: Seq<Seq<char>>) -> Seq<char>
    decreases names.len(),
{
    if names.len() == 0 {
        Seq::empty()
    } else {
        frame_named(reg, names.last()).unwrap().suffix@ + combo_suffix(reg, names.drop_last())
    }
}

/// Every name designates a frame.
pub open spec fn all_frames_known(reg: Registry, names: Seq<Seq<char>>) -> bool {
    forall|k: int| 0 <= k < names.len() ==> (#[trigger] frame_named(reg, names[k])) is Some
}

/// `names[k]` is the first name that designates no frame.
pub open spec fn first_unknown_frame(reg: Registry, names: Seq<Seq<char>>, k: int) -> bool {
    &&& 0 <= k < names.len()
    &&& frame_named(reg, names[k]) is None
    &&& forall|j: int| 0 <= j < k ==> (#[trigger] frame_named(reg, names[j])) is Some
}

/// The prefix and suffix of a frame with a repeat count applied: each
/// trimmed and repeated, keeping a space that faced the content.
pub open spec fn counted_chrome(f: crate::registry::Frame, count: Option<nat>) -> (Seq<char>, Seq<char>) {
    let fp = f.prefix@;
    let fs = f.suffix@;
    match count {
        Some(c) => (
            crate::text::repeat(crate::text::trim(fp), c) + (if fp.len() > 0 && fp.last() == ' ' { seq![' '] } else { Seq::empty() }),
            (if fs.len() > 0 && fs[0] == ' ' { seq![' '] } else { Seq::empty() }) + crate::text::repeat(crate::text::trim(fs), c),
        ),
        None => (fp, fs),
    }
}

/// Grapheme clusters, each styled as text, with `join` between each two.
pub open spec fn styled_clusters(gs: Seq<Seq<char>>, join: Seq<char>) -> Seq<char>
    decreases gs.len(),
{
    if gs.len() == 0 {
        Seq::empty()
    } else if gs.len() == 1 {
        text_style_spec(gs[0])
    } else {
        styled_clusters(gs.drop_last(), join) + join + text_style_spec(gs.last())
    }
}

/// Frame chrome split into its grapheme clusters, styled and joined.
pub open spec fn chrome_styled(chrome: Seq<char>, join: Seq<char>) -> Seq<char> {
    styled_clusters(grapheme_clusters(crate::text::trim(chrome)), join)
}

/// A space if the prefix ends with one.
pub open spec fn trailing_space(s: Seq<char>) -> Seq<char> {
    if s.len() > 0 && s.last() == ' ' { seq![' '] } else { Seq::empty() }
}

/// A space if the suffix starts with one.
pub open spec fn leading_space(s: Seq<char>) -> Seq<char> {
    if s.len() > 0 && s[0] == ' ' { seq![' '] } else { Seq::empty() }
}

/// What the frame `STYLE[*N][/separator=V][/spacing=N][/reverse]` puts
/// around `content`; `Err` with the style's name when no frame has it.
pub open spec fn standard_framed(reg: Registry, style: Seq<char>, content: Seq<char>) -> std::result::Result<Seq<char>, Seq<char>> {
    let ps = crate::text::split_on(style, '/');
    let base = frame_base(ps[0]);
    let mods = frame_mods(ps.skip(1), (None, None, false));
    match crate::registry::lookup_alias(reg.frames, reg.frame_aliases, base.0) {
        None => Err(base.0),
        Some(f) => {
            let c = counted_chrome(f, base.1);
            let prefix = if mods.2 { c.1 } else { c.0 };
            let suffix = if mods.2 { c.0 } else { c.1 };
            if mods.0 is Some || mods.1 is Some {
                let join = match mods.0 {
                    Some(sep) => separator_text(reg, sep),
                    None => crate::text::repeat(" "@, mods.1.unwrap()),
                };
                Ok(chrome_styled(prefix, join) + trailing_space(prefix) + content + leading_space(suffix)
                    + chrome_styled(suffix, join))
            } else {
                Ok(text_style_spec(prefix) + content + text_style_spec(suffix))
            }
        },
    }
}



/// What a frame style puts around processed content: a `glyph:` frame, a
/// `+` combination, or a standard frame; `None` when a name is unknown.
pub open spec fn frame_text(reg: Registry, style: Seq<char>, content: Seq<char>) -> Option<Seq<char>> {
    if occurs_at(style, 0, "glyph:"@) {
        match glyph_framed(reg, style.subrange(6, style.len() as int), content) {
            Ok(o) => Some(o),
            Err(_) => None,
        }
    } else if exists|i: int| 0 <= i < style.len() && style[i] == '+' {
        let ns = crate::text::split_on(style, '+');
        if all_frames_known(reg, ns) {
            Some(text_style_spec(combo_prefix(reg, ns)) + content + text_style_spec(combo_suffix(reg, ns)))
        } else {
            None
        }
    } else {
        match standard_framed(reg, style, content) {
            Ok(o) => Some(o),
            Err(_) => None,
        }
    }
}


/// What a style template gives for its content: each character in the
/// style's form, with the separator once, or `spacing` spaces, between
/// characters; `None` when the converter has no such style.
pub open spec fn style_text(conv: Converter, style: Seq<char>, spacing: nat, sep: Option<Seq<char>>, content: Seq<char>) -> Option<Seq<char>> {
    match conv.style_for(style) {
        None => None,
        Some(st) => Some(match sep {
            Some(x) => crate::converter::styled(st.mappings@, content, x, 1),
            None => if spacing > 0 {
                crate::converter::styled(st.mappings@, content, seq![' '], spacing)
            } else {
                crate::converter::styled(st.mappings@, content, Seq::empty(), 0)
            },
        }),
    }
}


/// The kept pairs give key `k`.
pub open spec fn pair_has(ps: Seq<(Seq<char>, Seq<char>)>, k: Seq<char>) -> bool {
    exists|j: int| 0 <= j < ps.len() && kept_pair(#[trigger] ps[j]) && ps[j].0 == k
}

/// The parameters that the kept pairs give, a repeated key with its last
/// value.
pub open spec fn pairs_map(ps: Seq<(Seq<char>, Seq<char>)>) -> Map<Seq<char>, Seq<char>> {
    Map::new(|k: Seq<char>| pair_has(ps, k), |k: Seq<char>| last_value(ps, k))
}

/// The parameters held in a name map.
pub open spec fn params_map(m: NameMap<String>) -> Map<Seq<char>, Seq<char>> {
    Map::new(|k: Seq<char>| m.has(k), |k: Seq<char>| m.value_of(k)@)
}

/// The shield types that `{{shields:...}}` knows.
pub open spec fn known_shield_type(ty: Seq<char>) -> bool {
    ty == "block"@ || ty == "twotone"@ || ty == "bar"@ || ty == "icon"@
}

/// What a shield template gives for its type and parameters: a block, a two-tone block, a bar of blocks (joined by
/// the separator, a glyph name or the text itself) or a logo badge; `None`
/// when a parameter is missing, a color or style does not resolve, or the
/// type is unknown.
pub open spec fn shield_text(sr: ShieldsRenderer, reg: Registry, ty: Seq<char>, params: Map<Seq<char>, Seq<char>>) -> Option<Seq<char>> {
    if ty == "block"@ {
        let c = sr.color_for(params["color"@]);
        let st = sr.style_for(params["style"@]);
        if params.dom().contains("color"@) && params.dom().contains("style"@) && c is Some && st is Some {
            Some(crate::shields::block_md(c.unwrap(), st.unwrap()))
        } else {
            None
        }
    } else if ty == "twotone"@ {
        let l = sr.color_for(params["left"@]);
        let rc = sr.color_for(params["right"@]);
        let st = sr.style_for(params["style"@]);
        if params.dom().contains("left"@) && params.dom().contains("right"@) && params.dom().contains("style"@) && l is Some && rc is Some && st is Some {
            Some(crate::shields::twotone_md(l.unwrap(), rc.unwrap(), st.unwrap()))
        } else {
            None
        }
    } else if ty == "bar"@ {
        let cs = crate::text::split_on(params["colors"@], ',');
        let st = sr.style_for(params["style"@]);
        let sep = if params.dom().contains("separator"@) { separator_text(reg, params["separator"@]) } else { Seq::empty() };
        if params.dom().contains("colors"@) && params.dom().contains("style"@) && st is Some && (forall|i: int| 0 <= i < cs.len() ==> (#[trigger] sr.color_for(cs[i])) is Some) {
            Some(join(cs.map_values(|c: Seq<char>| crate::shields::block_md(sr.color_for(c).unwrap(), st.unwrap())), sep))
        } else {
            None
        }
    } else if ty == "icon"@ {
        let bg = sr.color_for(params["bg"@]);
        let lc = sr.color_for(params["logoColor"@]);
        let st = sr.style_for(params["style"@]);
        if params.dom().contains("logo"@) && params.dom().contains("bg"@) && params.dom().contains("logoColor"@) && params.dom().contains("style"@) && bg is Some && lc is Some && st is Some {
            Some(crate::shields::icon_md(params["logo"@], bg.unwrap(), lc.unwrap(), st.unwrap()))
        } else {
            None
        }
    } else {
        None
    }
}


/// A frame's prefix and suffix with the repeat count applied.
fn counted_frame_chrome(frame: &crate::registry::Frame, count: Option<usize>) -> (r: (Vec<char>, Vec<char>))
    ensures
        (r.0@, r.1@) == counted_chrome(*frame, match count { Some(n) => Some(n as nat), None => None }),
{
    let fp = chars_of(frame.prefix.as_str());
    let fsx = chars_of(frame.suffix.as_str());
    match count {
        Some(count) => {
            let tp = crate::text::trim_chars(fp.as_slice());
            let ts = crate::text::trim_chars(fsx.as_slice());
            let mut p = crate::text::repeat_chars(tp.as_slice(), count);
            if fp.len() > 0 && fp[fp.len() - 1] == ' ' {
                p.push(' ');
            }
            let mut s: Vec<char> = Vec::new();
            if fsx.len() > 0 && fsx[0] == ' ' {
                s.push(' ');
            }
            let rs = crate::text::repeat_chars(ts.as_slice(), count);
            push_all(&mut s, rs.as_slice());
            proof {
                let c = counted_chrome(*frame, Some(count as nat));
                assert(p@ =~= c.0);
                assert(s@ =~= c.1);
            }
            (p, s)
        },
        None => (fp, fsx),
    }
}

impl<R: Renderer> TemplateParser<R> {
    /// The user-defined partials.
    pub closed spec fn partials(self) -> NameMap<String> {
        self.partials
    }

    /// The palette used by UI components.
    pub closed spec fn components(self) -> ComponentsRenderer {
        self.components_renderer
    }

    /// The text style converter.
    pub closed spec fn converter(self) -> Converter {
        self.converter
    }

    /// The shields.io renderer used by shield templates.
    pub closed spec fn shields(self) -> ShieldsRenderer {
        self.shields_renderer
    }

    /// The registry of glyphs, frames and styles.
    pub closed spec fn registry(self) -> Registry {
        self.registry
    }

    /// The rendering backend.
    pub closed spec fn backend(self) -> R {
        self.backend
    }

    /// The parser holds the built-in styles, components (with their
    /// definitions), palette, shield styles and registry, and no partials.
    pub open spec fn is_builtin(self) -> bool {
        &&& self.converter().is_builtin()
        &&& self.components().is_builtin()
        &&& self.components().holds_builtin_defs()
        &&& self.shields().is_builtin()
        &&& self.registry().is_builtin()
        &&& self.partials().names().len() == 0
    }

    /// A parser with the given rendering backend.
    pub fn with_backend(backend: R) -> (r: Result<Self>)
        ensures
            r matches Ok(p) && p.is_builtin() && p.backend() == backend,
    {
        let converter = Converter::new()?;
        let components_renderer = ComponentsRenderer::new()?;
        let shields_renderer = ShieldsRenderer::new()?;
        let registry = Registry::new()?;
        Ok(TemplateParser { converter, components_renderer, shields_renderer, backend, registry, partials: NameMap::new() })
    }

    /// Adds (or replaces) a partial template.
    pub fn add_partial(&mut self, name: &str, template: &str)
        ensures
            final(self).partials().has(name@),
            final(self).partials().value_of(name@)@ == template@,
            forall|k: Seq<char>| k != name@ ==> #[trigger] final(self).partials().has(k) == old(self).partials().has(k),
            forall|k: Seq<char>| k != name@ && old(self).partials().has(k) ==> #[trigger] final(self).partials().value_of(k)
                == old(self).partials().value_of(k),
    {
        self.partials.insert(name.to_owned(), template.to_owned());
    }

    /// Whether a partial exists.
    pub fn has_partial(&self, name: &str) -> (b: bool)
        ensures
            b == self.partials().has(name@),
    {
        self.partials.contains_key(name)
    }

    /// Adds custom palette colors for UI components (replacing built-in ones
    /// of the same name).
    pub fn extend_palette(&mut self, custom_palette: NameMap<String>)
        ensures
            forall|k: Seq<char>| #[trigger] final(self).components().palette().has(k) == (old(self).components().palette().has(k)
                || custom_palette.has(k)),
            forall|k: Seq<char>| custom_palette.has(k) ==> #[trigger] final(self).components().palette().value_of(k)
                == custom_palette.value_of(k),
            final(self).partials() == old(self).partials(),
    {
        self.components_renderer.extend_palette(custom_palette);
    }

    /// Loads partials and palette colors from a configuration.
    pub fn load_config(&mut self, config: &crate::config::MdfxConfig)
        ensures
            forall|k: Seq<char>| #[trigger] final(self).partials().has(k) == (old(self).partials().has(k) || config.partials.has(k)),
            forall|k: Seq<char>| config.partials.has(k) ==> #[trigger] final(self).partials().value_of(k)@
                == config.partials.value_of(k).template@,
            forall|k: Seq<char>| !config.partials.has(k) && old(self).partials().has(k) ==> #[trigger] final(self).partials().value_of(k)
                == old(self).partials().value_of(k),
            forall|k: Seq<char>| #[trigger] final(self).components().palette().has(k) == (old(self).components().palette().has(k)
                || config.palette.has(k)),
            forall|k: Seq<char>| config.palette.has(k) ==> #[trigger] final(self).components().palette().value_of(k)@
                == config.palette.value_of(k)@,
            forall|k: Seq<char>| !config.palette.has(k) && old(self).components().palette().has(k) ==> #[trigger] final(
                self).components().palette().value_of(k) == old(self).components().palette().value_of(k),
            final(self).components().components() == old(self).components().components(),
    {
        let n = config.partials.len();
        let mut i: usize = 0;
        while i < n
            invariant
                i <= n,
                n == config.partials.names().len(),
                n == config.partials.values().len(),
                crate::namemap::sorted_names(config.partials.names()),
                forall|k: Seq<char>| #[trigger] self.partials.has(k) == (old(self).partials.has(k)
                    || config.partials.names().take(i as int).contains(k)),
                forall|k: Seq<char>| config.partials.names().take(i as int).contains(k) ==> #[trigger] self.partials.value_of(k)@
                    == config.partials.value_of(k).template@,
                forall|k: Seq<char>| !config.partials.names().take(i as int).contains(k) && old(self).partials.has(k)
                    ==> #[trigger] self.partials.value_of(k) == old(self).partials.value_of(k),
                self.components_renderer == old(self).components_renderer,
            decreases n - i,
        {
            let k = config.partials.name_at(i).clone();
            let t = config.partials.value_at(i).template.clone();
            let ghost kv = k@;
            let ghost pre = config.partials.names().take(i as int);
            proof {
                crate::namemap::lemma_sorted_index(config.partials.names(), i as int);
                assert(config.partials.names().take(i + 1) =~= pre.push(kv));
            }
            self.partials.insert(k, t);
            proof {
                assert forall|q: Seq<char>| #[trigger] self.partials.has(q) == (old(self).partials.has(q) || pre.push(kv).contains(q)) by {
                    crate::components::lemma_push_contains(pre, kv, q);
                }
                assert forall|q: Seq<char>| pre.push(kv).contains(q) implies #[trigger] self.partials.value_of(q)@
                    == config.partials.value_of(q).template@ by {
                    crate::components::lemma_push_contains(pre, kv, q);
                }
                assert forall|q: Seq<char>| !pre.push(kv).contains(q) && old(self).partials.has(q)
                    implies #[trigger] self.partials.value_of(q) == old(self).partials.value_of(q) by {
                    crate::components::lemma_push_contains(pre, kv, q);
                }
            }
            i = i + 1;
        }
        proof {
            assert(config.partials.names().take(n as int) =~= config.partials.names());
        }
        let m = config.palette.len();
        let mut custom: NameMap<String> = NameMap::new();
        let mut j: usize = 0;
        while j < m
            invariant
                j <= m,
                m == config.palette.names().len(),
                m == config.palette.values().len(),
                crate::namemap::sorted_names(config.palette.names()),
                forall|k: Seq<char>| #[trigger] custom.has(k) == config.palette.names().take(j as int).contains(k),
                forall|k: Seq<char>| #[trigger] custom.has(k) ==> custom.value_of(k)@ == config.palette.value_of(k)@,
            decreases m - j,
        {
            let ghost pre = config.palette.names().take(j as int);
            let k = config.palette.name_at(j).clone();
            let ghost kv = k@;
            proof {
                assert(config.palette.names().take(j + 1) =~= pre.push(kv));
            }
            let v = config.palette.value_at(j).clone();
            custom.insert(k, v);
            proof {
                assert forall|q: Seq<char>| #[trigger] custom.has(q) == pre.push(kv).contains(q) by {
                    crate::components::lemma_push_contains(pre, kv, q);
                }
            }
            j = j + 1;
        }
        proof {
            assert(config.palette.names().take(m as int) =~= config.palette.names());
        }
        self.components_renderer.extend_palette(custom);
    }

    /// Applies a glyph frame `NAME[*COUNT][/pad=..][/separator=..][/spacing=..]`.
    fn apply_glyph_frame(&self, spec: &[char], content: &[char]) -> (r: Result<Vec<char>>)
        ensures
            match glyph_framed(self.registry, spec@, content@) {
                Ok(o) => r matches Ok(v) && v@ == o,
                Err(n) => r matches Err(Error::UnknownGlyph(m)) && m@ == n,
            },
    {
        let g = parse_glyph_frame_spec(spec);
        let name = string_of(g.name.as_slice());
        let raw = match self.registry.glyph(name.as_str()) {
            Some(x) => x,
            None => {
                return Err(Error::UnknownGlyph(name));
            },
        };
        let rc = chars_of(raw);
        let glyph = text_style(rc.as_slice());
        let mut glyphs: Vec<char> = Vec::new();
        let join: Option<Vec<char>> = match g.separator {
            Some(sep) => {
                let sep_s = string_of(sep.as_slice());
                match self.registry.separator(sep_s.as_str()) {
                    Some(v) => Some(chars_of(v)),
                    None => Some(sep),
                }
            },
            None => match g.spacing {
                Some(n) => {
                    let sp = chars_of(" ");
                    Some(crate::text::repeat_chars(sp.as_slice(), n))
                },
                None => None,
            },
        };
        let ghost jv: Seq<char> = match &join {
            Some(j) => j@,
            None => Seq::empty(),
        };
        let mut k: usize = 0;
        while k < g.count
            invariant
                k <= g.count,
                glyphs@ == repeat_joined(glyph@, k as nat, jv),
                jv == match join {
                    Some(j) => j@,
                    None => Seq::<char>::empty(),
                },
            decreases g.count - k,
        {
            let ghost before = glyphs@;
            if k > 0 {
                if let Some(j) = &join {
                    push_all(&mut glyphs, j.as_slice());
                }
            }
            push_all(&mut glyphs, glyph.as_slice());
            proof {
                if k > 0 {
                    assert(before + jv + glyph@ =~= glyphs@);
                } else {
                    assert(glyphs@ =~= glyph@);
                }
            }
            k = k + 1;
        }
        let mut out: Vec<char> = Vec::new();
        push_all(&mut out, glyphs.as_slice());
        push_all(&mut out, g.pad.as_slice());
        push_all(&mut out, content);
        push_all(&mut out, g.pad.as_slice());
        push_all(&mut out, glyphs.as_slice());
        proof {
            assert(out@ =~= glyphs@ + g.pad@ + content@ + g.pad@ + glyphs@);
        }
        Ok(out)
    }

    /// Applies a combination of frames `A+B+...`: prefixes outer to inner,
    /// suffixes inner to outer.
    fn apply_combo_frame(&self, style: &[char], content: &[char]) -> (r: Result<Vec<char>>)
        ensures
            ({
                let ns = crate::text::split_on(style@, '+');
                &&& all_frames_known(self.registry, ns) ==> (r matches Ok(v) && v@ == text_style_spec(combo_prefix(self.registry, ns))
                    + content@ + text_style_spec(combo_suffix(self.registry, ns)))
                &&& !all_frames_known(self.registry, ns) ==> (r matches Err(Error::UnknownFrame(n))
                    && exists|k: int| #[trigger] first_unknown_frame(self.registry, ns, k) && n@ == ns[k])
            }),
    {
        let names = crate::text::split_chars(style, '+');
        let ghost ns = crate::text::split_on(style@, '+');
        let mut prefix: Vec<char> = Vec::new();
        let mut i: usize = 0;
        while i < names.len()
            invariant
                i <= names@.len(),
                ns == crate::text::split_on(style@, '+'),
                names@.len() == ns.len(),
                forall|k: int| 0 <= k < names@.len() ==> #[trigger] names@[k]@ == ns[k],
                forall|k: int| 0 <= k < i ==> (#[trigger] frame_named(self.registry, ns[k])) is Some,
                prefix@ == combo_prefix(self.registry, ns.take(i as int)),
            decreases names.len() - i,
        {
            let t = crate::text::trim_chars(names[i].as_slice());
            let tn = string_of(t.as_slice());
            match self.registry.frame(tn.as_str()) {
                Some(f) => {
                    push_str_chars(&mut prefix, f.prefix.as_str());
                    proof {
                        assert(ns.take(i + 1).drop_last() =~= ns.take(i as int));
                    }
                },
                None => {
                    let n = string_of(names[i].as_slice());
                    proof {
                        assert(first_unknown_frame(self.registry, ns, i as int));
                        assert(n@ == ns[i as int]);
                        assert(!all_frames_known(self.registry, ns));
                        assert(exists|k: int| #[trigger] first_unknown_frame(self.registry, ns, k) && n@ == ns[k]);
                    }
                    return Err(Error::UnknownFrame(n));
                },
            }
            i = i + 1;
        }
        proof {
            assert(ns.take(ns.len() as int) =~= ns);
        }
        let mut suffix: Vec<char> = Vec::new();
        let mut j = names.len();
        while j > 0
            invariant
                j <= names@.len(),
                ns == crate::text::split_on(style@, '+'),
                names@.len() == ns.len(),
                forall|k: int| 0 <= k < names@.len() ==> #[trigger] names@[k]@ == ns[k],
                all_frames_known(self.registry, ns),
                suffix@ + combo_suffix(self.registry, ns.take(j as int)) == combo_suffix(self.registry, ns),
            decreases j,
        {
            j = j - 1;
            let t = crate::text::trim_chars(names[j].as_slice());
            let tn = string_of(t.as_slice());
            assert(frame_named(self.registry, ns[j as int]) is Some);
            match self.registry.frame(tn.as_str()) {
                Some(f) => {
                    let ghost before = suffix@;
                    push_str_chars(&mut suffix, f.suffix.as_str());
                    proof {
                        assert(ns.take(j + 1).drop_last() =~= ns.take(j as int));
                        assert(ns.take(j + 1).last() == ns[j as int]);
                        assert(suffix@ + combo_suffix(self.registry, ns.take(j as int))
                            =~= before + combo_suffix(self.registry, ns.take(j + 1)));
                    }
                },
                None => {
                    return Err(Error::UnknownFrame(string_of(names[j].as_slice())));
                },
            }
        }
        proof {
            assert(ns.take(0) =~= Seq::<Seq<char>>::empty());
            assert(suffix@ + Seq::<char>::empty() =~= suffix@);
        }
        let mut out = text_style(prefix.as_slice());
        push_all(&mut out, content);
        let s = text_style(suffix.as_slice());
        push_all(&mut out, s.as_slice());
        Ok(out)
    }

    /// Applies a frame with modifiers (count, reverse, separator, spacing).
    fn apply_standard_frame(&self, style: &[char], content: &[char]) -> (r: Result<Vec<char>>)
        ensures
            match standard_framed(self.registry, style@, content@) {
                Ok(o) => r matches Ok(v) && v@ == o,
                Err(n) => r matches Err(Error::UnknownFrame(m)) && m@ == n,
            },
    {
        let mods = parse_frame_modifiers(style);
        let name = string_of(mods.style.as_slice());
        let frame = match self.registry.frame(name.as_str()) {
            Some(f) => f,
            None => {
                return Err(Error::UnknownFrame(name));
            },
        };
        let (p, q) = counted_frame_chrome(frame, mods.count);
        let (prefix, suffix) = if mods.reverse { (q, p) } else { (p, q) };
        if mods.separator.is_some() || mods.spacing.is_some() {
            let join = self.frame_join(&mods.separator, mods.spacing);
            let out = self.joined_chrome_around(prefix.as_slice(), suffix.as_slice(), join.as_slice(), content);
            Ok(out)
        } else {
            let mut out = text_style(prefix.as_slice());
            push_all(&mut out, content);
            let s = text_style(suffix.as_slice());
            push_all(&mut out, s.as_slice());
            Ok(out)
        }
    }

    /// The text between frame glyphs: a named glyph, else the separator
    /// itself; else `spacing` spaces.
    fn frame_join(&self, separator: &Option<Vec<char>>, spacing: Option<usize>) -> (r: Vec<char>)
        requires
            separator is Some || spacing is Some,
        ensures
            r@ == match separator {
                Some(sep) => separator_text(self.registry, sep@),
                None => crate::text::repeat(" "@, spacing.unwrap() as nat),
            },
    {
        match separator {
            Some(sep) => {
                let sep_s = string_of(sep.as_slice());
                match self.registry.separator(sep_s.as_str()) {
                    Some(v) => chars_of(v),
                    None => copy_chars(sep.as_slice()),
                }
            },
            None => {
                let n = match spacing { Some(n) => n, None => 0 };
                let sp = chars_of(" ");
                crate::text::repeat_chars(sp.as_slice(), n)
            },
        }
    }

    /// Prefix and suffix split into styled clusters joined by `join`
    /// around the content, keeping the spaces that face it.
    fn joined_chrome_around(&self, prefix: &[char], suffix: &[char], join: &[char], content: &[char]) -> (r: Vec<char>)
        ensures
            r@ == chrome_styled(prefix@, join@) + trailing_space(prefix@) + content@ + leading_space(suffix@)
                + chrome_styled(suffix@, join@),
    {
        let pw = self.styled_graphemes(prefix, join);
        let sw = self.styled_graphemes(suffix, join);
        let mut out: Vec<char> = Vec::new();
        push_all(&mut out, pw.as_slice());
        if prefix.len() > 0 && prefix[prefix.len() - 1] == ' ' {
            out.push(' ');
        }
        push_all(&mut out, content);
        if suffix.len() > 0 && suffix[0] == ' ' {
            out.push(' ');
        }
        push_all(&mut out, sw.as_slice());
        proof {
            assert(out@ =~= pw@ + trailing_space(prefix@) + content@ + leading_space(suffix@) + sw@);
        }
        out
    }

    /// The trimmed chrome split into grapheme clusters, each styled as
    /// text, joined by `join`.
    fn styled_graphemes(&self, chrome: &[char], join: &[char]) -> (r: Vec<char>)
        ensures
            r@ == chrome_styled(chrome@, join@),
    {
        let t = crate::text::trim_chars(chrome);
        let ts = string_of(t.as_slice());
        let gs = crate::text::graphemes(ts.as_str());
        let ghost g = grapheme_clusters(crate::text::trim(chrome@));
        let mut out: Vec<char> = Vec::new();
        let mut i: usize = 0;
        while i < gs.len()
            invariant
                i <= gs@.len(),
                g == grapheme_clusters(crate::text::trim(chrome@)),
                gs@.len() == g.len(),
                forall|k: int| 0 <= k < gs@.len() ==> #[trigger] gs@[k]@ == g[k],
                out@ == styled_clusters(g.take(i as int), join@),
            decreases gs.len() - i,
        {
            let ghost before = out@;
            if i > 0 {
                push_all(&mut out, join);
            }
            let gc = chars_of(gs[i].as_str());
            let st = text_style(gc.as_slice());
            push_all(&mut out, st.as_slice());
            proof {
                assert(g.take(i + 1).drop_last() =~= g.take(i as int));
                assert(g.take(i + 1).last() == g[i as int]);
                if i > 0 {
                    assert(out@ =~= before + join@ + text_style_spec(g[i as int]));
                } else {
                    assert(out@ =~= text_style_spec(g[i as int]));
                    assert(g.take(1)[0] == g[0]);
                }
            }
            i = i + 1;
        }
        proof {
            assert(g.take(g.len() as int) =~= g);
        }
        out
    }
}



/// Why expanding text fails: a tag that is never closed (its name), or
/// another failure.
pub enum Fault {
    Unclosed(Seq<char>),
    Other,
}

/// The error `e` is the one a fault stands for: an unclosed tag's error
/// names the tag; any error stands for another failure.
pub open spec fn fault_matches(e: Error, f: Fault) -> bool {
    match f {
        Fault::Unclosed(t) => e matches Error::UnclosedTag(n) && n@ == t,
        Fault::Other => true,
    }
}

/// What expanding text gives: `Some(Ok(text))`, `Some(Err(fault))` when
/// processing fails, `None` when it depends on a native component whose
/// rendering is not determined.
pub type Expanded = Option<std::result::Result<Seq<char>, Fault>>;

/// What the handlers do at a position: `Some(Ok(None))` when no template
/// starts there, `Some(Ok(Some((out, end))))` for a template's expansion,
/// `Some(Err(fault))` when a handler fails, `None` when a native component
/// leaves it open.
pub type Step = Option<std::result::Result<Option<(Seq<char>, int)>, Fault>>;

/// A nested text's expansion as the outcome of a template ending at `e`.
pub open spec fn nested_step(x: Expanded, e: int) -> Step {
    match x {
        None => None,
        Some(Err(f)) => Some(Err(f)),
        Some(Ok(o)) => Some(Ok(Some((o, e)))),
    }
}

/// One position of the expansion: `rest` is the expansion from the
/// next position, `here` what starts at this one.
pub open spec fn combine_expanded(here: Expanded, rest: Expanded) -> Expanded {
    match here {
        None => None,
        Some(Err(f)) => Some(Err(f)),
        Some(Ok(h)) => match rest {
            None => None,
            Some(Err(f)) => Some(Err(f)),
            Some(Ok(t)) => Some(Ok(h + t)),
        },
    }
}

impl<R: Renderer> TemplateParser<R> {
    /// The text `t` with `{{//}}` closed and its templates expanded, with
    /// `fuel` levels of nesting left.
    pub open spec fn expanded_text(self, t: Seq<char>, fuel: nat) -> Expanded {
        self.expanded(close_all_from(t, 0, Seq::empty()), 0, fuel)
    }

    /// A text a native component may become: the Markdown of an asset the
    /// backend may return for a primitive its expansion may give.
    pub open spec fn native_md(self, name: Seq<char>, args: Seq<Seq<char>>, content: Option<Seq<char>>, o: Seq<char>) -> bool {
        exists|p: Primitive, a: RenderedAsset|
            #[trigger] self.components().expand_result(name, args, content, Ok(ComponentOutput::Primitive(p)))
                && #[trigger] call_ensures(R::render, (&self.backend(), &p), Ok(a)) && o == a.markdown()
    }

    /// A native component may fail: its expansion, or the backend's rendering
    /// of the primitive, may give an error.
    pub open spec fn native_may_fail(self, name: Seq<char>, args: Seq<Seq<char>>, content: Option<Seq<char>>) -> bool {
        exists|out: Result<ComponentOutput>| #[trigger] self.components().expand_result(name, args, content, out) && match out {
            Err(_) => true,
            Ok(ComponentOutput::Primitive(p)) => exists|e: Error| #[trigger] call_ensures(R::render, (&self.backend(), &p), Err(e)),
            _ => false,
        }
    }

    /// A native component may expand to a template (a row or a tech group).
    pub open spec fn native_may_template(self, name: Seq<char>, args: Seq<Seq<char>>, content: Option<Seq<char>>) -> bool {
        exists|out: Result<ComponentOutput>| #[trigger] self.components().expand_result(name, args, content, out)
            && (out matches Ok(ComponentOutput::Template(_)) || out matches Ok(ComponentOutput::TemplateDelayed { .. }))
    }

    /// A template text a native component may expand to.
    pub open spec fn native_tpl(self, name: Seq<char>, args: Seq<Seq<char>>, content: Option<Seq<char>>, t: Seq<char>) -> bool {
        exists|s: String| #[trigger] self.components().expand_result(name, args, content, Ok(ComponentOutput::Template(s))) && s@ == t
    }

    /// The native component surely expands to one template text.
    pub open spec fn native_tpl_fixed(self, name: Seq<char>, args: Seq<Seq<char>>, content: Option<Seq<char>>) -> bool {
        &&& exists|t: Seq<char>| self.native_tpl(name, args, content, t)
        &&& forall|out: Result<ComponentOutput>| #[trigger] self.components().expand_result(name, args, content, out)
            ==> (out matches Ok(ComponentOutput::Template(_)))
        &&& forall|t1: Seq<char>, t2: Seq<char>| self.native_tpl(name, args, content, t1) && self.native_tpl(name, args, content, t2)
            ==> t1 == t2
    }

    /// A row layout a native component may expand to: its template and
    /// its alignment.
    pub open spec fn native_row(self, name: Seq<char>, args: Seq<Seq<char>>, content: Option<Seq<char>>, t: Seq<char>, al: Seq<char>) -> bool {
        exists|s: String, a: String| #[trigger] self.components().expand_result(name, args, content,
            Ok(ComponentOutput::TemplateDelayed { template: s, post_process: PostProcess::Row { align: a } })) && s@ == t && a@ == al
    }

    /// The native component surely expands to one row layout.
    pub open spec fn native_row_fixed(self, name: Seq<char>, args: Seq<Seq<char>>, content: Option<Seq<char>>) -> bool {
        &&& exists|t: Seq<char>, al: Seq<char>| self.native_row(name, args, content, t, al)
        &&& forall|out: Result<ComponentOutput>| #[trigger] self.components().expand_result(name, args, content, out)
            ==> (out matches Ok(ComponentOutput::TemplateDelayed { post_process: PostProcess::Row { .. }, .. }))
        &&& forall|t1: Seq<char>, a1: Seq<char>, t2: Seq<char>, a2: Seq<char>| self.native_row(name, args, content, t1, a1)
            && self.native_row(name, args, content, t2, a2) ==> t1 == t2 && a1 == a2
    }

    /// What a native component ending at `e` becomes, `fuel` levels of
    /// nesting left: a component that surely expands to one template is
    /// that template expanded in turn with one level less (a row's layout
    /// applied afterwards); otherwise `native_step` says.
    pub open spec fn native_full_step(self, name: Seq<char>, args: Seq<Seq<char>>, content: Option<Seq<char>>, e: int, fuel: nat) -> Step {
        if self.native_tpl_fixed(name, args, content) {
            if fuel == 0 {
                Some(Err(Fault::Other))
            } else {
                nested_step(self.expanded_text(choose|t: Seq<char>| self.native_tpl(name, args, content, t), (fuel - 1) as nat), e)
            }
        } else if self.native_row_fixed(name, args, content) {
            let (t, al) = choose|t: Seq<char>, al: Seq<char>| self.native_row(name, args, content, t, al);
            if fuel == 0 {
                Some(Err(Fault::Other))
            } else {
                match self.expanded_text(t, (fuel - 1) as nat) {
                    Some(Ok(x)) => Some(Ok(Some((crate::components::handlers::row_html(x, al), e)))),
                    Some(Err(f)) => Some(Err(f)),
                    None => None,
                }
            }
        } else {
            self.native_step(name, args, content, e)
        }
    }

    /// What a native component ending at `e` does: it becomes the one
    /// Markdown text its rendering can give when that text is determined and
    /// no failure is possible; it fails when no rendering can succeed; it
    /// is left open otherwise (a template, or a backend whose result is not
    /// determined).
    pub open spec fn native_step(self, name: Seq<char>, args: Seq<Seq<char>>, content: Option<Seq<char>>, e: int) -> Step {
        if self.native_may_template(name, args, content) {
            None
        } else if !self.native_may_fail(name, args, content) && (forall|o1: Seq<char>, o2: Seq<char>|
            self.native_md(name, args, content, o1) && self.native_md(name, args, content, o2) ==> o1 == o2) {
            Some(Ok(Some((choose|o: Seq<char>| self.native_md(name, args, content, o), e))))
        } else if !(exists|o: Seq<char>| self.native_md(name, args, content, o)) {
            Some(Err(Fault::Other))
        } else {
            None
        }
    }

    /// What the handlers after the partial one do at `i`: a template
    /// component's or a frame's inner text is expanded in turn with one
    /// level of nesting less (failing when none is left); an unknown, a
    /// dynamic or an unsupported component fails; a native component does
    /// what `native_full_step` says.
    pub closed spec fn step_after_partial(self, s: Seq<char>, i: int, fuel: nat) -> Step
        decreases fuel, s.len() - i, 0int,
    {
        match ui_at(s, i) {
            Err(_) => Some(Err(Fault::Unclosed("ui"@))),
            Ok(Some((e, name, args, content))) => {
                let cs = self.components_renderer.components();
                if !cs.has(name) {
                    Some(Err(Fault::Other))
                } else if cs.value_of(name).component_type@ == "native"@ {
                    if self.native_tpl_fixed(name, args, content) {
                        if fuel == 0 {
                            Some(Err(Fault::Other))
                        } else {
                            nested_step(self.expanded(close_all_from(choose|t: Seq<char>| self.native_tpl(name, args, content, t), 0,
                                Seq::empty()), 0, (fuel - 1) as nat), e)
                        }
                    } else if self.native_row_fixed(name, args, content) {
                        let (t, al) = choose|t: Seq<char>, al: Seq<char>| self.native_row(name, args, content, t, al);
                        if fuel == 0 {
                            Some(Err(Fault::Other))
                        } else {
                            match self.expanded(close_all_from(t, 0, Seq::empty()), 0, (fuel - 1) as nat) {
                                Some(Ok(x)) => Some(Ok(Some((crate::components::handlers::row_html(x, al), e)))),
                                Some(Err(f)) => Some(Err(f)),
                                None => None,
                            }
                        }
                    } else {
                        self.native_step(name, args, content, e)
                    }
                } else if cs.value_of(name).component_type@ != "expand"@ || fuel == 0 {
                    Some(Err(Fault::Other))
                } else {
                    let t = self.components_renderer.template_result(cs.value_of(name), args, content);
                    nested_step(self.expanded(close_all_from(t, 0, Seq::empty()), 0, (fuel - 1) as nat), e)
                }
            },
            Ok(None) => match frame_at(s, i) {
                Err(_) => Some(Err(Fault::Unclosed("frame"@))),
                Ok(Some((e, st, c))) => if fuel == 0 {
                    Some(Err(Fault::Other))
                } else {
                    match self.expanded(close_all_from(c, 0, Seq::empty()), 0, (fuel - 1) as nat) {
                        None => None,
                        Some(Err(f)) => Some(Err(f)),
                        Some(Ok(inner)) => match frame_text(self.registry, st, inner) {
                            Some(o) => Some(Ok(Some((o, e)))),
                            None => Some(Err(Fault::Other)),
                        },
                    }
                },
                Ok(None) => self.simple_step(s, i),
            },
        }
    }

    /// What the shield, glyph, key and style handlers do at `i`.
    pub closed spec fn simple_step(self, s: Seq<char>, i: int) -> Step {
        match shields_at(s, i) {
            Some((end, ty, ps)) => match shield_text(self.shields_renderer, self.registry, ty, pairs_map(ps)) {
                Some(o) => Some(Ok(Some((o, end)))),
                None => Some(Err(Fault::Other)),
            },
            None => match glyph_at(s, i) {
                Some((name, end)) => if self.registry.glyphs.has(name) {
                    Some(Ok(Some((text_style_spec(self.registry.glyphs.value_of(name)@), end))))
                } else {
                    Some(Err(Fault::Other))
                },
                None => match kbd_at(s, i) {
                    Some((keys, end)) => Some(Ok(Some((kbd_html(keys), end)))),
                    None => match template_at(self.registry, s, i) {
                        Err(None) => Some(Err(Fault::Unclosed(s.subrange(i + 2, scan_while(s, i + 2, |c: char| style_name_char(c)))))),
                        Err(Some(_)) => Some(Err(Fault::Other)),
                        Ok(None) => Some(Ok(None)),
                        Ok(Some((end, style, spacing, sep, content))) => {
                            if crate::registry::lookup_alias(self.registry.styles, self.registry.style_aliases, style) is None {
                                Some(Err(Fault::Other))
                            } else {
                                match style_text(self.converter, style, spacing, sep, content) {
                                    Some(o) => Some(Ok(Some((o, end)))),
                                    None => Some(Err(Fault::Other)),
                                }
                            }
                        },
                    },
                },
            },
        }
    }

    /// What the handlers do at `i`, as `step_after_partial`; a registered
    /// partial's expansion is expanded in turn, an unregistered partial is
    /// left to the other handlers.
    pub closed spec fn step_at(self, s: Seq<char>, i: int, fuel: nat) -> Step
        decreases fuel, s.len() - i, 1int,
    {
        match partial_at(s, i) {
            Err(_) => Some(Err(Fault::Unclosed("partial"@))),
            Ok(Some((e, name, content))) => if self.partials.has(name) {
                if fuel == 0 {
                    Some(Err(Fault::Other))
                } else {
                    let x = crate::config::partial_expansion(self.partials.value_of(name)@, content);
                    nested_step(self.expanded(close_all_from(x, 0, Seq::empty()), 0, (fuel - 1) as nat), e)
                }
            } else {
                self.step_after_partial(s, i, fuel)
            },
            Ok(None) => self.step_after_partial(s, i, fuel),
        }
    }

    /// The text from `i` on with its templates expanded, `fuel` levels of
    /// nesting left: each `{{` where a template starts replaced by its
    /// expansion, every other character kept; the first failure (in text
    /// order) fails the whole; a native component whose result is not
    /// determined (see `native_full_step`) leaves the outcome open.
    #[verifier::opaque]
    pub closed spec fn expanded(self, s: Seq<char>, i: int, fuel: nat) -> Expanded
        decreases fuel, s.len() - i + 1, 2int,
    {
        if i < 0 || i >= s.len() {
            Some(Ok(Seq::empty()))
        } else if i + 1 < s.len() && s[i] == '{' && s[i + 1] == '{' {
            match self.step_at(s, i, fuel) {
                None => None,
                Some(Err(f)) => Some(Err(f)),
                Some(Ok(None)) => combine_expanded(Some(Ok(seq![s[i]])), self.expanded(s, i + 1, fuel)),
                Some(Ok(Some((o, e)))) => if i < e <= s.len() {
                    combine_expanded(Some(Ok(o)), self.expanded(s, e, fuel))
                } else {
                    None
                },
            }
        } else {
            combine_expanded(Some(Ok(seq![s[i]])), self.expanded(s, i + 1, fuel))
        }
    }

    /// Expanding `s` so far gave `res`, up to position `i`.
    pub open spec fn expands_through(self, s: Seq<char>, i: int, res: Seq<char>, fuel: nat) -> bool {
        match self.expanded(s, 0, fuel) {
            Some(Ok(t)) => self.expanded(s, i, fuel) matches Some(Ok(u)) && t == res + u,
            Some(Err(f)) => self.expanded(s, i, fuel) == Some(Err::<Seq<char>, Fault>(f)),
            None => true,
        }
    }

    /// Moving past a piece whose expansion is `piece`.
    pub proof fn lemma_expands_advance(self, s: Seq<char>, i: int, e: int, res: Seq<char>, piece: Seq<char>, fuel: nat)
        requires
            self.expands_through(s, i, res, fuel),
            self.expanded(s, 0, fuel) is Some ==> self.expanded(s, i, fuel) == combine_expanded(Some(Ok(piece)), self.expanded(s, e, fuel)),
        ensures
            self.expands_through(s, e, res + piece, fuel),
    {
        let xe = self.expanded(s, e, fuel);
        let xi = self.expanded(s, i, fuel);
        match self.expanded(s, 0, fuel) {
            Some(Ok(t)) => {
                let u = xi.unwrap()->Ok_0;
                match xe {
                    Some(Ok(rest)) => {
                        assert(u == piece + rest);
                        assert(res + (piece + rest) =~= (res + piece) + rest);
                    },
                    _ => {
                        assert(false);
                    },
                }
            },
            Some(Err(f)) => {
                match xe {
                    Some(Ok(rest)) => {
                        assert(false);
                    },
                    _ => {},
                }
            },
            None => {},
        }
    }

    /// One step of `expanded` at a position inside the text.
    pub proof fn lemma_expanded_step(self, s: Seq<char>, i: int, fuel: nat)
        requires
            0 <= i < s.len(),
        ensures
            self.expanded(s, i, fuel) == if i + 1 < s.len() && s[i] == '{' && s[i + 1] == '{' {
                match self.step_at(s, i, fuel) {
                    None => None,
                    Some(Err(f)) => Some(Err(f)),
                    Some(Ok(None)) => combine_expanded(Some(Ok(seq![s[i]])), self.expanded(s, i + 1, fuel)),
                    Some(Ok(Some((o, e)))) => if i < e <= s.len() {
                        combine_expanded(Some(Ok(o)), self.expanded(s, e, fuel))
                    } else {
                        None
                    },
                }
            } else {
                combine_expanded(Some(Ok(seq![s[i]])), self.expanded(s, i + 1, fuel))
            },
    {
        reveal(TemplateParser::expanded);
    }

    /// `expanded` at the end of the text.
    pub proof fn lemma_expanded_end(self, s: Seq<char>, fuel: nat)
        ensures
            self.expanded(s, s.len() as int, fuel) == Some(Ok::<Seq<char>, Fault>(Seq::<char>::empty())),
    {
        reveal(TemplateParser::expanded);
    }
}

/// Always holds: names a value that a proof offers as a witness.
pub open spec fn chosen<A>(a: A) -> bool {
    true
}

impl<R: Renderer> TemplateParser<R> {
    /// The file assets that expanding `s` from `i` on may collect, in text
    /// order, with `fuel` levels of nesting left: none at the end; past a
    /// character where no template starts, those of the rest; at a
    /// template, those the template collects, then those of the text after
    /// it.
    pub open spec fn collects(self, s: Seq<char>, i: int, fuel: nat, a: Seq<RenderedAsset>) -> bool
        decreases fuel, s.len() - i + 2,
    {
        if i < 0 || i >= s.len() {
            a.len() == 0
        } else if i + 1 < s.len() && s[i] == '{' && s[i + 1] == '{' {
            ||| self.step_at(s, i, fuel) == Some(Ok::<Option<(Seq<char>, int)>, Fault>(None)) && self.collects(s, i + 1, fuel, a)
            ||| exists|w: (Seq<RenderedAsset>, Seq<RenderedAsset>, int)| #[trigger] chosen(w) && i < w.2 <= s.len()
                && self.template_collects(s, i, fuel, w.0, w.2) && self.collects(s, w.2, fuel, w.1) && a == w.0 + w.1
        } else {
            self.collects(s, i + 1, fuel, a)
        }
    }

    /// The file assets that the template at `i`, ending at `e`, may collect:
    /// a registered partial's expansion, a frame's inner text and a
    /// component's template collect what expanding them with one level of
    /// nesting less collects; a component's primitive, what its rendering
    /// gives (see `component_collects`); a shield, glyph, key or style
    /// template, nothing.
    pub open spec fn template_collects(self, s: Seq<char>, i: int, fuel: nat, a: Seq<RenderedAsset>, e: int) -> bool
        decreases fuel, s.len() - i + 1,
    {
        if i < 0 || i >= s.len() {
            false
        } else {
            match partial_at(s, i) {
                Err(_) => false,
                Ok(Some((pe, name, content))) if self.partials().has(name) => pe == e && fuel > 0 && self.collects(
                    close_all_from(crate::config::partial_expansion(self.partials().value_of(name)@, content), 0, Seq::empty()), 0,
                    (fuel - 1) as nat, a),
                _ => match ui_at(s, i) {
                    Err(_) => false,
                    Ok(Some((ue, name, args, content))) => ue == e && self.component_collects(name, args, content, fuel, a),
                    Ok(None) => match frame_at(s, i) {
                        Err(_) => false,
                        Ok(Some((fe, _, c))) => fe == e && fuel > 0 && self.collects(close_all_from(c, 0, Seq::empty()), 0,
                            (fuel - 1) as nat, a),
                        Ok(None) => a.len() == 0 && (self.simple_step(s, i) matches Some(Ok(Some((_, se)))) && se == e),
                    },
                },
            }
        }
    }

    /// The file assets that a component may collect: it expands to a
    /// primitive and the backend may render that primitive to an asset (a
    /// file asset is collected, an inline one is not), or it expands to a
    /// template, and expanding that with one level of nesting less
    /// collects them.
    pub open spec fn component_collects(self, name: Seq<char>, args: Seq<Seq<char>>, content: Option<Seq<char>>, fuel: nat,
        a: Seq<RenderedAsset>) -> bool
        decreases fuel, 0int,
    {
        exists|out: Result<ComponentOutput>| #[trigger] self.components().expand_result(name, args, content, out) && match out {
            Ok(ComponentOutput::Primitive(p)) => exists|ra: RenderedAsset|
                #[trigger] call_ensures(R::render, (&self.backend(), &p), Ok(ra)) && a == asset_list(ra),
            Ok(ComponentOutput::Template(t)) => fuel > 0 && self.collects(close_all_from(t@, 0, Seq::empty()), 0, (fuel - 1) as nat, a),
            Ok(ComponentOutput::TemplateDelayed { template, .. }) => fuel > 0 && self.collects(close_all_from(template@, 0,
                Seq::empty()), 0, (fuel - 1) as nat, a),
            Err(_) => false,
        }
    }

    /// A template at `i` that collects `n` and ends at `e`, followed by text
    /// that collects `rest`.
    pub proof fn lemma_collects_template(self, s: Seq<char>, i: int, fuel: nat, n: Seq<RenderedAsset>, e: int,
        rest: Seq<RenderedAsset>)
        requires
            0 <= i,
            i + 1 < s.len(),
            s[i] == '{' && s[i + 1] == '{',
            i < e <= s.len(),
            self.template_collects(s, i, fuel, n, e),
            self.collects(s, e, fuel, rest),
        ensures
            self.collects(s, i, fuel, n + rest),
    {
        assert(chosen((n, rest, e)));
    }

    /// A character at `i` where no template starts, followed by text that
    /// collects `rest`.
    pub proof fn lemma_collects_plain(self, s: Seq<char>, i: int, fuel: nat, rest: Seq<RenderedAsset>)
        requires
            0 <= i < s.len(),
            i + 1 < s.len() && s[i] == '{' && s[i + 1] == '{'
                ==> self.step_at(s, i, fuel) == Some(Ok::<Option<(Seq<char>, int)>, Fault>(None)),
            self.collects(s, i + 1, fuel, rest),
        ensures
            self.collects(s, i, fuel, rest),
    {
    }

    /// The file assets that expanding the text `t` may collect, `{{//}}`
    /// closed first.
    pub open spec fn collects_text(self, t: Seq<char>, fuel: nat, a: Seq<RenderedAsset>) -> bool {
        self.collects(close_all_from(t, 0, Seq::empty()), 0, fuel, a)
    }
}

impl<R: Renderer> TemplateParser<R> {
    /// Expands a registered partial at `start`; unregistered partials are
    /// left for the other handlers.
    fn handle_partial(&self, chars: &[char], start: usize, fuel: u64) -> (r: Result<Expansion>)
        ensures
            r matches Ok(Some((_, a, _))) ==> files_only(a@),
            r matches Ok(Some((_, _, e))) ==> start < e <= chars@.len(),
            match partial_at(chars@, start as int) {
                Err(()) => r matches Err(Error::UnclosedTag(t)) && t@ == "partial"@,
                Ok(None) => r matches Ok(None),
                Ok(Some((e, name, content))) => {
                    &&& !self.partials.has(name) ==> (r matches Ok(None))
                    &&& (r matches Ok(Some((_, _, e2))) ==> e2 == e)
                    &&& self.partials.has(name) && fuel == 0 ==> r is Err
                    &&& self.partials.has(name) && fuel > 0 ==> match self.expanded_text(
                        crate::config::partial_expansion(self.partials.value_of(name)@, content), (fuel - 1) as nat) {
                        Some(Ok(t)) => r matches Ok(Some((o, _, _))) && o@ == t,
                        Some(Err(f)) => r matches Err(x) && fault_matches(x, f),
                        None => true,
                    }
                },
            },
            r matches Ok(Some((_, a, e))) ==> (partial_at(chars@, start as int) matches Ok(Some((e2, name, content)))
                && self.partials.has(name) && e == e2 && fuel > 0 && self.collects_text(
                crate::config::partial_expansion(self.partials.value_of(name)@, content), (fuel - 1) as nat, a@)),
            r matches Ok(None) ==> (partial_at(chars@, start as int) matches Ok(None) || (partial_at(chars@, start as int)
                matches Ok(Some((_, name, _))) && !self.partials.has(name))),
        decreases fuel, 0int,
    {
        let data = match parse_partial_at(chars, start)? {
            Some(d) => d,
            None => {
                return Ok(None);
            },
        };
        match self.partials.get(data.partial_name.as_str()) {
            Some(template) => {
                if fuel == 0 {
                    return Err(nesting_error());
                }
                let expanded = crate::config::expand_partial(template.as_str(), data.content.as_str());
                let ev = chars_of(expanded.as_str());
                let (out, assets) = self.process_templates_with_assets(ev.as_slice(), fuel - 1)?;
                Ok(Some((out, assets, data.end_pos)))
            },
            None => Ok(None),
        }
    }

    /// Expands a UI component at `start`.
    fn handle_ui(&self, chars: &[char], start: usize, fuel: u64) -> (r: Result<Expansion>)
        ensures
            r matches Ok(Some((_, a, _))) ==> files_only(a@),
            r matches Ok(Some((_, _, e))) ==> start < e <= chars@.len(),
            ui_at(chars@, start as int) is Err ==> (r matches Err(Error::UnclosedTag(t)) && t@ == "ui"@),
            ui_at(chars@, start as int) matches Ok(None) ==> r matches Ok(None),
            r matches Ok(Some((_, _, e))) ==> (ui_at(chars@, start as int) matches Ok(Some((e2, _, _, _))) && e == e2),
            ui_at(chars@, start as int) matches Ok(Some((e, name, args, content))) ==> {
                let cs = self.components_renderer.components();
                &&& !cs.has(name) ==> (r matches Err(Error::ParseError(m)) && m@ == crate::components::unknown_component_msg(name))
                &&& cs.has(name) && cs.value_of(name).component_type@ != "native"@ && cs.value_of(name).component_type@ != "expand"@
                    ==> r is Err
                &&& cs.has(name) && cs.value_of(name).component_type@ == "expand"@ && fuel == 0 ==> r is Err
                &&& cs.has(name) && cs.value_of(name).component_type@ == "expand"@ && fuel > 0 ==> match self.expanded_text(
                    self.components_renderer.template_result(cs.value_of(name), args, content), (fuel - 1) as nat) {
                    Some(Ok(t)) => r matches Ok(Some((o, _, e2))) && o@ == t && e2 == e,
                    Some(Err(f)) => r matches Err(x) && fault_matches(x, f),
                    None => true,
                }
                &&& cs.has(name) && cs.value_of(name).component_type@ == "native"@ ==> match self.native_full_step(name, args, content, e, fuel as nat) {
                    Some(Ok(Some((o, e3)))) => r matches Ok(Some((out, _, e2))) && out@ == o && e2 == e3,
                    Some(Err(f)) => r matches Err(x) && fault_matches(x, f),
                    _ => true,
                }
                &&& cs.has(name) && cs.value_of(name).component_type@ == "native"@ ==> (r matches Ok(Some((o, assets, e2))) ==> e2 == e
                    && exists|out: Result<ComponentOutput>| #[trigger] self.components_renderer.expand_result(name, args, content, out)
                        && self.native_output(out, fuel as nat, o@, assets@))
            },
            r matches Ok(Some((_, a, e))) ==> (ui_at(chars@, start as int) matches Ok(Some((e2, name, args, content))) && e == e2
                && self.component_collects(name, args, content, fuel as nat, a@)),
            r matches Ok(None) ==> ui_at(chars@, start as int) matches Ok(None),
        decreases fuel, 0int,
    {
        let data = match parse_ui_at(chars, start)? {
            Some(d) => d,
            None => {
                return Ok(None);
            },
        };
        let content: Option<&str> = match &data.content {
            Some(c) => Some(c.as_str()),
            None => None,
        };
        proof {
            reveal_strlit("native");
            reveal_strlit("dynamic");
            reveal_strlit("expand");
            assert("expand"@[0] != "native"@[0]);
            assert("expand"@[0] != "dynamic"@[0]);
            assert(crate::components::strs(data.args@) =~= arg_views(data.args@));
            assert(crate::components::opt_view(content) == match data.content {
                Some(c) => Some(c@),
                None => None::<Seq<char>>,
            });
        }
        let ghost nm = data.component_name@;
        let ghost av = crate::components::strs(data.args@);
        let ghost cv = crate::components::opt_view(content);
        let out_r = self.components_renderer.expand(data.component_name.as_str(), data.args.as_slice(), content);
        proof {
            assert(self.components().expand_result(nm, av, cv, out_r));
            if out_r is Err {
                assert(self.native_may_fail(nm, av, cv));
            }
            if out_r matches Ok(ComponentOutput::Template(_)) {
                assert(self.native_may_template(nm, av, cv));
            }
            if out_r matches Ok(ComponentOutput::TemplateDelayed { .. }) {
                assert(self.native_may_template(nm, av, cv));
            }
        }
        let output = out_r?;
        match output {
            ComponentOutput::Primitive(p) => {
                let rr = self.backend.render(&p);
                proof {
                    assert(call_ensures(R::render, (&self.backend(), &p), rr));
                    if rr is Err {
                        let e0 = rr->Err_0;
                        assert(call_ensures(R::render, (&self.backend(), &p), Err(e0)));
                        assert(self.native_may_fail(nm, av, cv));
                    } else {
                        let a0 = rr->Ok_0;
                        assert(self.native_md(nm, av, cv, a0.markdown()));
                    }
                }
                let rendered = rr?;
                let md = chars_of(rendered.to_markdown());
                let mut assets: Vec<RenderedAsset> = Vec::new();
                if rendered.is_file_based() {
                    assets.push(rendered);
                }
                proof {
                    assert(assets@ =~= asset_list(rendered));
                    assert(call_ensures(R::render, (&self.backend(), &p), Ok(rendered)));
                }
                Ok(Some((md, assets, data.end_pos)))
            },
            ComponentOutput::Template(t) => {
                proof {
                    assert(self.native_tpl(nm, av, cv, t@));
                }
                if fuel == 0 {
                    return Err(nesting_error());
                }
                let tv = chars_of(t.as_str());
                let (out, assets) = self.process_templates_with_assets(tv.as_slice(), fuel - 1)?;
                Ok(Some((out, assets, data.end_pos)))
            },
            ComponentOutput::TemplateDelayed { template, post_process } => {
                proof {
                    if post_process is Row {
                        let al = post_process->Row_align;
                        assert(self.native_row(nm, av, cv, template@, al@));
                    }
                }
                if fuel == 0 {
                    return Err(nesting_error());
                }
                let tv = chars_of(template.as_str());
                let (out, assets) = self.process_templates_with_assets(tv.as_slice(), fuel - 1)?;
                let fin = match post_process {
                    PostProcess::Row { align } => {
                        let os = string_of(out.as_slice());
                        let row = ComponentsRenderer::apply_row(os.as_str(), align.as_str());
                        chars_of(row.as_str())
                    },
                    _ => out,
                };
                Ok(Some((fin, assets, data.end_pos)))
            },
        }
    }

    /// What a native component's expansion `out` becomes in the text: a
    /// primitive becomes the Markdown of an asset the backend may return for
    /// it (a file asset is also collected); a template is expanded in turn
    /// with one level of nesting less, a row's layout applied afterwards.
    pub open spec fn native_output(self, out: Result<ComponentOutput>, fuel: nat, o: Seq<char>, assets: Seq<RenderedAsset>) -> bool {
        match out {
            Ok(ComponentOutput::Primitive(p)) => exists|a: RenderedAsset|
                #[trigger] call_ensures(R::render, (&self.backend(), &p), Ok(a)) && o == a.markdown() && assets == asset_list(a),
            Ok(ComponentOutput::Template(t)) => fuel > 0 && (self.expanded_text(t@, (fuel - 1) as nat) matches Some(Ok(x)) ==> o == x),
            Ok(ComponentOutput::TemplateDelayed { template, post_process }) => fuel > 0 && (self.expanded_text(template@, (fuel - 1) as nat)
                matches Some(Ok(x)) ==> o == match post_process {
                    PostProcess::Row { align } => crate::components::handlers::row_html(x, align@),
                    _ => x,
                }),
            Err(_) => false,
        }
    }

    /// Expands a frame at `start`, its content processed first.
    fn handle_frame(&self, chars: &[char], start: usize, fuel: u64) -> (r: Result<Expansion>)
        ensures
            r matches Ok(Some((_, a, _))) ==> files_only(a@),
            r matches Ok(Some((_, _, e))) ==> start < e <= chars@.len(),
            frame_at(chars@, start as int) matches Ok(None) ==> r matches Ok(None),
            frame_at(chars@, start as int) is Err ==> (r matches Err(Error::UnclosedTag(t)) && t@ == "frame"@),
            r matches Ok(Some((o, _, e))) ==> (frame_at(chars@, start as int) matches Ok(Some((e2, st, _))) && e == e2
                && exists|inner: Seq<char>| #[trigger] frame_text(self.registry, st, inner) == Some(o@)),
            frame_at(chars@, start as int) matches Ok(Some((e, st, c))) ==> {
                &&& fuel == 0 ==> r is Err
                &&& fuel > 0 ==> match self.expanded_text(c, (fuel - 1) as nat) {
                    Some(Ok(inner)) => match frame_text(self.registry, st, inner) {
                        Some(o) => r matches Ok(Some((out, _, e2))) && out@ == o && e2 == e,
                        None => r is Err,
                    },
                    Some(Err(f)) => r matches Err(x) && fault_matches(x, f),
                    None => true,
                }
            },
            r matches Ok(Some((_, a, e))) ==> (frame_at(chars@, start as int) matches Ok(Some((e2, _, c))) && e == e2 && fuel > 0
                && self.collects_text(c, (fuel - 1) as nat, a@)),
            r matches Ok(None) ==> frame_at(chars@, start as int) matches Ok(None),
        decreases fuel, 0int,
    {
        let data = match parse_frame_at(chars, start)? {
            Some(d) => d,
            None => {
                return Ok(None);
            },
        };
        if fuel == 0 {
            return Err(nesting_error());
        }
        let cv = chars_of(data.content.as_str());
        let (content, assets) = self.process_templates_with_assets(cv.as_slice(), fuel - 1)?;
        let fs = chars_of(data.frame_style.as_str());
        let glyph_prefix = chars_of("glyph:");
        proof {
            reveal_strlit("glyph:");
        }
        let framed = if matches_at(fs.as_slice(), 0, glyph_prefix.as_slice()) {
            let spec = slice_chars(fs.as_slice(), 6, fs.len());
            self.apply_glyph_frame(spec.as_slice(), content.as_slice())?
        } else if crate::components::contains_plus(fs.as_slice()) {
            self.apply_combo_frame(fs.as_slice(), content.as_slice())?
        } else {
            self.apply_standard_frame(fs.as_slice(), content.as_slice())?
        };
        proof {
            assert(frame_text(self.registry, fs@, content@) == Some(framed@));
        }
        Ok(Some((framed, assets, data.end_pos)))
    }

    /// Renders a `{{shields:...}}` template at `start`.
    #[verifier::spinoff_prover]
    fn handle_shields(&self, chars: &[char], start: usize) -> (r: Result<Expansion>)
        ensures
            r matches Ok(Some((_, a, _))) ==> files_only(a@),
            r matches Ok(Some((_, _, e))) ==> start < e <= chars@.len(),
            match shields_at(chars@, start as int) {
                None => r matches Ok(None),
                Some((end, ty, ps)) => {
                    &&& match shield_text(self.shields_renderer, self.registry, ty, pairs_map(ps)) {
                        Some(o) => r matches Ok(Some((out, a, e))) && out@ == o && a@.len() == 0 && e == end,
                        None => r is Err,
                    }
                    &&& !known_shield_type(ty) ==> (r matches Err(Error::UnknownShieldType(n)) && n@ == ty)
                },
            },
    {
        let data = match parse_shields_at(chars, start) {
            Some(d) => d,
            None => {
                return Ok(None);
            },
        };
        let ghost ps = shields_at(chars@, start as int).unwrap().2;
        let out = self.shield_markdown(data.shield_type.as_str(), &data.params)?;
        proof {
            assert(params_map(data.params) =~= pairs_map(ps));
        }
        let v: Vec<RenderedAsset> = Vec::new();
        Ok(Some((chars_of(out.as_str()), v, data.end_pos)))
    }

    /// The Markdown of a shield of type `ty` with parameters `p`.
    fn shield_markdown(&self, ty: &str, p: &NameMap<String>) -> (r: Result<String>)
        ensures
            match shield_text(self.shields_renderer, self.registry, ty@, params_map(*p)) {
                Some(o) => r matches Ok(out) && out@ == o,
                None => r is Err,
            },
            !known_shield_type(ty@) ==> (r matches Err(Error::UnknownShieldType(n)) && n@ == ty@),
    {
        if crate::namemap::str_eq(ty, "block") {
            let color = need_param(p, "color", "block")?;
            let style = need_param(p, "style", "block")?;
            self.shields_renderer.render_block(color, style)
        } else if crate::namemap::str_eq(ty, "twotone") {
            let left = need_param(p, "left", "twotone")?;
            let right = need_param(p, "right", "twotone")?;
            let style = need_param(p, "style", "twotone")?;
            self.shields_renderer.render_twotone(left, right, style)
        } else if crate::namemap::str_eq(ty, "bar") {
            let colors_str = need_param(p, "colors", "bar")?;
            let cv = chars_of(colors_str);
            let pieces = crate::text::split_chars(cv.as_slice(), ',');
            let ghost cs = crate::text::split_on(colors_str@, ',');
            let mut colors: Vec<String> = Vec::new();
            let mut i: usize = 0;
            while i < pieces.len()
                invariant
                    i <= pieces@.len(),
                    cs == crate::text::split_on(colors_str@, ','),
                    cv@ == colors_str@,
                    pieces@.len() == cs.len(),
                    forall|k: int| 0 <= k < pieces@.len() ==> #[trigger] pieces@[k]@ == cs[k],
                    colors@.len() == i,
                    forall|k: int| 0 <= k < i ==> #[trigger] colors@[k]@ == cs[k],
                decreases pieces.len() - i,
            {
                colors.push(string_of(pieces[i].as_slice()));
                i = i + 1;
            }
            let style = need_param(p, "style", "bar")?;
            let sep: Option<String> = match p.get("separator") {
                Some(s) => match self.registry.separator(s.as_str()) {
                    Some(v) => Some(v.to_owned()),
                    None => Some(s.clone()),
                },
                None => None,
            };
            let sep_ref: Option<&str> = match &sep {
                Some(s) => Some(s.as_str()),
                None => None,
            };
            proof {
                assert forall|k: int| 0 <= k < colors@.len() implies
                    (#[trigger] self.shields_renderer.color_for(colors@[k]@)) == self.shields_renderer.color_for(cs[k]) by {}
                if self.shields_renderer.style_for(style@) is Some {
                    let st = self.shields_renderer.style_for(style@).unwrap();
                    assert(colors@.map_values(|c: String| crate::shields::block_md(self.shields_renderer.color_for(c@).unwrap(), st))
                        =~= cs.map_values(|c: Seq<char>| crate::shields::block_md(self.shields_renderer.color_for(c).unwrap(), st)));
                }
                if exists|k: int| 0 <= k < cs.len() && (#[trigger] self.shields_renderer.color_for(cs[k])) is None {
                    let k = choose|k: int| 0 <= k < cs.len() && (#[trigger] self.shields_renderer.color_for(cs[k])) is None;
                    assert(self.shields_renderer.color_for(colors@[k]@) is None);
                }
            }
            self.shields_renderer.render_bar_with_separator(colors.as_slice(), style, sep_ref)
        } else if crate::namemap::str_eq(ty, "icon") {
            let logo = need_param(p, "logo", "icon")?;
            let bg = need_param(p, "bg", "icon")?;
            let logo_color = need_param(p, "logoColor", "icon")?;
            let style = need_param(p, "style", "icon")?;
            self.shields_renderer.render_icon(logo, bg, logo_color, style)
        } else {
            Err(Error::UnknownShieldType(ty.to_owned()))
        }
    }

    /// Expands `{{glyph:NAME/}}` at `start`.
    fn handle_glyph(&self, chars: &[char], start: usize) -> (r: Result<Expansion>)
        ensures
            r matches Ok(Some((_, a, _))) ==> files_only(a@),
            r matches Ok(Some((_, _, e))) ==> start < e <= chars@.len(),
            match glyph_at(chars@, start as int) {
                None => r matches Ok(None),
                Some((name, end)) => if self.registry.glyphs.has(name) {
                    r matches Ok(Some((o, a, e))) && o@ == text_style_spec(self.registry.glyphs.value_of(name)@)
                        && a@.len() == 0 && e == end
                } else {
                    r matches Err(Error::UnknownGlyph(n)) && n@ == name
                },
            },
    {
        match parse_glyph_at(chars, start) {
            Some((name, end)) => {
                proof {
                    lemma_scan_while(chars@, start + 8, |c: char| glyph_name_char(c));
                }
                let n = string_of(name.as_slice());
                match self.registry.glyph(n.as_str()) {
                    Some(g) => {
                        let gv = chars_of(g);
                        let v: Vec<RenderedAsset> = Vec::new();
                        Ok(Some((text_style(gv.as_slice()), v, end)))
                    },
                    None => Err(Error::UnknownGlyph(n)),
                }
            },
            None => Ok(None),
        }
    }

    /// Expands `{{kbd:KEYS/}}` at `start`.
    fn handle_kbd(&self, chars: &[char], start: usize) -> (r: Result<Expansion>)
        ensures
            r matches Ok(Some((_, a, _))) ==> files_only(a@),
            r matches Ok(Some((_, _, e))) ==> start < e <= chars@.len(),
            match kbd_at(chars@, start as int) {
                None => r matches Ok(None),
                Some((keys, end)) => r matches Ok(Some((o, a, e))) && o@ == kbd_html(keys) && a@.len() == 0 && e == end,
            },
    {
        match parse_kbd_at(chars, start) {
            Some((keys, end)) => {
                proof {
                    lemma_scan_while(chars@, start + 6, |c: char| c != '/');
                }
                let v: Vec<RenderedAsset> = Vec::new();
                Ok(Some((expand_kbd(keys.as_slice()), v, end)))
            },
            None => Ok(None),
        }
    }

    /// Expands a style template at `start`.
    fn handle_style(&self, chars: &[char], start: usize) -> (r: Result<Expansion>)
        ensures
            r matches Ok(Some((_, a, _))) ==> files_only(a@),
            r matches Ok(Some((_, _, e))) ==> start < e <= chars@.len(),
            match template_at(self.registry, chars@, start as int) {
                Err(None) => r matches Err(Error::UnclosedTag(t)) && t@ == chars@.subrange(start + 2,
                    scan_while(chars@, start + 2, |c: char| style_name_char(c))),
                Err(Some(_)) => r is Err,
                Ok(None) => r matches Ok(None),
                Ok(Some((end, style, spacing, sep, content))) => {
                    &&& crate::registry::lookup_alias(self.registry.styles, self.registry.style_aliases, style) is None
                        ==> (r matches Err(Error::UnknownStyle(n)) && n@ == style)
                    &&& crate::registry::lookup_alias(self.registry.styles, self.registry.style_aliases, style) is Some
                        ==> match style_text(self.converter, style, spacing, sep, content) {
                            Some(o) => r matches Ok(Some((out, a, e))) && out@ == o && a@.len() == 0 && e == end,
                            None => r is Err,
                        }
                },
            },
    {
        let data = match parse_template_at(&self.registry, chars, start)? {
            Some(d) => d,
            None => {
                return Ok(None);
            },
        };
        if self.registry.style(data.style.as_str()).is_none() {
            return Err(Error::UnknownStyle(data.style));
        }
        let out = match &data.separator {
            Some(sep) => self.converter.convert_with_separator(data.content.as_str(), data.style.as_str(), sep.as_str(), 1)?,
            None => if data.spacing > 0 {
                self.converter.convert_with_spacing(data.content.as_str(), data.style.as_str(), data.spacing)?
            } else {
                self.converter.convert(data.content.as_str(), data.style.as_str())?
            },
        };
        let v: Vec<RenderedAsset> = Vec::new();
        Ok(Some((chars_of(out.as_str()), v, data.end_pos)))
    }

    /// Tries the template handlers in priority order at `start`.
    fn try_handlers(&self, chars: &[char], start: usize, fuel: u64) -> (r: Result<Expansion>)
        ensures
            r matches Ok(Some((_, a, _))) ==> files_only(a@),
            r matches Ok(Some((_, _, e))) ==> start < e <= chars@.len(),
            match self.step_at(chars@, start as int, fuel as nat) {
                Some(Ok(None)) => r matches Ok(None),
                Some(Ok(Some((o, e)))) => r matches Ok(Some((out, _, e2))) && out@ == o && e2 == e,
                Some(Err(f)) => r matches Err(x) && fault_matches(x, f),
                None => true,
            },
            r matches Ok(Some((_, a, e))) ==> self.template_collects(chars@, start as int, fuel as nat, a@, e as int),
            r matches Ok(None) ==> self.step_at(chars@, start as int, fuel as nat) == Some(Ok::<Option<(Seq<char>, int)>, Fault>(None)),
        decreases fuel, 1int,
    {
        proof {
            reveal(TemplateParser::expanded);
        }
        let hp = self.handle_partial(chars, start, fuel);
        if let Some(x) = hp? {
            return Ok(Some(x));
        }
        if let Some(x) = self.handle_ui(chars, start, fuel)? {
            return Ok(Some(x));
        }
        if let Some(x) = self.handle_frame(chars, start, fuel)? {
            return Ok(Some(x));
        }
        if let Some(x) = self.handle_shields(chars, start)? {
            return Ok(Some(x));
        }
        if let Some(x) = self.handle_glyph(chars, start)? {
            return Ok(Some(x));
        }
        if let Some(x) = self.handle_kbd(chars, start)? {
            return Ok(Some(x));
        }
        self.handle_style(chars, start)
    }

    /// Expands every template in a text segment.
    #[verifier::spinoff_prover]
    #[verifier::rlimit(80)]
    fn process_templates_with_assets(&self, text: &[char], fuel: u64) -> (r: Result<(Vec<char>, Vec<RenderedAsset>)>)
        ensures
            r matches Ok((_, a)) ==> files_only(a@),
            no_open(text@) ==> (r matches Ok((t, a)) && t@ == text@ && a@.len() == 0),
            r matches Ok((_, a)) ==> self.collects_text(text@, fuel as nat, a@),
            match self.expanded_text(text@, fuel as nat) {
                Some(Ok(t)) => r matches Ok((o, _)) && o@ == t,
                Some(Err(f)) => r matches Err(x) && fault_matches(x, f),
                None => true,
            },
        decreases fuel, 2int,
    {
        proof {
            lemma_no_open_no_close_all(text@);
        }
        let expanded = self.expand_close_all_chars(text);
        let chars = expanded.as_slice();
        let mut result: Vec<char> = Vec::new();
        proof {
            if let Some(Ok(t)) = self.expanded(chars@, 0, fuel as nat) {
                assert(result@ + t =~= t);
            }
            assert(self.expands_through(chars@, 0, result@, fuel as nat));
        }
        let mut assets: Vec<RenderedAsset> = Vec::new();
        proof {
            assert forall|rest: Seq<RenderedAsset>| #[trigger] self.collects(chars@, 0, fuel as nat, rest)
                implies self.collects(chars@, 0, fuel as nat, assets@ + rest) by {
                assert(assets@ + rest =~= rest);
            }
        }
        let mut i: usize = 0;
        while i < chars.len()
            invariant
                i <= chars@.len(),
                no_open(text@) ==> chars@ == text@ && result@ == chars@.take(i as int) && assets@.len() == 0,
                chars@ == close_all_from(text@, 0, Seq::empty()),
                self.expands_through(chars@, i as int, result@, fuel as nat),
                files_only(assets@),
                forall|rest: Seq<RenderedAsset>| #[trigger] self.collects(chars@, i as int, fuel as nat, rest)
                    ==> self.collects(chars@, 0, fuel as nat, assets@ + rest),
            decreases chars.len() - i,
        {
            proof {
                self.lemma_expanded_step(chars@, i as int, fuel as nat);
            }
            let ghost before = result@;
            let ghost opens = i + 1 < chars@.len() && chars@[i as int] == '{' && chars@[i + 1] == '{';
            if chars.len() - i > 1 && chars[i] == '{' && chars[i + 1] == '{' {
                let found = self.try_handlers(chars, i, fuel)?;
                if let Some((out, mut new_assets, end)) = found {
                    push_all(&mut result, out.as_slice());
                    let ghost a0 = assets@;
                    let ghost n0 = new_assets@;
                    assets.append(&mut new_assets);
                    proof {
                        assert(assets@ =~= a0 + n0);
                        assert forall|k: int| 0 <= k < assets@.len() implies (#[trigger] assets@[k]) is File by {
                            if k >= a0.len() {
                                assert(assets@[k] == n0[k - a0.len()]);
                            }
                        }
                        assert forall|rest: Seq<RenderedAsset>| #[trigger] self.collects(chars@, end as int, fuel as nat, rest)
                            implies self.collects(chars@, 0, fuel as nat, assets@ + rest) by {
                            self.lemma_collects_template(chars@, i as int, fuel as nat, n0, end as int, rest);
                            assert(a0 + (n0 + rest) =~= assets@ + rest);
                        }
                    }
                    proof {
                        if self.expanded(chars@, 0, fuel as nat) is Some {
                            assert(self.step_at(chars@, i as int, fuel as nat) == Some(Ok::<Option<(Seq<char>, int)>, Fault>(Some((out@, end as int)))));
                        }
                        self.lemma_expands_advance(chars@, i as int, end as int, before, out@, fuel as nat);
                        assert(before + out@ =~= result@);
                    }
                    i = end;
                    continue;
                }
            }
            result.push(chars[i]);
            proof {
                assert(opens ==> self.step_at(chars@, i as int, fuel as nat) == Some(Ok::<Option<(Seq<char>, int)>, Fault>(None)));
                assert forall|rest: Seq<RenderedAsset>| #[trigger] self.collects(chars@, i + 1, fuel as nat, rest)
                    implies self.collects(chars@, 0, fuel as nat, assets@ + rest) by {
                    self.lemma_collects_plain(chars@, i as int, fuel as nat, rest);
                }
                assert(chars@.take(i + 1) =~= chars@.take(i as int).push(chars@[i as int]));
                self.lemma_expands_advance(chars@, i as int, i + 1, before, seq![chars@[i as int]], fuel as nat);
                assert(before + seq![chars@[i as int]] =~= result@);
            }
            i = i + 1;
        }
        proof {
            assert(chars@.take(chars@.len() as int) =~= chars@);
            self.lemma_expanded_end(chars@, fuel as nat);
            assert(result@ + Seq::<char>::empty() =~= result@);
            assert(self.collects(chars@, i as int, fuel as nat, Seq::empty()));
            assert(assets@ + Seq::<RenderedAsset>::empty() =~= assets@);
        }
        Ok((result, assets))
    }

    /// Processes a text segment, leaving inline code (between backticks)
    /// untouched.
    fn process_line_with_assets(&self, line: &[char]) -> (r: Result<(Vec<char>, Vec<RenderedAsset>)>)
        ensures
            r matches Ok((_, a)) ==> files_only(a@),
            r matches Ok((t, _)) ==> line_processed(*self, line@, t@),
            no_open(line@) ==> (r matches Ok((t, a)) && t@ == line@ && a@.len() == 0),
            r matches Ok((_, a)) ==> line_collects(*self, line@, a@),
            line_outcome(*self, line@) == Some(true) ==> r is Ok,
            line_outcome(*self, line@) == Some(false) ==> (r matches Err(x) && fault_matches(x, line_fault(*self, line@))),
    {
        let parts = crate::text::split_chars(line, '`');
        let ghost ps = crate::text::split_on(line@, '`');
        proof {
            lemma_split_no_open(line@, '`');
            crate::text::lemma_join_split(line@, '`');
        }
        let mut result: Vec<char> = Vec::new();
        let mut assets: Vec<RenderedAsset> = Vec::new();
        let ghost mut outs: Seq<Seq<char>> = Seq::empty();
        let mut i: usize = 0;
        while i < parts.len()
            invariant
                i <= parts@.len(),
                ps == crate::text::split_on(line@, '`'),
                parts@.len() == ps.len(),
                forall|k: int| 0 <= k < parts@.len() ==> #[trigger] parts@[k]@ == ps[k],
                no_open(line@) ==> forall|k: int| 0 <= k < ps.len() ==> no_open(#[trigger] ps[k]),
                outs.len() == i,
                forall|j: int| 0 <= j < i && j % 2 == 1 ==> #[trigger] outs[j] == ps[j],
                forall|j: int| 0 <= j < i && j % 2 == 0 && no_open(ps[j]) ==> #[trigger] outs[j] == ps[j],
                forall|j: int| 0 <= j < i && j % 2 == 0 && self.expanded_text(ps[j], MAX_NESTING as nat) is Some
                    && self.expanded_text(ps[j], MAX_NESTING as nat).unwrap() is Ok
                    ==> #[trigger] outs[j] == self.expanded_text(ps[j], MAX_NESTING as nat).unwrap()->Ok_0,
                result@ == crate::text::join(outs, "`"@),
                no_open(line@) ==> assets@.len() == 0,
                parts_outcome(*self, ps, 0) is Some ==> parts_outcome(*self, ps, 0) == parts_outcome(*self, ps, i as int),
                parts_outcome(*self, ps, 0) == Some(false) ==> parts_fault(*self, ps, 0) == parts_fault(*self, ps, i as int),
                files_only(assets@),
                parts_collect(*self, ps, i as int, assets@),
            decreases parts.len() - i,
        {
            proof {
                reveal_strlit("`");
            }
            let ghost before = result@;
            if i > 0 {
                result.push('`');
            }
            let ghost piece: Seq<char>;
            if i % 2 == 0 {
                let (out, mut a) = self.process_templates_with_assets(parts[i].as_slice(), MAX_NESTING)?;
                proof {
                    piece = out@;
                }
                push_all(&mut result, out.as_slice());
                let ghost a0 = assets@;
                let ghost n0 = a@;
                assets.append(&mut a);
                proof {
                    assert(assets@ =~= a0 + n0);
                    assert forall|k: int| 0 <= k < assets@.len() implies (#[trigger] assets@[k]) is File by {
                        if k >= a0.len() {
                            assert(assets@[k] == n0[k - a0.len()]);
                        }
                    }
                    assert(chosen((a0, n0)));
                    assert(parts_collect(*self, ps, i + 1, assets@));
                }
            } else {
                proof {
                    piece = parts@[i as int]@;
                }
                push_all(&mut result, parts[i].as_slice());
            }
            proof {
                let old_outs = outs;
                outs = outs.push(piece);
                assert(outs.drop_last() =~= old_outs);
                if i == 0 {
                    assert(result@ =~= piece);
                    assert(crate::text::join(outs, "`"@) == piece);
                } else {
                    assert(result@ =~= before + "`"@ + piece);
                }
            }
            i = i + 1;
        }
        proof {
            reveal_strlit("`");
            assert(parts_kept(*self, ps, outs));
            assert(line_collects(*self, line@, assets@));
            if no_open(line@) {
                assert(outs =~= ps);
                assert("`"@ =~= seq!['`']);
            }
        }
        Ok((result, assets))
    }

    /// Processes Markdown, returning the text and the file assets to write.
    /// Fenced code blocks and inline code are kept as they are; every text
    /// section between code blocks is processed as a whole.
    #[verifier::spinoff_prover]
    #[verifier::rlimit(40)]
    pub fn process_with_assets(&self, markdown: &str) -> (r: Result<ProcessedMarkdown>)
        ensures
            r matches Ok(p) ==> files_only(p.assets@),
            r matches Ok(p) ==> processed_as(*self, markdown@, p.markdown@),
            r matches Ok(p) ==> collected_as(*self, markdown@, p.assets@),
            outcome(*self, markdown@) == Some(true) ==> r is Ok,
            outcome(*self, markdown@) == Some(false) ==> (r matches Err(x) && fault_matches(x, fault(*self, markdown@))),
            no_open(markdown@) ==> r is Ok,
    {
        proof {
            if no_open(markdown@) {
                crate::parser::passthrough::law_plain_text_succeeds(*self, markdown@);
            }
        }
        let v = chars_of(markdown);
        let had_trailing = v.len() > 0 && v[v.len() - 1] == '\n';
        let lines = crate::text::lines_chars(v.as_slice());
        let ghost ls = crate::text::lines(v@);
        let mut result: Vec<char> = Vec::new();
        let mut all_assets: Vec<RenderedAsset> = Vec::new();
        let ghost mut acc: Seq<Seq<char>> = Seq::empty();
        let ghost mut secs: Seq<Seq<char>> = Seq::empty();
        let mut i: usize = 0;
        proof {
            assert forall|rest: Seq<Seq<char>>| #[trigger] render_from(ls, 0, acc + rest) == result@ + render_from(ls, 0, rest) by {
                assert(acc + rest =~= rest);
                assert(result@ + render_from(ls, 0, rest) =~= render_from(ls, 0, rest));
            }
            assert(sections_from(ls, 0) =~= secs + sections_from(ls, 0));
        }
        while i < lines.len()
            invariant
                i <= lines@.len(),
                ls == crate::text::lines(v@),
                lines@.len() == ls.len(),
                forall|k: int| 0 <= k < lines@.len() ==> #[trigger] lines@[k]@ == ls[k],
                forall|rest: Seq<Seq<char>>| #[trigger] render_from(ls, 0, acc + rest) == result@ + render_from(ls, i as int, rest),
                sections_from(ls, 0) == secs + sections_from(ls, i as int),
                sections_processed(*self, secs, acc),
                sections_outcome(*self, sections_from(ls, 0)) is Some ==> sections_outcome(*self, sections_from(ls, 0))
                    == sections_outcome(*self, sections_from(ls, i as int)),
                v@ == markdown@,
                no_open(markdown@) ==> outcome(*self, markdown@) == Some(true),
                files_only(all_assets@),
                sections_collect(*self, secs, all_assets@),
                sections_outcome(*self, sections_from(ls, 0)) == Some(false) ==> sections_fault(*self, sections_from(ls, 0))
                    == sections_fault(*self, sections_from(ls, i as int)),
            decreases lines.len() - i,
        {
            proof {
                lemma_layout_bounds(ls, i as int + 1);
            }
            if is_fence(lines[i].as_slice()) {
                let ghost r0 = result@;
                let ghost start = i as int;
                push_all(&mut result, lines[i].as_slice());
                result.push('\n');
                i = i + 1;
                let i0 = i;
                let mut closed = false;
                proof {
                    assert(lines_nl(ls, start, start + 1) =~= lines_nl(ls, start, start) + ls[start] + "\n"@) by {
                        reveal_strlit("\n");
                    }
                    assert(result@ =~= r0 + lines_nl(ls, start, i as int)) by {
                        reveal_strlit("\n");
                    }
                }
                while i < lines.len() && !closed
                    invariant
                        i0 <= i <= lines@.len(),
                        i0 == start + 1,
                        ls == crate::text::lines(v@),
                        lines@.len() == ls.len(),
                        forall|k: int| 0 <= k < lines@.len() ==> #[trigger] lines@[k]@ == ls[k],
                        result@ == r0 + lines_nl(ls, start, i as int),
                        closed ==> code_end(ls, i0 as int) == i,
                        !closed ==> code_end(ls, i0 as int) == code_end(ls, i as int),
                    decreases lines.len() - i,
                {
                    push_all(&mut result, lines[i].as_slice());
                    result.push('\n');
                    if is_fence(lines[i].as_slice()) {
                        closed = true;
                    }
                    proof {
                        reveal_strlit("\n");
                        assert(result@ =~= r0 + lines_nl(ls, start, i + 1));
                    }
                    i = i + 1;
                }
                proof {
                    assert forall|rest: Seq<Seq<char>>| #[trigger] render_from(ls, 0, acc + rest) == result@ + render_from(ls, i as int, rest) by {
                        assert(render_from(ls, start, rest) == lines_nl(ls, start, i as int) + render_from(ls, i as int, rest));
                        assert(render_from(ls, 0, acc + rest) == r0 + render_from(ls, start, rest));
                    }
                    assert(sections_from(ls, start) == sections_from(ls, i as int));
                }
                continue;
            }
            let ghost start = i as int;
            assert(sections_outcome(*self, sections_from(ls, 0)) is Some ==> sections_outcome(*self, sections_from(ls, 0))
                == sections_outcome(*self, sections_from(ls, start)));
            let mut section: Vec<char> = copy_chars(lines[i].as_slice());
            i = i + 1;
            let s0 = i;
            proof {
                assert(ls.subrange(start, start + 1).drop_last() =~= Seq::<Seq<char>>::empty());
                assert(crate::text::join(ls.subrange(start, start + 1), "\n"@) == ls[start]);
            }
            while i < lines.len() && !is_fence(lines[i].as_slice())
                invariant
                    s0 <= i <= lines@.len(),
                    s0 == start + 1,
                    0 <= start,
                    ls == crate::text::lines(v@),
                    lines@.len() == ls.len(),
                    forall|k: int| 0 <= k < lines@.len() ==> #[trigger] lines@[k]@ == ls[k],
                    section@ == crate::text::join(ls.subrange(start, i as int), "\n"@),
                    text_end(ls, s0 as int) == text_end(ls, i as int),
                decreases lines.len() - i,
            {
                proof {
                    reveal_strlit("\n");
                    assert(ls.subrange(start, i + 1).drop_last() =~= ls.subrange(start, i as int));
                }
                section.push('\n');
                push_all(&mut section, lines[i].as_slice());
                i = i + 1;
            }
            proof {
                let e = i as int;
                assert(text_end(ls, start + 1) == e);
                assert(sections_from(ls, start) == seq![section@] + sections_from(ls, e));
                assert((seq![section@] + sections_from(ls, e))[0] == section@);
                assert((seq![section@] + sections_from(ls, e)).skip(1) =~= sections_from(ls, e));
                assert(outcome(*self, markdown@) == sections_outcome(*self, sections_from(ls, 0)));
                assert(outcome(*self, markdown@) == Some(true) ==> sections_outcome(*self, sections_from(ls, start)) == Some(true));
                assert(outcome(*self, markdown@) == Some(true) ==> line_outcome(*self, section@) == Some(true));
            }
            let (processed, mut assets) = self.process_line_with_assets(section.as_slice())?;
            let ghost r0 = result@;
            push_all(&mut result, processed.as_slice());
            if i < lines.len() {
                result.push('\n');
            }
            let ghost a0 = all_assets@;
            let ghost n0 = assets@;
            all_assets.append(&mut assets);
            proof {
                assert(all_assets@ =~= a0 + n0);
                assert forall|k: int| 0 <= k < all_assets@.len() implies (#[trigger] all_assets@[k]) is File by {
                    if k >= a0.len() {
                        assert(all_assets@[k] == n0[k - a0.len()]);
                    }
                }
            }
            proof {
                reveal_strlit("\n");
                let out = processed@;
                let e = i as int;
                assert(text_end(ls, start + 1) == e);
                assert(sections_from(ls, start) == seq![section@] + sections_from(ls, e));
                let old_acc = acc;
                let old_secs = secs;
                acc = acc.push(out);
                secs = secs.push(section@);
                lemma_sections_collect_push(*self, old_secs, section@, a0, n0);
                assert(sections_from(ls, 0) =~= secs + sections_from(ls, e));
                assert forall|k: int| 0 <= k < secs.len() implies #[trigger] line_processed(*self, secs[k], acc[k]) by {
                    if k < old_secs.len() {
                        assert(secs[k] == old_secs[k]);
                        assert(acc[k] == old_acc[k]);
                    }
                }
                assert forall|rest: Seq<Seq<char>>| #[trigger] render_from(ls, 0, acc + rest) == result@ + render_from(ls, e, rest) by {
                    let rest2 = seq![out] + rest;
                    assert(acc + rest =~= old_acc + rest2);
                    assert(rest2[0] == out);
                    assert(rest2.skip(1) =~= rest);
                    assert(render_from(ls, start, rest2) == out + (if e < ls.len() { "\n"@ } else { Seq::empty() }) + render_from(ls, e, rest));
                    assert(render_from(ls, 0, old_acc + rest2) == r0 + render_from(ls, start, rest2));
                }
            }
        }
        proof {
            assert(render_from(ls, 0, acc + Seq::empty()) == result@ + render_from(ls, i as int, Seq::empty()));
            assert(acc + Seq::<Seq<char>>::empty() =~= acc);
            assert(sections_from(ls, i as int) =~= Seq::<Seq<char>>::empty());
            assert(secs + Seq::<Seq<char>>::empty() =~= secs);
        }
        let ghost full = result@;
        if had_trailing && !(result.len() > 0 && result[result.len() - 1] == '\n') {
            result.push('\n');
        }
        if !had_trailing && result.len() > 0 && result[result.len() - 1] == '\n' {
            result.pop();
        }
        proof {
            assert(result@ =~= match_newline(v@, full));
            assert(sections_processed(*self, sections_from(ls, 0), acc));
        }
        Ok(ProcessedMarkdown { markdown: string_of(result.as_slice()), assets: all_assets })
    }

    /// Processes Markdown, expanding every template.
    pub fn process(&self, markdown: &str) -> (r: Result<String>)
        ensures
            r matches Ok(t) ==> processed_as(*self, markdown@, t@),
            outcome(*self, markdown@) == Some(true) ==> r is Ok,
            outcome(*self, markdown@) == Some(false) ==> (r matches Err(x) && fault_matches(x, fault(*self, markdown@))),
            no_open(markdown@) ==> r is Ok,
    {
        let p = self.process_with_assets(markdown)?;
        Ok(p.markdown)
    }

    /// Checks that every template expands, without keeping the output.
    pub fn validate(&self, markdown: &str) -> (r: Result<()>)
        ensures
            no_open(markdown@) ==> r is Ok,
            self.expanded_text(markdown@, MAX_NESTING as nat) matches Some(Ok(_)) ==> r is Ok,
            self.expanded_text(markdown@, MAX_NESTING as nat) matches Some(Err(f)) ==> (r matches Err(x) && fault_matches(x, f)),
    {
        let v = chars_of(markdown);
        self.process_templates_with_assets(v.as_slice(), MAX_NESTING)?;
        Ok(())
    }
}

/// Reads a required shield parameter.
fn need_param<'a>(p: &'a NameMap<String>, key: &str, shield: &str) -> (r: Result<&'a str>)
    ensures
        r matches Ok(v) ==> p.has(key@) && v@ == p.value_of(key@)@,
        r is Err ==> !p.has(key@),
{
    match p.get(key) {
        Some(v) => Ok(v.as_str()),
        None => Err(Error::MissingShieldParam(key.to_owned(), shield.to_owned())),
    }
}

/// A line whose trimmed text starts with three backticks.
pub open spec fn fence_line(l: Seq<char>) -> bool {
    has_prefix(crate::text::trim(l), "```"@)
}

/// Whether a line opens or closes a fenced code block.
pub fn is_fence(line: &[char]) -> (b: bool)
    ensures
        b == fence_line(line@),
{
    let t = crate::text::trim_chars(line);
    starts_with_chars(t.as_slice(), "```")
}


/// The text holds no `{{` (so no template).
pub open spec fn no_open(s: Seq<char>) -> bool {
    forall|i: int| 0 <= i < s.len() - 1 ==> !(#[trigger] s[i] == '{' && s[i + 1] == '{')
}

/// Text without `{{` holds no `{{//}}`.
pub proof fn lemma_no_open_no_close_all(s: Seq<char>)
    ensures
        no_open(s) ==> no_close_all(s),
{
    if no_open(s) {
        reveal_strlit("{{//}}");
        assert forall|p: int| !occurs_at(s, p, "{{//}}"@) by {
            if occurs_at(s, p, "{{//}}"@) {
                assert(s.subrange(p, p + 6)[0] == s[p]);
                assert(s.subrange(p, p + 6)[1] == s[p + 1]);
            }
        }
    }
}

/// Pieces of a split keep no-`{{`-ness.
pub proof fn lemma_split_no_open(s: Seq<char>, c: char)
    ensures
        no_open(s) ==> forall|k: int| 0 <= k < crate::text::split_on(s, c).len() ==> no_open(#[trigger] crate::text::split_on(s, c)[k]),
    decreases s.len(),
{
    let idx = crate::text::index_of_from(s, c, 0);
    crate::text::lemma_index_of_from(s, c, 0);
    if no_open(s) && idx < s.len() {
        let rest = s.skip(idx + 1);
        lemma_split_no_open(rest, c);
        assert(no_open(rest)) by {
            assert forall|i: int| 0 <= i < rest.len() - 1 implies !(#[trigger] rest[i] == '{' && rest[i + 1] == '{') by {
                assert(rest[i] == s[i + idx + 1]);
                assert(rest[i + 1] == s[i + idx + 2]);
            }
        }
        let head = s.take(idx);
        assert(no_open(head)) by {
            assert forall|i: int| 0 <= i < head.len() - 1 implies !(#[trigger] head[i] == '{' && head[i + 1] == '{') by {
                assert(head[i] == s[i]);
                assert(head[i + 1] == s[i + 1]);
            }
        }
        let sp = crate::text::split_on(s, c);
        assert(sp == seq![head] + crate::text::split_on(rest, c));
        assert forall|k: int| 0 <= k < sp.len() implies no_open(#[trigger] sp[k]) by {
            if k > 0 {
                assert(sp[k] == crate::text::split_on(rest, c)[k - 1]);
            }
        }
    }
}

/// The index just past the closing fence of a code block whose body starts
/// at `i`, or the end when the block is not closed.
pub open spec fn code_end(ls: Seq<Seq<char>>, i: int) -> int
    decreases ls.len() - i,
{
    if i >= ls.len() {
        ls.len() as int
    } else if fence_line(ls[i]) {
        i + 1
    } else {
        code_end(ls, i + 1)
    }
}

/// The first fence line at or after `i`, or the end.
pub open spec fn text_end(ls: Seq<Seq<char>>, i: int) -> int
    decreases ls.len() - i,
{
    if i >= ls.len() {
        ls.len() as int
    } else if fence_line(ls[i]) {
        i
    } else {
        text_end(ls, i + 1)
    }
}

/// Where `code_end` and `text_end` fall.
pub proof fn lemma_layout_bounds(ls: Seq<Seq<char>>, i: int)
    requires
        0 <= i <= ls.len(),
    ensures
        i <= code_end(ls, i) <= ls.len(),
        i <= text_end(ls, i) <= ls.len(),
        code_end(ls, i) > i || i == ls.len(),
    decreases ls.len() - i,
{
    if i < ls.len() {
        lemma_layout_bounds(ls, i + 1);
    }
}

/// Lines `a..b`, each followed by a newline.
pub open spec fn lines_nl(ls: Seq<Seq<char>>, a: int, b: int) -> Seq<char>
    decreases b - a,
{
    if b <= a {
        Seq::empty()
    } else {
        lines_nl(ls, a, b - 1) + ls[b - 1] + "\n"@
    }
}

/// The text sections from line `i` (runs of lines outside code blocks,
/// joined by newlines), in order.
pub open spec fn sections_from(ls: Seq<Seq<char>>, i: int) -> Seq<Seq<char>>
    decreases ls.len() - i,
{
    if i < 0 || i >= ls.len() {
        Seq::empty()
    } else if fence_line(ls[i]) {
        proof {
            lemma_layout_bounds(ls, i + 1);
        }
        sections_from(ls, code_end(ls, i + 1))
    } else {
        proof {
            lemma_layout_bounds(ls, i + 1);
        }
        let e = text_end(ls, i + 1);
        seq![crate::text::join(ls.subrange(i, e), "\n"@)] + sections_from(ls, e)
    }
}

/// The output from line `i` on: code blocks verbatim (each line then a
/// newline), text sections replaced in order by `outs`, each followed by a
/// newline unless it ends the document.
pub open spec fn render_from(ls: Seq<Seq<char>>, i: int, outs: Seq<Seq<char>>) -> Seq<char>
    decreases ls.len() - i,
{
    if i < 0 || i >= ls.len() {
        Seq::empty()
    } else if fence_line(ls[i]) {
        proof {
            lemma_layout_bounds(ls, i + 1);
        }
        let e = code_end(ls, i + 1);
        lines_nl(ls, i, e) + render_from(ls, e, outs)
    } else {
        proof {
            lemma_layout_bounds(ls, i + 1);
        }
        let e = text_end(ls, i + 1);
        outs[0] + (if e < ls.len() { "\n"@ } else { Seq::empty() }) + render_from(ls, e, outs.skip(1))
    }
}

/// The output's trailing newline matched to the input's: added when the
/// input has one, one removed when it has none.
pub open spec fn match_newline(md: Seq<char>, out: Seq<char>) -> Seq<char> {
    let had = md.len() > 0 && md.last() == '\n';
    let ends = out.len() > 0 && out.last() == '\n';
    if had && !ends {
        out.push('\n')
    } else if !had && ends {
        out.drop_last()
    } else {
        out
    }
}

/// How a line's text parts from part `j` on fare: `Some(true)` when each
/// expands, `Some(false)` when the first one that does not expand fails,
/// `None` when a native component whose rendering is not determined comes
/// first.
pub open spec fn parts_outcome<R: Renderer>(p: TemplateParser<R>, ps: Seq<Seq<char>>, j: int) -> Option<bool>
    decreases ps.len() - j,
{
    if j < 0 || j >= ps.len() {
        Some(true)
    } else if j % 2 == 1 {
        parts_outcome(p, ps, j + 1)
    } else {
        match p.expanded_text(ps[j], MAX_NESTING as nat) {
            None => None,
            Some(Err(_)) => Some(false),
            Some(Ok(_)) => parts_outcome(p, ps, j + 1),
        }
    }
}

/// How processing a line fares, its inline code left aside.
pub open spec fn line_outcome<R: Renderer>(p: TemplateParser<R>, line: Seq<char>) -> Option<bool> {
    parts_outcome(p, crate::text::split_on(line, '`'), 0)
}

/// How processing text sections in order fares.
pub open spec fn sections_outcome<R: Renderer>(p: TemplateParser<R>, secs: Seq<Seq<char>>) -> Option<bool>
    decreases secs.len(),
{
    if secs.len() == 0 {
        Some(true)
    } else {
        match line_outcome(p, secs[0]) {
            None => None,
            Some(false) => Some(false),
            Some(true) => sections_outcome(p, secs.skip(1)),
        }
    }
}

/// How processing a document fares: `Some(true)` when it succeeds,
/// `Some(false)` when it fails, `None` when a native component whose
/// rendering is not determined decides.
pub open spec fn outcome<R: Renderer>(p: TemplateParser<R>, md: Seq<char>) -> Option<bool> {
    sections_outcome(p, sections_from(crate::text::lines(md), 0))
}

/// Why a line's text parts from part `j` on fail: the fault of the first
/// part that fails to expand.
pub open spec fn parts_fault<R: Renderer>(p: TemplateParser<R>, ps: Seq<Seq<char>>, j: int) -> Fault
    decreases ps.len() - j,
{
    if j < 0 || j >= ps.len() {
        Fault::Other
    } else if j % 2 == 1 {
        parts_fault(p, ps, j + 1)
    } else {
        match p.expanded_text(ps[j], MAX_NESTING as nat) {
            Some(Err(f)) => f,
            Some(Ok(_)) => parts_fault(p, ps, j + 1),
            None => Fault::Other,
        }
    }
}

/// Why processing a line fails.
pub open spec fn line_fault<R: Renderer>(p: TemplateParser<R>, line: Seq<char>) -> Fault {
    parts_fault(p, crate::text::split_on(line, '`'), 0)
}

/// Why processing text sections in order fails: the fault of the first
/// section that fails.
pub open spec fn sections_fault<R: Renderer>(p: TemplateParser<R>, secs: Seq<Seq<char>>) -> Fault
    decreases secs.len(),
{
    if secs.len() == 0 {
        Fault::Other
    } else {
        match line_outcome(p, secs[0]) {
            Some(false) => line_fault(p, secs[0]),
            Some(true) => sections_fault(p, secs.skip(1)),
            None => Fault::Other,
        }
    }
}

/// Why processing a document fails: the fault of the first template that
/// fails (an unclosed tag is named).
pub open spec fn fault<R: Renderer>(p: TemplateParser<R>, md: Seq<char>) -> Fault {
    sections_fault(p, sections_from(crate::text::lines(md), 0))
}

/// Each section processed as a line.
pub open spec fn sections_processed<R: Renderer>(p: TemplateParser<R>, secs: Seq<Seq<char>>, outs: Seq<Seq<char>>) -> bool {
    outs.len() == secs.len() && forall|k: int| 0 <= k < secs.len() ==> #[trigger] line_processed(p, secs[k], outs[k])
}

/// `out` is what processing `md` with `p` gives: the document split into
/// lines; code blocks copied verbatim; each text section between them
/// processed with inline code untouched; the trailing newline matched to
/// the input.
pub open spec fn processed_as<R: Renderer>(p: TemplateParser<R>, md: Seq<char>, out: Seq<char>) -> bool {
    exists|outs: Seq<Seq<char>>| #[trigger] sections_processed(p, sections_from(crate::text::lines(md), 0), outs)
        && out == match_newline(md, render_from(crate::text::lines(md), 0, outs))
}

/// Processed parts of a line: inline code (odd parts) kept, text parts
/// without templates kept, and text parts whose templates do not nest
/// expanded as `expanded_text` says (with the nesting limit), after `{{//}}` is replaced by the
/// closers of the tags open before it.
pub open spec fn parts_kept<R: Renderer>(p: TemplateParser<R>, parts: Seq<Seq<char>>, outs: Seq<Seq<char>>) -> bool {
    &&& outs.len() == parts.len()
    &&& forall|j: int| 0 <= j < parts.len() && j % 2 == 1 ==> #[trigger] outs[j] == parts[j]
    &&& forall|j: int| 0 <= j < parts.len() && j % 2 == 0 && no_open(parts[j]) ==> #[trigger] outs[j] == parts[j]
    &&& forall|j: int| 0 <= j < parts.len() && j % 2 == 0 && p.expanded_text(parts[j], MAX_NESTING as nat) is Some
        && p.expanded_text(parts[j], MAX_NESTING as nat).unwrap() is Ok
        ==> #[trigger] outs[j] == p.expanded_text(parts[j], MAX_NESTING as nat).unwrap()->Ok_0
}

/// A line processed with its inline code spans untouched: the line split
/// at backticks, each part kept or processed as `parts_kept` says, and
/// joined with backticks again.
pub open spec fn line_processed<R: Renderer>(p: TemplateParser<R>, line: Seq<char>, out: Seq<char>) -> bool {
    exists|outs: Seq<Seq<char>>| #[trigger] parts_kept(p, crate::text::split_on(line, '`'), outs) && out == crate::text::join(outs, "`"@)
}

/// The file assets that processing a line's parts before part `j` may
/// collect, in order: a text part (even index) collects what expanding it
/// collects (with the nesting limit), inline code (odd index) nothing.
pub open spec fn parts_collect<R: Renderer>(p: TemplateParser<R>, ps: Seq<Seq<char>>, j: int, a: Seq<RenderedAsset>) -> bool
    decreases j,
{
    if j <= 0 {
        a.len() == 0
    } else if (j - 1) % 2 == 1 {
        parts_collect(p, ps, j - 1, a)
    } else {
        exists|w: (Seq<RenderedAsset>, Seq<RenderedAsset>)| #[trigger] chosen(w) && parts_collect(p, ps, j - 1, w.0)
            && p.collects_text(ps[j - 1], MAX_NESTING as nat, w.1) && a == w.0 + w.1
    }
}

/// The file assets that processing a line may collect, its inline code
/// left aside.
pub open spec fn line_collects<R: Renderer>(p: TemplateParser<R>, line: Seq<char>, a: Seq<RenderedAsset>) -> bool {
    parts_collect(p, crate::text::split_on(line, '`'), crate::text::split_on(line, '`').len() as int, a)
}

/// The file assets that processing text sections in order may collect:
/// those of each section, one after the other.
pub open spec fn sections_collect<R: Renderer>(p: TemplateParser<R>, secs: Seq<Seq<char>>, a: Seq<RenderedAsset>) -> bool
    decreases secs.len(),
{
    if secs.len() == 0 {
        a.len() == 0
    } else {
        exists|w: (Seq<RenderedAsset>, Seq<RenderedAsset>)| #[trigger] chosen(w) && sections_collect(p, secs.drop_last(), w.0)
            && line_collects(p, secs.last(), w.1) && a == w.0 + w.1
    }
}

/// One more text section, collecting `n` after the sections before it.
pub proof fn lemma_sections_collect_push<R: Renderer>(p: TemplateParser<R>, secs: Seq<Seq<char>>, s: Seq<char>,
    a: Seq<RenderedAsset>, n: Seq<RenderedAsset>)
    requires
        sections_collect(p, secs, a),
        line_collects(p, s, n),
    ensures
        sections_collect(p, secs.push(s), a + n),
{
    assert(secs.push(s).drop_last() =~= secs);
    assert(chosen((a, n)));
}

/// `a` is what processing `md` with `p` may collect: the file assets of the
/// templates in its text sections (outside fenced code blocks and inline
/// code), in text order, each a rendering that the backend may return for a
/// component's primitive.
pub open spec fn collected_as<R: Renderer>(p: TemplateParser<R>, md: Seq<char>, a: Seq<RenderedAsset>) -> bool {
    sections_collect(p, sections_from(crate::text::lines(md), 0), a)
}

/// The text holds no `{{//}}`.
pub open spec fn no_close_all(s: Seq<char>) -> bool {
    forall|p: int| !occurs_at(s, p, "{{//}}"@)
}

/// Kinds of open tags tracked for `{{//}}`.
#[derive(Debug)]
pub enum OpenTag {
    Frame,
    Ui,
    Style(Vec<char>),
}

/// An open tag as a kind (0 frame, 1 component, 2 style) and a style's name.
pub open spec fn tag_view(t: OpenTag) -> (u8, Seq<char>) {
    match t {
        OpenTag::Frame => (0, Seq::empty()),
        OpenTag::Ui => (1, Seq::empty()),
        OpenTag::Style(n) => (2, n@),
    }
}

/// The open tags, innermost last.
pub open spec fn tags_view(v: Seq<OpenTag>) -> Seq<(u8, Seq<char>)> {
    v.map_values(|t: OpenTag| tag_view(t))
}

/// The closing tag of an open tag.
pub open spec fn closer_of(t: (u8, Seq<char>)) -> Seq<char> {
    if t.0 == 0 {
        "{{/}}"@
    } else if t.0 == 1 {
        "{{/ui}}"@
    } else {
        "{{/"@ + t.1 + "}}"@
    }
}

/// The closing tags of all open tags, innermost first.
pub open spec fn closers(t: Seq<(u8, Seq<char>)>) -> Seq<char>
    decreases t.len(),
{
    if t.len() == 0 {
        Seq::empty()
    } else {
        closer_of(t.last()) + closers(t.drop_last())
    }
}

/// A character of a style tag's name.
pub open spec fn style_tag_char(c: char) -> bool {
    char_alphanumeric(c) || c == '-'
}

/// Names that are not styles.
pub open spec fn reserved_name(n: Seq<char>) -> bool {
    n == "frame"@ || n == "fr"@ || n == "ui"@ || n == "shields"@ || n == "glyph"@ || n == "kbd"@
}

/// Where a style tag's arguments end: each `:` takes the text up to the
/// next `:` or `}`.
pub open spec fn args_end(s: Seq<char>, k: int) -> int
    decreases s.len() - k,
{
    if 0 <= k < s.len() && s[k] == ':' {
        proof {
            lemma_scan_while(s, k + 1, |c: char| c != ':' && c != '}');
        }
        args_end(s, scan_while(s, k + 1, |c: char| c != ':' && c != '}'))
    } else {
        k
    }
}

/// The tag that opens at `i`, if one does: a frame (`{{frame:` or `{{fr:`)
/// or a component (`{{ui:`) that does not close itself, or a style tag
/// `{{NAME[:ARG...]}}` whose name is not reserved.
pub open spec fn opened_at(s: Seq<char>, i: int) -> Option<(u8, Seq<char>)> {
    if !(0 <= i && s.len() - i > 1 && s[i] == '{' && s[i + 1] == '{') {
        None
    } else if s.len() - i > 8 && occurs_at(s, i, "{{frame:"@) {
        if closes_itself_from(s, i + 8) { None } else { Some((0u8, Seq::empty())) }
    } else if s.len() - i > 5 && occurs_at(s, i, "{{fr:"@) {
        if closes_itself_from(s, i + 5) { None } else { Some((0u8, Seq::empty())) }
    } else if s.len() - i > 5 && occurs_at(s, i, "{{ui:"@) {
        if closes_itself_from(s, i + 2) { None } else { Some((1u8, Seq::empty())) }
    } else if s.len() - i > 2 && char_alphabetic(s[i + 2]) {
        let j = scan_while(s, i + 2, |c: char| style_tag_char(c));
        let name = s.subrange(i + 2, j);
        if name.len() > 0 && !reserved_name(name) && j < s.len() {
            let k = args_end(s, j);
            if k < s.len() && s.len() - k > 1 && s[k] == '}' && s[k + 1] == '}' && (k == 0 || s[k - 1] != '/') {
                Some((2u8, name))
            } else {
                None
            }
        } else {
            None
        }
    } else {
        None
    }
}

/// The tag kind and name that `{{/NAME}}` at `i` closes: a frame for an
/// empty name, `frame` or `fr`; a component for `ui`; else the style NAME.
pub open spec fn closed_at(s: Seq<char>, i: int) -> Option<(u8, Seq<char>)> {
    if 0 <= i && s.len() - i > 4 && occurs_at(s, i, "{{/"@) {
        let n = s.subrange(i + 3, scan_while(s, i + 3, |c: char| c != '}'));
        if n.len() == 0 || n == "frame"@ || n == "fr"@ {
            Some((0u8, n))
        } else if n == "ui"@ {
            Some((1u8, n))
        } else {
            Some((2u8, n))
        }
    } else {
        None
    }
}

/// The open tags without the last one of a kind (for styles, of that name).
pub open spec fn remove_last_tag(t: Seq<(u8, Seq<char>)>, kind: u8, name: Seq<char>) -> Seq<(u8, Seq<char>)>
    decreases t.len(),
{
    if t.len() == 0 {
        t
    } else if t.last().0 == kind && (kind != 2 || t.last().1 == name) {
        t.drop_last()
    } else {
        remove_last_tag(t.drop_last(), kind, name).push(t.last())
    }
}

/// The open tags after position `i`: a tag opened there is added, then a
/// tag closed there removed.
pub open spec fn tags_after(s: Seq<char>, i: int, t: Seq<(u8, Seq<char>)>) -> Seq<(u8, Seq<char>)> {
    let t1 = match opened_at(s, i) {
        Some(tag) => t.push(tag),
        None => t,
    };
    match closed_at(s, i) {
        Some((k, n)) => remove_last_tag(t1, k, n),
        None => t1,
    }
}

/// The text from `i` on, with the tags `t` open, each `{{//}}` replaced by
/// the closers of the tags open before it (innermost first).
pub open spec fn close_all_from(s: Seq<char>, i: int, t: Seq<(u8, Seq<char>)>) -> Seq<char>
    decreases s.len() - i,
{
    if i < 0 || i >= s.len() {
        Seq::empty()
    } else if s.len() - i > 5 && occurs_at(s, i, "{{//}}"@) {
        closers(t) + close_all_from(s, i + 6, Seq::empty())
    } else {
        seq![s[i]] + close_all_from(s, i + 1, tags_after(s, i, t))
    }
}

fn tag_closer(t: &OpenTag) -> (r: Vec<char>)
    ensures
        r@ == closer_of(tag_view(*t)),
{
    let mut v: Vec<char> = Vec::new();
    match t {
        OpenTag::Frame => push_str_chars(&mut v, "{{/}}"),
        OpenTag::Ui => push_str_chars(&mut v, "{{/ui}}"),
        OpenTag::Style(name) => {
            push_str_chars(&mut v, "{{/");
            push_all(&mut v, name.as_slice());
            push_str_chars(&mut v, "}}");
        },
    }
    v
}

fn is_reserved_name(name: &[char]) -> (b: bool)
    ensures
        b == reserved_name(name@),
{
    let s = string_of(name);
    let n = s.as_str();
    crate::namemap::str_eq(n, "frame") || crate::namemap::str_eq(n, "fr") || crate::namemap::str_eq(n, "ui")
        || crate::namemap::str_eq(n, "shields") || crate::namemap::str_eq(n, "glyph") || crate::namemap::str_eq(n, "kbd")
}

fn same_chars(a: &[char], b: &[char]) -> (r: bool)
    ensures
        r == (a@ == b@),
{
    if a.len() != b.len() {
        return false;
    }
    let r = matches_at(a, 0, b);
    proof {
        assert(a@.subrange(0, b@.len() as int) =~= a@);
    }
    r
}

/// Removing the last matching tag at `j`, with none after it.
proof fn lemma_remove_last_at(t: Seq<(u8, Seq<char>)>, kind: u8, name: Seq<char>, j: int)
    requires
        0 <= j < t.len(),
        t[j].0 == kind && (kind != 2 || t[j].1 == name),
        forall|m: int| j < m < t.len() ==> !(#[trigger] t[m].0 == kind && (kind != 2 || t[m].1 == name)),
    ensures
        remove_last_tag(t, kind, name) == t.remove(j),
    decreases t.len(),
{
    if j == t.len() - 1 {
        assert(t.drop_last() =~= t.remove(j));
    } else {
        assert(t.drop_last()[j] == t[j]);
        assert forall|m: int| j < m < t.drop_last().len() implies !(#[trigger] t.drop_last()[m].0 == kind
            && (kind != 2 || t.drop_last()[m].1 == name)) by {
            assert(t.drop_last()[m] == t[m]);
        }
        lemma_remove_last_at(t.drop_last(), kind, name, j);
        assert(t.drop_last().remove(j).push(t.last()) =~= t.remove(j));
    }
}

/// With no matching tag, nothing is removed.
proof fn lemma_remove_last_none(t: Seq<(u8, Seq<char>)>, kind: u8, name: Seq<char>)
    requires
        forall|m: int| 0 <= m < t.len() ==> !(#[trigger] t[m].0 == kind && (kind != 2 || t[m].1 == name)),
    ensures
        remove_last_tag(t, kind, name) == t,
    decreases t.len(),
{
    if t.len() > 0 {
        assert forall|m: int| 0 <= m < t.drop_last().len() implies !(#[trigger] t.drop_last()[m].0 == kind
            && (kind != 2 || t.drop_last()[m].1 == name)) by {
            assert(t.drop_last()[m] == t[m]);
        }
        lemma_remove_last_none(t.drop_last(), kind, name);
        assert(t.drop_last().push(t.last()) =~= t);
    }
}

/// Removes the last open tag of a kind (for styles, of that name).
fn remove_last(tags: &mut Vec<OpenTag>, kind: u8, closer_name: &[char])
    ensures
        tags_view(final(tags)@) == remove_last_tag(tags_view(old(tags)@), kind, closer_name@),
{
    let ghost t = tags_view(tags@);
    let mut j = tags.len();
    while j > 0
        invariant
            j <= tags@.len(),
            tags@ == old(tags)@,
            t == tags_view(tags@),
            forall|m: int| j <= m < t.len() ==> !(#[trigger] t[m].0 == kind && (kind != 2 || t[m].1 == closer_name@)),
        decreases j,
    {
        j = j - 1;
        let hit = match &tags[j] {
            OpenTag::Frame => kind == 0,
            OpenTag::Ui => kind == 1,
            OpenTag::Style(n) => kind == 2 && same_chars(n.as_slice(), closer_name),
        };
        assert(t[j as int] == tag_view(tags@[j as int]));
        if hit {
            proof {
                lemma_remove_last_at(t, kind, closer_name@, j as int);
            }
            tags.remove(j);
            assert(tags_view(tags@) =~= t.remove(j as int));
            return;
        }
    }
    proof {
        lemma_remove_last_none(t, kind, closer_name@);
    }
}

/// Where a style tag's arguments end.
fn args_end_exec(chars: &[char], j: usize) -> (r: usize)
    requires
        j <= chars@.len(),
    ensures
        r == args_end(chars@, j as int),
        j <= r <= chars@.len(),
{
    let mut k = j;
    while k < chars.len() && chars[k] == ':'
        invariant
            j <= k <= chars@.len(),
            args_end(chars@, k as int) == args_end(chars@, j as int),
        decreases chars.len() - k,
    {
        let k0 = k;
        k = k + 1;
        proof {
            lemma_scan_while(chars@, k0 + 1, |c: char| c != ':' && c != '}');
        }
        while k < chars.len() && chars[k] != ':' && chars[k] != '}'
            invariant
                k0 < k <= chars@.len(),
                scan_while(chars@, k as int, |c: char| c != ':' && c != '}')
                    == scan_while(chars@, k0 + 1, |c: char| c != ':' && c != '}'),
            decreases chars.len() - k,
        {
            k = k + 1;
        }
    }
    k
}

/// The tag that opens at `i`, if one does.
fn opened_tag(chars: &[char], i: usize) -> (r: Option<OpenTag>)
    requires
        i < chars@.len(),
    ensures
        match opened_at(chars@, i as int) {
            Some(tag) => r matches Some(t) && tag_view(t) == tag,
            None => r is None,
        },
{
    proof {
        reveal_strlit("{{frame:");
        reveal_strlit("{{fr:");
        reveal_strlit("{{ui:");
    }
    if !(chars.len() - i > 1 && chars[i] == '{' && chars[i + 1] == '{') {
        return None;
    }
    let frame_open = chars_of("{{frame:");
    let fr_open = chars_of("{{fr:");
    let ui_open = chars_of("{{ui:");
    if chars.len() - i > 8 && matches_at(chars, i, frame_open.as_slice()) {
        if !is_self_closing_frame(chars, i + 8) { Some(OpenTag::Frame) } else { None }
    } else if chars.len() - i > 5 && matches_at(chars, i, fr_open.as_slice()) {
        if !is_self_closing_frame(chars, i + 5) { Some(OpenTag::Frame) } else { None }
    } else if chars.len() - i > 5 && matches_at(chars, i, ui_open.as_slice()) {
        if !is_self_closing_tag(chars, i) { Some(OpenTag::Ui) } else { None }
    } else if chars.len() - i > 2 && is_alphabetic(chars[i + 2]) {
        let mut j = i + 2;
        while j < chars.len() && (is_alphanumeric(chars[j]) || chars[j] == '-')
            invariant
                i + 2 <= j <= chars@.len(),
                scan_while(chars@, j as int, |c: char| style_tag_char(c)) == scan_while(chars@, i + 2, |c: char| style_tag_char(c)),
            decreases chars.len() - j,
        {
            j = j + 1;
        }
        let name = slice_chars(chars, i + 2, j);
        if name.len() > 0 && !is_reserved_name(name.as_slice()) && j < chars.len() {
            let k = args_end_exec(chars, j);
            if k < chars.len() && chars.len() - k > 1 && chars[k] == '}' && chars[k + 1] == '}' && (k == 0 || chars[k - 1] != '/') {
                Some(OpenTag::Style(name))
            } else {
                None
            }
        } else {
            None
        }
    } else {
        None
    }
}

/// The kind and name of the tag that `{{/NAME}}` at `i` closes.
fn closed_tag(chars: &[char], i: usize) -> (r: Option<(u8, Vec<char>)>)
    requires
        i < chars@.len(),
    ensures
        match closed_at(chars@, i as int) {
            Some((k, n)) => r matches Some((rk, rn)) && rk == k && rn@ == n,
            None => r is None,
        },
{
    proof {
        reveal_strlit("{{/");
    }
    let close_open = chars_of("{{/");
    if chars.len() - i > 4 && matches_at(chars, i, close_open.as_slice()) {
        let mut j = i + 3;
        while j < chars.len() && chars[j] != '}'
            invariant
                i + 3 <= j <= chars@.len(),
                scan_while(chars@, j as int, |c: char| c != '}') == scan_while(chars@, i + 3, |c: char| c != '}'),
            decreases chars.len() - j,
        {
            j = j + 1;
        }
        let cname = slice_chars(chars, i + 3, j);
        let cs = string_of(cname.as_slice());
        if cname.len() == 0 || crate::namemap::str_eq(cs.as_str(), "frame") || crate::namemap::str_eq(cs.as_str(), "fr") {
            Some((0u8, cname))
        } else if crate::namemap::str_eq(cs.as_str(), "ui") {
            Some((1u8, cname))
        } else {
            Some((2u8, cname))
        }
    } else {
        None
    }
}

/// Replaces each `{{//}}` by the closing tags of every tag still open
/// (innermost first); self-closing tags are not tracked.
#[verifier::spinoff_prover]
pub fn expand_close_all_chars(chars: &[char]) -> (r: Vec<char>)
    ensures
        r@ == close_all_from(chars@, 0, Seq::empty()),
        no_close_all(chars@) ==> r@ == chars@,
{
    proof {
        reveal_strlit("{{//}}");
    }
    let close_all = chars_of("{{//}}");
    let mut result: Vec<char> = Vec::new();
    let mut tags: Vec<OpenTag> = Vec::new();
    let mut i: usize = 0;
    proof {
        assert(tags_view(tags@) =~= Seq::<(u8, Seq<char>)>::empty());
        assert(result@ + close_all_from(chars@, 0, Seq::empty()) =~= close_all_from(chars@, 0, Seq::empty()));
    }
    while i < chars.len()
        invariant
            i <= chars@.len(),
            close_all@ == "{{//}}"@,
            no_close_all(chars@) ==> result@ == chars@.take(i as int),
            result@ + close_all_from(chars@, i as int, tags_view(tags@)) == close_all_from(chars@, 0, Seq::empty()),
        decreases chars.len() - i,
    {
        if chars.len() - i > 5 && matches_at(chars, i, close_all.as_slice()) {
            let ghost before = result@;
            let ghost tv = tags_view(tags@);
            let mut k = tags.len();
            proof {
                assert(tv.take(k as int) =~= tv);
            }
            while k > 0
                invariant
                    k <= tags@.len(),
                    tv == tags_view(tags@),
                    before + closers(tv) == result@ + closers(tv.take(k as int)),
                decreases k,
            {
                k = k - 1;
                let c = tag_closer(&tags[k]);
                proof {
                    assert(tv.take(k + 1).drop_last() =~= tv.take(k as int));
                    assert(tv.take(k + 1).last() == tag_view(tags@[k as int]));
                }
                push_all(&mut result, c.as_slice());
            }
            proof {
                assert(tv.take(0) =~= Seq::<(u8, Seq<char>)>::empty());
                assert(result@ =~= before + closers(tv));
            }
            tags = Vec::new();
            proof {
                assert(tags_view(tags@) =~= Seq::<(u8, Seq<char>)>::empty());
            }
            i = i + 6;
            continue;
        }
        let ghost tv0 = tags_view(tags@);
        let opened = opened_tag(chars, i);
        if let Some(t) = opened {
            tags.push(t);
        }
        proof {
            assert(tags_view(tags@) =~= match opened_at(chars@, i as int) {
                Some(tag) => tv0.push(tag),
                None => tv0,
            });
        }
        let closed = closed_tag(chars, i);
        if let Some((kind, cname)) = closed {
            remove_last(&mut tags, kind, cname.as_slice());
        }
        let ghost before = result@;
        result.push(chars[i]);
        proof {
            assert(chars@.take(i + 1) =~= chars@.take(i as int).push(chars@[i as int]));
            assert(tags_view(tags@) == tags_after(chars@, i as int, tv0));
            assert(result@ + close_all_from(chars@, i + 1, tags_view(tags@))
                =~= before + close_all_from(chars@, i as int, tv0));
        }
        i = i + 1;
    }
    proof {
        assert(chars@.take(chars@.len() as int) =~= chars@);
        assert(result@ + Seq::<char>::empty() =~= result@);
    }
    result
}

impl<R: Renderer> TemplateParser<R> {
    /// Expands every `{{//}}` into the closers of the tags open before it.
    pub fn expand_close_all(&self, text: &str) -> (r: String)
        ensures
            r@ == close_all_from(text@, 0, Seq::empty()),
            no_close_all(text@) ==> r@ == text@,
    {
        let v = chars_of(text);
        let r = expand_close_all_chars(v.as_slice());
        string_of(r.as_slice())
    }

    fn expand_close_all_chars(&self, text: &[char]) -> (r: Vec<char>)
        ensures
            r@ == close_all_from(text@, 0, Seq::empty()),
            no_close_all(text@) ==> r@ == text@,
    {
        expand_close_all_chars(text)
    }
}

} // verus!
