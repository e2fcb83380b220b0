//! The `tech-group` component: tech, version and license badges placed side
//! by side become one pill. The first badge gets `corners=left`, the middle
//! ones `corners=none`, the last `corners=right`, and every badge inherits the
//! group's parameters that it does not set itself.

use vstd::prelude::*;
use crate::error::Result;
use crate::namemap::NameMap;
use crate::components::{ComponentOutput, find_from, find_seq_from, lemma_find_from, value_end, lemma_value_end, opt_view};
use crate::components::handlers::{u32_param, parse_param};
use crate::text::{chars_of, string_of, push_all, push_str_chars, slice_chars, copy_chars, occurs_at, matches_at, has_substring, contains_chars};

verus! {

/// The component types that take part in a group.
pub open spec fn groupable(t: Seq<char>) -> bool {
    t == "tech"@ || t == "version"@ || t == "license"@
}

/// The type name of the tag that starts at `st`: what follows "{{ui:" up to
/// the first ':', '/' or '}'.
pub open spec fn tag_type(s: Seq<char>, st: int) -> Seq<char> {
    s.subrange(st + 5, value_end(s, st + 5))
}

/// The spans `(start, end)` of the groupable tags at or after `pos`: a tag
/// starts at "{{ui:" and ends just past the first "}}" after it; the search
/// goes on after each tag, groupable or not, and stops at the first "{{ui:"
/// that is never closed.
pub open spec fn group_spans(s: Seq<char>, pos: int) -> Seq<(int, int)>
    decreases s.len() - pos,
{
    let st = find_from(s, "{{ui:"@, pos);
    let e = find_from(s, "}}"@, st);
    if st < 0 || e < 0 {
        Seq::empty()
    } else {
        proof {
            lemma_find_from(s, "{{ui:"@, pos);
            lemma_find_from(s, "}}"@, st);
            reveal_strlit("}}");
        }
        let rest = group_spans(s, e + 2);
        if groupable(tag_type(s, st)) {
            seq![(st, e + 2)] + rest
        } else {
            rest
        }
    }
}

/// The spans lie in order inside `s`, each past `pos`.
pub proof fn lemma_group_spans(s: Seq<char>, pos: int)
    requires
        0 <= pos,
    ensures
        forall|k: int| 0 <= k < group_spans(s, pos).len() ==> pos <= #[trigger] group_spans(s, pos)[k].0
            && group_spans(s, pos)[k].0 + 5 <= group_spans(s, pos)[k].1 <= s.len(),
        forall|k: int| 0 <= k < group_spans(s, pos).len() - 1 ==> #[trigger] group_spans(s, pos)[k].1
            <= group_spans(s, pos)[k + 1].0,
    decreases s.len() - pos,
{
    let st = find_from(s, "{{ui:"@, pos);
    let e = find_from(s, "}}"@, st);
    lemma_find_from(s, "{{ui:"@, pos);
    reveal_strlit("}}");
    reveal_strlit("{{ui:");
    if st >= 0 {
        lemma_find_from(s, "}}"@, st);
        if e >= 0 {
            lemma_group_spans(s, e + 2);
            let rest = group_spans(s, e + 2);
            if e < st + 5 {
                assert(s.subrange(e, e + 2)[0] == '}');
                assert(s[e] == s.subrange(st, st + 5)[e - st]);
            }
            if groupable(tag_type(s, st)) {
                let sp = group_spans(s, pos);
                assert(sp == seq![(st, e + 2)] + rest);
                assert forall|k: int| 0 <= k < sp.len() - 1 implies #[trigger] sp[k].1 <= sp[k + 1].0 by {
                    if k > 0 {
                        assert(sp[k] == rest[k - 1]);
                        assert(sp[k + 1] == rest[k]);
                    }
                }
            }
        }
    }
}

/// The values of a parameter map, as character sequences.
pub open spec fn param_values(p: NameMap<String>) -> Seq<Seq<char>> {
    p.values().map_values(|v: String| v@)
}

/// The group parameters passed to a badge: of the first `n` parameters (in
/// name order), each but `gap` whose `name=` the badge does not hold, as
/// `:name=value`.
pub open spec fn inherited(tag: Seq<char>, names: Seq<Seq<char>>, values: Seq<Seq<char>>, n: int) -> Seq<char>
    decreases n,
{
    if n <= 0 {
        Seq::empty()
    } else {
        let k = names[n - 1];
        let piece = if k != "gap"@ && !has_substring(tag, k + "="@) {
            ":"@ + k + "="@ + values[n - 1]
        } else {
            Seq::empty()
        };
        inherited(tag, names, values, n - 1) + piece
    }
}

/// The corner preset of badge `i` of `n`: none for a lone badge, else `left`
/// for the first, `right` for the last and `none` between.
pub open spec fn corner_preset(i: int, n: int) -> Option<Seq<char>> {
    if n == 1 {
        None
    } else if i == 0 {
        Some("left"@)
    } else if i == n - 1 {
        Some("right"@)
    } else {
        Some("none"@)
    }
}

/// What is added to a badge: the inherited parameters, then `:corners=` with
/// the preset unless the badge sets its corners.
pub open spec fn injection(tag: Seq<char>, p: NameMap<String>, preset: Option<Seq<char>>) -> Seq<char> {
    inherited(tag, p.names(), param_values(p), p.names().len() as int) + match preset {
        Some(c) => if has_substring(tag, "corners="@) {
            Seq::empty()
        } else {
            ":corners="@ + c
        },
        None => Seq::empty(),
    }
}

/// `suffix` ends `s`.
pub open spec fn ends_with(s: Seq<char>, suffix: Seq<char>) -> bool {
    suffix.len() <= s.len() && s.subrange(s.len() - suffix.len(), s.len() as int) == suffix
}

/// A tag with `inj` put before its closing `/}}` or `}}`.
pub open spec fn with_params(tag: Seq<char>, inj: Seq<char>) -> Seq<char> {
    if inj.len() == 0 {
        tag
    } else if ends_with(tag, "/}}"@) {
        tag.subrange(0, tag.len() - "/}}"@.len()) + inj + "/}}"@
    } else if ends_with(tag, "}}"@) {
        tag.subrange(0, tag.len() - "}}"@.len()) + inj + "}}"@
    } else {
        tag
    }
}

/// The text from `from` on, with the badges `k..` of the group rewritten.
pub open spec fn regroup(s: Seq<char>, sp: Seq<(int, int)>, p: NameMap<String>, k: int, from: int) -> Seq<char>
    decreases sp.len() - k,
{
    if k >= sp.len() {
        s.subrange(from, s.len() as int)
    } else {
        let tag = s.subrange(sp[k].0, sp[k].1);
        s.subrange(from, sp[k].0) + with_params(tag, injection(tag, p, corner_preset(k, sp.len() as int)))
            + regroup(s, sp, p, k + 1, sp[k].1)
    }
}

/// What `tech-group` gives: the content unchanged when it holds no groupable
/// badge, else with its badges rewritten, wrapped in a row when `gap` is a
/// positive number.
pub open spec fn tech_group_result(p: NameMap<String>, content: Option<Seq<char>>) -> Seq<char> {
    let s = match content {
        Some(c) => c,
        None => Seq::empty(),
    };
    let sp = group_spans(s, 0);
    if sp.len() == 0 {
        s
    } else {
        let body = regroup(s, sp, p, 0, 0);
        if u32_param(p, "gap"@, 0) > 0 {
            "{{ui:row}}"@ + body + "{{/ui}}"@
        } else {
            body
        }
    }
}

/// The views of a list of spans.
pub open spec fn span_view(v: Seq<(usize, usize)>) -> Seq<(int, int)> {
    v.map_values(|x: (usize, usize)| (x.0 as int, x.1 as int))
}

/// The tag type at `st` is groupable.
fn is_groupable_at(s: &[char], st: usize) -> (b: bool)
    requires
        st + 5 <= s.len(),
    ensures
        b == groupable(tag_type(s@, st as int)),
{
    let mut j = st + 5;
    proof {
        lemma_value_end(s@, st + 5);
    }
    while j < s.len() && s[j] != ':' && s[j] != '/' && s[j] != '}'
        invariant
            st + 5 <= j <= s@.len(),
            value_end(s@, st + 5) == value_end(s@, j as int),
        decreases s.len() - j,
    {
        j = j + 1;
    }
    let t = string_of(slice_chars(s, st + 5, j).as_slice());
    crate::namemap::str_eq(t.as_str(), "tech") || crate::namemap::str_eq(t.as_str(), "version")
        || crate::namemap::str_eq(t.as_str(), "license")
}

/// Finds the groupable badges (`tech`, `version`, `license`) in `content`.
pub fn find_groupable_components(s: &[char]) -> (r: Vec<(usize, usize)>)
    ensures
        span_view(r@) == group_spans(s@, 0),
{
    let open = chars_of("{{ui:");
    let close = chars_of("}}");
    let mut out: Vec<(usize, usize)> = Vec::new();
    let mut pos: usize = 0;
    proof {
        reveal_strlit("}}");
        reveal_strlit("{{ui:");
        assert(span_view(out@) + group_spans(s@, 0) =~= group_spans(s@, 0));
    }
    loop
        invariant
            open@ == "{{ui:"@,
            close@ == "}}"@,
            pos <= s@.len(),
            span_view(out@) + group_spans(s@, pos as int) == group_spans(s@, 0),
        decreases s@.len() - pos,
    {
        let st = match find_seq_from(s, open.as_slice(), pos) {
            Some(i) => i,
            None => {
                assert(group_spans(s@, pos as int) =~= Seq::<(int, int)>::empty());
                assert(span_view(out@) =~= group_spans(s@, 0));
                return out;
            },
        };
        proof {
            lemma_find_from(s@, "{{ui:"@, pos as int);
            reveal_strlit("{{ui:");
        }
        let e = match find_seq_from(s, close.as_slice(), st) {
            Some(i) => i,
            None => {
                assert(group_spans(s@, pos as int) =~= Seq::<(int, int)>::empty());
                assert(span_view(out@) =~= group_spans(s@, 0));
                return out;
            },
        };
        proof {
            lemma_find_from(s@, "}}"@, st as int);
            reveal_strlit("}}");
        }
        assert(e + 2 <= s.len());
        let end = e + 2;
        let ghost rest = group_spans(s@, end as int);
        if is_groupable_at(s, st) {
            let ghost before = out@;
            out.push((st, end));
            proof {
                assert(span_view(out@) =~= span_view(before) + seq![(st as int, end as int)]);
                assert(span_view(out@) + rest =~= span_view(before) + (seq![(st as int, end as int)] + rest));
            }
        }
        pos = end;
    }
}

/// What is added to the badge `tag`, number `k` of `n`.
fn injection_for(tag: &[char], params: &NameMap<String>, k: usize, n: usize) -> (r: Vec<char>)
    requires
        k < n,
    ensures
        r@ == injection(tag@, *params, corner_preset(k as int, n as int)),
{
    let mut r: Vec<char> = Vec::new();
    let len = params.len();
    let mut i: usize = 0;
    while i < len
        invariant
            i <= len,
            len == params.names().len(),
            len == params.values().len(),
            r@ == inherited(tag@, params.names(), param_values(*params), i as int),
        decreases len - i,
    {
        let name = params.name_at(i);
        let value = params.value_at(i);
        let ghost prev = r@;
        if !crate::namemap::str_eq(name.as_str(), "gap") {
            let mut key = chars_of(name.as_str());
            push_str_chars(&mut key, "=");
            if !contains_chars(tag, key.as_slice()) {
                push_str_chars(&mut r, ":");
                push_str_chars(&mut r, name.as_str());
                push_str_chars(&mut r, "=");
                push_str_chars(&mut r, value.as_str());
                assert(r@ =~= prev + (":"@ + name@ + "="@ + value@));
            }
        }
        i = i + 1;
        assert(param_values(*params)[i - 1] == value@);
    }
    let ghost inh = r@;
    if n != 1 {
        let corners = chars_of("corners=");
        if !contains_chars(tag, corners.as_slice()) {
            push_str_chars(&mut r, ":corners=");
            if k == 0 {
                push_str_chars(&mut r, "left");
                assert(r@ =~= inh + (":corners="@ + "left"@));
            } else if k == n - 1 {
                push_str_chars(&mut r, "right");
                assert(r@ =~= inh + (":corners="@ + "right"@));
            } else {
                push_str_chars(&mut r, "none");
                assert(r@ =~= inh + (":corners="@ + "none"@));
            }
        } else {
            assert(r@ =~= inh + Seq::<char>::empty());
        }
    } else {
        assert(r@ =~= inh + Seq::<char>::empty());
    }
    r
}

/// Tests that `suffix` ends `s`.
fn ends_with_chars(s: &[char], suffix: &[char]) -> (b: bool)
    ensures
        b == ends_with(s@, suffix@),
{
    if suffix.len() > s.len() {
        return false;
    }
    let b = matches_at(s, s.len() - suffix.len(), suffix);
    b
}

/// Puts `inj` before the closing `/}}` or `}}` of a tag.
fn with_params_chars(tag: &[char], inj: &[char]) -> (r: Vec<char>)
    ensures
        r@ == with_params(tag@, inj@),
{
    if inj.len() == 0 {
        return copy_chars(tag);
    }
    let sc = chars_of("/}}");
    let cc = chars_of("}}");
    if ends_with_chars(tag, sc.as_slice()) {
        let mut r = slice_chars(tag, 0, tag.len() - sc.len());
        push_all(&mut r, inj);
        push_all(&mut r, sc.as_slice());
        r
    } else if ends_with_chars(tag, cc.as_slice()) {
        let mut r = slice_chars(tag, 0, tag.len() - cc.len());
        push_all(&mut r, inj);
        push_all(&mut r, cc.as_slice());
        r
    } else {
        copy_chars(tag)
    }
}

/// Expands `tech-group`: the badges in its content are joined into one pill.
pub fn handle_tech_group(params: &NameMap<String>, content: Option<&str>) -> (r: Result<ComponentOutput>)
    ensures
        r matches Ok(ComponentOutput::Template(t)) && t@ == tech_group_result(*params, opt_view(content)),
{
    let s: Vec<char> = match content {
        Some(c) => chars_of(c),
        None => Vec::new(),
    };
    let ghost sv = s@;
    assert(sv == match opt_view(content) {
        Some(c) => c,
        None => Seq::<char>::empty(),
    });
    let spans = find_groupable_components(s.as_slice());
    let ghost sp = group_spans(sv, 0);
    let n = spans.len();
    if n == 0 {
        return Ok(ComponentOutput::Template(string_of(s.as_slice())));
    }
    proof {
        lemma_group_spans(sv, 0);
    }
    let mut out: Vec<char> = Vec::new();
    let mut from: usize = 0;
    let mut k: usize = 0;
    assert(out@ + regroup(sv, sp, *params, 0, 0) =~= regroup(sv, sp, *params, 0, 0));
    while k < n
        invariant
            n == sp.len(),
            span_view(spans@) == sp,
            sv == s@,
            sp == group_spans(sv, 0),
            k <= n,
            from <= sv.len(),
            k < n ==> from <= sp[k as int].0,
            forall|j: int| 0 <= j < sp.len() ==> 0 <= #[trigger] sp[j].0 && sp[j].0 + 5 <= sp[j].1 <= sv.len(),
            forall|j: int| 0 <= j < sp.len() - 1 ==> #[trigger] sp[j].1 <= sp[j + 1].0,
            out@ + regroup(sv, sp, *params, k as int, from as int) == regroup(sv, sp, *params, 0, 0),
        decreases n - k,
    {
        let (st, end) = spans[k];
        assert(sp[k as int] == (st as int, end as int));
        let head = slice_chars(s.as_slice(), from, st);
        let tag = slice_chars(s.as_slice(), st, end);
        let inj = injection_for(tag.as_slice(), params, k, n);
        let m = with_params_chars(tag.as_slice(), inj.as_slice());
        let ghost prev = out@;
        push_all(&mut out, head.as_slice());
        push_all(&mut out, m.as_slice());
        proof {
            let rest = regroup(sv, sp, *params, k + 1, end as int);
            assert(regroup(sv, sp, *params, k as int, from as int) == head@ + m@ + rest);
            assert(out@ + rest =~= prev + (head@ + m@ + rest));
        }
        from = end;
        k = k + 1;
    }
    let tail = slice_chars(s.as_slice(), from, s.len());
    push_all(&mut out, tail.as_slice());
    let gap = parse_param(params, "gap", 0);
    if gap > 0 {
        let mut w = chars_of("{{ui:row}}");
        push_all(&mut w, out.as_slice());
        push_str_chars(&mut w, "{{/ui}}");
        Ok(ComponentOutput::Template(string_of(w.as_slice())))
    } else {
        Ok(ComponentOutput::Template(string_of(out.as_slice())))
    }
}

} // verus!
