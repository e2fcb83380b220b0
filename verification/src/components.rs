//! UI components: a semantic layer over primitives, frames and styles.
//!
//! `expand` turns `{{ui:NAME:ARGS}}` into a primitive (native components) or a
//! template for recursive parsing (expand components).

pub mod handlers;
pub mod tech_group;
pub mod params;

use vstd::prelude::*;
use crate::error::{Error, Result};
use crate::namemap::NameMap;
use crate::primitive::Primitive;
use crate::text::{
    chars_of, string_of, push_str_chars, push_all, index_of_from, find_char_from, slice_chars,
    lines, lines_chars, trim, trim_chars, join, join_chars, occurs_at, matches_at,
};

verus! {

/// Post-processing applied to an expanded template.
#[derive(Debug)]
pub enum PostProcess {
    /// No post-processing.
    Plain,
    /// Prefix every line with "> " (Markdown blockquote).
    Blockquote,
    /// Row layout: images become HTML and the whole is wrapped in
    /// `<p align="...">`; applied after recursive parsing.
    Row { align: String },
}

/// A component definition.
#[derive(Debug)]
pub struct ComponentDef {
    /// "native", "expand" or "dynamic".
    pub component_type: String,
    pub self_closing: bool,
    pub description: String,
    pub args: Vec<String>,
    pub template: String,
    pub post_process: PostProcess,
}

/// Components renderer: palette plus component definitions.
#[derive(Debug)]
pub struct ComponentsRenderer {
    palette: NameMap<String>,
    components: NameMap<ComponentDef>,
}

/// What expanding a component gives.
#[derive(Debug)]
pub enum ComponentOutput {
    /// A primitive for the rendering backend.
    Primitive(Primitive),
    /// A template for recursive parsing.
    Template(String),
    /// A template whose post-processing applies after recursive parsing.
    TemplateDelayed { template: String, post_process: PostProcess },
}

/// A component definition seen as its type, whether it closes itself,
/// description, argument names, template and post-processing (a blockquote
/// or nothing).
pub open spec fn def_view(d: ComponentDef) -> (Seq<char>, bool, Seq<char>, Seq<Seq<char>>, Seq<char>, Option<Seq<char>>) {
    (d.component_type@, d.self_closing, d.description@, strs(d.args@), d.template@, match d.post_process {
        PostProcess::Blockquote => Some("blockquote"@),
        _ => None,
    })
}

/// A component table row as a definition holds it: post-processing other
/// than a blockquote is dropped.
pub open spec fn def_row(r: (Seq<char>, bool, Seq<char>, Seq<Seq<char>>, Seq<char>, Option<Seq<char>>)) -> (Seq<char>, bool, Seq<char>, Seq<Seq<char>>, Seq<char>, Option<Seq<char>>) {
    (r.0, r.1, r.2, r.3, r.4, if r.5 == Some("blockquote"@) { Some("blockquote"@) } else { None })
}

/// The built-in components as definitions hold them.
pub open spec fn component_def_table() -> Seq<(Seq<char>, (Seq<char>, bool, Seq<char>, Seq<Seq<char>>, Seq<char>, Option<Seq<char>>))> {
    crate::data::component_table().map_values(|p: (Seq<char>, (Seq<char>, bool, Seq<char>, Seq<Seq<char>>, Seq<char>, Option<Seq<char>>))| (p.0, def_row(p.1)))
}

/// A registry component seen as its definition would hold it.
pub open spec fn source_def(c: crate::registry::Component) -> (Seq<char>, bool, Seq<char>, Seq<Seq<char>>, Seq<char>, Option<Seq<char>>) {
    def_row(crate::data::component_view(c))
}

/// The views of a sequence of strings.
pub open spec fn strs(v: Seq<String>) -> Seq<Seq<char>> {
    v.map_values(|s: String| s@)
}

/// `a` starts with `p`.
pub open spec fn starts_with(a: Seq<char>, p: Seq<char>) -> bool {
    p.len() <= a.len() && a.take(p.len() as int) == p
}

/// The arguments that are not `style=...`, in order.
pub open spec fn without_style(args: Seq<Seq<char>>) -> Seq<Seq<char>>
    decreases args.len(),
{
    if args.len() == 0 {
        Seq::empty()
    } else if starts_with(args.last(), "style="@) {
        without_style(args.drop_last())
    } else {
        without_style(args.drop_last()).push(args.last())
    }
}

/// The value of the last `style=...` argument.
pub open spec fn style_in(args: Seq<Seq<char>>) -> Option<Seq<char>>
    decreases args.len(),
{
    if args.len() == 0 {
        None
    } else if starts_with(args.last(), "style="@) {
        Some(args.last().skip(6))
    } else {
        style_in(args.drop_last())
    }
}

/// The argument holds a `=`.
pub open spec fn has_eq(a: Seq<char>) -> bool {
    index_of_from(a, '=', 0) < a.len()
}

/// The key of a `key=value` argument (before the first `=`).
pub open spec fn param_key(a: Seq<char>) -> Seq<char> {
    a.take(index_of_from(a, '=', 0))
}

/// The value of a `key=value` argument (after the first `=`).
pub open spec fn param_value(a: Seq<char>) -> Seq<char> {
    a.skip(index_of_from(a, '=', 0) + 1)
}

/// The arguments without a `=`, in order.
pub open spec fn positional(args: Seq<Seq<char>>) -> Seq<Seq<char>>
    decreases args.len(),
{
    if args.len() == 0 {
        Seq::empty()
    } else if has_eq(args.last()) {
        positional(args.drop_last())
    } else {
        positional(args.drop_last()).push(args.last())
    }
}

/// The value given to `k` by the last `k=...` argument.
pub open spec fn param_in(args: Seq<Seq<char>>, k: Seq<char>) -> Option<Seq<char>>
    decreases args.len(),
{
    if args.len() == 0 {
        None
    } else if has_eq(args.last()) && param_key(args.last()) == k {
        Some(param_value(args.last()))
    } else {
        param_in(args.drop_last(), k)
    }
}

/// A parameter map agrees with the `key=value` arguments (last one wins).
pub open spec fn params_of(p: NameMap<String>, args: Seq<Seq<char>>) -> bool {
    forall|k: Seq<char>| #![trigger p.has(k)] #![trigger param_in(args, k)]
        (p.has(k) <==> param_in(args, k) is Some) && (p.has(k) ==> p.value_of(k)@ == param_in(args, k).unwrap())
}

/// The value of a parameter, if given.
pub open spec fn param(p: NameMap<String>, k: Seq<char>) -> Option<Seq<char>> {
    if p.has(k) {
        Some(p.value_of(k)@)
    } else {
        None
    }
}

/// A line of a blockquote: ">" for a blank line, else "> " before it.
pub open spec fn quote_line(l: Seq<char>) -> Seq<char> {
    if trim(l).len() == 0 {
        ">"@
    } else {
        "> "@ + l
    }
}

/// Every line of `s` quoted, joined by newlines.
pub open spec fn blockquote(s: Seq<char>) -> Seq<char> {
    join(lines(s).map_values(|l: Seq<char>| quote_line(l)), "\n"@)
}

impl ComponentsRenderer {
    /// Splits `style=...` out of the arguments: the others in order, and the last
    /// style given (the default style when none is).
    pub fn split_style_arg(args: &[String]) -> (r: (Vec<String>, String))
        ensures
            strs(r.0@) == without_style(strs(args@)),
            r.1@ == (match style_in(strs(args@)) {
                Some(s) => s,
                None => "flat-square"@,
            }),
    {
        let ghost a = strs(args@);
        let mut style: Option<String> = None;
        let mut kept: Vec<String> = Vec::new();
        let mut i: usize = 0;
        let pre = chars_of("style=");
        proof {
            reveal_strlit("style=");
        }
        while i < args.len()
            invariant
                i <= args@.len(),
                a == strs(args@),
                pre@ == "style="@,
                strs(kept@) == without_style(a.take(i as int)),
                style matches Some(s) ==> style_in(a.take(i as int)) == Some(s@),
                style is None ==> style_in(a.take(i as int)) is None,
            decreases args.len() - i,
        {
            let v = chars_of(args[i].as_str());
            proof {
                reveal_strlit("style=");
                assert(a.take(i + 1).drop_last() =~= a.take(i as int));
                assert(a.take(i + 1).last() == args@[i as int]@);
            }
            if matches_at(v.as_slice(), 0, pre.as_slice()) {
                let rest = slice_chars(v.as_slice(), 6, v.len());
                style = Some(string_of(rest.as_slice()));
                proof {
                    assert(v@.subrange(0, 6) =~= v@.take(6));
                }
            } else {
                proof {
                    if starts_with(v@, "style="@) {
                        assert(v@.subrange(0, 6) =~= v@.take(6));
                    }
                }
                let ghost before = kept@;
                kept.push(args[i].clone());
                proof {
                    assert(strs(kept@) =~= strs(before).push(args@[i as int]@));
                }
            }
            i = i + 1;
        }
        proof {
            assert(a.take(args@.len() as int) =~= a);
        }
        let s = match style {
            Some(s) => s,
            None => Primitive::default_style().to_owned(),
        };
        (kept, s)
    }

    /// Splits the arguments into positional ones (no `=`) and a map of
    /// `key=value` parameters (split at the first `=`; the last value wins).
    pub fn extract_params(args: &[String]) -> (r: (Vec<String>, NameMap<String>))
        ensures
            strs(r.0@) == positional(strs(args@)),
            params_of(r.1, strs(args@)),
    {
        let ghost a = strs(args@);
        let mut params: NameMap<String> = NameMap::new();
        let mut pos: Vec<String> = Vec::new();
        let mut i: usize = 0;
        while i < args.len()
            invariant
                i <= args@.len(),
                a == strs(args@),
                strs(pos@) == positional(a.take(i as int)),
                params_of(params, a.take(i as int)),
            decreases args.len() - i,
        {
            let v = chars_of(args[i].as_str());
            let ghost t = a.take(i + 1);
            proof {
                assert(t.drop_last() =~= a.take(i as int));
                assert(t.last() == v@);
            }
            let e = find_char_from(v.as_slice(), '=', 0);
            if e < v.len() {
                let key = string_of(slice_chars(v.as_slice(), 0, e).as_slice());
                let value = string_of(slice_chars(v.as_slice(), e + 1, v.len()).as_slice());
                let ghost old_params = params;
                params.insert(key, value);
                proof {
                    assert(key@ =~= param_key(v@));
                    assert(value@ =~= param_value(v@));
                    assert forall|k: Seq<char>| #![trigger params.has(k)] #![trigger param_in(t, k)]
                        (params.has(k) <==> param_in(t, k) is Some) && (params.has(k) ==> params.value_of(k)@ == param_in(t, k).unwrap()) by {
                        if k != key@ {
                            assert(param_in(t, k) == param_in(a.take(i as int), k));
                            assert(old_params.has(k) <==> param_in(a.take(i as int), k) is Some);
                        }
                    }
                }
            } else {
                let ghost before = pos@;
                pos.push(args[i].clone());
                proof {
                    assert(strs(pos@) =~= strs(before).push(args@[i as int]@));
                    assert forall|k: Seq<char>| #![trigger params.has(k)] #![trigger param_in(t, k)]
                        (params.has(k) <==> param_in(t, k) is Some) && (params.has(k) ==> params.value_of(k)@ == param_in(t, k).unwrap()) by {
                        assert(param_in(t, k) == param_in(a.take(i as int), k));
                    }
                }
            }
            i = i + 1;
        }
        proof {
            assert(a.take(args@.len() as int) =~= a);
        }
        (pos, params)
    }

    /// Prefixes every line with "> " (blank lines become ">") and joins them
    /// with newlines.
    pub fn apply_blockquote(&self, content: &str) -> (r: String)
        ensures
            r@ == blockquote(content@),
    {
        let v = chars_of(content);
        let ls = lines_chars(v.as_slice());
        let mut out: Vec<Vec<char>> = Vec::new();
        let mut i: usize = 0;
        proof {
            reveal_strlit(">");
            reveal_strlit("> ");
            reveal_strlit("\n");
        }
        while i < ls.len()
            invariant
                i <= ls@.len(),
                ls@.len() == lines(v@).len(),
                forall|k: int| 0 <= k < ls@.len() ==> #[trigger] ls@[k]@ == lines(v@)[k],
                out@.len() == i,
                forall|k: int| 0 <= k < i ==> #[trigger] out@[k]@ == quote_line(lines(v@)[k]),
            decreases ls.len() - i,
        {
            let t = trim_chars(ls[i].as_slice());
            proof {
                reveal_strlit(">");
                reveal_strlit("> ");
            }
            let mut q: Vec<char> = Vec::new();
            if t.len() == 0 {
                q.push('>');
            } else {
                q.push('>');
                q.push(' ');
                push_all(&mut q, ls[i].as_slice());
            }
            proof {
                assert(q@ =~= quote_line(lines(v@)[i as int]));
            }
            out.push(q);
            i = i + 1;
        }
        let nl = chars_of("\n");
        proof {
            assert(out@.map_values(|p: Vec<char>| p@) =~= lines(content@).map_values(|l: Seq<char>| quote_line(l)));
        }
        let r = join_chars(&out, nl.as_slice());
        string_of(r.as_slice())
    }


    /// Lays out rendered content as a row (see `handlers::apply_row`).
    pub fn apply_row(content: &str, align: &str) -> (r: String)
        ensures
            r@ == handlers::row_html(content@, align@),
    {
        handlers::apply_row(content, align)
    }
}

/// Membership after a push.
pub proof fn lemma_push_contains<A>(s: Seq<A>, x: A, y: A)
    ensures
        s.push(x).contains(y) == (s.contains(y) || x == y),
{
    if s.push(x).contains(y) {
        let j = choose|j: int| 0 <= j < s.push(x).len() && s.push(x)[j] == y;
        if j < s.len() {
            assert(s[j] == y);
        }
    }
    if s.contains(y) {
        let j = choose|j: int| 0 <= j < s.len() && s[j] == y;
        assert(s.push(x)[j] == y);
    }
    if x == y {
        assert(s.push(x)[s.len() as int] == y);
    }
}

/// The text holds a comma.
pub open spec fn has_comma(s: Seq<char>) -> bool {
    exists|i: int| 0 <= i < s.len() && s[i] == ','
}

/// Exec test of `has_comma`.
pub fn contains_comma(s: &[char]) -> (b: bool)
    ensures
        b == has_comma(s@),
{
    let mut i: usize = 0;
    while i < s.len()
        invariant
            i <= s@.len(),
            forall|j: int| 0 <= j < i ==> s@[j] != ',',
        decreases s.len() - i,
    {
        if s[i] == ',' {
            return true;
        }
        i = i + 1;
    }
    false
}

/// Exec test for a '+' in the text.
pub fn contains_plus(s: &[char]) -> (b: bool)
    ensures
        b == (exists|i: int| 0 <= i < s@.len() && s@[i] == '+'),
{
    let mut i: usize = 0;
    while i < s.len()
        invariant
            i <= s@.len(),
            forall|j: int| 0 <= j < i ==> s@[j] != '+',
        decreases s.len() - i,
    {
        if s[i] == '+' {
            return true;
        }
        i = i + 1;
    }
    false
}

/// The first index `>= from` at which `pat` occurs in `s`, or -1.
pub open spec fn find_from(s: Seq<char>, pat: Seq<char>, from: int) -> int
    decreases s.len() - from,
{
    if from < 0 || from >= s.len() {
        -1
    } else if occurs_at(s, from, pat) {
        from
    } else {
        find_from(s, pat, from + 1)
    }
}

/// What `find_from` returns.
pub proof fn lemma_find_from(s: Seq<char>, pat: Seq<char>, from: int)
    ensures
        find_from(s, pat, from) >= 0 ==> from <= find_from(s, pat, from) && occurs_at(s, find_from(s, pat, from), pat),
        find_from(s, pat, from) < 0 ==> find_from(s, pat, from) == -1,
        find_from(s, pat, from) >= 0 ==> forall|i: int| from <= i < find_from(s, pat, from) ==> !occurs_at(s, i, pat),
    decreases s.len() - from,
{
    if from >= 0 && from < s.len() && !occurs_at(s, from, pat) {
        lemma_find_from(s, pat, from + 1);
    }
}

/// A character that ends a parameter value inside a template.
pub open spec fn value_stop(c: char) -> bool {
    c == ':' || c == '/' || c == '}'
}

/// The first index `>= from` holding a value stop, or `s.len()`.
pub open spec fn value_end(s: Seq<char>, from: int) -> int
    decreases s.len() - from,
{
    if from >= s.len() {
        s.len() as int
    } else if value_stop(s[from]) {
        from
    } else {
        value_end(s, from + 1)
    }
}

/// What `value_end` returns.
pub proof fn lemma_value_end(s: Seq<char>, from: int)
    requires
        0 <= from <= s.len(),
    ensures
        from <= value_end(s, from) <= s.len(),
        value_end(s, from) < s.len() ==> value_stop(s[value_end(s, from)]),
        forall|i: int| from <= i < value_end(s, from) ==> !value_stop(#[trigger] s[i]),
    decreases s.len() - from,
{
    if from < s.len() && !value_stop(s[from]) {
        lemma_value_end(s, from + 1);
    }
}

/// The parameter keys whose values may name palette colors.
pub open spec fn color_params() -> Seq<Seq<char>> {
    seq!["color="@, "colors="@, "bg="@, "logoColor="@, "labelColor="@, "label_color="@, "icon_color="@]
}

impl ComponentsRenderer {
    /// The palette (color name to hex).
    pub closed spec fn palette(self) -> NameMap<String> {
        self.palette
    }

    /// The component definitions by name.
    pub closed spec fn components(self) -> NameMap<ComponentDef> {
        self.components
    }

    /// A color argument resolved: its palette value, else itself.
    pub open spec fn color_of(self, c: Seq<char>) -> Seq<char> {
        if self.palette().has(c) {
            self.palette().value_of(c)@
        } else {
            c
        }
    }

    /// A comma-separated list with each piece resolved.
    pub open spec fn resolve_list(self, v: Seq<char>) -> Seq<char> {
        join(crate::text::split_on(v, ',').map_values(|p: Seq<char>| self.color_of(p)), ","@)
    }

    /// Resolves the values of every `pat` parameter at or after `from`,
    /// continuing after each resolved value.
    pub open spec fn refs_from(self, s: Seq<char>, pat: Seq<char>, from: int) -> Seq<char>
        decreases s.len() - from,
    {
        let st = find_from(s, pat, from);
        if pat.len() == 0 || from < 0 || st < 0 {
            s
        } else {
            let a = st + pat.len();
            let e = value_end(s, a);
            let rv = self.resolve_list(s.subrange(a, e));
            let ns = s.take(a) + rv + s.skip(e);
            proof {
                lemma_find_from(s, pat, from);
                lemma_value_end(s, a);
            }
            self.refs_from(ns, pat, a + rv.len())
        }
    }

    /// Palette references resolved for each color parameter key in turn.
    pub open spec fn palette_refs(self, s: Seq<char>) -> Seq<char> {
        let k = color_params();
        self.refs_from(self.refs_from(self.refs_from(self.refs_from(self.refs_from(self.refs_from(
            self.refs_from(s, k[0], 0), k[1], 0), k[2], 0), k[3], 0), k[4], 0), k[5], 0), k[6], 0)
    }

    /// The template with `$1`, `$2`, ... replaced, in order, by the first `n`
    /// arguments resolved as colors.
    pub open spec fn subst_args(self, t: Seq<char>, args: Seq<Seq<char>>, n: nat) -> Seq<char>
        decreases n,
    {
        if n == 0 {
            t
        } else {
            crate::text::replace_all(self.subst_args(t, args, (n - 1) as nat), "$"@ + crate::text::decimal(n),
                self.color_of(args[n - 1]))
        }
    }

    /// What a template expansion gives before post-processing.
    pub open spec fn expanded(self, t: Seq<char>, args: Seq<Seq<char>>, content: Option<Seq<char>>) -> Seq<char> {
        let a = self.subst_args(t, args, args.len());
        let b = match content {
            Some(c) => crate::text::replace_all(a, "$content"@, c),
            None => a,
        };
        self.palette_refs(b)
    }

    /// The full expansion of an expand-type component definition.
    pub open spec fn template_result(self, d: ComponentDef, args: Seq<Seq<char>>, content: Option<Seq<char>>) -> Seq<char> {
        let e = self.expanded(d.template@, args, content);
        match d.post_process {
            PostProcess::Blockquote => blockquote(e),
            _ => e,
        }
    }

    /// The renderer holds the built-in components as the table gives them
    /// (type, whether self-closing, description, argument names, template,
    /// and post-processing, of which only a blockquote is kept).
    pub open spec fn holds_builtin_defs(self) -> bool {
        forall|k: Seq<char>| #[trigger] self.components().has(k) ==> def_view(self.components().value_of(k))
            == crate::data::row_for(component_def_table(), k)
    }

    /// A component renderer over the built-in palette and component table.
    pub fn new() -> (r: Result<Self>)
        ensures
            r matches Ok(c) && c.is_builtin() && c.holds_builtin_defs(),
    {
        let data = crate::data::registry_data();
        let mut defs: Vec<(String, ComponentDef)> = Vec::new();
        let mut src = data.components;
        proof {
            assert(crate::data::entry_names(defs@) + crate::data::entry_names(src@) =~= crate::data::entry_names(src@));
            assert(crate::data::keyed(defs@, |d: ComponentDef| def_view(d)) + crate::data::keyed(src@, |c: crate::registry::Component| source_def(c))
                =~= component_def_table());
        }
        while src.len() > 0
            invariant
                crate::data::entry_names(defs@) + crate::data::entry_names(src@) == crate::data::component_names(),
                crate::data::keyed(defs@, |d: ComponentDef| def_view(d)) + crate::data::keyed(src@, |c: crate::registry::Component| source_def(c))
                    == component_def_table(),
            decreases src.len(),
        {
            let ghost d0 = defs@;
            let ghost s0 = src@;
            let (name, c) = src.remove(0);
            proof {
                reveal_strlit("blockquote");
            }
            let post = match &c.post_process {
                Some(p) => if crate::namemap::str_eq(p.as_str(), "blockquote") { PostProcess::Blockquote } else { PostProcess::Plain },
                None => PostProcess::Plain,
            };
            let description = match c.description { Some(d) => d, None => String::new() };
            let template = match c.template { Some(t) => t, None => String::new() };
            defs.push((name, ComponentDef {
                component_type: c.component_type,
                self_closing: c.self_closing,
                description,
                args: c.args,
                template,
                post_process: post,
            }));
            proof {
                assert(crate::data::entry_names(defs@) =~= crate::data::entry_names(d0).push(s0[0].0@));
                assert(crate::data::entry_names(src@) =~= crate::data::entry_names(s0).skip(1));
                assert(crate::data::entry_names(defs@) + crate::data::entry_names(src@) =~= crate::data::entry_names(d0)
                    + crate::data::entry_names(s0));
                crate::data::lemma_keyed_push(d0, defs@.last(), |d: ComponentDef| def_view(d));
                assert(defs@ == d0.push(defs@.last()));
                assert(def_view(defs@.last().1) == source_def(s0[0].1));
                assert(crate::data::keyed(src@, |c: crate::registry::Component| source_def(c))
                    =~= crate::data::keyed(s0, |c: crate::registry::Component| source_def(c)).skip(1));
                assert(crate::data::keyed(defs@, |d: ComponentDef| def_view(d)) + crate::data::keyed(src@, |c: crate::registry::Component| source_def(c))
                    =~= crate::data::keyed(d0, |d: ComponentDef| def_view(d)) + crate::data::keyed(s0, |c: crate::registry::Component| source_def(c)));
            }
        }
        proof {
            assert(crate::data::entry_names(src@) =~= Seq::<Seq<char>>::empty());
            assert(crate::data::entry_names(defs@) =~= crate::data::component_names());
            assert(crate::data::keyed(src@, |c: crate::registry::Component| source_def(c)) =~= Seq::<(Seq<char>, (Seq<char>, bool, Seq<char>, Seq<Seq<char>>, Seq<char>, Option<Seq<char>>))>::empty());
            assert(crate::data::keyed(defs@, |d: ComponentDef| def_view(d)) =~= component_def_table());
        }
        let palette = NameMap::from_entries(data.palette);
        let components = NameMap::from_entries(defs);
        let r = ComponentsRenderer { palette, components };
        proof {
            assert forall|k: Seq<char>| #[trigger] r.components().has(k) <==> crate::data::component_names().contains(k) by {
                crate::data::lemma_name_found(defs@, k);
            }
            assert forall|k: Seq<char>| #[trigger] r.components().has(k) implies def_view(r.components().value_of(k))
                == crate::data::row_for(component_def_table(), k) by {
                crate::data::lemma_row_for(defs@, |d: ComponentDef| def_view(d), k);
            }
            assert forall|k: Seq<char>| #[trigger] r.palette().has(k) <==> crate::data::table_names(crate::data::palette_table()).contains(k) by {
                crate::data::lemma_name_found(data.palette@, k);
                assert(crate::data::entry_names(data.palette@) =~= crate::data::table_names(crate::data::text_pairs(data.palette@)));
            }
            assert forall|k: Seq<char>| #[trigger] r.palette().has(k) implies r.palette().value_of(k)@
                == crate::data::table_value(crate::data::palette_table(), k) by {
                crate::data::lemma_name_value(data.palette@, k);
            }
        }
        Ok(r)
    }

    /// The renderer holds the built-in palette (names and values) and the
    /// built-in components.
    pub open spec fn is_builtin(self) -> bool {
        &&& forall|k: Seq<char>| #[trigger] self.components().has(k) <==> crate::data::component_names().contains(k)
        &&& forall|k: Seq<char>| #[trigger] self.palette().has(k) <==> crate::data::table_names(crate::data::palette_table()).contains(k)
        &&& forall|k: Seq<char>| #[trigger] self.palette().has(k) ==> self.palette().value_of(k)@
            == crate::data::table_value(crate::data::palette_table(), k)
    }

    /// Adds custom colors; a custom color replaces a built-in one of the same name.
    pub fn extend_palette(&mut self, custom_palette: NameMap<String>)
        ensures
            palette_extended(old(self).palette(), final(self).palette(), custom_palette),
            final(self).components() == old(self).components(),
    {
        let n = custom_palette.len();
        let mut i: usize = 0;
        while i < n
            invariant
                i <= n,
                n == custom_palette.names().len(),
                n == custom_palette.values().len(),
                crate::namemap::sorted_names(custom_palette.names()),
                self.components() == old(self).components(),
                forall|k: Seq<char>| #[trigger] self.palette.has(k) == (old(self).palette.has(k)
                    || custom_palette.names().take(i as int).contains(k)),
                forall|k: Seq<char>| custom_palette.names().take(i as int).contains(k) ==> #[trigger] self.palette.value_of(k)
                    == custom_palette.value_of(k),
                forall|k: Seq<char>| !custom_palette.names().take(i as int).contains(k) && old(self).palette.has(k)
                    ==> #[trigger] self.palette.value_of(k) == old(self).palette.value_of(k),
            decreases n - i,
        {
            let k = custom_palette.name_at(i).clone();
            let v = custom_palette.value_at(i).clone();
            let ghost kv = k@;
            let ghost pre = custom_palette.names().take(i as int);
            proof {
                crate::namemap::lemma_sorted_index(custom_palette.names(), i as int);
                assert(custom_palette.names().take(i + 1) =~= pre.push(kv));
            }
            self.palette.insert(k, v);
            proof {
                assert forall|n: Seq<char>| #[trigger] self.palette.has(n) == (old(self).palette.has(n)
                    || pre.push(kv).contains(n)) by {
                    lemma_push_contains(pre, kv, n);
                }
                assert forall|n: Seq<char>| pre.push(kv).contains(n) implies #[trigger] self.palette.value_of(n)
                    == custom_palette.value_of(n) by {
                    lemma_push_contains(pre, kv, n);
                }
                assert forall|n: Seq<char>| !pre.push(kv).contains(n) && old(self).palette.has(n)
                    implies #[trigger] self.palette.value_of(n) == old(self).palette.value_of(n) by {
                    lemma_push_contains(pre, kv, n);
                }
            }
            i = i + 1;
        }
        proof {
            assert(custom_palette.names().take(n as int) =~= custom_palette.names());
        }
    }

    /// Resolves a color from the palette, passing anything else through.
    pub fn resolve_color(&self, color: &str) -> (r: String)
        ensures
            r@ == self.color_of(color@),
    {
        match self.palette.get(color) {
            Some(h) => h.clone(),
            None => color.to_owned(),
        }
    }

    /// Whether a component exists.
    pub fn has(&self, name: &str) -> (b: bool)
        ensures
            b == self.components().has(name@),
    {
        self.components.contains_key(name)
    }

    /// A component definition by name.
    pub fn get(&self, name: &str) -> (r: Option<&ComponentDef>)
        ensures
            r is Some <==> self.components().has(name@),
            r matches Some(d) ==> *d == self.components().value_of(name@),
    {
        self.components.get(name)
    }

    /// All components as (name, definition), sorted by name.
    pub fn list(&self) -> (r: Vec<(&String, &ComponentDef)>)
        ensures
            r@.len() == self.components().names().len(),
            forall|i: int| 0 <= i < r@.len() ==> (#[trigger] r@[i]).0@ == self.components().names()[i]
                && *r@[i].1 == self.components().values()[i],
            crate::namemap::sorted_names(self.components().names()),
    {
        let n = self.components.len();
        let mut r: Vec<(&String, &ComponentDef)> = Vec::new();
        let mut i: usize = 0;
        while i < n
            invariant
                i <= n,
                n == self.components().values().len(),
                n == self.components().names().len(),
                crate::namemap::sorted_names(self.components().names()),
                r@.len() == i,
                forall|j: int| 0 <= j < i ==> (#[trigger] r@[j]).0@ == self.components().names()[j]
                    && *r@[j].1 == self.components().values()[j],
            decreases n - i,
        {
            r.push((self.components.name_at(i), self.components.value_at(i)));
            i = i + 1;
        }
        r
    }

    /// All palette colors as (name, hex), sorted by name.
    pub fn list_palette(&self) -> (r: Vec<(&String, &String)>)
        ensures
            r@.len() == self.palette().names().len(),
            forall|i: int| 0 <= i < r@.len() ==> (#[trigger] r@[i]).0@ == self.palette().names()[i]
                && *r@[i].1 == self.palette().values()[i],
            crate::namemap::sorted_names(self.palette().names()),
    {
        crate::shields::palette_entries(&self.palette)
    }
}


/// The view of an optional string slice.
pub open spec fn opt_view(o: Option<&str>) -> Option<Seq<char>> {
    match o {
        Some(c) => Some(c@),
        None => None,
    }
}

/// The message for an unknown component name.
pub open spec fn unknown_component_msg(name: Seq<char>) -> Seq<char> {
    "Unknown component '"@ + name + "'. Run `mdfx components list` to see available components."@
}

/// Exec search for the first occurrence of `pat` at or after `from`.
pub fn find_seq_from(s: &[char], pat: &[char], from: usize) -> (r: Option<usize>)
    ensures
        r matches Some(i) ==> i as int == find_from(s@, pat@, from as int),
        r is None ==> find_from(s@, pat@, from as int) < 0,
{
    let mut i = from;
    while i < s.len()
        invariant
            from <= i || i == from,
            find_from(s@, pat@, from as int) == (if i >= s@.len() { -1 } else { find_from(s@, pat@, i as int) }),
            from <= i,
        decreases s.len() - i,
    {
        if matches_at(s, i, pat) {
            return Some(i);
        }
        assert(find_from(s@, pat@, i as int) == find_from(s@, pat@, i + 1));
        i = i + 1;
    }
    None
}

/// Exec `value_end`.
fn value_end_exec(s: &[char], from: usize) -> (r: usize)
    requires
        from <= s@.len(),
    ensures
        r as int == value_end(s@, from as int),
{
    let mut i = from;
    while i < s.len() && !(s[i] == ':' || s[i] == '/' || s[i] == '}')
        invariant
            from <= i <= s@.len(),
            value_end(s@, from as int) == value_end(s@, i as int),
        decreases s.len() - i,
    {
        i = i + 1;
    }
    i
}

impl ComponentsRenderer {
    /// Resolves each comma-separated piece of a value as a color.
    fn resolve_list_exec(&self, v: &[char]) -> (r: Vec<char>)
        ensures
            r@ == self.resolve_list(v@),
    {
        let parts = crate::text::split_chars(v, ',');
        let mut out: Vec<Vec<char>> = Vec::new();
        let mut i: usize = 0;
        while i < parts.len()
            invariant
                i <= parts@.len(),
                parts@.len() == crate::text::split_on(v@, ',').len(),
                forall|k: int| 0 <= k < parts@.len() ==> #[trigger] parts@[k]@ == crate::text::split_on(v@, ',')[k],
                out@.len() == i,
                forall|k: int| 0 <= k < i ==> #[trigger] out@[k]@ == self.color_of(crate::text::split_on(v@, ',')[k]),
            decreases parts.len() - i,
        {
            let name = string_of(parts[i].as_slice());
            let c = self.resolve_color(name.as_str());
            out.push(chars_of(c.as_str()));
            i = i + 1;
        }
        let comma = chars_of(",");
        proof {
            assert(out@.map_values(|p: Vec<char>| p@) =~= crate::text::split_on(v@, ',').map_values(|p: Seq<char>| self.color_of(p)));
        }
        join_chars(&out, comma.as_slice())
    }

    /// Resolves the values of every `pat` parameter in `s`.
    fn refs_one(&self, s: Vec<char>, pat: &[char]) -> (r: Vec<char>)
        requires
            pat@.len() > 0,
        ensures
            r@ == self.refs_from(s@, pat@, 0),
    {
        let mut cur = s;
        let mut pos: usize = 0;
        loop
            invariant
                pat@.len() > 0,
                pos <= cur@.len(),
                self.refs_from(cur@, pat@, pos as int) == self.refs_from(s@, pat@, 0),
            decreases cur@.len() - pos,
        {
            match find_seq_from(cur.as_slice(), pat, pos) {
                None => {
                    return cur;
                },
                Some(st) => {
                    let clen = cur.len();
                    proof {
                        lemma_find_from(cur@, pat@, pos as int);
                        assert(occurs_at(cur@, st as int, pat@));
                        assert(st + pat@.len() <= cur@.len());
                    }
                    let a = st + pat.len();
                    proof {
                        lemma_value_end(cur@, a as int);
                    }
                    let e = value_end_exec(cur.as_slice(), a);
                    let value = slice_chars(cur.as_slice(), a, e);
                    let rv = self.resolve_list_exec(value.as_slice());
                    let mut ns = slice_chars(cur.as_slice(), 0, a);
                    push_all(&mut ns, rv.as_slice());
                    let tail = slice_chars(cur.as_slice(), e, cur.len());
                    push_all(&mut ns, tail.as_slice());
                    proof {
                        assert(ns@ =~= cur@.take(a as int) + rv@ + cur@.skip(e as int));
                        assert(value@ =~= cur@.subrange(a as int, e as int));
                        assert(a + rv@.len() <= ns@.len());
                    }
                    let nlen = ns.len();
                    assert(a + rv@.len() <= nlen);
                    pos = a + rv.len();
                    cur = ns;
                },
            }
        }
    }

    /// Resolves palette names in the values of color parameters
    /// (`color=`, `colors=`, `bg=`, `logoColor=`, `labelColor=`,
    /// `label_color=`, `icon_color=`), comma-separated lists included.
    pub fn resolve_palette_refs(&self, template: &str) -> (r: String)
        ensures
            r@ == self.palette_refs(template@),
    {
        proof {
            reveal_strlit("color=");
            reveal_strlit("colors=");
            reveal_strlit("bg=");
            reveal_strlit("logoColor=");
            reveal_strlit("labelColor=");
            reveal_strlit("label_color=");
            reveal_strlit("icon_color=");
        }
        let k0 = chars_of("color=");
        let k1 = chars_of("colors=");
        let k2 = chars_of("bg=");
        let k3 = chars_of("logoColor=");
        let k4 = chars_of("labelColor=");
        let k5 = chars_of("label_color=");
        let k6 = chars_of("icon_color=");
        let c0 = self.refs_one(chars_of(template), k0.as_slice());
        let c1 = self.refs_one(c0, k1.as_slice());
        let c2 = self.refs_one(c1, k2.as_slice());
        let c3 = self.refs_one(c2, k3.as_slice());
        let c4 = self.refs_one(c3, k4.as_slice());
        let c5 = self.refs_one(c4, k5.as_slice());
        let c6 = self.refs_one(c5, k6.as_slice());
        string_of(c6.as_slice())
    }

    /// Expands an expand-type component: `$1`, `$2`, ... become the
    /// arguments resolved as colors, `$content` the content, palette names in
    /// color parameters are resolved, then the post-processing applies.
    pub fn expand_template(&self, component: &str, args: &[String], content: Option<&str>) -> (r: Result<String>)
        ensures
            !self.components().has(component@) ==> (r matches Err(Error::ParseError(m)) && m@ == unknown_component_msg(component@)),
            self.components().has(component@) ==> (r matches Ok(t)
                && t@ == self.template_result(self.components().value_of(component@), strs(args@), opt_view(content))),
    {
        let comp = match self.components.get(component) {
            Some(c) => c,
            None => {
                return Err(unknown_component(component));
            },
        };
        let ghost a = strs(args@);
        let mut expanded = chars_of(comp.template.as_str());
        let mut i: usize = 0;
        proof {
            reveal_strlit("$");
        }
        while i < args.len()
            invariant
                i <= args@.len(),
                a == strs(args@),
                expanded@ == self.subst_args(comp.template@, a, i as nat),
            decreases args.len() - i,
        {
            let mut placeholder: Vec<char> = Vec::new();
            placeholder.push('$');
            let num = crate::text::usize_to_chars(i + 1);
            push_all(&mut placeholder, num.as_slice());
            let resolved = self.resolve_color(args[i].as_str());
            let rv = chars_of(resolved.as_str());
            proof {
                reveal_strlit("$");
                assert(placeholder@ =~= "$"@ + crate::text::decimal((i + 1) as nat));
            }
            expanded = crate::text::replace_chars(expanded.as_slice(), placeholder.as_slice(), rv.as_slice());
            i = i + 1;
        }
        if let Some(c) = content {
            let pat = chars_of("$content");
            proof {
                reveal_strlit("$content");
            }
            let cv = chars_of(c);
            expanded = crate::text::replace_chars(expanded.as_slice(), pat.as_slice(), cv.as_slice());
        }
        let e = self.resolve_palette_refs(string_of(expanded.as_slice()).as_str());
        match &comp.post_process {
            PostProcess::Blockquote => Ok(self.apply_blockquote(e.as_str())),
            _ => Ok(e),
        }
    }
}

/// The error for an unknown component name.
fn unknown_component(name: &str) -> (e: Error)
    ensures
        e matches Error::ParseError(m) && m@ == unknown_component_msg(name@),
{
    let mut m: Vec<char> = Vec::new();
    push_str_chars(&mut m, "Unknown component '");
    push_str_chars(&mut m, name);
    push_str_chars(&mut m, "'. Run `mdfx components list` to see available components.");
    Error::ParseError(string_of(m.as_slice()))
}


/// The message for a native component without a handler.
pub open spec fn no_impl_msg(name: Seq<char>) -> Seq<char> {
    "Native component '"@ + name + "' has no implementation"@
}

/// The message for a dynamic component (live data needs network access).
pub open spec fn dynamic_msg(name: Seq<char>) -> Seq<char> {
    "Dynamic component '"@ + name + "' requires the 'fetch' feature. Rebuild with: --features fetch"@
}

/// The message for a component of an unknown type.
pub open spec fn unknown_type_msg(ty: Seq<char>, name: Seq<char>) -> Seq<char> {
    "Unknown component type '"@ + ty + "' for component '"@ + name + "'"@
}

/// `new` is `old` extended by `custom`: it has the names of both, the
/// custom values where given and the old ones elsewhere.
pub open spec fn palette_extended(old: NameMap<String>, new: NameMap<String>, custom: NameMap<String>) -> bool {
    &&& forall|k: Seq<char>| #[trigger] new.has(k) == (old.has(k) || custom.has(k))
    &&& forall|k: Seq<char>| custom.has(k) ==> #[trigger] new.value_of(k) == custom.value_of(k)
    &&& forall|k: Seq<char>| !custom.has(k) && old.has(k) ==> #[trigger] new.value_of(k) == old.value_of(k)
}

/// A custom palette overrides the built-in one: after extending, a name the
/// custom palette defines resolves to the custom color, and every other
/// name resolves as before.
pub proof fn law_extended_palette_resolves(a: ComponentsRenderer, b: ComponentsRenderer, custom: NameMap<String>,
    name: Seq<char>)
    requires
        palette_extended(a.palette(), b.palette(), custom),
    ensures
        b.color_of(name) == if custom.has(name) {
            custom.value_of(name)@
        } else {
            a.color_of(name)
        },
{
}

impl ComponentsRenderer {
    /// What a native component gives for its positional arguments, its
    /// parameters and its style.
    pub open spec fn native_result(self, c: Seq<char>, args: Seq<Seq<char>>, p: NameMap<String>, style: Seq<char>,
        content: Option<Seq<char>>, r: Result<ComponentOutput>) -> bool {
        if c == "swatch"@ {
            handlers::swatch_result(self, args, p, style, r)
        } else if c == "tech"@ {
            handlers::tech_result(self, args, p, style, r)
        } else if c == "progress"@ {
            handlers::progress_result(self, args, p, style, r)
        } else if c == "donut"@ {
            handlers::donut_result(self, args, p, style, r)
        } else if c == "gauge"@ {
            handlers::gauge_result(self, args, p, style, r)
        } else if c == "sparkline"@ {
            handlers::sparkline_result(self, args, p, style, r)
        } else if c == "rating"@ {
            handlers::rating_result(self, args, p, style, r)
        } else if c == "waveform"@ {
            handlers::waveform_result(self, args, p, style, r)
        } else if c == "row"@ {
            r matches Ok(ComponentOutput::TemplateDelayed { template, post_process: PostProcess::Row { align } })
                && template@ == (match content { Some(t) => t, None => Seq::empty() })
                && align@ == handlers::row_align(p)
        } else if c == "tech-group"@ {
            r matches Ok(ComponentOutput::Template(t)) && t@ == tech_group::tech_group_result(p, content)
        } else if c == "version"@ {
            handlers::version_result(self, args, p, style, r)
        } else if c == "license"@ {
            handlers::license_result(self, args, p, style, r)
        } else {
            r matches Err(Error::ParseError(m)) && m@ == no_impl_msg(c)
        }
    }

    /// What expanding `component` with `args` and `content` may give: an
    /// unknown component fails; a native one gives what its handler gives
    /// (after `style=` is split off and the remaining arguments are split
    /// into positional ones and parameters); a dynamic one fails; a template
    /// one gives its expanded template; any other type fails.
    pub open spec fn expand_result(self, component: Seq<char>, args: Seq<Seq<char>>, content: Option<Seq<char>>,
        r: Result<ComponentOutput>) -> bool {
        &&& !self.components().has(component) ==> (r matches Err(Error::ParseError(m)) && m@ == unknown_component_msg(component))
        &&& self.components().has(component) ==> {
            let d = self.components().value_of(component);
            if d.component_type@ == "native"@ {
                exists|p: NameMap<String>| #[trigger] params_of(p, without_style(args)) && self.native_result(component,
                    positional(without_style(args)), p,
                    match style_in(args) { Some(s) => s, None => "flat-square"@ }, content, r)
            } else if d.component_type@ == "dynamic"@ {
                r matches Err(Error::ParseError(m)) && m@ == dynamic_msg(component)
            } else if d.component_type@ == "expand"@ {
                r matches Ok(ComponentOutput::Template(t)) && t@ == self.template_result(d, args, content)
            } else {
                r matches Err(Error::ParseError(m)) && m@ == unknown_type_msg(d.component_type@, component)
            }
        }
    }

    /// Expands a native component: `style=` is split off, the remaining
    /// arguments split into positional ones and parameters, and the
    /// component's handler applies.
    fn expand_native(&self, component: &str, args: &[String], content: Option<&str>) -> (r: Result<ComponentOutput>)
        ensures
            exists|p: NameMap<String>| #[trigger] params_of(p, without_style(strs(args@))) && self.native_result(component@,
                positional(without_style(strs(args@))), p,
                match style_in(strs(args@)) { Some(s) => s, None => "flat-square"@ }, opt_view(content), r),
    {
        let (rest, style) = Self::split_style_arg(args);
        let (positional, params) = Self::extract_params(rest.as_slice());
        proof {
            reveal_strlit("swatch");
            reveal_strlit("tech");
            reveal_strlit("progress");
            reveal_strlit("donut");
            reveal_strlit("gauge");
            reveal_strlit("sparkline");
            reveal_strlit("rating");
            reveal_strlit("waveform");
            reveal_strlit("row");
            reveal_strlit("tech-group");
            reveal_strlit("version");
            reveal_strlit("license");
        }
        let c = component;
        let r = if crate::namemap::str_eq(c, "swatch") {
            handlers::handle_swatch(positional.as_slice(), &params, style.as_str(), self)
        } else if crate::namemap::str_eq(c, "tech") {
            handlers::handle_tech(positional.as_slice(), &params, style.as_str(), self)
        } else if crate::namemap::str_eq(c, "progress") {
            handlers::handle_progress(positional.as_slice(), &params, self)
        } else if crate::namemap::str_eq(c, "donut") {
            handlers::handle_donut(positional.as_slice(), &params, self)
        } else if crate::namemap::str_eq(c, "gauge") {
            handlers::handle_gauge(positional.as_slice(), &params, self)
        } else if crate::namemap::str_eq(c, "sparkline") {
            handlers::handle_sparkline(positional.as_slice(), &params, self)
        } else if crate::namemap::str_eq(c, "rating") {
            handlers::handle_rating(positional.as_slice(), &params, self)
        } else if crate::namemap::str_eq(c, "waveform") {
            handlers::handle_waveform(positional.as_slice(), &params, self)
        } else if crate::namemap::str_eq(c, "row") {
            handlers::handle_row(&params, content)
        } else if crate::namemap::str_eq(c, "tech-group") {
            tech_group::handle_tech_group(&params, content)
        } else if crate::namemap::str_eq(c, "version") {
            handlers::handle_version(positional.as_slice(), &params, style.as_str(), self)
        } else if crate::namemap::str_eq(c, "license") {
            handlers::handle_license(positional.as_slice(), &params, style.as_str(), self)
        } else {
            let mut m: Vec<char> = Vec::new();
            push_str_chars(&mut m, "Native component '");
            push_str_chars(&mut m, c);
            push_str_chars(&mut m, "' has no implementation");
            Err(Error::ParseError(string_of(m.as_slice())))
        };
        assert(params_of(params, without_style(strs(args@))));
        r
    }

    /// Expands a component: native components give a primitive (or a delayed
    /// template for `row`), expand components a template; dynamic ones need
    /// live data and fail.
    pub fn expand(&self, component: &str, args: &[String], content: Option<&str>) -> (r: Result<ComponentOutput>)
        ensures
            self.expand_result(component@, strs(args@), opt_view(content), r),
    {
        let comp = match self.components.get(component) {
            Some(c) => c,
            None => {
                return Err(unknown_component(component));
            },
        };
        proof {
            reveal_strlit("native");
            reveal_strlit("dynamic");
            reveal_strlit("expand");
        }
        let ty = comp.component_type.as_str();
        if crate::namemap::str_eq(ty, "native") {
            self.expand_native(component, args, content)
        } else if crate::namemap::str_eq(ty, "dynamic") {
            let mut m: Vec<char> = Vec::new();
            push_str_chars(&mut m, "Dynamic component '");
            push_str_chars(&mut m, component);
            push_str_chars(&mut m, "' requires the 'fetch' feature. Rebuild with: --features fetch");
            Err(Error::ParseError(string_of(m.as_slice())))
        } else if crate::namemap::str_eq(ty, "expand") {
            let t = self.expand_template(component, args, content)?;
            Ok(ComponentOutput::Template(t))
        } else {
            let mut m: Vec<char> = Vec::new();
            push_str_chars(&mut m, "Unknown component type '");
            push_str_chars(&mut m, ty);
            push_str_chars(&mut m, "' for component '");
            push_str_chars(&mut m, component);
            push_str_chars(&mut m, "'");
            Err(Error::ParseError(string_of(m.as_slice())))
        }
    }
}

} // verus!
