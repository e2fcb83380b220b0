//! Text without templates passes through processing unchanged.

use vstd::prelude::*;
use crate::text::{join, split_on, lines, strip_cr, index_of_from, lemma_index_of_from, lemma_join_split, lemma_split_nonempty,
    has_substring, occurs_at};
use crate::parser::{
    no_open, processed_as, sections_processed, sections_from, render_from, match_newline, line_processed, parts_kept,
    fence_line, code_end, text_end, lines_nl, lemma_layout_bounds, lemma_split_no_open, TemplateParser,
    close_all_from, no_close_all, lemma_no_open_no_close_all, Fault, outcome, sections_outcome, line_outcome, parts_outcome, MAX_NESTING,
    collected_as, sections_collect, line_collects, parts_collect, chosen,
};
use crate::renderer::RenderedAsset;
use crate::renderer::Renderer;
use crate::text::{trim, trim_start, trim_end};
use crate::parser::has_prefix;

verus! {

/// Joining two non-empty lists of pieces.
pub proof fn lemma_join_concat(a: Seq<Seq<char>>, b: Seq<Seq<char>>, sep: Seq<char>)
    requires
        a.len() > 0,
        b.len() > 0,
    ensures
        join(a + b, sep) == join(a, sep) + sep + join(b, sep),
    decreases b.len(),
{
    let ab = a + b;
    if b.len() == 1 {
        assert(ab.drop_last() =~= a);
        assert(ab.last() == b[0]);
    } else {
        lemma_join_concat(a, b.drop_last(), sep);
        assert(ab.drop_last() =~= a + b.drop_last());
        assert(ab.last() == b.last());
        assert(join(ab, sep) =~= join(a, sep) + sep + join(b, sep));
    }
}

/// Joining pieces without `{{` by a character other than `{` makes none.
pub proof fn lemma_join_no_open(pieces: Seq<Seq<char>>, c: char)
    requires
        c != '{',
        forall|k: int| 0 <= k < pieces.len() ==> no_open(#[trigger] pieces[k]),
    ensures
        no_open(join(pieces, seq![c])),
    decreases pieces.len(),
{
    if pieces.len() > 1 {
        let init = pieces.drop_last();
        lemma_join_no_open(init, c);
        let x = join(init, seq![c]);
        let y = pieces.last();
        assert(no_open(y)) by {
            assert(pieces[pieces.len() - 1] == y);
        }
        let s = x + seq![c] + y;
        assert(join(pieces, seq![c]) == s);
        assert forall|i: int| 0 <= i < s.len() - 1 implies !(#[trigger] s[i] == '{' && s[i + 1] == '{') by {
            if i < x.len() - 1 {
                assert(s[i] == x[i] && s[i + 1] == x[i + 1]);
            } else if i > x.len() {
                assert(s[i] == y[i - x.len() - 1] && s[i + 1] == y[i - x.len()]);
            }
        }
    }
}

/// A prefix keeps no-`{{`-ness.
proof fn lemma_prefix_no_open(s: Seq<char>, n: int)
    requires
        0 <= n <= s.len(),
        no_open(s),
    ensures
        no_open(s.take(n)),
{
    assert forall|i: int| 0 <= i < s.take(n).len() - 1 implies !(#[trigger] s.take(n)[i] == '{' && s.take(n)[i + 1] == '{') by {
        assert(s.take(n)[i] == s[i] && s.take(n)[i + 1] == s[i + 1]);
    }
}

/// The lines of text without `{{` have none.
pub proof fn lemma_lines_no_open(md: Seq<char>)
    requires
        no_open(md),
    ensures
        forall|k: int| 0 <= k < lines(md).len() ==> no_open(#[trigger] lines(md)[k]),
{
    lemma_split_no_open(md, '\n');
    let p = split_on(md, '\n');
    assert forall|k: int| 0 <= k < lines(md).len() implies no_open(#[trigger] lines(md)[k]) by {
        assert(no_open(p[k]));
        if p[k].len() > 0 && p[k].last() == '\r' {
            lemma_prefix_no_open(p[k], p[k].len() - 1);
            assert(strip_cr(p[k]) =~= p[k].take(p[k].len() - 1));
        }
    }
}

/// The sections of lines without `{{` have none.
proof fn lemma_sections_no_open(ls: Seq<Seq<char>>, i: int)
    requires
        forall|k: int| 0 <= k < ls.len() ==> no_open(#[trigger] ls[k]),
    ensures
        forall|k: int| 0 <= k < sections_from(ls, i).len() ==> no_open(#[trigger] sections_from(ls, i)[k]),
    decreases ls.len() - i,
{
    if 0 <= i < ls.len() {
        lemma_layout_bounds(ls, i + 1);
        if fence_line(ls[i]) {
            lemma_sections_no_open(ls, code_end(ls, i + 1));
            assert(sections_from(ls, i) == sections_from(ls, code_end(ls, i + 1)));
        } else {
            let e = text_end(ls, i + 1);
            lemma_sections_no_open(ls, e);
            let sub = ls.subrange(i, e);
            assert forall|k: int| 0 <= k < sub.len() implies no_open(#[trigger] sub[k]) by {
                assert(sub[k] == ls[i + k]);
            }
            lemma_join_no_open(sub, '\n');
            reveal_strlit("\n");
            assert("\n"@ =~= seq!['\n']);
            let secs = sections_from(ls, i);
            assert(secs == seq![join(sub, "\n"@)] + sections_from(ls, e));
            assert(join(sub, "\n"@) == join(sub, seq!['\n']));
            assert forall|k: int| 0 <= k < secs.len() implies no_open(#[trigger] secs[k]) by {
                if k == 0 {
                    assert(secs[0] == join(sub, "\n"@));
                } else {
                    assert(secs[k] == sections_from(ls, e)[k - 1]);
                }
            }
        }
    }
}

/// A text without `{{`, processed with its inline code kept, is unchanged.
proof fn lemma_line_unchanged<R: Renderer>(p: TemplateParser<R>, line: Seq<char>, out: Seq<char>)
    requires
        line_processed(p, line, out),
        no_open(line),
    ensures
        out == line,
{
    let parts = split_on(line, '`');
    let outs = choose|outs: Seq<Seq<char>>| #[trigger] parts_kept(p, parts, outs) && out == join(outs, "`"@);
    lemma_split_no_open(line, '`');
    assert(outs =~= parts) by {
        assert forall|j: int| 0 <= j < parts.len() implies outs[j] == parts[j] by {
            if j % 2 == 1 {
                assert(outs[j] == parts[j]);
            } else {
                assert(no_open(parts[j]));
            }
        }
    }
    lemma_join_split(line, '`');
    reveal_strlit("`");
    assert("`"@ =~= seq!['`']);
}

/// Whether the last line from `i` on lies in a code block.
pub open spec fn last_in_code(ls: Seq<Seq<char>>, i: int) -> bool
    decreases ls.len() - i,
{
    if i < 0 || i >= ls.len() {
        false
    } else if fence_line(ls[i]) {
        proof {
            lemma_layout_bounds(ls, i + 1);
        }
        let e = code_end(ls, i + 1);
        if e >= ls.len() {
            true
        } else {
            last_in_code(ls, e)
        }
    } else {
        proof {
            lemma_layout_bounds(ls, i + 1);
        }
        let e = text_end(ls, i + 1);
        if e >= ls.len() {
            false
        } else {
            last_in_code(ls, e)
        }
    }
}

/// `lines_nl` is the lines joined, then a newline.
proof fn lemma_lines_nl(ls: Seq<Seq<char>>, a: int, b: int)
    requires
        0 <= a < b <= ls.len(),
    ensures
        lines_nl(ls, a, b) == join(ls.subrange(a, b), "\n"@) + "\n"@,
    decreases b - a,
{
    if b - a > 1 {
        lemma_lines_nl(ls, a, b - 1);
        let sub = ls.subrange(a, b);
        assert(sub.drop_last() =~= ls.subrange(a, b - 1));
        assert(sub.last() == ls[b - 1]);
        assert(join(sub, "\n"@) == join(sub.drop_last(), "\n"@) + "\n"@ + sub.last());
        assert(lines_nl(ls, a, b) =~= join(sub, "\n"@) + "\n"@);
    } else {
        assert(ls.subrange(a, b) =~= seq![ls[a]]);
        assert(lines_nl(ls, a, a) == Seq::<char>::empty());
        assert(lines_nl(ls, a, b) =~= ls[a] + "\n"@);
    }
}

/// Re-rendering the sections unchanged gives the lines joined by newlines,
/// then a newline when the last line is in a code block.
proof fn lemma_render_plain(ls: Seq<Seq<char>>, i: int)
    requires
        0 <= i <= ls.len(),
    ensures
        render_from(ls, i, sections_from(ls, i)) == join(ls.skip(i), "\n"@) + if last_in_code(ls, i) {
            "\n"@
        } else {
            Seq::<char>::empty()
        },
    decreases ls.len() - i,
{
    if i < ls.len() {
        lemma_layout_bounds(ls, i + 1);
        let secs = sections_from(ls, i);
        if fence_line(ls[i]) {
            let e = code_end(ls, i + 1);
            lemma_render_plain(ls, e);
            lemma_lines_nl(ls, i, e);
            if e < ls.len() {
                lemma_join_concat(ls.subrange(i, e), ls.skip(e), "\n"@);
                assert(ls.subrange(i, e) + ls.skip(e) =~= ls.skip(i));
            } else {
                assert(ls.subrange(i, e) =~= ls.skip(i));
                assert(ls.skip(e) =~= Seq::<Seq<char>>::empty());
            }
        } else {
            let e = text_end(ls, i + 1);
            lemma_render_plain(ls, e);
            assert(secs[0] == join(ls.subrange(i, e), "\n"@));
            assert(secs.skip(1) =~= sections_from(ls, e));
            if e < ls.len() {
                lemma_join_concat(ls.subrange(i, e), ls.skip(e), "\n"@);
                assert(ls.subrange(i, e) + ls.skip(e) =~= ls.skip(i));
            } else {
                assert(ls.subrange(i, e) =~= ls.skip(i));
                assert(ls.skip(e) =~= Seq::<Seq<char>>::empty());
            }
        }
    } else {
        assert(ls.skip(i) =~= Seq::<Seq<char>>::empty());
    }
}

/// The pieces of a split hold no separator.
proof fn lemma_split_pieces(s: Seq<char>, c: char)
    ensures
        forall|k: int| 0 <= k < split_on(s, c).len() ==> !(#[trigger] split_on(s, c)[k]).contains(c),
    decreases s.len(),
{
    let idx = index_of_from(s, c, 0);
    lemma_index_of_from(s, c, 0);
    if idx < s.len() {
        let rest = s.skip(idx + 1);
        lemma_split_pieces(rest, c);
        let sp = split_on(s, c);
        assert forall|k: int| 0 <= k < sp.len() implies !(#[trigger] sp[k]).contains(c) by {
            if k > 0 {
                assert(sp[k] == split_on(rest, c)[k - 1]);
            } else {
                assert forall|j: int| 0 <= j < sp[0].len() implies sp[0][j] != c by {
                    assert(sp[0][j] == s[j]);
                }
            }
        }
    }
}

/// A piece followed by another ends without `\r`, unless the text holds
/// "\r\n".
proof fn lemma_split_no_cr(s: Seq<char>)
    requires
        !has_substring(s, seq!['\r', '\n']),
    ensures
        forall|k: int| 0 <= k < split_on(s, '\n').len() - 1 ==> strip_cr(#[trigger] split_on(s, '\n')[k]) == split_on(s, '\n')[k],
    decreases s.len(),
{
    let idx = index_of_from(s, '\n', 0);
    lemma_index_of_from(s, '\n', 0);
    if idx < s.len() {
        let rest = s.skip(idx + 1);
        assert(!has_substring(rest, seq!['\r', '\n'])) by {
            if has_substring(rest, seq!['\r', '\n']) {
                let j = choose|j: int| occurs_at(rest, j, seq!['\r', '\n']);
                assert(s.subrange(j + idx + 1, j + idx + 3) =~= rest.subrange(j, j + 2));
                assert(occurs_at(s, j + idx + 1, seq!['\r', '\n']));
            }
        }
        lemma_split_no_cr(rest);
        let sp = split_on(s, '\n');
        let head = s.take(idx);
        if head.len() > 0 && head.last() == '\r' {
            assert(s.subrange(idx - 1, idx + 1) =~= seq!['\r', '\n']);
            assert(occurs_at(s, idx - 1, seq!['\r', '\n']));
        }
        assert forall|k: int| 0 <= k < sp.len() - 1 implies strip_cr(#[trigger] sp[k]) == sp[k] by {
            if k > 0 {
                assert(sp[k] == split_on(rest, '\n')[k - 1]);
            }
        }
    }
}

/// Text with no "\r\n" is its lines joined by newlines, then a newline when
/// it ends with one.
proof fn lemma_md_from_lines(md: Seq<char>)
    requires
        !has_substring(md, seq!['\r', '\n']),
    ensures
        md == join(lines(md), "\n"@) + if md.len() > 0 && md.last() == '\n' {
            "\n"@
        } else {
            Seq::<char>::empty()
        },
{
    let p = split_on(md, '\n');
    lemma_split_nonempty(md, '\n');
    lemma_join_split(md, '\n');
    lemma_split_no_cr(md);
    lemma_split_pieces(md, '\n');
    reveal_strlit("\n");
    assert("\n"@ =~= seq!['\n']);
    let ls = lines(md);
    if p.last().len() == 0 {
        assert(ls =~= p.drop_last());
        if p.len() == 1 {
            assert(md =~= Seq::<char>::empty());
        } else {
            assert(join(p, seq!['\n']) == join(p.drop_last(), seq!['\n']) + seq!['\n'] + p.last());
            assert(md =~= join(ls, "\n"@) + "\n"@);
        }
    } else {
        assert(ls =~= p);
        assert(p.len() >= 1);
        if p.len() == 1 {
            assert(md == p[0]);
        } else {
            assert(join(p, seq!['\n']) == join(p.drop_last(), seq!['\n']) + seq!['\n'] + p.last());
            assert(md.last() == p.last().last());
        }
        assert(p[p.len() - 1] == p.last());
        assert(md.last() != '\n') by {
            assert(!p[p.len() - 1].contains('\n'));
            assert(p.last()[p.last().len() - 1] == md.last());
        }
    }
}

/// Text without templates passes through unchanged: processing text that
/// holds no `{{` gives it back, except that a "\r\n" line break becomes
/// "\n" and a final blank line outside code blocks is dropped.
pub proof fn law_plain_text_unchanged<R: Renderer>(p: TemplateParser<R>, md: Seq<char>, out: Seq<char>)
    requires
        processed_as(p, md, out),
        no_open(md),
        !has_substring(md, seq!['\r', '\n']),
        !(md.len() >= 2 && md[md.len() - 1] == '\n' && md[md.len() - 2] == '\n' && !last_in_code(lines(md), 0)),
    ensures
        out == md,
{
    let ls = lines(md);
    let secs = sections_from(ls, 0);
    let outs = choose|outs: Seq<Seq<char>>| #[trigger] sections_processed(p, secs, outs)
        && out == match_newline(md, render_from(ls, 0, outs));
    lemma_lines_no_open(md);
    lemma_sections_no_open(ls, 0);
    assert(outs =~= secs) by {
        assert forall|k: int| 0 <= k < secs.len() implies outs[k] == secs[k] by {
            assert(line_processed(p, secs[k], outs[k]));
            lemma_line_unchanged(p, secs[k], outs[k]);
        }
    }
    lemma_render_plain(ls, 0);
    assert(ls.skip(0) =~= ls);
    lemma_md_from_lines(md);
    reveal_strlit("\n");
    let t = join(ls, "\n"@);
    let had = md.len() > 0 && md.last() == '\n';
    if had && !last_in_code(ls, 0) {
        assert(md == t + seq!['\n']);
        if t.len() > 0 && t.last() == '\n' {
            assert(md[md.len() - 2] == t.last());
        }
    }
}

/// Text without `{{` collects no asset from `i` on.
proof fn lemma_plain_collects_nothing<R: Renderer>(p: TemplateParser<R>, s: Seq<char>, i: int, fuel: nat, a: Seq<RenderedAsset>)
    requires
        no_open(s),
        0 <= i,
        p.collects(s, i, fuel, a),
    ensures
        a.len() == 0,
    decreases s.len() - i,
{
    if i < s.len() {
        if i + 1 < s.len() {
            assert(!(s[i] == '{' && s[i + 1] == '{'));
        }
        lemma_plain_collects_nothing(p, s, i + 1, fuel, a);
    }
}

/// Text parts without `{{` collect no asset.
proof fn lemma_parts_collect_plain<R: Renderer>(p: TemplateParser<R>, ps: Seq<Seq<char>>, j: int, a: Seq<RenderedAsset>)
    requires
        forall|k: int| 0 <= k < ps.len() ==> no_open(#[trigger] ps[k]),
        j <= ps.len(),
        parts_collect(p, ps, j, a),
    ensures
        a.len() == 0,
    decreases j,
{
    if j > 0 {
        if (j - 1) % 2 == 1 {
            lemma_parts_collect_plain(p, ps, j - 1, a);
        } else {
            let w = choose|w: (Seq<RenderedAsset>, Seq<RenderedAsset>)| #[trigger] chosen(w) && parts_collect(p, ps, j - 1, w.0)
                && p.collects_text(ps[j - 1], MAX_NESTING as nat, w.1) && a == w.0 + w.1;
            lemma_parts_collect_plain(p, ps, j - 1, w.0);
            let t = ps[j - 1];
            lemma_no_open_no_close_all(t);
            lemma_close_all_plain(t, 0, Seq::empty());
            assert(t.skip(0) =~= t);
            lemma_plain_collects_nothing(p, t, 0, MAX_NESTING as nat, w.1);
        }
    }
}

/// Text sections without `{{` collect no asset.
proof fn lemma_sections_collect_plain<R: Renderer>(p: TemplateParser<R>, secs: Seq<Seq<char>>, a: Seq<RenderedAsset>)
    requires
        forall|k: int| 0 <= k < secs.len() ==> no_open(#[trigger] secs[k]),
        sections_collect(p, secs, a),
    ensures
        a.len() == 0,
    decreases secs.len(),
{
    if secs.len() > 0 {
        let w = choose|w: (Seq<RenderedAsset>, Seq<RenderedAsset>)| #[trigger] chosen(w)
            && sections_collect(p, secs.drop_last(), w.0) && line_collects(p, secs.last(), w.1) && a == w.0 + w.1;
        assert forall|k: int| 0 <= k < secs.drop_last().len() implies no_open(#[trigger] secs.drop_last()[k]) by {
            assert(secs.drop_last()[k] == secs[k]);
        }
        lemma_sections_collect_plain(p, secs.drop_last(), w.0);
        let line = secs.last();
        assert(no_open(line));
        lemma_split_no_open(line, '`');
        lemma_parts_collect_plain(p, split_on(line, '`'), split_on(line, '`').len() as int, w.1);
    }
}

/// Text without templates brings no file: whatever processing text that
/// holds no `{{` may collect is empty.
pub proof fn law_plain_text_collects_nothing<R: Renderer>(p: TemplateParser<R>, md: Seq<char>, a: Seq<RenderedAsset>)
    requires
        no_open(md),
        collected_as(p, md, a),
    ensures
        a.len() == 0,
{
    lemma_lines_no_open(md);
    lemma_sections_no_open(lines(md), 0);
    lemma_sections_collect_plain(p, sections_from(lines(md), 0), a);
}

/// Without `{{//}}`, closing all open tags changes nothing.
proof fn lemma_close_all_plain(s: Seq<char>, i: int, tags: Seq<(u8, Seq<char>)>)
    requires
        no_close_all(s),
        0 <= i <= s.len(),
    ensures
        close_all_from(s, i, tags) == s.skip(i),
    decreases s.len() - i,
{
    if i < s.len() {
        assert(!occurs_at(s, i, "{{//}}"@));
        lemma_close_all_plain(s, i + 1, crate::parser::tags_after(s, i, tags));
        assert(s.skip(i) =~= seq![s[i]] + s.skip(i + 1));
    } else {
        assert(s.skip(i) =~= Seq::<char>::empty());
    }
}

/// Text without `{{` expands to itself.
proof fn lemma_expanded_plain<R: Renderer>(p: TemplateParser<R>, s: Seq<char>, i: int, fuel: nat)
    requires
        no_open(s),
        0 <= i <= s.len(),
    ensures
        p.expanded(s, i, fuel) == Some(Ok::<Seq<char>, Fault>(s.skip(i))),
    decreases s.len() - i,
{
    if i < s.len() {
        p.lemma_expanded_step(s, i, fuel);
        lemma_expanded_plain(p, s, i + 1, fuel);
        assert(s.skip(i) =~= seq![s[i]] + s.skip(i + 1));
    } else {
        p.lemma_expanded_end(s, fuel);
        assert(s.skip(i) =~= Seq::<char>::empty());
    }
}

/// Text without `{{` expands fully, to itself.
pub proof fn lemma_expanded_text_plain<R: Renderer>(p: TemplateParser<R>, s: Seq<char>, fuel: nat)
    requires
        no_open(s),
    ensures
        p.expanded_text(s, fuel) == Some(Ok::<Seq<char>, Fault>(s)),
{
    lemma_no_open_no_close_all(s);
    lemma_close_all_plain(s, 0, Seq::empty());
    assert(s.skip(0) =~= s);
    lemma_expanded_plain(p, s, 0, fuel);
}

proof fn lemma_parts_plain<R: Renderer>(p: TemplateParser<R>, ps: Seq<Seq<char>>, j: int)
    requires
        forall|k: int| 0 <= k < ps.len() ==> no_open(#[trigger] ps[k]),
    ensures
        parts_outcome(p, ps, j) == Some(true),
    decreases ps.len() - j,
{
    if 0 <= j < ps.len() {
        lemma_parts_plain(p, ps, j + 1);
        if j % 2 == 0 {
            lemma_expanded_text_plain(p, ps[j], MAX_NESTING as nat);
        }
    }
}

proof fn lemma_sections_plain<R: Renderer>(p: TemplateParser<R>, secs: Seq<Seq<char>>)
    requires
        forall|k: int| 0 <= k < secs.len() ==> no_open(#[trigger] secs[k]),
    ensures
        sections_outcome(p, secs) == Some(true),
    decreases secs.len(),
{
    if secs.len() > 0 {
        lemma_split_no_open(secs[0], '`');
        lemma_parts_plain(p, split_on(secs[0], '`'), 0);
        assert forall|k: int| 0 <= k < secs.skip(1).len() implies no_open(#[trigger] secs.skip(1)[k]) by {
            assert(secs.skip(1)[k] == secs[k + 1]);
        }
        lemma_sections_plain(p, secs.skip(1));
    }
}

/// Text without templates is always processed successfully (and, by
/// `law_plain_text_unchanged`, given back unchanged).
pub proof fn law_plain_text_succeeds<R: Renderer>(p: TemplateParser<R>, md: Seq<char>)
    requires
        no_open(md),
    ensures
        outcome(p, md) == Some(true),
{
    lemma_lines_no_open(md);
    lemma_sections_no_open(lines(md), 0);
    lemma_sections_plain(p, sections_from(lines(md), 0));
}

proof fn lemma_trim_start_lacks(s: Seq<char>, c: char)
    requires
        !s.contains(c),
    ensures
        !trim_start(s).contains(c),
    decreases s.len(),
{
    if s.len() > 0 && crate::text::char_whitespace(s[0]) {
        assert forall|j: int| 0 <= j < s.skip(1).len() implies s.skip(1)[j] != c by {
            assert(s.skip(1)[j] == s[j + 1]);
        }
        lemma_trim_start_lacks(s.skip(1), c);
    }
}

proof fn lemma_trim_end_lacks(s: Seq<char>, c: char)
    requires
        !s.contains(c),
    ensures
        !trim_end(s).contains(c),
    decreases s.len(),
{
    if s.len() > 0 && crate::text::char_whitespace(s.last()) {
        assert forall|j: int| 0 <= j < s.drop_last().len() implies s.drop_last()[j] != c by {
            assert(s.drop_last()[j] == s[j]);
        }
        lemma_trim_end_lacks(s.drop_last(), c);
    }
}

/// A line without backticks is no code fence.
proof fn lemma_no_fence(l: Seq<char>)
    requires
        !l.contains('`'),
    ensures
        !fence_line(l),
{
    lemma_trim_start_lacks(l, '`');
    lemma_trim_end_lacks(trim_start(l), '`');
    reveal_strlit("```");
    if has_prefix(trim(l), "```"@) {
        assert(trim(l).take(3)[0] == "```"@[0]);
        assert(trim(l)[0] == '`');
    }
}

/// Splitting text that lacks the separator gives the text.
proof fn lemma_split_absent(s: Seq<char>, c: char)
    requires
        !s.contains(c),
    ensures
        split_on(s, c) == seq![s],
{
    lemma_index_of_from(s, c, 0);
    if index_of_from(s, c, 0) < s.len() {
        assert(s[index_of_from(s, c, 0)] == c);
    }
}

/// Pieces of a split lack what the text lacks.
proof fn lemma_split_lacks(s: Seq<char>, c: char, d: char)
    requires
        !s.contains(d),
    ensures
        forall|k: int| 0 <= k < split_on(s, c).len() ==> !(#[trigger] split_on(s, c)[k]).contains(d),
    decreases s.len(),
{
    let idx = index_of_from(s, c, 0);
    lemma_index_of_from(s, c, 0);
    if idx < s.len() {
        let rest = s.skip(idx + 1);
        assert forall|j: int| 0 <= j < rest.len() implies rest[j] != d by {
            assert(rest[j] == s[j + idx + 1]);
        }
        lemma_split_lacks(rest, c, d);
        let head = s.take(idx);
        assert forall|j: int| 0 <= j < head.len() implies head[j] != d by {
            assert(head[j] == s[j]);
        }
        let sp = split_on(s, c);
        assert forall|k: int| 0 <= k < sp.len() implies !(#[trigger] sp[k]).contains(d) by {
            if k > 0 {
                assert(sp[k] == split_on(rest, c)[k - 1]);
            }
        }
    }
}

/// Lines of text lack what the text lacks.
proof fn lemma_lines_lack(md: Seq<char>, d: char)
    requires
        !md.contains(d),
    ensures
        forall|k: int| 0 <= k < lines(md).len() ==> !(#[trigger] lines(md)[k]).contains(d),
{
    lemma_split_lacks(md, '\n', d);
    let p = split_on(md, '\n');
    assert forall|k: int| 0 <= k < lines(md).len() implies !(#[trigger] lines(md)[k]).contains(d) by {
        assert(!p[k].contains(d));
        if p[k].len() > 0 && p[k].last() == '\r' {
            assert forall|j: int| 0 <= j < p[k].drop_last().len() implies p[k].drop_last()[j] != d by {
                assert(p[k].drop_last()[j] == p[k][j]);
            }
        }
    }
}

/// With no fence line from `i` on, the text runs to the end.
proof fn lemma_text_to_end(ls: Seq<Seq<char>>, i: int)
    requires
        0 <= i <= ls.len(),
        forall|k: int| 0 <= k < ls.len() ==> !fence_line(#[trigger] ls[k]),
    ensures
        text_end(ls, i) == ls.len(),
    decreases ls.len() - i,
{
    if i < ls.len() {
        lemma_text_to_end(ls, i + 1);
    }
}

/// Without code fences, inline code or a carriage return, and without a
/// final newline, processing and validation agree: both expand the
/// templates of the whole text, so processing succeeds exactly when
/// validation does (`validate` succeeds on `Some(Ok(_))` and fails on
/// `Some(Err(_))`), and both leave open a native component whose result is
/// not determined (with the shields.io backend only rows and tech groups
/// are: see the `law_shields_*` laws of the parser).
pub proof fn law_process_agrees_with_validate<R: Renderer>(p: TemplateParser<R>, md: Seq<char>)
    requires
        !md.contains('`'),
        !md.contains('\r'),
        !(md.len() > 0 && md.last() == '\n'),
    ensures
        outcome(p, md) == match p.expanded_text(md, MAX_NESTING as nat) {
            None => None,
            Some(Err(_)) => Some(false),
            Some(Ok(_)) => Some(true),
        },
{
    if has_substring(md, seq!['\r', '\n']) {
        let q = choose|q: int| occurs_at(md, q, seq!['\r', '\n']);
        assert(md.subrange(q, q + 2)[0] == md[q]);
        assert(md.contains('\r'));
    }
    lemma_md_from_lines(md);
    lemma_lines_lack(md, '`');
    let ls = lines(md);
    assert forall|k: int| 0 <= k < ls.len() implies !fence_line(#[trigger] ls[k]) by {
        lemma_no_fence(ls[k]);
    }
    lemma_split_absent(md, '`');
    if ls.len() == 0 {
        assert(join(ls, "\n"@) =~= Seq::<char>::empty());
        assert(md =~= Seq::<char>::empty());
        assert(sections_from(ls, 0) =~= Seq::<Seq<char>>::empty());
        lemma_expanded_text_plain(p, md, MAX_NESTING as nat);
    } else {
        lemma_text_to_end(ls, 1);
        lemma_layout_bounds(ls, 1);
        assert(ls.subrange(0, ls.len() as int) =~= ls);
        assert(sections_from(ls, ls.len() as int) =~= Seq::<Seq<char>>::empty());
        assert(sections_from(ls, 0) =~= seq![md]);
        let secs = sections_from(ls, 0);
        assert(secs.skip(1) =~= Seq::<Seq<char>>::empty());
        assert(parts_outcome(p, seq![md], 1) == Some(true));
        assert(seq![md][0] == md);
        assert(line_outcome(p, md) == parts_outcome(p, seq![md], 0));
        assert(sections_outcome(p, Seq::<Seq<char>>::empty()) == Some(true));
        assert(secs[0] == md);
        assert(sections_outcome(p, secs) == match line_outcome(p, md) {
            None => None,
            Some(false) => Some(false),
            Some(true) => sections_outcome(p, secs.skip(1)),
        });
    }
}

} // verus!
