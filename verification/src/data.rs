//! The built-in registry: styles, frames, glyphs, palette, shield styles,
//! components, badges and separators.

use vstd::prelude::*;
use crate::registry::{RegistryData, Component, Frame, SuffixMode, ShieldStyle, BadgeType, EvalContext, pattern_chrome};
use crate::styles::{Style, StyleCategory, StyleSupport};
use crate::separators::Separator;
use crate::text::{chars_of, string_of};
use crate::namemap::last_name_index;

verus! {

/// The names of named entries.
pub open spec fn entry_names<V>(e: Seq<(String, V)>) -> Seq<Seq<char>> {
    e.map_values(|p: (String, V)| p.0@)
}

/// Named texts as pairs of views.
pub open spec fn text_pairs(e: Seq<(String, String)>) -> Seq<(Seq<char>, Seq<char>)> {
    e.map_values(|p: (String, String)| (p.0@, p.1@))
}

/// The built-in text styles, in order.
pub open spec fn style_names() -> Seq<Seq<char>> {
    seq![
        "mathbold"@,
        "italic"@,
        "bold-italic"@,
        "script"@,
        "bold-script"@,
        "fraktur"@,
        "bold-fraktur"@,
        "double-struck"@,
        "sans-serif"@,
        "sans-serif-bold"@,
        "sans-serif-italic"@,
        "sans-serif-bold-italic"@,
        "monospace"@,
        "fullwidth"@,
        "negative-squared"@,
        "negative-circled"@,
        "squared-latin"@,
        "circled"@,
        "small-caps"@,
        "strikethrough"@,
        "underline"@,
        "double-underline"@,
        "overline"@,
        "slashed"@,
    ]
}

/// The built-in badge types, in order.
pub open spec fn badge_names() -> Seq<Seq<char>> {
    seq![
        "circle"@,
        "paren"@,
        "paren-letter"@,
        "negative-circle"@,
    ]
}

/// The built-in frames, in order.
pub open spec fn frame_names() -> Seq<Seq<char>> {
    seq![
        "gradient"@,
        "gradient-wave"@,
        "line-bold"@,
        "line-double"@,
        "line-light"@,
        "solid-left"@,
        "solid-right"@,
        "solid-both"@,
        "star"@,
        "diamond"@,
        "lenticular"@,
        "quote"@,
        "triangle"@,
        "pointer"@,
        "angle"@,
    ]
}

/// The built-in components, in order.
pub open spec fn component_names() -> Seq<Seq<char>> {
    seq![
        "swatch"@,
        "tech"@,
        "tech-group"@,
        "progress"@,
        "donut"@,
        "gauge"@,
        "sparkline"@,
        "rating"@,
        "waveform"@,
        "row"@,
        "version"@,
        "license"@,
        "live"@,
        "divider"@,
        "header"@,
        "callout"@,
    ]
}

/// The built-in shield styles, in order.
pub open spec fn shield_style_names() -> Seq<Seq<char>> {
    seq![
        "flat"@,
        "flat-square"@,
        "for-the-badge"@,
        "plastic"@,
        "social"@,
    ]
}

/// The built-in palette: color names and hex values.
pub open spec fn palette_table() -> Seq<(Seq<char>, Seq<char>)> {
    seq![
        ("accent"@, "F41C80"@),
        ("pink"@, "F41C80"@),
        ("success"@, "22C55E"@),
        ("warning"@, "EAB308"@),
        ("error"@, "EF4444"@),
        ("info"@, "3B82F6"@),
        ("cobalt"@, "2B6CB0"@),
        ("dark1"@, "292A2D"@),
        ("dark2"@, "1F2023"@),
        ("ui.bg"@, "292A2D"@),
        ("ui.surface"@, "3A3B3F"@),
        ("ui.panel"@, "1F2023"@),
        ("white"@, "FFFFFF"@),
        ("black"@, "000000"@),
        ("slate"@, "6B7280"@),
        ("gray"@, "9CA3AF"@),
    ]
}

/// The built-in glyphs: names and characters.
pub open spec fn glyph_table() -> Seq<(Seq<char>, Seq<char>)> {
    seq![
        ("dot"@, "\u{b7}"@),
        ("bullet"@, "\u{2022}"@),
        ("dash"@, "\u{2500}"@),
        ("bolddash"@, "\u{2501}"@),
        ("arrow"@, "\u{2192}"@),
        ("pipe"@, "\u{2502}"@),
        ("star"@, "\u{2605}"@),
        ("star.outline"@, "\u{2606}"@),
        ("diamond"@, "\u{25c6}"@),
        ("diamond.outline"@, "\u{25c7}"@),
        ("heart"@, "\u{2665}"@),
        ("card.heart"@, "\u{2665}"@),
        ("card.spade"@, "\u{2660}"@),
        ("card.diamond"@, "\u{2666}"@),
        ("card.club"@, "\u{2663}"@),
        ("circle"@, "\u{25cf}"@),
        ("square"@, "\u{25a0}"@),
        ("check"@, "\u{2713}"@),
        ("cross"@, "\u{2717}"@),
        ("block.full"@, "\u{2588}"@),
        ("block.lower.4"@, "\u{2584}"@),
        ("shade.light"@, "\u{2591}"@),
        ("shade.medium"@, "\u{2592}"@),
        ("shade.dark"@, "\u{2593}"@),
        ("quad.1-4"@, "\u{2596}"@),
        ("note"@, "\u{266a}"@),
    ]
}

/// The built-in separators: ids and characters.
pub open spec fn separator_table() -> Seq<(Seq<char>, Seq<char>)> {
    seq![
        ("dot"@, "\u{b7}"@),
        ("bullet"@, "\u{2022}"@),
        ("dash"@, "\u{2500}"@),
        ("bolddash"@, "\u{2501}"@),
        ("arrow"@, "\u{2192}"@),
        ("pipe"@, "\u{2502}"@),
        ("star"@, "\u{2605}"@),
        ("diamond"@, "\u{25c6}"@),
    ]
}

/// Views of named entries, keyed by name.
pub open spec fn keyed<V, T>(e: Seq<(String, V)>, f: spec_fn(V) -> T) -> Seq<(Seq<char>, T)> {
    e.map_values(|p: (String, V)| (p.0@, f(p.1)))
}

/// Keying a sequence with one more entry.
pub proof fn lemma_keyed_push<V, T>(e: Seq<(String, V)>, x: (String, V), f: spec_fn(V) -> T)
    ensures
        keyed(e.push(x), f) == keyed(e, f).push((x.0@, f(x.1))),
{
    assert(keyed(e.push(x), f) =~= keyed(e, f).push((x.0@, f(x.1))));
}

/// The row a name has in a keyed table, the last row of that name winning.
pub open spec fn row_for<T>(t: Seq<(Seq<char>, T)>, k: Seq<char>) -> T
    decreases t.len(),
{
    if t.len() == 0 {
        vstd::pervasive::arbitrary()
    } else if t.last().0 == k {
        t.last().1
    } else {
        row_for(t.drop_last(), k)
    }
}

/// The last entry of a name holds the row the keyed table gives that name.
pub proof fn lemma_row_for<V, T>(e: Seq<(String, V)>, f: spec_fn(V) -> T, k: Seq<char>)
    requires
        last_name_index(e, k) >= 0,
    ensures
        f(e[last_name_index(e, k)].1) == row_for(keyed(e, f), k),
    decreases e.len(),
{
    lemma_name_found(e, k);
    assert(keyed(e.drop_last(), f) =~= keyed(e, f).drop_last());
    if e.last().0@ != k {
        lemma_row_for(e.drop_last(), f, k);
        let j = last_name_index(e, k);
        assert(e.drop_last()[j] == e[j]);
    }
}

/// In a table whose rows carry their own name, a name present in the table
/// gets a row carrying that name.
pub proof fn lemma_row_id<T>(t: Seq<(Seq<char>, T)>, id: spec_fn(T) -> Seq<char>, k: Seq<char>)
    requires
        forall|i: int| 0 <= i < t.len() ==> id(#[trigger] t[i].1) == t[i].0,
        exists|i: int| 0 <= i < t.len() && #[trigger] t[i].0 == k,
    ensures
        id(row_for(t, k)) == k,
    decreases t.len(),
{
    if t.last().0 != k {
        let i = choose|i: int| 0 <= i < t.len() && #[trigger] t[i].0 == k;
        assert(t.drop_last()[i].0 == k);
        assert forall|j: int| 0 <= j < t.drop_last().len() implies id(#[trigger] t.drop_last()[j].1) == t.drop_last()[j].0 by {
            assert(t.drop_last()[j] == t[j]);
        }
        lemma_row_id(t.drop_last(), id, k);
    }
}

/// The built-in styles' names and aliases.
pub open spec fn style_alias_table() -> Seq<(Seq<char>, Seq<Seq<char>>)> {
    style_table().map_values(|p: (Seq<char>, (Seq<char>, Seq<char>, Seq<Seq<char>>, Seq<(char, Seq<char>)>))| (p.0, p.1.2))
}

/// The built-in frames' names and aliases.
pub open spec fn frame_alias_table() -> Seq<(Seq<char>, Seq<Seq<char>>)> {
    frame_table().map_values(|p: (Seq<char>, (Seq<char>, Seq<char>, Seq<Seq<char>>))| (p.0, p.1.2))
}

/// The built-in shield styles' names and aliases.
pub open spec fn shield_alias_table() -> Seq<(Seq<char>, Seq<Seq<char>>)> {
    shield_style_table().map_values(|p: (Seq<char>, (Seq<char>, Seq<char>, Seq<Seq<char>>, bool))| (p.0, p.1.2))
}

/// Character mappings as views.
pub open spec fn char_pairs(m: Seq<(char, String)>) -> Seq<(char, Seq<char>)> {
    m.map_values(|p: (char, String)| (p.0, p.1@))
}

/// The characters of `from` mapped to those of `to`, position by position,
/// up to the shorter length.
pub open spec fn zipped(from: Seq<char>, to: Seq<char>) -> Seq<(char, Seq<char>)> {
    Seq::new(if from.len() <= to.len() { from.len() } else { to.len() }, |i: int| (from[i], seq![to[i]]))
}

/// The characters of `from` each mapped to itself followed by `mark`.
pub open spec fn marked(from: Seq<char>, mark: char) -> Seq<(char, Seq<char>)> {
    Seq::new(from.len(), |i: int| (from[i], seq![from[i], mark]))
}

/// A style seen as its id, display name, aliases and character mappings.
pub open spec fn style_view(s: Style) -> (Seq<char>, Seq<char>, Seq<Seq<char>>, Seq<(char, Seq<char>)>) {
    (s.id@, s.name@, crate::components::strs(s.aliases@), char_pairs(s.mappings@))
}

/// The built-in styles: id, display name, aliases and character mappings.
pub open spec fn style_table() -> Seq<(Seq<char>, (Seq<char>, Seq<char>, Seq<Seq<char>>, Seq<(char, Seq<char>)>))> {
    seq![
        ("mathbold"@, ("mathbold"@, "Mathematical Bold"@, seq!["mb"@], zipped("ABCDEFGHIJKLMNOPQRSTUVWXYZabcdefghijklmnopqrstuvwxyz0123456789"@, "\u{1d400}\u{1d401}\u{1d402}\u{1d403}\u{1d404}\u{1d405}\u{1d406}\u{1d407}\u{1d408}\u{1d409}\u{1d40a}\u{1d40b}\u{1d40c}\u{1d40d}\u{1d40e}\u{1d40f}\u{1d410}\u{1d411}\u{1d412}\u{1d413}\u{1d414}\u{1d415}\u{1d416}\u{1d417}\u{1d418}\u{1d419}\u{1d41a}\u{1d41b}\u{1d41c}\u{1d41d}\u{1d41e}\u{1d41f}\u{1d420}\u{1d421}\u{1d422}\u{1d423}\u{1d424}\u{1d425}\u{1d426}\u{1d427}\u{1d428}\u{1d429}\u{1d42a}\u{1d42b}\u{1d42c}\u{1d42d}\u{1d42e}\u{1d42f}\u{1d430}\u{1d431}\u{1d432}\u{1d433}\u{1d7ce}\u{1d7cf}\u{1d7d0}\u{1d7d1}\u{1d7d2}\u{1d7d3}\u{1d7d4}\u{1d7d5}\u{1d7d6}\u{1d7d7}"@))),
        ("italic"@, ("italic"@, "Mathematical Italic"@, seq!["it"@], zipped("ABCDEFGHIJKLMNOPQRSTUVWXYZabcdefghijklmnopqrstuvwxyz"@, "\u{1d434}\u{1d435}\u{1d436}\u{1d437}\u{1d438}\u{1d439}\u{1d43a}\u{1d43b}\u{1d43c}\u{1d43d}\u{1d43e}\u{1d43f}\u{1d440}\u{1d441}\u{1d442}\u{1d443}\u{1d444}\u{1d445}\u{1d446}\u{1d447}\u{1d448}\u{1d449}\u{1d44a}\u{1d44b}\u{1d44c}\u{1d44d}\u{1d44e}\u{1d44f}\u{1d450}\u{1d451}\u{1d452}\u{1d453}\u{1d454}\u{210e}\u{1d456}\u{1d457}\u{1d458}\u{1d459}\u{1d45a}\u{1d45b}\u{1d45c}\u{1d45d}\u{1d45e}\u{1d45f}\u{1d460}\u{1d461}\u{1d462}\u{1d463}\u{1d464}\u{1d465}\u{1d466}\u{1d467}"@))),
        ("bold-italic"@, ("bold-italic"@, "Mathematical Bold Italic"@, seq!["bi"@], zipped("ABCDEFGHIJKLMNOPQRSTUVWXYZabcdefghijklmnopqrstuvwxyz"@, "\u{1d468}\u{1d469}\u{1d46a}\u{1d46b}\u{1d46c}\u{1d46d}\u{1d46e}\u{1d46f}\u{1d470}\u{1d471}\u{1d472}\u{1d473}\u{1d474}\u{1d475}\u{1d476}\u{1d477}\u{1d478}\u{1d479}\u{1d47a}\u{1d47b}\u{1d47c}\u{1d47d}\u{1d47e}\u{1d47f}\u{1d480}\u{1d481}\u{1d482}\u{1d483}\u{1d484}\u{1d485}\u{1d486}\u{1d487}\u{1d488}\u{1d489}\u{1d48a}\u{1d48b}\u{1d48c}\u{1d48d}\u{1d48e}\u{1d48f}\u{1d490}\u{1d491}\u{1d492}\u{1d493}\u{1d494}\u{1d495}\u{1d496}\u{1d497}\u{1d498}\u{1d499}\u{1d49a}\u{1d49b}"@))),
        ("script"@, ("script"@, "Mathematical Script"@, seq!["scr"@], zipped("ABCDEFGHIJKLMNOPQRSTUVWXYZabcdefghijklmnopqrstuvwxyz"@, "\u{1d49c}\u{212c}\u{1d49e}\u{1d49f}\u{2130}\u{2131}\u{1d4a2}\u{210b}\u{2110}\u{1d4a5}\u{1d4a6}\u{2112}\u{2133}\u{1d4a9}\u{1d4aa}\u{1d4ab}\u{1d4ac}\u{211b}\u{1d4ae}\u{1d4af}\u{1d4b0}\u{1d4b1}\u{1d4b2}\u{1d4b3}\u{1d4b4}\u{1d4b5}\u{1d4b6}\u{1d4b7}\u{1d4b8}\u{1d4b9}\u{212f}\u{1d4bb}\u{210a}\u{1d4bd}\u{1d4be}\u{1d4bf}\u{1d4c0}\u{1d4c1}\u{1d4c2}\u{1d4c3}\u{2134}\u{1d4c5}\u{1d4c6}\u{1d4c7}\u{1d4c8}\u{1d4c9}\u{1d4ca}\u{1d4cb}\u{1d4cc}\u{1d4cd}\u{1d4ce}\u{1d4cf}"@))),
        ("bold-script"@, ("bold-script"@, "Mathematical Bold Script"@, seq!["bscr"@], zipped("ABCDEFGHIJKLMNOPQRSTUVWXYZabcdefghijklmnopqrstuvwxyz"@, "\u{1d4d0}\u{1d4d1}\u{1d4d2}\u{1d4d3}\u{1d4d4}\u{1d4d5}\u{1d4d6}\u{1d4d7}\u{1d4d8}\u{1d4d9}\u{1d4da}\u{1d4db}\u{1d4dc}\u{1d4dd}\u{1d4de}\u{1d4df}\u{1d4e0}\u{1d4e1}\u{1d4e2}\u{1d4e3}\u{1d4e4}\u{1d4e5}\u{1d4e6}\u{1d4e7}\u{1d4e8}\u{1d4e9}\u{1d4ea}\u{1d4eb}\u{1d4ec}\u{1d4ed}\u{1d4ee}\u{1d4ef}\u{1d4f0}\u{1d4f1}\u{1d4f2}\u{1d4f3}\u{1d4f4}\u{1d4f5}\u{1d4f6}\u{1d4f7}\u{1d4f8}\u{1d4f9}\u{1d4fa}\u{1d4fb}\u{1d4fc}\u{1d4fd}\u{1d4fe}\u{1d4ff}\u{1d500}\u{1d501}\u{1d502}\u{1d503}"@))),
        ("fraktur"@, ("fraktur"@, "Mathematical Fraktur"@, seq!["frak"@], zipped("ABCDEFGHIJKLMNOPQRSTUVWXYZabcdefghijklmnopqrstuvwxyz"@, "\u{1d504}\u{1d505}\u{212d}\u{1d507}\u{1d508}\u{1d509}\u{1d50a}\u{210c}\u{2111}\u{1d50d}\u{1d50e}\u{1d50f}\u{1d510}\u{1d511}\u{1d512}\u{1d513}\u{1d514}\u{211c}\u{1d516}\u{1d517}\u{1d518}\u{1d519}\u{1d51a}\u{1d51b}\u{1d51c}\u{2128}\u{1d51e}\u{1d51f}\u{1d520}\u{1d521}\u{1d522}\u{1d523}\u{1d524}\u{1d525}\u{1d526}\u{1d527}\u{1d528}\u{1d529}\u{1d52a}\u{1d52b}\u{1d52c}\u{1d52d}\u{1d52e}\u{1d52f}\u{1d530}\u{1d531}\u{1d532}\u{1d533}\u{1d534}\u{1d535}\u{1d536}\u{1d537}"@))),
        ("bold-fraktur"@, ("bold-fraktur"@, "Mathematical Bold Fraktur"@, seq!["bfrak"@], zipped("ABCDEFGHIJKLMNOPQRSTUVWXYZabcdefghijklmnopqrstuvwxyz"@, "\u{1d56c}\u{1d56d}\u{1d56e}\u{1d56f}\u{1d570}\u{1d571}\u{1d572}\u{1d573}\u{1d574}\u{1d575}\u{1d576}\u{1d577}\u{1d578}\u{1d579}\u{1d57a}\u{1d57b}\u{1d57c}\u{1d57d}\u{1d57e}\u{1d57f}\u{1d580}\u{1d581}\u{1d582}\u{1d583}\u{1d584}\u{1d585}\u{1d586}\u{1d587}\u{1d588}\u{1d589}\u{1d58a}\u{1d58b}\u{1d58c}\u{1d58d}\u{1d58e}\u{1d58f}\u{1d590}\u{1d591}\u{1d592}\u{1d593}\u{1d594}\u{1d595}\u{1d596}\u{1d597}\u{1d598}\u{1d599}\u{1d59a}\u{1d59b}\u{1d59c}\u{1d59d}\u{1d59e}\u{1d59f}"@))),
        ("double-struck"@, ("double-struck"@, "Double-Struck"@, seq!["ds"@], zipped("ABCDEFGHIJKLMNOPQRSTUVWXYZabcdefghijklmnopqrstuvwxyz0123456789"@, "\u{1d538}\u{1d539}\u{2102}\u{1d53b}\u{1d53c}\u{1d53d}\u{1d53e}\u{210d}\u{1d540}\u{1d541}\u{1d542}\u{1d543}\u{1d544}\u{2115}\u{1d546}\u{2119}\u{211a}\u{211d}\u{1d54a}\u{1d54b}\u{1d54c}\u{1d54d}\u{1d54e}\u{1d54f}\u{1d550}\u{2124}\u{1d552}\u{1d553}\u{1d554}\u{1d555}\u{1d556}\u{1d557}\u{1d558}\u{1d559}\u{1d55a}\u{1d55b}\u{1d55c}\u{1d55d}\u{1d55e}\u{1d55f}\u{1d560}\u{1d561}\u{1d562}\u{1d563}\u{1d564}\u{1d565}\u{1d566}\u{1d567}\u{1d568}\u{1d569}\u{1d56a}\u{1d56b}\u{1d7d8}\u{1d7d9}\u{1d7da}\u{1d7db}\u{1d7dc}\u{1d7dd}\u{1d7de}\u{1d7df}\u{1d7e0}\u{1d7e1}"@))),
        ("sans-serif"@, ("sans-serif"@, "Sans-Serif"@, seq!["ss"@], zipped("ABCDEFGHIJKLMNOPQRSTUVWXYZabcdefghijklmnopqrstuvwxyz0123456789"@, "\u{1d5a0}\u{1d5a1}\u{1d5a2}\u{1d5a3}\u{1d5a4}\u{1d5a5}\u{1d5a6}\u{1d5a7}\u{1d5a8}\u{1d5a9}\u{1d5aa}\u{1d5ab}\u{1d5ac}\u{1d5ad}\u{1d5ae}\u{1d5af}\u{1d5b0}\u{1d5b1}\u{1d5b2}\u{1d5b3}\u{1d5b4}\u{1d5b5}\u{1d5b6}\u{1d5b7}\u{1d5b8}\u{1d5b9}\u{1d5ba}\u{1d5bb}\u{1d5bc}\u{1d5bd}\u{1d5be}\u{1d5bf}\u{1d5c0}\u{1d5c1}\u{1d5c2}\u{1d5c3}\u{1d5c4}\u{1d5c5}\u{1d5c6}\u{1d5c7}\u{1d5c8}\u{1d5c9}\u{1d5ca}\u{1d5cb}\u{1d5cc}\u{1d5cd}\u{1d5ce}\u{1d5cf}\u{1d5d0}\u{1d5d1}\u{1d5d2}\u{1d5d3}\u{1d7e2}\u{1d7e3}\u{1d7e4}\u{1d7e5}\u{1d7e6}\u{1d7e7}\u{1d7e8}\u{1d7e9}\u{1d7ea}\u{1d7eb}"@))),
        ("sans-serif-bold"@, ("sans-serif-bold"@, "Sans-Serif Bold"@, seq!["ssb"@], zipped("ABCDEFGHIJKLMNOPQRSTUVWXYZabcdefghijklmnopqrstuvwxyz0123456789"@, "\u{1d5d4}\u{1d5d5}\u{1d5d6}\u{1d5d7}\u{1d5d8}\u{1d5d9}\u{1d5da}\u{1d5db}\u{1d5dc}\u{1d5dd}\u{1d5de}\u{1d5df}\u{1d5e0}\u{1d5e1}\u{1d5e2}\u{1d5e3}\u{1d5e4}\u{1d5e5}\u{1d5e6}\u{1d5e7}\u{1d5e8}\u{1d5e9}\u{1d5ea}\u{1d5eb}\u{1d5ec}\u{1d5ed}\u{1d5ee}\u{1d5ef}\u{1d5f0}\u{1d5f1}\u{1d5f2}\u{1d5f3}\u{1d5f4}\u{1d5f5}\u{1d5f6}\u{1d5f7}\u{1d5f8}\u{1d5f9}\u{1d5fa}\u{1d5fb}\u{1d5fc}\u{1d5fd}\u{1d5fe}\u{1d5ff}\u{1d600}\u{1d601}\u{1d602}\u{1d603}\u{1d604}\u{1d605}\u{1d606}\u{1d607}\u{1d7ec}\u{1d7ed}\u{1d7ee}\u{1d7ef}\u{1d7f0}\u{1d7f1}\u{1d7f2}\u{1d7f3}\u{1d7f4}\u{1d7f5}"@))),
        ("sans-serif-italic"@, ("sans-serif-italic"@, "Sans-Serif Italic"@, seq!["ssi"@], zipped("ABCDEFGHIJKLMNOPQRSTUVWXYZabcdefghijklmnopqrstuvwxyz"@, "\u{1d608}\u{1d609}\u{1d60a}\u{1d60b}\u{1d60c}\u{1d60d}\u{1d60e}\u{1d60f}\u{1d610}\u{1d611}\u{1d612}\u{1d613}\u{1d614}\u{1d615}\u{1d616}\u{1d617}\u{1d618}\u{1d619}\u{1d61a}\u{1d61b}\u{1d61c}\u{1d61d}\u{1d61e}\u{1d61f}\u{1d620}\u{1d621}\u{1d622}\u{1d623}\u{1d624}\u{1d625}\u{1d626}\u{1d627}\u{1d628}\u{1d629}\u{1d62a}\u{1d62b}\u{1d62c}\u{1d62d}\u{1d62e}\u{1d62f}\u{1d630}\u{1d631}\u{1d632}\u{1d633}\u{1d634}\u{1d635}\u{1d636}\u{1d637}\u{1d638}\u{1d639}\u{1d63a}\u{1d63b}"@))),
        ("sans-serif-bold-italic"@, ("sans-serif-bold-italic"@, "Sans-Serif Bold Italic"@, seq!["ssbi"@], zipped("ABCDEFGHIJKLMNOPQRSTUVWXYZabcdefghijklmnopqrstuvwxyz"@, "\u{1d63c}\u{1d63d}\u{1d63e}\u{1d63f}\u{1d640}\u{1d641}\u{1d642}\u{1d643}\u{1d644}\u{1d645}\u{1d646}\u{1d647}\u{1d648}\u{1d649}\u{1d64a}\u{1d64b}\u{1d64c}\u{1d64d}\u{1d64e}\u{1d64f}\u{1d650}\u{1d651}\u{1d652}\u{1d653}\u{1d654}\u{1d655}\u{1d656}\u{1d657}\u{1d658}\u{1d659}\u{1d65a}\u{1d65b}\u{1d65c}\u{1d65d}\u{1d65e}\u{1d65f}\u{1d660}\u{1d661}\u{1d662}\u{1d663}\u{1d664}\u{1d665}\u{1d666}\u{1d667}\u{1d668}\u{1d669}\u{1d66a}\u{1d66b}\u{1d66c}\u{1d66d}\u{1d66e}\u{1d66f}"@))),
        ("monospace"@, ("monospace"@, "Monospace"@, seq!["mono"@], zipped("ABCDEFGHIJKLMNOPQRSTUVWXYZabcdefghijklmnopqrstuvwxyz0123456789"@, "\u{1d670}\u{1d671}\u{1d672}\u{1d673}\u{1d674}\u{1d675}\u{1d676}\u{1d677}\u{1d678}\u{1d679}\u{1d67a}\u{1d67b}\u{1d67c}\u{1d67d}\u{1d67e}\u{1d67f}\u{1d680}\u{1d681}\u{1d682}\u{1d683}\u{1d684}\u{1d685}\u{1d686}\u{1d687}\u{1d688}\u{1d689}\u{1d68a}\u{1d68b}\u{1d68c}\u{1d68d}\u{1d68e}\u{1d68f}\u{1d690}\u{1d691}\u{1d692}\u{1d693}\u{1d694}\u{1d695}\u{1d696}\u{1d697}\u{1d698}\u{1d699}\u{1d69a}\u{1d69b}\u{1d69c}\u{1d69d}\u{1d69e}\u{1d69f}\u{1d6a0}\u{1d6a1}\u{1d6a2}\u{1d6a3}\u{1d7f6}\u{1d7f7}\u{1d7f8}\u{1d7f9}\u{1d7fa}\u{1d7fb}\u{1d7fc}\u{1d7fd}\u{1d7fe}\u{1d7ff}"@))),
        ("fullwidth"@, ("fullwidth"@, "Full-Width"@, seq!["fw"@], zipped("ABCDEFGHIJKLMNOPQRSTUVWXYZabcdefghijklmnopqrstuvwxyz0123456789"@, "\u{ff21}\u{ff22}\u{ff23}\u{ff24}\u{ff25}\u{ff26}\u{ff27}\u{ff28}\u{ff29}\u{ff2a}\u{ff2b}\u{ff2c}\u{ff2d}\u{ff2e}\u{ff2f}\u{ff30}\u{ff31}\u{ff32}\u{ff33}\u{ff34}\u{ff35}\u{ff36}\u{ff37}\u{ff38}\u{ff39}\u{ff3a}\u{ff41}\u{ff42}\u{ff43}\u{ff44}\u{ff45}\u{ff46}\u{ff47}\u{ff48}\u{ff49}\u{ff4a}\u{ff4b}\u{ff4c}\u{ff4d}\u{ff4e}\u{ff4f}\u{ff50}\u{ff51}\u{ff52}\u{ff53}\u{ff54}\u{ff55}\u{ff56}\u{ff57}\u{ff58}\u{ff59}\u{ff5a}\u{ff10}\u{ff11}\u{ff12}\u{ff13}\u{ff14}\u{ff15}\u{ff16}\u{ff17}\u{ff18}\u{ff19}"@))),
        ("negative-squared"@, ("negative-squared"@, "Negative Squared"@, seq!["ns"@], zipped("ABCDEFGHIJKLMNOPQRSTUVWXYZabcdefghijklmnopqrstuvwxyz"@, "\u{1f170}\u{1f171}\u{1f172}\u{1f173}\u{1f174}\u{1f175}\u{1f176}\u{1f177}\u{1f178}\u{1f179}\u{1f17a}\u{1f17b}\u{1f17c}\u{1f17d}\u{1f17e}\u{1f17f}\u{1f180}\u{1f181}\u{1f182}\u{1f183}\u{1f184}\u{1f185}\u{1f186}\u{1f187}\u{1f188}\u{1f189}\u{1f170}\u{1f171}\u{1f172}\u{1f173}\u{1f174}\u{1f175}\u{1f176}\u{1f177}\u{1f178}\u{1f179}\u{1f17a}\u{1f17b}\u{1f17c}\u{1f17d}\u{1f17e}\u{1f17f}\u{1f180}\u{1f181}\u{1f182}\u{1f183}\u{1f184}\u{1f185}\u{1f186}\u{1f187}\u{1f188}\u{1f189}"@))),
        ("negative-circled"@, ("negative-circled"@, "Negative Circled"@, seq!["nc"@], zipped("ABCDEFGHIJKLMNOPQRSTUVWXYZabcdefghijklmnopqrstuvwxyz"@, "\u{1f150}\u{1f151}\u{1f152}\u{1f153}\u{1f154}\u{1f155}\u{1f156}\u{1f157}\u{1f158}\u{1f159}\u{1f15a}\u{1f15b}\u{1f15c}\u{1f15d}\u{1f15e}\u{1f15f}\u{1f160}\u{1f161}\u{1f162}\u{1f163}\u{1f164}\u{1f165}\u{1f166}\u{1f167}\u{1f168}\u{1f169}\u{1f150}\u{1f151}\u{1f152}\u{1f153}\u{1f154}\u{1f155}\u{1f156}\u{1f157}\u{1f158}\u{1f159}\u{1f15a}\u{1f15b}\u{1f15c}\u{1f15d}\u{1f15e}\u{1f15f}\u{1f160}\u{1f161}\u{1f162}\u{1f163}\u{1f164}\u{1f165}\u{1f166}\u{1f167}\u{1f168}\u{1f169}"@))),
        ("squared-latin"@, ("squared-latin"@, "Squared Latin"@, seq!["sq"@], zipped("ABCDEFGHIJKLMNOPQRSTUVWXYZabcdefghijklmnopqrstuvwxyz"@, "\u{1f130}\u{1f131}\u{1f132}\u{1f133}\u{1f134}\u{1f135}\u{1f136}\u{1f137}\u{1f138}\u{1f139}\u{1f13a}\u{1f13b}\u{1f13c}\u{1f13d}\u{1f13e}\u{1f13f}\u{1f140}\u{1f141}\u{1f142}\u{1f143}\u{1f144}\u{1f145}\u{1f146}\u{1f147}\u{1f148}\u{1f149}\u{1f130}\u{1f131}\u{1f132}\u{1f133}\u{1f134}\u{1f135}\u{1f136}\u{1f137}\u{1f138}\u{1f139}\u{1f13a}\u{1f13b}\u{1f13c}\u{1f13d}\u{1f13e}\u{1f13f}\u{1f140}\u{1f141}\u{1f142}\u{1f143}\u{1f144}\u{1f145}\u{1f146}\u{1f147}\u{1f148}\u{1f149}"@))),
        ("circled"@, ("circled"@, "Circled"@, seq!["circ"@], zipped("ABCDEFGHIJKLMNOPQRSTUVWXYZabcdefghijklmnopqrstuvwxyz0123456789"@, "\u{24b6}\u{24b7}\u{24b8}\u{24b9}\u{24ba}\u{24bb}\u{24bc}\u{24bd}\u{24be}\u{24bf}\u{24c0}\u{24c1}\u{24c2}\u{24c3}\u{24c4}\u{24c5}\u{24c6}\u{24c7}\u{24c8}\u{24c9}\u{24ca}\u{24cb}\u{24cc}\u{24cd}\u{24ce}\u{24cf}\u{24d0}\u{24d1}\u{24d2}\u{24d3}\u{24d4}\u{24d5}\u{24d6}\u{24d7}\u{24d8}\u{24d9}\u{24da}\u{24db}\u{24dc}\u{24dd}\u{24de}\u{24df}\u{24e0}\u{24e1}\u{24e2}\u{24e3}\u{24e4}\u{24e5}\u{24e6}\u{24e7}\u{24e8}\u{24e9}\u{24ea}\u{2460}\u{2461}\u{2462}\u{2463}\u{2464}\u{2465}\u{2466}\u{2467}\u{2468}"@))),
        ("small-caps"@, ("small-caps"@, "Small Caps"@, seq!["sc"@], zipped("ABCDEFGHIJKLMNOPQRSTUVWXYZabcdefghijklmnopqrstuvwxyz"@, "\u{1d00}\u{299}\u{1d04}\u{1d05}\u{1d07}\u{a730}\u{262}\u{29c}\u{26a}\u{1d0a}\u{1d0b}\u{29f}\u{1d0d}\u{274}\u{1d0f}\u{1d18}\u{1eb}\u{280}\u{a731}\u{1d1b}\u{1d1c}\u{1d20}\u{1d21}x\u{28f}\u{1d22}\u{1d00}\u{299}\u{1d04}\u{1d05}\u{1d07}\u{a730}\u{262}\u{29c}\u{26a}\u{1d0a}\u{1d0b}\u{29f}\u{1d0d}\u{274}\u{1d0f}\u{1d18}\u{1eb}\u{280}\u{a731}\u{1d1b}\u{1d1c}\u{1d20}\u{1d21}x\u{28f}\u{1d22}"@))),
        ("strikethrough"@, ("strikethrough"@, "Strikethrough"@, seq!["strike"@, "st"@, "crossed"@], marked("ABCDEFGHIJKLMNOPQRSTUVWXYZabcdefghijklmnopqrstuvwxyz0123456789"@, '\u{336}'))),
        ("underline"@, ("underline"@, "Underline"@, seq!["ul"@], marked("ABCDEFGHIJKLMNOPQRSTUVWXYZabcdefghijklmnopqrstuvwxyz0123456789"@, '\u{332}'))),
        ("double-underline"@, ("double-underline"@, "Double Underline"@, seq!["dul"@], marked("ABCDEFGHIJKLMNOPQRSTUVWXYZabcdefghijklmnopqrstuvwxyz0123456789"@, '\u{333}'))),
        ("overline"@, ("overline"@, "Overline"@, seq!["ol"@], marked("ABCDEFGHIJKLMNOPQRSTUVWXYZabcdefghijklmnopqrstuvwxyz0123456789"@, '\u{305}'))),
        ("slashed"@, ("slashed"@, "Slashed"@, seq!["slash"@], marked("ABCDEFGHIJKLMNOPQRSTUVWXYZabcdefghijklmnopqrstuvwxyz0123456789"@, '\u{338}'))),
    ]
}

/// A badge type seen as its id, display name, aliases and mappings.
pub open spec fn badge_view(b: BadgeType) -> (Seq<char>, Seq<char>, Seq<Seq<char>>, Seq<(Seq<char>, Seq<char>)>) {
    (b.id@, b.name@, crate::components::strs(b.aliases@), text_pairs(b.mappings@))
}

/// The built-in badge types: id, display name, aliases and mappings.
pub open spec fn badge_table() -> Seq<(Seq<char>, (Seq<char>, Seq<char>, Seq<Seq<char>>, Seq<(Seq<char>, Seq<char>)>))> {
    seq![
        ("circle"@, ("circle"@, "Circled Numbers"@, seq!["circled"@], seq![("1"@, "\u{2460}"@), ("2"@, "\u{2461}"@), ("3"@, "\u{2462}"@), ("4"@, "\u{2463}"@), ("5"@, "\u{2464}"@), ("6"@, "\u{2465}"@), ("7"@, "\u{2466}"@), ("8"@, "\u{2467}"@), ("9"@, "\u{2468}"@), ("10"@, "\u{2469}"@), ("11"@, "\u{246a}"@), ("12"@, "\u{246b}"@), ("13"@, "\u{246c}"@), ("14"@, "\u{246d}"@), ("15"@, "\u{246e}"@), ("16"@, "\u{246f}"@), ("17"@, "\u{2470}"@), ("18"@, "\u{2471}"@), ("19"@, "\u{2472}"@), ("20"@, "\u{2473}"@), ("0"@, "\u{24ea}"@)])),
        ("paren"@, ("paren"@, "Parenthesized Numbers"@, seq!["parenthesized"@], seq![("1"@, "\u{2474}"@), ("2"@, "\u{2475}"@), ("3"@, "\u{2476}"@), ("4"@, "\u{2477}"@), ("5"@, "\u{2478}"@), ("6"@, "\u{2479}"@), ("7"@, "\u{247a}"@), ("8"@, "\u{247b}"@), ("9"@, "\u{247c}"@), ("10"@, "\u{247d}"@), ("11"@, "\u{247e}"@), ("12"@, "\u{247f}"@), ("13"@, "\u{2480}"@), ("14"@, "\u{2481}"@), ("15"@, "\u{2482}"@), ("16"@, "\u{2483}"@), ("17"@, "\u{2484}"@), ("18"@, "\u{2485}"@), ("19"@, "\u{2486}"@), ("20"@, "\u{2487}"@)])),
        ("paren-letter"@, ("paren-letter"@, "Parenthesized Letters"@, seq!["paren-alpha"@], seq![("a"@, "\u{249c}"@), ("b"@, "\u{249d}"@), ("c"@, "\u{249e}"@), ("d"@, "\u{249f}"@), ("e"@, "\u{24a0}"@), ("f"@, "\u{24a1}"@), ("g"@, "\u{24a2}"@), ("h"@, "\u{24a3}"@), ("i"@, "\u{24a4}"@), ("j"@, "\u{24a5}"@), ("k"@, "\u{24a6}"@), ("l"@, "\u{24a7}"@), ("m"@, "\u{24a8}"@), ("n"@, "\u{24a9}"@), ("o"@, "\u{24aa}"@), ("p"@, "\u{24ab}"@), ("q"@, "\u{24ac}"@), ("r"@, "\u{24ad}"@), ("s"@, "\u{24ae}"@), ("t"@, "\u{24af}"@), ("u"@, "\u{24b0}"@), ("v"@, "\u{24b1}"@), ("w"@, "\u{24b2}"@), ("x"@, "\u{24b3}"@), ("y"@, "\u{24b4}"@), ("z"@, "\u{24b5}"@)])),
        ("negative-circle"@, ("negative-circle"@, "Negative Circled Numbers"@, seq!["neg-circle"@], seq![("1"@, "\u{2776}"@), ("2"@, "\u{2777}"@), ("3"@, "\u{2778}"@), ("4"@, "\u{2779}"@), ("5"@, "\u{277a}"@), ("6"@, "\u{277b}"@), ("7"@, "\u{277c}"@), ("8"@, "\u{277d}"@), ("9"@, "\u{277e}"@), ("10"@, "\u{277f}"@), ("11"@, "\u{24eb}"@), ("12"@, "\u{24ec}"@), ("13"@, "\u{24ed}"@), ("14"@, "\u{24ee}"@), ("15"@, "\u{24ef}"@), ("16"@, "\u{24f0}"@), ("17"@, "\u{24f1}"@), ("18"@, "\u{24f2}"@), ("19"@, "\u{24f3}"@), ("20"@, "\u{24f4}"@), ("0"@, "\u{24ff}"@)])),
    ]
}

/// A frame row: prefix, suffix and aliases.
pub open spec fn frame_row(chrome: (Seq<char>, Seq<char>), aliases: Seq<Seq<char>>) -> (Seq<char>, Seq<char>, Seq<Seq<char>>) {
    (chrome.0, chrome.1, aliases)
}

/// A frame seen as its prefix, suffix and aliases.
pub open spec fn frame_view(f: Frame) -> (Seq<char>, Seq<char>, Seq<Seq<char>>) {
    (f.prefix@, f.suffix@, crate::components::strs(f.aliases@))
}

/// The built-in frames: prefix, suffix and aliases.
pub open spec fn frame_table() -> Seq<(Seq<char>, (Seq<char>, Seq<char>, Seq<Seq<char>>))> {
    seq![
        ("gradient"@, frame_row(pattern_chrome("\u{2593}\u{2592}\u{2591}"@, SuffixMode::Mirror), seq!["grad"@])),
        ("gradient-wave"@, frame_row(pattern_chrome("\u{2593}\u{2592}\u{2591}"@, SuffixMode::Alternate), seq!["wave"@])),
        ("line-bold"@, frame_row(pattern_chrome("\u{2501}\u{2501}\u{2501}"@, SuffixMode::Mirror), seq!["bold-line"@])),
        ("line-double"@, frame_row(pattern_chrome("\u{2550}\u{2550}\u{2550}"@, SuffixMode::Mirror), seq!["double"@])),
        ("line-light"@, frame_row(pattern_chrome("\u{2500}\u{2500}\u{2500}"@, SuffixMode::Mirror), seq!["line"@])),
        ("solid-left"@, frame_row(pattern_chrome("\u{2588}\u{258c}"@, SuffixMode::PrefixOnly), seq!["left"@])),
        ("solid-right"@, frame_row(pattern_chrome("\u{2590}\u{2588}"@, SuffixMode::SuffixOnly), seq!["right"@])),
        ("solid-both"@, frame_row(("\u{2588}\u{258c}"@, "\u{2590}\u{2588}"@), seq!["both"@])),
        ("star"@, frame_row(("\u{2605} "@, " \u{2606}"@), seq!["stars"@])),
        ("diamond"@, frame_row(("\u{25c6} "@, " \u{25c7}"@), seq!["diamonds"@])),
        ("lenticular"@, frame_row(("\u{3010}"@, "\u{3011}"@), seq!["lens"@])),
        ("quote"@, frame_row(("\u{ab} "@, " \u{bb}"@), seq!["quoted"@])),
        ("triangle"@, frame_row(("\u{25b6} "@, " \u{25c0}"@), seq!["triangles"@])),
        ("pointer"@, frame_row(("\u{261e} "@, " \u{261c}"@), seq!["pointed"@])),
        ("angle"@, frame_row(("\u{300a}"@, "\u{300b}"@), seq!["angled"@])),
    ]
}

/// A shield style seen as its id, display name, aliases and default flag.
pub open spec fn shield_view(s: ShieldStyle) -> (Seq<char>, Seq<char>, Seq<Seq<char>>, bool) {
    (s.id@, s.name@, crate::components::strs(s.aliases@), s.default)
}

/// The built-in shield styles: id, display name, aliases and default flag.
pub open spec fn shield_style_table() -> Seq<(Seq<char>, (Seq<char>, Seq<char>, Seq<Seq<char>>, bool))> {
    seq![
        ("flat"@, ("flat"@, "Flat"@, seq![], false)),
        ("flat-square"@, ("flat-square"@, "Flat Square"@, seq!["square"@], true)),
        ("for-the-badge"@, ("for-the-badge"@, "For the Badge"@, seq!["badge"@], false)),
        ("plastic"@, ("plastic"@, "Plastic"@, seq![], false)),
        ("social"@, ("social"@, "Social"@, seq![], false)),
    ]
}

/// A style's other fields: description, category, Unicode block, the
/// kinds of characters it supports, and the contexts it is used in.
pub open spec fn style_details(s: Style) -> (Seq<char>, StyleCategory, Seq<char>, StyleSupport, Seq<EvalContext>) {
    (s.description@, s.category, s.unicode_block@, s.supports, s.contexts@)
}

/// The built-in styles' other fields.
pub open spec fn style_detail_table() -> Seq<(Seq<char>, (Seq<char>, StyleCategory, Seq<char>, StyleSupport, Seq<EvalContext>))> {
    seq![
        ("mathbold"@, ("Bold serif letters and digits"@, StyleCategory::Bold, "Mathematical Alphanumeric Symbols"@, StyleSupport { uppercase: true, lowercase: true, numbers: true, symbols: false }, seq![EvalContext::Inline, EvalContext::Block])),
        ("italic"@, ("Italic serif letters"@, StyleCategory::Elegant, "Mathematical Alphanumeric Symbols"@, StyleSupport { uppercase: true, lowercase: true, numbers: false, symbols: false }, seq![EvalContext::Inline, EvalContext::Block])),
        ("bold-italic"@, ("Bold italic serif letters"@, StyleCategory::Bold, "Mathematical Alphanumeric Symbols"@, StyleSupport { uppercase: true, lowercase: true, numbers: false, symbols: false }, seq![EvalContext::Inline, EvalContext::Block])),
        ("script"@, ("Calligraphic script letters"@, StyleCategory::Elegant, "Mathematical Alphanumeric Symbols"@, StyleSupport { uppercase: true, lowercase: true, numbers: false, symbols: false }, seq![EvalContext::Inline, EvalContext::Block])),
        ("bold-script"@, ("Bold calligraphic letters"@, StyleCategory::Elegant, "Mathematical Alphanumeric Symbols"@, StyleSupport { uppercase: true, lowercase: true, numbers: false, symbols: false }, seq![EvalContext::Inline, EvalContext::Block])),
        ("fraktur"@, ("Blackletter letters"@, StyleCategory::Elegant, "Mathematical Alphanumeric Symbols"@, StyleSupport { uppercase: true, lowercase: true, numbers: false, symbols: false }, seq![EvalContext::Inline, EvalContext::Block])),
        ("bold-fraktur"@, ("Bold blackletter letters"@, StyleCategory::Elegant, "Mathematical Alphanumeric Symbols"@, StyleSupport { uppercase: true, lowercase: true, numbers: false, symbols: false }, seq![EvalContext::Inline, EvalContext::Block])),
        ("double-struck"@, ("Outlined letters and digits"@, StyleCategory::Technical, "Mathematical Alphanumeric Symbols"@, StyleSupport { uppercase: true, lowercase: true, numbers: true, symbols: false }, seq![EvalContext::Inline, EvalContext::Block])),
        ("sans-serif"@, ("Sans-serif letters and digits"@, StyleCategory::Technical, "Mathematical Alphanumeric Symbols"@, StyleSupport { uppercase: true, lowercase: true, numbers: true, symbols: false }, seq![EvalContext::Inline, EvalContext::Block])),
        ("sans-serif-bold"@, ("Bold sans-serif letters and digits"@, StyleCategory::Bold, "Mathematical Alphanumeric Symbols"@, StyleSupport { uppercase: true, lowercase: true, numbers: true, symbols: false }, seq![EvalContext::Inline, EvalContext::Block])),
        ("sans-serif-italic"@, ("Italic sans-serif letters"@, StyleCategory::Elegant, "Mathematical Alphanumeric Symbols"@, StyleSupport { uppercase: true, lowercase: true, numbers: false, symbols: false }, seq![EvalContext::Inline, EvalContext::Block])),
        ("sans-serif-bold-italic"@, ("Bold italic sans-serif letters"@, StyleCategory::Bold, "Mathematical Alphanumeric Symbols"@, StyleSupport { uppercase: true, lowercase: true, numbers: false, symbols: false }, seq![EvalContext::Inline, EvalContext::Block])),
        ("monospace"@, ("Fixed-width letters and digits"@, StyleCategory::Technical, "Mathematical Alphanumeric Symbols"@, StyleSupport { uppercase: true, lowercase: true, numbers: true, symbols: false }, seq![EvalContext::Inline, EvalContext::Block])),
        ("fullwidth"@, ("Full-width letters and digits"@, StyleCategory::Technical, "Halfwidth and Fullwidth Forms"@, StyleSupport { uppercase: true, lowercase: true, numbers: true, symbols: false }, seq![EvalContext::Inline, EvalContext::Block])),
        ("negative-squared"@, ("White letters in black squares"@, StyleCategory::Boxed, "Enclosed Alphanumeric Supplement"@, StyleSupport { uppercase: true, lowercase: false, numbers: false, symbols: false }, seq![EvalContext::Inline, EvalContext::Block])),
        ("negative-circled"@, ("White letters in black circles"@, StyleCategory::Boxed, "Enclosed Alphanumeric Supplement"@, StyleSupport { uppercase: true, lowercase: false, numbers: false, symbols: false }, seq![EvalContext::Inline, EvalContext::Block])),
        ("squared-latin"@, ("Letters in squares"@, StyleCategory::Boxed, "Enclosed Alphanumeric Supplement"@, StyleSupport { uppercase: true, lowercase: false, numbers: false, symbols: false }, seq![EvalContext::Inline, EvalContext::Block])),
        ("circled"@, ("Letters and digits in circles"@, StyleCategory::Boxed, "Enclosed Alphanumerics"@, StyleSupport { uppercase: true, lowercase: true, numbers: true, symbols: false }, seq![EvalContext::Inline, EvalContext::Block])),
        ("small-caps"@, ("Small capital letters"@, StyleCategory::Elegant, "IPA Extensions"@, StyleSupport { uppercase: true, lowercase: true, numbers: false, symbols: false }, seq![EvalContext::Inline, EvalContext::Block])),
        ("strikethrough"@, ("Characters struck through with a combining overlay"@, StyleCategory::Technical, "Combining Diacritical Marks"@, StyleSupport { uppercase: true, lowercase: true, numbers: true, symbols: false }, seq![EvalContext::Inline, EvalContext::Block])),
        ("underline"@, ("Characters underlined with a combining mark"@, StyleCategory::Technical, "Combining Diacritical Marks"@, StyleSupport { uppercase: true, lowercase: true, numbers: true, symbols: false }, seq![EvalContext::Inline, EvalContext::Block])),
        ("double-underline"@, ("Characters double-underlined with a combining mark"@, StyleCategory::Technical, "Combining Diacritical Marks"@, StyleSupport { uppercase: true, lowercase: true, numbers: true, symbols: false }, seq![EvalContext::Inline, EvalContext::Block])),
        ("overline"@, ("Characters overlined with a combining mark"@, StyleCategory::Technical, "Combining Diacritical Marks"@, StyleSupport { uppercase: true, lowercase: true, numbers: true, symbols: false }, seq![EvalContext::Inline, EvalContext::Block])),
        ("slashed"@, ("Characters slashed with a combining overlay"@, StyleCategory::Technical, "Combining Diacritical Marks"@, StyleSupport { uppercase: true, lowercase: true, numbers: true, symbols: false }, seq![EvalContext::Inline, EvalContext::Block])),
    ]
}

/// A badge type's description and contexts.
pub open spec fn badge_details(b: BadgeType) -> (Seq<char>, Seq<EvalContext>) {
    (b.description@, b.contexts@)
}

/// The built-in badge types' descriptions and contexts.
pub open spec fn badge_detail_table() -> Seq<(Seq<char>, (Seq<char>, Seq<EvalContext>))> {
    seq![
        ("circle"@, ("Numbers 0-20 in circles"@, seq![EvalContext::Inline])),
        ("paren"@, ("Numbers 1-20 in parentheses"@, seq![EvalContext::Inline])),
        ("paren-letter"@, ("Letters a-z in parentheses"@, seq![EvalContext::Inline])),
        ("negative-circle"@, ("Numbers 0-20 in black circles"@, seq![EvalContext::Inline])),
    ]
}

/// An optional text as a view.
pub open spec fn opt_text(o: Option<String>) -> Option<Seq<char>> {
    match o {
        Some(s) => Some(s@),
        None => None,
    }
}

/// A frame's description and contexts.
pub open spec fn frame_details(f: Frame) -> (Option<Seq<char>>, Seq<EvalContext>) {
    (opt_text(f.description), f.contexts@)
}

/// The built-in frames' descriptions and contexts.
pub open spec fn frame_detail_table() -> Seq<(Seq<char>, (Option<Seq<char>>, Seq<EvalContext>))> {
    seq![
        ("gradient"@, (Some("Shaded gradient on both sides"@), seq![EvalContext::FrameChrome])),
        ("gradient-wave"@, (Some("Shaded gradient with a rotated suffix"@), seq![EvalContext::FrameChrome])),
        ("line-bold"@, (Some("Heavy horizontal lines"@), seq![EvalContext::FrameChrome])),
        ("line-double"@, (Some("Double horizontal lines"@), seq![EvalContext::FrameChrome])),
        ("line-light"@, (Some("Light horizontal lines"@), seq![EvalContext::FrameChrome])),
        ("solid-left"@, (Some("Solid block on the left"@), seq![EvalContext::FrameChrome])),
        ("solid-right"@, (Some("Solid block on the right"@), seq![EvalContext::FrameChrome])),
        ("solid-both"@, (Some("Solid blocks on both sides"@), seq![EvalContext::FrameChrome])),
        ("star"@, (Some("Filled and outlined stars"@), seq![EvalContext::FrameChrome])),
        ("diamond"@, (Some("Filled and outlined diamonds"@), seq![EvalContext::FrameChrome])),
        ("lenticular"@, (Some("Lenticular brackets"@), seq![EvalContext::FrameChrome])),
        ("quote"@, (Some("Guillemets"@), seq![EvalContext::FrameChrome])),
        ("triangle"@, (Some("Pointing triangles"@), seq![EvalContext::FrameChrome])),
        ("pointer"@, (Some("Pointing hands"@), seq![EvalContext::FrameChrome])),
        ("angle"@, (Some("Double angle brackets"@), seq![EvalContext::FrameChrome])),
    ]
}

/// A shield style's description.
pub open spec fn shield_details(s: ShieldStyle) -> Option<Seq<char>> {
    opt_text(s.description)
}

/// The built-in shield styles' descriptions.
pub open spec fn shield_detail_table() -> Seq<(Seq<char>, Option<Seq<char>>)> {
    seq![
        ("flat"@, Some("Flat with rounded corners"@)),
        ("flat-square"@, Some("Flat with square corners"@)),
        ("for-the-badge"@, Some("Large uppercase badge"@)),
        ("plastic"@, Some("Glossy gradient"@)),
        ("social"@, Some("Social button look"@)),
    ]
}

/// A component seen as its type, whether it closes itself, description,
/// argument names, template (empty when it has none) and post-processing.
pub open spec fn component_view(c: Component) -> (Seq<char>, bool, Seq<char>, Seq<Seq<char>>, Seq<char>, Option<Seq<char>>) {
    (c.component_type@, c.self_closing, match c.description { Some(d) => d@, None => Seq::empty() },
        crate::components::strs(c.args@), match c.template { Some(x) => x@, None => Seq::empty() }, opt_text(c.post_process))
}

/// The built-in components: type, whether self-closing, description,
/// argument names, template and post-processing.
pub open spec fn component_table() -> Seq<(Seq<char>, (Seq<char>, bool, Seq<char>, Seq<Seq<char>>, Seq<char>, Option<Seq<char>>))> {
    seq![
        ("swatch"@, ("native"@, true, "Single color block"@, seq!["color"@], Seq::empty(), None)),
        ("tech"@, ("native"@, true, "Technology badge with logo"@, seq!["name"@], Seq::empty(), None)),
        ("tech-group"@, ("native"@, false, "Connected group of tech badges"@, seq![], Seq::empty(), None)),
        ("progress"@, ("native"@, true, "Progress bar"@, seq!["percent"@], Seq::empty(), None)),
        ("donut"@, ("native"@, true, "Ring chart"@, seq!["percent"@], Seq::empty(), None)),
        ("gauge"@, ("native"@, true, "Semi-circular meter"@, seq!["percent"@], Seq::empty(), None)),
        ("sparkline"@, ("native"@, true, "Inline chart"@, seq!["values"@], Seq::empty(), None)),
        ("rating"@, ("native"@, true, "Star rating"@, seq!["value"@], Seq::empty(), None)),
        ("waveform"@, ("native"@, true, "Audio-style bars"@, seq!["values"@], Seq::empty(), None)),
        ("row"@, ("native"@, false, "Horizontal row of images"@, seq![], Seq::empty(), None)),
        ("version"@, ("native"@, true, "Version badge"@, seq!["version"@], Seq::empty(), None)),
        ("license"@, ("native"@, true, "License badge"@, seq!["license"@], Seq::empty(), None)),
        ("live"@, ("dynamic"@, true, "Live metric badge"@, seq!["source"@], Seq::empty(), None)),
        ("divider"@, ("expand"@, true, "Section divider bar"@, seq![], "{{shields:bar:colors=ui.bg,ui.surface,accent,ui.bg:style=flat-square/}}"@, None)),
        ("header"@, ("expand"@, false, "Framed bold header"@, seq![], "{{frame:gradient}}{{mathbold:separator=dot}}$content{{/mathbold}}{{/frame}}"@, None)),
        ("callout"@, ("expand"@, false, "Callout with a colored marker"@, seq!["level"@], "{{shields:block:color=$1:style=flat-square/}} $content"@, Some("blockquote"@))),
    ]
}

/// The contexts a component may be used in.
pub open spec fn component_contexts(c: Component) -> Seq<EvalContext> {
    c.contexts@
}

/// The built-in components' contexts.
pub open spec fn component_context_table() -> Seq<(Seq<char>, Seq<EvalContext>)> {
    seq![
        ("swatch"@, seq![EvalContext::Inline, EvalContext::Block]),
        ("tech"@, seq![EvalContext::Inline, EvalContext::Block]),
        ("tech-group"@, seq![EvalContext::Block]),
        ("progress"@, seq![EvalContext::Inline, EvalContext::Block]),
        ("donut"@, seq![EvalContext::Inline, EvalContext::Block]),
        ("gauge"@, seq![EvalContext::Inline, EvalContext::Block]),
        ("sparkline"@, seq![EvalContext::Inline, EvalContext::Block]),
        ("rating"@, seq![EvalContext::Inline, EvalContext::Block]),
        ("waveform"@, seq![EvalContext::Inline, EvalContext::Block]),
        ("row"@, seq![EvalContext::Block]),
        ("version"@, seq![EvalContext::Inline, EvalContext::Block]),
        ("license"@, seq![EvalContext::Inline, EvalContext::Block]),
        ("live"@, seq![EvalContext::Inline, EvalContext::Block]),
        ("divider"@, seq![EvalContext::Block]),
        ("header"@, seq![EvalContext::Block]),
        ("callout"@, seq![EvalContext::Block]),
    ]
}

/// The names of a table of named texts.
pub open spec fn table_names(t: Seq<(Seq<char>, Seq<char>)>) -> Seq<Seq<char>> {
    t.map_values(|p: (Seq<char>, Seq<char>)| p.0)
}

/// The text a name has in a table, the last entry of that name winning.
pub open spec fn table_value(t: Seq<(Seq<char>, Seq<char>)>, k: Seq<char>) -> Seq<char>
    decreases t.len(),
{
    if t.len() == 0 {
        Seq::empty()
    } else if t.last().0 == k {
        t.last().1
    } else {
        table_value(t.drop_last(), k)
    }
}

/// A name has a last entry exactly when some entry carries it.
pub proof fn lemma_name_found<V>(e: Seq<(String, V)>, k: Seq<char>)
    ensures
        last_name_index(e, k) >= 0 <==> entry_names(e).contains(k),
        last_name_index(e, k) < e.len(),
        last_name_index(e, k) >= 0 ==> e[last_name_index(e, k)].0@ == k,
    decreases e.len(),
{
    if e.len() > 0 {
        lemma_name_found(e.drop_last(), k);
        let n = entry_names(e);
        assert(entry_names(e.drop_last()) =~= n.drop_last());
        if e.last().0@ == k {
            assert(n[e.len() - 1] == k);
        } else {
            if n.contains(k) {
                let j = choose|j: int| 0 <= j < n.len() && n[j] == k;
                assert(j != e.len() - 1);
                assert(n.drop_last()[j] == k);
            }
            if n.drop_last().contains(k) {
                let j = choose|j: int| 0 <= j < n.drop_last().len() && n.drop_last()[j] == k;
                assert(n[j] == k);
            }
        }
    }
}

/// A named text's last entry holds the table's value for that name.
pub proof fn lemma_name_value(e: Seq<(String, String)>, k: Seq<char>)
    requires
        last_name_index(e, k) >= 0,
    ensures
        e[last_name_index(e, k)].1@ == table_value(text_pairs(e), k),
        entry_names(e) == table_names(text_pairs(e)),
    decreases e.len(),
{
    assert(entry_names(e) =~= table_names(text_pairs(e)));
    assert(text_pairs(e.drop_last()) =~= text_pairs(e).drop_last());
    lemma_name_found(e, k);
    if e.last().0@ != k {
        lemma_name_value(e.drop_last(), k);
        let j = last_name_index(e, k);
        assert(j == last_name_index(e.drop_last(), k));
        assert(e.drop_last()[j] == e[j]);
        assert(text_pairs(e).last().0 != k);
    } else {
        assert(text_pairs(e).last() == (e.last().0@, e.last().1@));
    }
}

/// Pairs the characters of `from` with those of `to`, position by position,
/// up to the shorter length.
pub fn zip_map(from: &str, to: &str) -> (r: Vec<(char, String)>)
    ensures
        r@.len() == if from@.len() <= to@.len() { from@.len() } else { to@.len() },
        forall|i: int| 0 <= i < r@.len() ==> (#[trigger] r@[i]).0 == from@[i] && r@[i].1@ == seq![to@[i]],
        char_pairs(r@) == zipped(from@, to@),
{
    let a = chars_of(from);
    let b = chars_of(to);
    let n = if a.len() <= b.len() { a.len() } else { b.len() };
    let mut r: Vec<(char, String)> = Vec::new();
    let mut i: usize = 0;
    while i < n
        invariant
            i <= n,
            n <= a@.len(),
            n <= b@.len(),
            a@ == from@,
            b@ == to@,
            r@.len() == i,
            forall|j: int| 0 <= j < i ==> (#[trigger] r@[j]).0 == from@[j] && r@[j].1@ == seq![to@[j]],
        decreases n - i,
    {
        let mut one: Vec<char> = Vec::new();
        one.push(b[i]);
        r.push((a[i], string_of(one.as_slice())));
        i = i + 1;
    }
    assert(char_pairs(r@) =~= zipped(from@, to@));
    r
}

/// Maps every character of `from` to itself followed by the combining `mark`.
pub fn combining_map(from: &str, mark: char) -> (r: Vec<(char, String)>)
    ensures
        r@.len() == from@.len(),
        forall|i: int| 0 <= i < r@.len() ==> (#[trigger] r@[i]).0 == from@[i] && r@[i].1@ == seq![from@[i], mark],
        char_pairs(r@) == marked(from@, mark),
{
    let a = chars_of(from);
    let mut r: Vec<(char, String)> = Vec::new();
    let mut i: usize = 0;
    while i < a.len()
        invariant
            i <= a@.len(),
            a@ == from@,
            r@.len() == i,
            forall|j: int| 0 <= j < i ==> (#[trigger] r@[j]).0 == from@[j] && r@[j].1@ == seq![from@[j], mark],
        decreases a.len() - i,
    {
        let mut two: Vec<char> = Vec::new();
        two.push(a[i]);
        two.push(mark);
        assert(two@ =~= seq![from@[i as int], mark]);
        r.push((a[i], string_of(two.as_slice())));
        i = i + 1;
    }
    assert(char_pairs(r@) =~= marked(from@, mark));
    r
}

fn make_style(
    id: &str,
    name: &str,
    description: &str,
    category: StyleCategory,
    unicode_block: &str,
    aliases: Vec<String>,
    supports: StyleSupport,
    mappings: Vec<(char, String)>,
) -> (s: Style)
    ensures
        s.id@ == id@,
        s.name@ == name@,
        s.aliases == aliases,
        s.mappings == mappings,
        style_view(s) == (id@, name@, crate::components::strs(aliases@), char_pairs(mappings@)),
        style_details(s) == (description@, category, unicode_block@, supports, seq![EvalContext::Inline, EvalContext::Block]),
{
    Style {
        id: id.to_owned(),
        name: name.to_owned(),
        description: description.to_owned(),
        category,
        unicode_block: unicode_block.to_owned(),
        aliases,
        supports,
        mappings,
        contexts: vec![EvalContext::Inline, EvalContext::Block],
    }
}

#[verifier::spinoff_prover]
#[verifier::rlimit(60)]
fn builtin_styles() -> (r: Vec<(String, Style)>)
    ensures
        entry_names(r@) == style_names(),
        keyed(r@, |x: Style| style_view(x)) == style_table(),
        keyed(r@, |x: Style| style_details(x)) == style_detail_table(),
{
    let mut r: Vec<(String, Style)> = Vec::new();
    r.push(("mathbold".to_owned(), make_style("mathbold", "Mathematical Bold", "Bold serif letters and digits", StyleCategory::Bold, "Mathematical Alphanumeric Symbols", vec!["mb".to_owned()], StyleSupport { uppercase: true, lowercase: true, numbers: true, symbols: false }, zip_map("ABCDEFGHIJKLMNOPQRSTUVWXYZabcdefghijklmnopqrstuvwxyz0123456789", "\u{1d400}\u{1d401}\u{1d402}\u{1d403}\u{1d404}\u{1d405}\u{1d406}\u{1d407}\u{1d408}\u{1d409}\u{1d40a}\u{1d40b}\u{1d40c}\u{1d40d}\u{1d40e}\u{1d40f}\u{1d410}\u{1d411}\u{1d412}\u{1d413}\u{1d414}\u{1d415}\u{1d416}\u{1d417}\u{1d418}\u{1d419}\u{1d41a}\u{1d41b}\u{1d41c}\u{1d41d}\u{1d41e}\u{1d41f}\u{1d420}\u{1d421}\u{1d422}\u{1d423}\u{1d424}\u{1d425}\u{1d426}\u{1d427}\u{1d428}\u{1d429}\u{1d42a}\u{1d42b}\u{1d42c}\u{1d42d}\u{1d42e}\u{1d42f}\u{1d430}\u{1d431}\u{1d432}\u{1d433}\u{1d7ce}\u{1d7cf}\u{1d7d0}\u{1d7d1}\u{1d7d2}\u{1d7d3}\u{1d7d4}\u{1d7d5}\u{1d7d6}\u{1d7d7}"))));
    r.push(("italic".to_owned(), make_style("italic", "Mathematical Italic", "Italic serif letters", StyleCategory::Elegant, "Mathematical Alphanumeric Symbols", vec!["it".to_owned()], StyleSupport { uppercase: true, lowercase: true, numbers: false, symbols: false }, zip_map("ABCDEFGHIJKLMNOPQRSTUVWXYZabcdefghijklmnopqrstuvwxyz", "\u{1d434}\u{1d435}\u{1d436}\u{1d437}\u{1d438}\u{1d439}\u{1d43a}\u{1d43b}\u{1d43c}\u{1d43d}\u{1d43e}\u{1d43f}\u{1d440}\u{1d441}\u{1d442}\u{1d443}\u{1d444}\u{1d445}\u{1d446}\u{1d447}\u{1d448}\u{1d449}\u{1d44a}\u{1d44b}\u{1d44c}\u{1d44d}\u{1d44e}\u{1d44f}\u{1d450}\u{1d451}\u{1d452}\u{1d453}\u{1d454}\u{210e}\u{1d456}\u{1d457}\u{1d458}\u{1d459}\u{1d45a}\u{1d45b}\u{1d45c}\u{1d45d}\u{1d45e}\u{1d45f}\u{1d460}\u{1d461}\u{1d462}\u{1d463}\u{1d464}\u{1d465}\u{1d466}\u{1d467}"))));
    r.push(("bold-italic".to_owned(), make_style("bold-italic", "Mathematical Bold Italic", "Bold italic serif letters", StyleCategory::Bold, "Mathematical Alphanumeric Symbols", vec!["bi".to_owned()], StyleSupport { uppercase: true, lowercase: true, numbers: false, symbols: false }, zip_map("ABCDEFGHIJKLMNOPQRSTUVWXYZabcdefghijklmnopqrstuvwxyz", "\u{1d468}\u{1d469}\u{1d46a}\u{1d46b}\u{1d46c}\u{1d46d}\u{1d46e}\u{1d46f}\u{1d470}\u{1d471}\u{1d472}\u{1d473}\u{1d474}\u{1d475}\u{1d476}\u{1d477}\u{1d478}\u{1d479}\u{1d47a}\u{1d47b}\u{1d47c}\u{1d47d}\u{1d47e}\u{1d47f}\u{1d480}\u{1d481}\u{1d482}\u{1d483}\u{1d484}\u{1d485}\u{1d486}\u{1d487}\u{1d488}\u{1d489}\u{1d48a}\u{1d48b}\u{1d48c}\u{1d48d}\u{1d48e}\u{1d48f}\u{1d490}\u{1d491}\u{1d492}\u{1d493}\u{1d494}\u{1d495}\u{1d496}\u{1d497}\u{1d498}\u{1d499}\u{1d49a}\u{1d49b}"))));
    r.push(("script".to_owned(), make_style("script", "Mathematical Script", "Calligraphic script letters", StyleCategory::Elegant, "Mathematical Alphanumeric Symbols", vec!["scr".to_owned()], StyleSupport { uppercase: true, lowercase: true, numbers: false, symbols: false }, zip_map("ABCDEFGHIJKLMNOPQRSTUVWXYZabcdefghijklmnopqrstuvwxyz", "\u{1d49c}\u{212c}\u{1d49e}\u{1d49f}\u{2130}\u{2131}\u{1d4a2}\u{210b}\u{2110}\u{1d4a5}\u{1d4a6}\u{2112}\u{2133}\u{1d4a9}\u{1d4aa}\u{1d4ab}\u{1d4ac}\u{211b}\u{1d4ae}\u{1d4af}\u{1d4b0}\u{1d4b1}\u{1d4b2}\u{1d4b3}\u{1d4b4}\u{1d4b5}\u{1d4b6}\u{1d4b7}\u{1d4b8}\u{1d4b9}\u{212f}\u{1d4bb}\u{210a}\u{1d4bd}\u{1d4be}\u{1d4bf}\u{1d4c0}\u{1d4c1}\u{1d4c2}\u{1d4c3}\u{2134}\u{1d4c5}\u{1d4c6}\u{1d4c7}\u{1d4c8}\u{1d4c9}\u{1d4ca}\u{1d4cb}\u{1d4cc}\u{1d4cd}\u{1d4ce}\u{1d4cf}"))));
    r.push(("bold-script".to_owned(), make_style("bold-script", "Mathematical Bold Script", "Bold calligraphic letters", StyleCategory::Elegant, "Mathematical Alphanumeric Symbols", vec!["bscr".to_owned()], StyleSupport { uppercase: true, lowercase: true, numbers: false, symbols: false }, zip_map("ABCDEFGHIJKLMNOPQRSTUVWXYZabcdefghijklmnopqrstuvwxyz", "\u{1d4d0}\u{1d4d1}\u{1d4d2}\u{1d4d3}\u{1d4d4}\u{1d4d5}\u{1d4d6}\u{1d4d7}\u{1d4d8}\u{1d4d9}\u{1d4da}\u{1d4db}\u{1d4dc}\u{1d4dd}\u{1d4de}\u{1d4df}\u{1d4e0}\u{1d4e1}\u{1d4e2}\u{1d4e3}\u{1d4e4}\u{1d4e5}\u{1d4e6}\u{1d4e7}\u{1d4e8}\u{1d4e9}\u{1d4ea}\u{1d4eb}\u{1d4ec}\u{1d4ed}\u{1d4ee}\u{1d4ef}\u{1d4f0}\u{1d4f1}\u{1d4f2}\u{1d4f3}\u{1d4f4}\u{1d4f5}\u{1d4f6}\u{1d4f7}\u{1d4f8}\u{1d4f9}\u{1d4fa}\u{1d4fb}\u{1d4fc}\u{1d4fd}\u{1d4fe}\u{1d4ff}\u{1d500}\u{1d501}\u{1d502}\u{1d503}"))));
    r.push(("fraktur".to_owned(), make_style("fraktur", "Mathematical Fraktur", "Blackletter letters", StyleCategory::Elegant, "Mathematical Alphanumeric Symbols", vec!["frak".to_owned()], StyleSupport { uppercase: true, lowercase: true, numbers: false, symbols: false }, zip_map("ABCDEFGHIJKLMNOPQRSTUVWXYZabcdefghijklmnopqrstuvwxyz", "\u{1d504}\u{1d505}\u{212d}\u{1d507}\u{1d508}\u{1d509}\u{1d50a}\u{210c}\u{2111}\u{1d50d}\u{1d50e}\u{1d50f}\u{1d510}\u{1d511}\u{1d512}\u{1d513}\u{1d514}\u{211c}\u{1d516}\u{1d517}\u{1d518}\u{1d519}\u{1d51a}\u{1d51b}\u{1d51c}\u{2128}\u{1d51e}\u{1d51f}\u{1d520}\u{1d521}\u{1d522}\u{1d523}\u{1d524}\u{1d525}\u{1d526}\u{1d527}\u{1d528}\u{1d529}\u{1d52a}\u{1d52b}\u{1d52c}\u{1d52d}\u{1d52e}\u{1d52f}\u{1d530}\u{1d531}\u{1d532}\u{1d533}\u{1d534}\u{1d535}\u{1d536}\u{1d537}"))));
    r.push(("bold-fraktur".to_owned(), make_style("bold-fraktur", "Mathematical Bold Fraktur", "Bold blackletter letters", StyleCategory::Elegant, "Mathematical Alphanumeric Symbols", vec!["bfrak".to_owned()], StyleSupport { uppercase: true, lowercase: true, numbers: false, symbols: false }, zip_map("ABCDEFGHIJKLMNOPQRSTUVWXYZabcdefghijklmnopqrstuvwxyz", "\u{1d56c}\u{1d56d}\u{1d56e}\u{1d56f}\u{1d570}\u{1d571}\u{1d572}\u{1d573}\u{1d574}\u{1d575}\u{1d576}\u{1d577}\u{1d578}\u{1d579}\u{1d57a}\u{1d57b}\u{1d57c}\u{1d57d}\u{1d57e}\u{1d57f}\u{1d580}\u{1d581}\u{1d582}\u{1d583}\u{1d584}\u{1d585}\u{1d586}\u{1d587}\u{1d588}\u{1d589}\u{1d58a}\u{1d58b}\u{1d58c}\u{1d58d}\u{1d58e}\u{1d58f}\u{1d590}\u{1d591}\u{1d592}\u{1d593}\u{1d594}\u{1d595}\u{1d596}\u{1d597}\u{1d598}\u{1d599}\u{1d59a}\u{1d59b}\u{1d59c}\u{1d59d}\u{1d59e}\u{1d59f}"))));
    r.push(("double-struck".to_owned(), make_style("double-struck", "Double-Struck", "Outlined letters and digits", StyleCategory::Technical, "Mathematical Alphanumeric Symbols", vec!["ds".to_owned()], StyleSupport { uppercase: true, lowercase: true, numbers: true, symbols: false }, zip_map("ABCDEFGHIJKLMNOPQRSTUVWXYZabcdefghijklmnopqrstuvwxyz0123456789", "\u{1d538}\u{1d539}\u{2102}\u{1d53b}\u{1d53c}\u{1d53d}\u{1d53e}\u{210d}\u{1d540}\u{1d541}\u{1d542}\u{1d543}\u{1d544}\u{2115}\u{1d546}\u{2119}\u{211a}\u{211d}\u{1d54a}\u{1d54b}\u{1d54c}\u{1d54d}\u{1d54e}\u{1d54f}\u{1d550}\u{2124}\u{1d552}\u{1d553}\u{1d554}\u{1d555}\u{1d556}\u{1d557}\u{1d558}\u{1d559}\u{1d55a}\u{1d55b}\u{1d55c}\u{1d55d}\u{1d55e}\u{1d55f}\u{1d560}\u{1d561}\u{1d562}\u{1d563}\u{1d564}\u{1d565}\u{1d566}\u{1d567}\u{1d568}\u{1d569}\u{1d56a}\u{1d56b}\u{1d7d8}\u{1d7d9}\u{1d7da}\u{1d7db}\u{1d7dc}\u{1d7dd}\u{1d7de}\u{1d7df}\u{1d7e0}\u{1d7e1}"))));
    r.push(("sans-serif".to_owned(), make_style("sans-serif", "Sans-Serif", "Sans-serif letters and digits", StyleCategory::Technical, "Mathematical Alphanumeric Symbols", vec!["ss".to_owned()], StyleSupport { uppercase: true, lowercase: true, numbers: true, symbols: false }, zip_map("ABCDEFGHIJKLMNOPQRSTUVWXYZabcdefghijklmnopqrstuvwxyz0123456789", "\u{1d5a0}\u{1d5a1}\u{1d5a2}\u{1d5a3}\u{1d5a4}\u{1d5a5}\u{1d5a6}\u{1d5a7}\u{1d5a8}\u{1d5a9}\u{1d5aa}\u{1d5ab}\u{1d5ac}\u{1d5ad}\u{1d5ae}\u{1d5af}\u{1d5b0}\u{1d5b1}\u{1d5b2}\u{1d5b3}\u{1d5b4}\u{1d5b5}\u{1d5b6}\u{1d5b7}\u{1d5b8}\u{1d5b9}\u{1d5ba}\u{1d5bb}\u{1d5bc}\u{1d5bd}\u{1d5be}\u{1d5bf}\u{1d5c0}\u{1d5c1}\u{1d5c2}\u{1d5c3}\u{1d5c4}\u{1d5c5}\u{1d5c6}\u{1d5c7}\u{1d5c8}\u{1d5c9}\u{1d5ca}\u{1d5cb}\u{1d5cc}\u{1d5cd}\u{1d5ce}\u{1d5cf}\u{1d5d0}\u{1d5d1}\u{1d5d2}\u{1d5d3}\u{1d7e2}\u{1d7e3}\u{1d7e4}\u{1d7e5}\u{1d7e6}\u{1d7e7}\u{1d7e8}\u{1d7e9}\u{1d7ea}\u{1d7eb}"))));
    r.push(("sans-serif-bold".to_owned(), make_style("sans-serif-bold", "Sans-Serif Bold", "Bold sans-serif letters and digits", StyleCategory::Bold, "Mathematical Alphanumeric Symbols", vec!["ssb".to_owned()], StyleSupport { uppercase: true, lowercase: true, numbers: true, symbols: false }, zip_map("ABCDEFGHIJKLMNOPQRSTUVWXYZabcdefghijklmnopqrstuvwxyz0123456789", "\u{1d5d4}\u{1d5d5}\u{1d5d6}\u{1d5d7}\u{1d5d8}\u{1d5d9}\u{1d5da}\u{1d5db}\u{1d5dc}\u{1d5dd}\u{1d5de}\u{1d5df}\u{1d5e0}\u{1d5e1}\u{1d5e2}\u{1d5e3}\u{1d5e4}\u{1d5e5}\u{1d5e6}\u{1d5e7}\u{1d5e8}\u{1d5e9}\u{1d5ea}\u{1d5eb}\u{1d5ec}\u{1d5ed}\u{1d5ee}\u{1d5ef}\u{1d5f0}\u{1d5f1}\u{1d5f2}\u{1d5f3}\u{1d5f4}\u{1d5f5}\u{1d5f6}\u{1d5f7}\u{1d5f8}\u{1d5f9}\u{1d5fa}\u{1d5fb}\u{1d5fc}\u{1d5fd}\u{1d5fe}\u{1d5ff}\u{1d600}\u{1d601}\u{1d602}\u{1d603}\u{1d604}\u{1d605}\u{1d606}\u{1d607}\u{1d7ec}\u{1d7ed}\u{1d7ee}\u{1d7ef}\u{1d7f0}\u{1d7f1}\u{1d7f2}\u{1d7f3}\u{1d7f4}\u{1d7f5}"))));
    r.push(("sans-serif-italic".to_owned(), make_style("sans-serif-italic", "Sans-Serif Italic", "Italic sans-serif letters", StyleCategory::Elegant, "Mathematical Alphanumeric Symbols", vec!["ssi".to_owned()], StyleSupport { uppercase: true, lowercase: true, numbers: false, symbols: false }, zip_map("ABCDEFGHIJKLMNOPQRSTUVWXYZabcdefghijklmnopqrstuvwxyz", "\u{1d608}\u{1d609}\u{1d60a}\u{1d60b}\u{1d60c}\u{1d60d}\u{1d60e}\u{1d60f}\u{1d610}\u{1d611}\u{1d612}\u{1d613}\u{1d614}\u{1d615}\u{1d616}\u{1d617}\u{1d618}\u{1d619}\u{1d61a}\u{1d61b}\u{1d61c}\u{1d61d}\u{1d61e}\u{1d61f}\u{1d620}\u{1d621}\u{1d622}\u{1d623}\u{1d624}\u{1d625}\u{1d626}\u{1d627}\u{1d628}\u{1d629}\u{1d62a}\u{1d62b}\u{1d62c}\u{1d62d}\u{1d62e}\u{1d62f}\u{1d630}\u{1d631}\u{1d632}\u{1d633}\u{1d634}\u{1d635}\u{1d636}\u{1d637}\u{1d638}\u{1d639}\u{1d63a}\u{1d63b}"))));
    r.push(("sans-serif-bold-italic".to_owned(), make_style("sans-serif-bold-italic", "Sans-Serif Bold Italic", "Bold italic sans-serif letters", StyleCategory::Bold, "Mathematical Alphanumeric Symbols", vec!["ssbi".to_owned()], StyleSupport { uppercase: true, lowercase: true, numbers: false, symbols: false }, zip_map("ABCDEFGHIJKLMNOPQRSTUVWXYZabcdefghijklmnopqrstuvwxyz", "\u{1d63c}\u{1d63d}\u{1d63e}\u{1d63f}\u{1d640}\u{1d641}\u{1d642}\u{1d643}\u{1d644}\u{1d645}\u{1d646}\u{1d647}\u{1d648}\u{1d649}\u{1d64a}\u{1d64b}\u{1d64c}\u{1d64d}\u{1d64e}\u{1d64f}\u{1d650}\u{1d651}\u{1d652}\u{1d653}\u{1d654}\u{1d655}\u{1d656}\u{1d657}\u{1d658}\u{1d659}\u{1d65a}\u{1d65b}\u{1d65c}\u{1d65d}\u{1d65e}\u{1d65f}\u{1d660}\u{1d661}\u{1d662}\u{1d663}\u{1d664}\u{1d665}\u{1d666}\u{1d667}\u{1d668}\u{1d669}\u{1d66a}\u{1d66b}\u{1d66c}\u{1d66d}\u{1d66e}\u{1d66f}"))));
    r.push(("monospace".to_owned(), make_style("monospace", "Monospace", "Fixed-width letters and digits", StyleCategory::Technical, "Mathematical Alphanumeric Symbols", vec!["mono".to_owned()], StyleSupport { uppercase: true, lowercase: true, numbers: true, symbols: false }, zip_map("ABCDEFGHIJKLMNOPQRSTUVWXYZabcdefghijklmnopqrstuvwxyz0123456789", "\u{1d670}\u{1d671}\u{1d672}\u{1d673}\u{1d674}\u{1d675}\u{1d676}\u{1d677}\u{1d678}\u{1d679}\u{1d67a}\u{1d67b}\u{1d67c}\u{1d67d}\u{1d67e}\u{1d67f}\u{1d680}\u{1d681}\u{1d682}\u{1d683}\u{1d684}\u{1d685}\u{1d686}\u{1d687}\u{1d688}\u{1d689}\u{1d68a}\u{1d68b}\u{1d68c}\u{1d68d}\u{1d68e}\u{1d68f}\u{1d690}\u{1d691}\u{1d692}\u{1d693}\u{1d694}\u{1d695}\u{1d696}\u{1d697}\u{1d698}\u{1d699}\u{1d69a}\u{1d69b}\u{1d69c}\u{1d69d}\u{1d69e}\u{1d69f}\u{1d6a0}\u{1d6a1}\u{1d6a2}\u{1d6a3}\u{1d7f6}\u{1d7f7}\u{1d7f8}\u{1d7f9}\u{1d7fa}\u{1d7fb}\u{1d7fc}\u{1d7fd}\u{1d7fe}\u{1d7ff}"))));
    r.push(("fullwidth".to_owned(), make_style("fullwidth", "Full-Width", "Full-width letters and digits", StyleCategory::Technical, "Halfwidth and Fullwidth Forms", vec!["fw".to_owned()], StyleSupport { uppercase: true, lowercase: true, numbers: true, symbols: false }, zip_map("ABCDEFGHIJKLMNOPQRSTUVWXYZabcdefghijklmnopqrstuvwxyz0123456789", "\u{ff21}\u{ff22}\u{ff23}\u{ff24}\u{ff25}\u{ff26}\u{ff27}\u{ff28}\u{ff29}\u{ff2a}\u{ff2b}\u{ff2c}\u{ff2d}\u{ff2e}\u{ff2f}\u{ff30}\u{ff31}\u{ff32}\u{ff33}\u{ff34}\u{ff35}\u{ff36}\u{ff37}\u{ff38}\u{ff39}\u{ff3a}\u{ff41}\u{ff42}\u{ff43}\u{ff44}\u{ff45}\u{ff46}\u{ff47}\u{ff48}\u{ff49}\u{ff4a}\u{ff4b}\u{ff4c}\u{ff4d}\u{ff4e}\u{ff4f}\u{ff50}\u{ff51}\u{ff52}\u{ff53}\u{ff54}\u{ff55}\u{ff56}\u{ff57}\u{ff58}\u{ff59}\u{ff5a}\u{ff10}\u{ff11}\u{ff12}\u{ff13}\u{ff14}\u{ff15}\u{ff16}\u{ff17}\u{ff18}\u{ff19}"))));
    r.push(("negative-squared".to_owned(), make_style("negative-squared", "Negative Squared", "White letters in black squares", StyleCategory::Boxed, "Enclosed Alphanumeric Supplement", vec!["ns".to_owned()], StyleSupport { uppercase: true, lowercase: false, numbers: false, symbols: false }, zip_map("ABCDEFGHIJKLMNOPQRSTUVWXYZabcdefghijklmnopqrstuvwxyz", "\u{1f170}\u{1f171}\u{1f172}\u{1f173}\u{1f174}\u{1f175}\u{1f176}\u{1f177}\u{1f178}\u{1f179}\u{1f17a}\u{1f17b}\u{1f17c}\u{1f17d}\u{1f17e}\u{1f17f}\u{1f180}\u{1f181}\u{1f182}\u{1f183}\u{1f184}\u{1f185}\u{1f186}\u{1f187}\u{1f188}\u{1f189}\u{1f170}\u{1f171}\u{1f172}\u{1f173}\u{1f174}\u{1f175}\u{1f176}\u{1f177}\u{1f178}\u{1f179}\u{1f17a}\u{1f17b}\u{1f17c}\u{1f17d}\u{1f17e}\u{1f17f}\u{1f180}\u{1f181}\u{1f182}\u{1f183}\u{1f184}\u{1f185}\u{1f186}\u{1f187}\u{1f188}\u{1f189}"))));
    r.push(("negative-circled".to_owned(), make_style("negative-circled", "Negative Circled", "White letters in black circles", StyleCategory::Boxed, "Enclosed Alphanumeric Supplement", vec!["nc".to_owned()], StyleSupport { uppercase: true, lowercase: false, numbers: false, symbols: false }, zip_map("ABCDEFGHIJKLMNOPQRSTUVWXYZabcdefghijklmnopqrstuvwxyz", "\u{1f150}\u{1f151}\u{1f152}\u{1f153}\u{1f154}\u{1f155}\u{1f156}\u{1f157}\u{1f158}\u{1f159}\u{1f15a}\u{1f15b}\u{1f15c}\u{1f15d}\u{1f15e}\u{1f15f}\u{1f160}\u{1f161}\u{1f162}\u{1f163}\u{1f164}\u{1f165}\u{1f166}\u{1f167}\u{1f168}\u{1f169}\u{1f150}\u{1f151}\u{1f152}\u{1f153}\u{1f154}\u{1f155}\u{1f156}\u{1f157}\u{1f158}\u{1f159}\u{1f15a}\u{1f15b}\u{1f15c}\u{1f15d}\u{1f15e}\u{1f15f}\u{1f160}\u{1f161}\u{1f162}\u{1f163}\u{1f164}\u{1f165}\u{1f166}\u{1f167}\u{1f168}\u{1f169}"))));
    r.push(("squared-latin".to_owned(), make_style("squared-latin", "Squared Latin", "Letters in squares", StyleCategory::Boxed, "Enclosed Alphanumeric Supplement", vec!["sq".to_owned()], StyleSupport { uppercase: true, lowercase: false, numbers: false, symbols: false }, zip_map("ABCDEFGHIJKLMNOPQRSTUVWXYZabcdefghijklmnopqrstuvwxyz", "\u{1f130}\u{1f131}\u{1f132}\u{1f133}\u{1f134}\u{1f135}\u{1f136}\u{1f137}\u{1f138}\u{1f139}\u{1f13a}\u{1f13b}\u{1f13c}\u{1f13d}\u{1f13e}\u{1f13f}\u{1f140}\u{1f141}\u{1f142}\u{1f143}\u{1f144}\u{1f145}\u{1f146}\u{1f147}\u{1f148}\u{1f149}\u{1f130}\u{1f131}\u{1f132}\u{1f133}\u{1f134}\u{1f135}\u{1f136}\u{1f137}\u{1f138}\u{1f139}\u{1f13a}\u{1f13b}\u{1f13c}\u{1f13d}\u{1f13e}\u{1f13f}\u{1f140}\u{1f141}\u{1f142}\u{1f143}\u{1f144}\u{1f145}\u{1f146}\u{1f147}\u{1f148}\u{1f149}"))));
    r.push(("circled".to_owned(), make_style("circled", "Circled", "Letters and digits in circles", StyleCategory::Boxed, "Enclosed Alphanumerics", vec!["circ".to_owned()], StyleSupport { uppercase: true, lowercase: true, numbers: true, symbols: false }, zip_map("ABCDEFGHIJKLMNOPQRSTUVWXYZabcdefghijklmnopqrstuvwxyz0123456789", "\u{24b6}\u{24b7}\u{24b8}\u{24b9}\u{24ba}\u{24bb}\u{24bc}\u{24bd}\u{24be}\u{24bf}\u{24c0}\u{24c1}\u{24c2}\u{24c3}\u{24c4}\u{24c5}\u{24c6}\u{24c7}\u{24c8}\u{24c9}\u{24ca}\u{24cb}\u{24cc}\u{24cd}\u{24ce}\u{24cf}\u{24d0}\u{24d1}\u{24d2}\u{24d3}\u{24d4}\u{24d5}\u{24d6}\u{24d7}\u{24d8}\u{24d9}\u{24da}\u{24db}\u{24dc}\u{24dd}\u{24de}\u{24df}\u{24e0}\u{24e1}\u{24e2}\u{24e3}\u{24e4}\u{24e5}\u{24e6}\u{24e7}\u{24e8}\u{24e9}\u{24ea}\u{2460}\u{2461}\u{2462}\u{2463}\u{2464}\u{2465}\u{2466}\u{2467}\u{2468}"))));
    r.push(("small-caps".to_owned(), make_style("small-caps", "Small Caps", "Small capital letters", StyleCategory::Elegant, "IPA Extensions", vec!["sc".to_owned()], StyleSupport { uppercase: true, lowercase: true, numbers: false, symbols: false }, zip_map("ABCDEFGHIJKLMNOPQRSTUVWXYZabcdefghijklmnopqrstuvwxyz", "\u{1d00}\u{299}\u{1d04}\u{1d05}\u{1d07}\u{a730}\u{262}\u{29c}\u{26a}\u{1d0a}\u{1d0b}\u{29f}\u{1d0d}\u{274}\u{1d0f}\u{1d18}\u{1eb}\u{280}\u{a731}\u{1d1b}\u{1d1c}\u{1d20}\u{1d21}x\u{28f}\u{1d22}\u{1d00}\u{299}\u{1d04}\u{1d05}\u{1d07}\u{a730}\u{262}\u{29c}\u{26a}\u{1d0a}\u{1d0b}\u{29f}\u{1d0d}\u{274}\u{1d0f}\u{1d18}\u{1eb}\u{280}\u{a731}\u{1d1b}\u{1d1c}\u{1d20}\u{1d21}x\u{28f}\u{1d22}"))));
    r.push(("strikethrough".to_owned(), make_style("strikethrough", "Strikethrough", "Characters struck through with a combining overlay", StyleCategory::Technical, "Combining Diacritical Marks", vec!["strike".to_owned(), "st".to_owned(), "crossed".to_owned()], StyleSupport { uppercase: true, lowercase: true, numbers: true, symbols: false }, combining_map("ABCDEFGHIJKLMNOPQRSTUVWXYZabcdefghijklmnopqrstuvwxyz0123456789", '\u{336}'))));
    r.push(("underline".to_owned(), make_style("underline", "Underline", "Characters underlined with a combining mark", StyleCategory::Technical, "Combining Diacritical Marks", vec!["ul".to_owned()], StyleSupport { uppercase: true, lowercase: true, numbers: true, symbols: false }, combining_map("ABCDEFGHIJKLMNOPQRSTUVWXYZabcdefghijklmnopqrstuvwxyz0123456789", '\u{332}'))));
    r.push(("double-underline".to_owned(), make_style("double-underline", "Double Underline", "Characters double-underlined with a combining mark", StyleCategory::Technical, "Combining Diacritical Marks", vec!["dul".to_owned()], StyleSupport { uppercase: true, lowercase: true, numbers: true, symbols: false }, combining_map("ABCDEFGHIJKLMNOPQRSTUVWXYZabcdefghijklmnopqrstuvwxyz0123456789", '\u{333}'))));
    r.push(("overline".to_owned(), make_style("overline", "Overline", "Characters overlined with a combining mark", StyleCategory::Technical, "Combining Diacritical Marks", vec!["ol".to_owned()], StyleSupport { uppercase: true, lowercase: true, numbers: true, symbols: false }, combining_map("ABCDEFGHIJKLMNOPQRSTUVWXYZabcdefghijklmnopqrstuvwxyz0123456789", '\u{305}'))));
    r.push(("slashed".to_owned(), make_style("slashed", "Slashed", "Characters slashed with a combining overlay", StyleCategory::Technical, "Combining Diacritical Marks", vec!["slash".to_owned()], StyleSupport { uppercase: true, lowercase: true, numbers: true, symbols: false }, combining_map("ABCDEFGHIJKLMNOPQRSTUVWXYZabcdefghijklmnopqrstuvwxyz0123456789", '\u{338}'))));
    assert(entry_names(r@) =~= style_names());
    assert(keyed(r@, |x: Style| style_view(x)) =~~= style_table());
    assert(keyed(r@, |x: Style| style_details(x)) =~~= style_detail_table());
    r
}

fn builtin_badges() -> (r: Vec<(String, BadgeType)>)
    ensures
        entry_names(r@) == badge_names(),
        keyed(r@, |x: BadgeType| badge_view(x)) == badge_table(),
        keyed(r@, |x: BadgeType| badge_details(x)) == badge_detail_table(),
{
    let mut r: Vec<(String, BadgeType)> = Vec::new();
    r.push(("circle".to_owned(), BadgeType { id: "circle".to_owned(), name: "Circled Numbers".to_owned(), description: "Numbers 0-20 in circles".to_owned(), aliases: vec!["circled".to_owned()], mappings: vec![("1".to_owned(), "\u{2460}".to_owned()), ("2".to_owned(), "\u{2461}".to_owned()), ("3".to_owned(), "\u{2462}".to_owned()), ("4".to_owned(), "\u{2463}".to_owned()), ("5".to_owned(), "\u{2464}".to_owned()), ("6".to_owned(), "\u{2465}".to_owned()), ("7".to_owned(), "\u{2466}".to_owned()), ("8".to_owned(), "\u{2467}".to_owned()), ("9".to_owned(), "\u{2468}".to_owned()), ("10".to_owned(), "\u{2469}".to_owned()), ("11".to_owned(), "\u{246a}".to_owned()), ("12".to_owned(), "\u{246b}".to_owned()), ("13".to_owned(), "\u{246c}".to_owned()), ("14".to_owned(), "\u{246d}".to_owned()), ("15".to_owned(), "\u{246e}".to_owned()), ("16".to_owned(), "\u{246f}".to_owned()), ("17".to_owned(), "\u{2470}".to_owned()), ("18".to_owned(), "\u{2471}".to_owned()), ("19".to_owned(), "\u{2472}".to_owned()), ("20".to_owned(), "\u{2473}".to_owned()), ("0".to_owned(), "\u{24ea}".to_owned())], contexts: vec![EvalContext::Inline] }));
    r.push(("paren".to_owned(), BadgeType { id: "paren".to_owned(), name: "Parenthesized Numbers".to_owned(), description: "Numbers 1-20 in parentheses".to_owned(), aliases: vec!["parenthesized".to_owned()], mappings: vec![("1".to_owned(), "\u{2474}".to_owned()), ("2".to_owned(), "\u{2475}".to_owned()), ("3".to_owned(), "\u{2476}".to_owned()), ("4".to_owned(), "\u{2477}".to_owned()), ("5".to_owned(), "\u{2478}".to_owned()), ("6".to_owned(), "\u{2479}".to_owned()), ("7".to_owned(), "\u{247a}".to_owned()), ("8".to_owned(), "\u{247b}".to_owned()), ("9".to_owned(), "\u{247c}".to_owned()), ("10".to_owned(), "\u{247d}".to_owned()), ("11".to_owned(), "\u{247e}".to_owned()), ("12".to_owned(), "\u{247f}".to_owned()), ("13".to_owned(), "\u{2480}".to_owned()), ("14".to_owned(), "\u{2481}".to_owned()), ("15".to_owned(), "\u{2482}".to_owned()), ("16".to_owned(), "\u{2483}".to_owned()), ("17".to_owned(), "\u{2484}".to_owned()), ("18".to_owned(), "\u{2485}".to_owned()), ("19".to_owned(), "\u{2486}".to_owned()), ("20".to_owned(), "\u{2487}".to_owned())], contexts: vec![EvalContext::Inline] }));
    r.push(("paren-letter".to_owned(), BadgeType { id: "paren-letter".to_owned(), name: "Parenthesized Letters".to_owned(), description: "Letters a-z in parentheses".to_owned(), aliases: vec!["paren-alpha".to_owned()], mappings: vec![("a".to_owned(), "\u{249c}".to_owned()), ("b".to_owned(), "\u{249d}".to_owned()), ("c".to_owned(), "\u{249e}".to_owned()), ("d".to_owned(), "\u{249f}".to_owned()), ("e".to_owned(), "\u{24a0}".to_owned()), ("f".to_owned(), "\u{24a1}".to_owned()), ("g".to_owned(), "\u{24a2}".to_owned()), ("h".to_owned(), "\u{24a3}".to_owned()), ("i".to_owned(), "\u{24a4}".to_owned()), ("j".to_owned(), "\u{24a5}".to_owned()), ("k".to_owned(), "\u{24a6}".to_owned()), ("l".to_owned(), "\u{24a7}".to_owned()), ("m".to_owned(), "\u{24a8}".to_owned()), ("n".to_owned(), "\u{24a9}".to_owned()), ("o".to_owned(), "\u{24aa}".to_owned()), ("p".to_owned(), "\u{24ab}".to_owned()), ("q".to_owned(), "\u{24ac}".to_owned()), ("r".to_owned(), "\u{24ad}".to_owned()), ("s".to_owned(), "\u{24ae}".to_owned()), ("t".to_owned(), "\u{24af}".to_owned()), ("u".to_owned(), "\u{24b0}".to_owned()), ("v".to_owned(), "\u{24b1}".to_owned()), ("w".to_owned(), "\u{24b2}".to_owned()), ("x".to_owned(), "\u{24b3}".to_owned()), ("y".to_owned(), "\u{24b4}".to_owned()), ("z".to_owned(), "\u{24b5}".to_owned())], contexts: vec![EvalContext::Inline] }));
    r.push(("negative-circle".to_owned(), BadgeType { id: "negative-circle".to_owned(), name: "Negative Circled Numbers".to_owned(), description: "Numbers 0-20 in black circles".to_owned(), aliases: vec!["neg-circle".to_owned()], mappings: vec![("1".to_owned(), "\u{2776}".to_owned()), ("2".to_owned(), "\u{2777}".to_owned()), ("3".to_owned(), "\u{2778}".to_owned()), ("4".to_owned(), "\u{2779}".to_owned()), ("5".to_owned(), "\u{277a}".to_owned()), ("6".to_owned(), "\u{277b}".to_owned()), ("7".to_owned(), "\u{277c}".to_owned()), ("8".to_owned(), "\u{277d}".to_owned()), ("9".to_owned(), "\u{277e}".to_owned()), ("10".to_owned(), "\u{277f}".to_owned()), ("11".to_owned(), "\u{24eb}".to_owned()), ("12".to_owned(), "\u{24ec}".to_owned()), ("13".to_owned(), "\u{24ed}".to_owned()), ("14".to_owned(), "\u{24ee}".to_owned()), ("15".to_owned(), "\u{24ef}".to_owned()), ("16".to_owned(), "\u{24f0}".to_owned()), ("17".to_owned(), "\u{24f1}".to_owned()), ("18".to_owned(), "\u{24f2}".to_owned()), ("19".to_owned(), "\u{24f3}".to_owned()), ("20".to_owned(), "\u{24f4}".to_owned()), ("0".to_owned(), "\u{24ff}".to_owned())], contexts: vec![EvalContext::Inline] }));
    assert(entry_names(r@) =~= badge_names());
    assert(keyed(r@, |x: BadgeType| badge_view(x)) =~~= badge_table());
    assert(keyed(r@, |x: BadgeType| badge_details(x)) =~~= badge_detail_table());
    r
}

fn builtin_palette() -> (r: Vec<(String, String)>)
    ensures
        text_pairs(r@) == palette_table(),
{
    let mut r: Vec<(String, String)> = Vec::new();
    r.push(("accent".to_owned(), "F41C80".to_owned()));
    r.push(("pink".to_owned(), "F41C80".to_owned()));
    r.push(("success".to_owned(), "22C55E".to_owned()));
    r.push(("warning".to_owned(), "EAB308".to_owned()));
    r.push(("error".to_owned(), "EF4444".to_owned()));
    r.push(("info".to_owned(), "3B82F6".to_owned()));
    r.push(("cobalt".to_owned(), "2B6CB0".to_owned()));
    r.push(("dark1".to_owned(), "292A2D".to_owned()));
    r.push(("dark2".to_owned(), "1F2023".to_owned()));
    r.push(("ui.bg".to_owned(), "292A2D".to_owned()));
    r.push(("ui.surface".to_owned(), "3A3B3F".to_owned()));
    r.push(("ui.panel".to_owned(), "1F2023".to_owned()));
    r.push(("white".to_owned(), "FFFFFF".to_owned()));
    r.push(("black".to_owned(), "000000".to_owned()));
    r.push(("slate".to_owned(), "6B7280".to_owned()));
    r.push(("gray".to_owned(), "9CA3AF".to_owned()));
    assert(text_pairs(r@) =~= palette_table());
    r
}

fn builtin_glyphs() -> (r: Vec<(String, String)>)
    ensures
        text_pairs(r@) == glyph_table(),
{
    let mut r: Vec<(String, String)> = Vec::new();
    r.push(("dot".to_owned(), "\u{b7}".to_owned()));
    r.push(("bullet".to_owned(), "\u{2022}".to_owned()));
    r.push(("dash".to_owned(), "\u{2500}".to_owned()));
    r.push(("bolddash".to_owned(), "\u{2501}".to_owned()));
    r.push(("arrow".to_owned(), "\u{2192}".to_owned()));
    r.push(("pipe".to_owned(), "\u{2502}".to_owned()));
    r.push(("star".to_owned(), "\u{2605}".to_owned()));
    r.push(("star.outline".to_owned(), "\u{2606}".to_owned()));
    r.push(("diamond".to_owned(), "\u{25c6}".to_owned()));
    r.push(("diamond.outline".to_owned(), "\u{25c7}".to_owned()));
    r.push(("heart".to_owned(), "\u{2665}".to_owned()));
    r.push(("card.heart".to_owned(), "\u{2665}".to_owned()));
    r.push(("card.spade".to_owned(), "\u{2660}".to_owned()));
    r.push(("card.diamond".to_owned(), "\u{2666}".to_owned()));
    r.push(("card.club".to_owned(), "\u{2663}".to_owned()));
    r.push(("circle".to_owned(), "\u{25cf}".to_owned()));
    r.push(("square".to_owned(), "\u{25a0}".to_owned()));
    r.push(("check".to_owned(), "\u{2713}".to_owned()));
    r.push(("cross".to_owned(), "\u{2717}".to_owned()));
    r.push(("block.full".to_owned(), "\u{2588}".to_owned()));
    r.push(("block.lower.4".to_owned(), "\u{2584}".to_owned()));
    r.push(("shade.light".to_owned(), "\u{2591}".to_owned()));
    r.push(("shade.medium".to_owned(), "\u{2592}".to_owned()));
    r.push(("shade.dark".to_owned(), "\u{2593}".to_owned()));
    r.push(("quad.1-4".to_owned(), "\u{2596}".to_owned()));
    r.push(("note".to_owned(), "\u{266a}".to_owned()));
    assert(text_pairs(r@) =~= glyph_table());
    r
}

fn builtin_frames() -> (r: Vec<(String, Frame)>)
    ensures
        entry_names(r@) == frame_names(),
        keyed(r@, |x: Frame| frame_view(x)) == frame_table(),
        keyed(r@, |x: Frame| frame_details(x)) == frame_detail_table(),
{
    let mut r: Vec<(String, Frame)> = Vec::new();
    r.push(("gradient".to_owned(), Frame::from_pattern("\u{2593}\u{2592}\u{2591}", SuffixMode::Mirror, Some("Shaded gradient on both sides".to_owned()), vec![EvalContext::FrameChrome], vec!["grad".to_owned()])));
    r.push(("gradient-wave".to_owned(), Frame::from_pattern("\u{2593}\u{2592}\u{2591}", SuffixMode::Alternate, Some("Shaded gradient with a rotated suffix".to_owned()), vec![EvalContext::FrameChrome], vec!["wave".to_owned()])));
    r.push(("line-bold".to_owned(), Frame::from_pattern("\u{2501}\u{2501}\u{2501}", SuffixMode::Mirror, Some("Heavy horizontal lines".to_owned()), vec![EvalContext::FrameChrome], vec!["bold-line".to_owned()])));
    r.push(("line-double".to_owned(), Frame::from_pattern("\u{2550}\u{2550}\u{2550}", SuffixMode::Mirror, Some("Double horizontal lines".to_owned()), vec![EvalContext::FrameChrome], vec!["double".to_owned()])));
    r.push(("line-light".to_owned(), Frame::from_pattern("\u{2500}\u{2500}\u{2500}", SuffixMode::Mirror, Some("Light horizontal lines".to_owned()), vec![EvalContext::FrameChrome], vec!["line".to_owned()])));
    r.push(("solid-left".to_owned(), Frame::from_pattern("\u{2588}\u{258c}", SuffixMode::PrefixOnly, Some("Solid block on the left".to_owned()), vec![EvalContext::FrameChrome], vec!["left".to_owned()])));
    r.push(("solid-right".to_owned(), Frame::from_pattern("\u{2590}\u{2588}", SuffixMode::SuffixOnly, Some("Solid block on the right".to_owned()), vec![EvalContext::FrameChrome], vec!["right".to_owned()])));
    r.push(("solid-both".to_owned(), Frame::from_parts("\u{2588}\u{258c}", "\u{2590}\u{2588}", Some("Solid blocks on both sides".to_owned()), vec![EvalContext::FrameChrome], vec!["both".to_owned()])));
    r.push(("star".to_owned(), Frame::from_parts("\u{2605} ", " \u{2606}", Some("Filled and outlined stars".to_owned()), vec![EvalContext::FrameChrome], vec!["stars".to_owned()])));
    r.push(("diamond".to_owned(), Frame::from_parts("\u{25c6} ", " \u{25c7}", Some("Filled and outlined diamonds".to_owned()), vec![EvalContext::FrameChrome], vec!["diamonds".to_owned()])));
    r.push(("lenticular".to_owned(), Frame::from_parts("\u{3010}", "\u{3011}", Some("Lenticular brackets".to_owned()), vec![EvalContext::FrameChrome], vec!["lens".to_owned()])));
    r.push(("quote".to_owned(), Frame::from_parts("\u{ab} ", " \u{bb}", Some("Guillemets".to_owned()), vec![EvalContext::FrameChrome], vec!["quoted".to_owned()])));
    r.push(("triangle".to_owned(), Frame::from_parts("\u{25b6} ", " \u{25c0}", Some("Pointing triangles".to_owned()), vec![EvalContext::FrameChrome], vec!["triangles".to_owned()])));
    r.push(("pointer".to_owned(), Frame::from_parts("\u{261e} ", " \u{261c}", Some("Pointing hands".to_owned()), vec![EvalContext::FrameChrome], vec!["pointed".to_owned()])));
    r.push(("angle".to_owned(), Frame::from_parts("\u{300a}", "\u{300b}", Some("Double angle brackets".to_owned()), vec![EvalContext::FrameChrome], vec!["angled".to_owned()])));
    assert(entry_names(r@) =~= frame_names());
    assert(keyed(r@, |x: Frame| frame_view(x)) =~~= frame_table());
    assert(keyed(r@, |x: Frame| frame_details(x)) =~~= frame_detail_table());
    r
}

fn builtin_components() -> (r: Vec<(String, Component)>)
    ensures
        entry_names(r@) == component_names(),
        keyed(r@, |x: Component| component_view(x)) == component_table(),
        keyed(r@, |x: Component| component_contexts(x)) == component_context_table(),
{
    let mut r: Vec<(String, Component)> = Vec::new();
    r.push(("swatch".to_owned(), Component { component_type: "native".to_owned(), self_closing: true, description: Some("Single color block".to_owned()), contexts: vec![EvalContext::Inline, EvalContext::Block], args: vec!["color".to_owned()], template: None, post_process: None }));
    r.push(("tech".to_owned(), Component { component_type: "native".to_owned(), self_closing: true, description: Some("Technology badge with logo".to_owned()), contexts: vec![EvalContext::Inline, EvalContext::Block], args: vec!["name".to_owned()], template: None, post_process: None }));
    r.push(("tech-group".to_owned(), Component { component_type: "native".to_owned(), self_closing: false, description: Some("Connected group of tech badges".to_owned()), contexts: vec![EvalContext::Block], args: vec![], template: None, post_process: None }));
    r.push(("progress".to_owned(), Component { component_type: "native".to_owned(), self_closing: true, description: Some("Progress bar".to_owned()), contexts: vec![EvalContext::Inline, EvalContext::Block], args: vec!["percent".to_owned()], template: None, post_process: None }));
    r.push(("donut".to_owned(), Component { component_type: "native".to_owned(), self_closing: true, description: Some("Ring chart".to_owned()), contexts: vec![EvalContext::Inline, EvalContext::Block], args: vec!["percent".to_owned()], template: None, post_process: None }));
    r.push(("gauge".to_owned(), Component { component_type: "native".to_owned(), self_closing: true, description: Some("Semi-circular meter".to_owned()), contexts: vec![EvalContext::Inline, EvalContext::Block], args: vec!["percent".to_owned()], template: None, post_process: None }));
    r.push(("sparkline".to_owned(), Component { component_type: "native".to_owned(), self_closing: true, description: Some("Inline chart".to_owned()), contexts: vec![EvalContext::Inline, EvalContext::Block], args: vec!["values".to_owned()], template: None, post_process: None }));
    r.push(("rating".to_owned(), Component { component_type: "native".to_owned(), self_closing: true, description: Some("Star rating".to_owned()), contexts: vec![EvalContext::Inline, EvalContext::Block], args: vec!["value".to_owned()], template: None, post_process: None }));
    r.push(("waveform".to_owned(), Component { component_type: "native".to_owned(), self_closing: true, description: Some("Audio-style bars".to_owned()), contexts: vec![EvalContext::Inline, EvalContext::Block], args: vec!["values".to_owned()], template: None, post_process: None }));
    r.push(("row".to_owned(), Component { component_type: "native".to_owned(), self_closing: false, description: Some("Horizontal row of images".to_owned()), contexts: vec![EvalContext::Block], args: vec![], template: None, post_process: None }));
    r.push(("version".to_owned(), Component { component_type: "native".to_owned(), self_closing: true, description: Some("Version badge".to_owned()), contexts: vec![EvalContext::Inline, EvalContext::Block], args: vec!["version".to_owned()], template: None, post_process: None }));
    r.push(("license".to_owned(), Component { component_type: "native".to_owned(), self_closing: true, description: Some("License badge".to_owned()), contexts: vec![EvalContext::Inline, EvalContext::Block], args: vec!["license".to_owned()], template: None, post_process: None }));
    r.push(("live".to_owned(), Component { component_type: "dynamic".to_owned(), self_closing: true, description: Some("Live metric badge".to_owned()), contexts: vec![EvalContext::Inline, EvalContext::Block], args: vec!["source".to_owned()], template: None, post_process: None }));
    r.push(("divider".to_owned(), Component { component_type: "expand".to_owned(), self_closing: true, description: Some("Section divider bar".to_owned()), contexts: vec![EvalContext::Block], args: vec![], template: Some("{{shields:bar:colors=ui.bg,ui.surface,accent,ui.bg:style=flat-square/}}".to_owned()), post_process: None }));
    r.push(("header".to_owned(), Component { component_type: "expand".to_owned(), self_closing: false, description: Some("Framed bold header".to_owned()), contexts: vec![EvalContext::Block], args: vec![], template: Some("{{frame:gradient}}{{mathbold:separator=dot}}$content{{/mathbold}}{{/frame}}".to_owned()), post_process: None }));
    r.push(("callout".to_owned(), Component { component_type: "expand".to_owned(), self_closing: false, description: Some("Callout with a colored marker".to_owned()), contexts: vec![EvalContext::Block], args: vec!["level".to_owned()], template: Some("{{shields:block:color=$1:style=flat-square/}} $content".to_owned()), post_process: Some("blockquote".to_owned()) }));
    assert(entry_names(r@) =~= component_names());
    assert(keyed(r@, |x: Component| component_view(x)) =~~= component_table());
    assert(keyed(r@, |x: Component| component_contexts(x)) =~~= component_context_table());
    r
}

fn builtin_shield_styles() -> (r: Vec<(String, ShieldStyle)>)
    ensures
        entry_names(r@) == shield_style_names(),
        keyed(r@, |x: ShieldStyle| shield_view(x)) == shield_style_table(),
        keyed(r@, |x: ShieldStyle| shield_details(x)) == shield_detail_table(),
{
    let mut r: Vec<(String, ShieldStyle)> = Vec::new();
    r.push(("flat".to_owned(), ShieldStyle { id: "flat".to_owned(), name: "Flat".to_owned(), description: Some("Flat with rounded corners".to_owned()), aliases: vec![], default: false }));
    r.push(("flat-square".to_owned(), ShieldStyle { id: "flat-square".to_owned(), name: "Flat Square".to_owned(), description: Some("Flat with square corners".to_owned()), aliases: vec!["square".to_owned()], default: true }));
    r.push(("for-the-badge".to_owned(), ShieldStyle { id: "for-the-badge".to_owned(), name: "For the Badge".to_owned(), description: Some("Large uppercase badge".to_owned()), aliases: vec!["badge".to_owned()], default: false }));
    r.push(("plastic".to_owned(), ShieldStyle { id: "plastic".to_owned(), name: "Plastic".to_owned(), description: Some("Glossy gradient".to_owned()), aliases: vec![], default: false }));
    r.push(("social".to_owned(), ShieldStyle { id: "social".to_owned(), name: "Social".to_owned(), description: Some("Social button look".to_owned()), aliases: vec![], default: false }));
    assert(entry_names(r@) =~= shield_style_names());
    assert(keyed(r@, |x: ShieldStyle| shield_view(x)) =~~= shield_style_table());
    assert(keyed(r@, |x: ShieldStyle| shield_details(x)) =~~= shield_detail_table());
    r
}

/// The built-in registry contents.
pub fn registry_data() -> (r: RegistryData)
    ensures
        r.version@ == "2.0.0"@,
        r.schema_version@ == "1.0.0"@,
        text_pairs(r.palette@) == palette_table(),
        text_pairs(r.glyphs@) == glyph_table(),
        entry_names(r.styles@) == style_names(),
        entry_names(r.badges@) == badge_names(),
        entry_names(r.frames@) == frame_names(),
        entry_names(r.components@) == component_names(),
        entry_names(r.shield_styles@) == shield_style_names(),
        keyed(r.styles@, |x: Style| style_view(x)) == style_table(),
        keyed(r.badges@, |x: BadgeType| badge_view(x)) == badge_table(),
        keyed(r.frames@, |x: Frame| frame_view(x)) == frame_table(),
        keyed(r.shield_styles@, |x: ShieldStyle| shield_view(x)) == shield_style_table(),
        keyed(r.styles@, |x: Style| style_details(x)) == style_detail_table(),
        keyed(r.components@, |x: Component| component_view(x)) == component_table(),
        keyed(r.components@, |x: Component| component_contexts(x)) == component_context_table(),
        keyed(r.badges@, |x: BadgeType| badge_details(x)) == badge_detail_table(),
        keyed(r.frames@, |x: Frame| frame_details(x)) == frame_detail_table(),
        keyed(r.shield_styles@, |x: ShieldStyle| shield_details(x)) == shield_detail_table(),
{
    RegistryData {
        version: "2.0.0".to_owned(),
        schema_version: "1.0.0".to_owned(),
        description: Some("Unified registry of mdfx renderables".to_owned()),
        palette: builtin_palette(),
        shield_styles: builtin_shield_styles(),
        glyphs: builtin_glyphs(),
        components: builtin_components(),
        frames: builtin_frames(),
        styles: builtin_styles(),
        badges: builtin_badges(),
        last_updated: "2025-01-01".to_owned(),
    }
}

/// The built-in separators.
pub fn separator_list() -> (r: Vec<Separator>)
    ensures
        r@.map_values(|x: Separator| (x.id@, x.char@)) == separator_table(),
{
    let mut r: Vec<Separator> = Vec::new();
    r.push(Separator { id: "dot".to_owned(), name: "Middle Dot".to_owned(), char: "\u{b7}".to_owned(), unicode: "U+00B7".to_owned(), description: "Centered dot".to_owned(), example: "A\u{b7}B".to_owned() });
    r.push(Separator { id: "bullet".to_owned(), name: "Bullet".to_owned(), char: "\u{2022}".to_owned(), unicode: "U+2022".to_owned(), description: "Round bullet".to_owned(), example: "A\u{2022}B".to_owned() });
    r.push(Separator { id: "dash".to_owned(), name: "Box Light Horizontal".to_owned(), char: "\u{2500}".to_owned(), unicode: "U+2500".to_owned(), description: "Light line".to_owned(), example: "A\u{2500}B".to_owned() });
    r.push(Separator { id: "bolddash".to_owned(), name: "Box Heavy Horizontal".to_owned(), char: "\u{2501}".to_owned(), unicode: "U+2501".to_owned(), description: "Heavy line".to_owned(), example: "A\u{2501}B".to_owned() });
    r.push(Separator { id: "arrow".to_owned(), name: "Rightwards Arrow".to_owned(), char: "\u{2192}".to_owned(), unicode: "U+2192".to_owned(), description: "Arrow".to_owned(), example: "A\u{2192}B".to_owned() });
    r.push(Separator { id: "pipe".to_owned(), name: "Box Light Vertical".to_owned(), char: "\u{2502}".to_owned(), unicode: "U+2502".to_owned(), description: "Vertical line".to_owned(), example: "A\u{2502}B".to_owned() });
    r.push(Separator { id: "star".to_owned(), name: "Black Star".to_owned(), char: "\u{2605}".to_owned(), unicode: "U+2605".to_owned(), description: "Star".to_owned(), example: "A\u{2605}B".to_owned() });
    r.push(Separator { id: "diamond".to_owned(), name: "Black Diamond".to_owned(), char: "\u{25c6}".to_owned(), unicode: "U+25C6".to_owned(), description: "Diamond".to_owned(), example: "A\u{25c6}B".to_owned() });
    assert(r@.map_values(|x: Separator| (x.id@, x.char@)) =~= separator_table());
    r
}

} // verus!
