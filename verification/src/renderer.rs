//! Rendering backends: turning primitives into Markdown (shields.io badges,
//! plain text) or file assets.

use vstd::prelude::*;
use crate::error::{Error, Result};
use crate::primitive::Primitive;
use crate::shields::{ShieldsRenderer, block_md, icon_md};
use crate::text::{chars_of, string_of, push_str_chars, push_all, usize_to_chars, decimal, repeat, repeat_chars, replace_all};

verus! {

/// A rendered primitive: inline Markdown, or a file plus the Markdown that
/// references it.
#[derive(Debug)]
pub enum RenderedAsset {
    /// Markdown to place inline.
    InlineMarkdown(String),
    /// A file to write, with the Markdown reference to it.
    File { relative_path: String, bytes: Vec<u8>, markdown_ref: String, primitive: Box<Primitive> },
}

impl RenderedAsset {
    /// The Markdown to place in the document.
    pub open spec fn markdown(self) -> Seq<char> {
        match self {
            RenderedAsset::InlineMarkdown(m) => m@,
            RenderedAsset::File { markdown_ref, .. } => markdown_ref@,
        }
    }

    /// The Markdown to place in the document.
    pub fn to_markdown(&self) -> (r: &str)
        ensures
            r@ == self.markdown(),
    {
        match self {
            RenderedAsset::InlineMarkdown(m) => m.as_str(),
            RenderedAsset::File { markdown_ref, .. } => markdown_ref.as_str(),
        }
    }

    /// Whether a file has to be written.
    pub fn is_file_based(&self) -> (b: bool)
        ensures
            b == self is File,
    {
        match self {
            RenderedAsset::InlineMarkdown(_) => false,
            RenderedAsset::File { .. } => true,
        }
    }

    /// The file's path, for a file asset.
    pub fn file_path(&self) -> (r: Option<&str>)
        ensures
            match self {
                RenderedAsset::File { relative_path, .. } => r matches Some(p) && p@ == relative_path@,
                RenderedAsset::InlineMarkdown(_) => r is None,
            },
    {
        match self {
            RenderedAsset::InlineMarkdown(_) => None,
            RenderedAsset::File { relative_path, .. } => Some(relative_path.as_str()),
        }
    }

    /// The file's bytes, for a file asset.
    pub fn file_bytes(&self) -> (r: Option<&[u8]>)
        ensures
            match self {
                RenderedAsset::File { bytes, .. } => r matches Some(b) && b@ == bytes@,
                RenderedAsset::InlineMarkdown(_) => r is None,
            },
    {
        match self {
            RenderedAsset::InlineMarkdown(_) => None,
            RenderedAsset::File { bytes, .. } => Some(bytes.as_slice()),
        }
    }
}

/// A rendering backend.
pub trait Renderer {
    /// Renders a primitive.
    fn render(&self, primitive: &Primitive) -> Result<RenderedAsset>;
}

/// Markdown for a percentage badge (the shields.io stand-in for progress
/// bars, donuts and gauges).
pub open spec fn percent_md(percent: u8, fill: Seq<char>) -> Seq<char> {
    let label = decimal(percent as nat) + "%25"@;
    "![](https://img.shields.io/badge/"@ + label + "-"@ + label + "-"@ + fill + "?style=flat-square)"@
}

/// Markdown for a block with a text label.
pub open spec fn labeled_md(color: Seq<char>, label: Seq<char>, style: Seq<char>) -> Seq<char> {
    "![](https://img.shields.io/badge/-"@ + badge_text(label) + "-"@ + color + "?style="@ + style + ")"@
}

/// Text escaped for a shields.io path segment: '-' doubled, ' ' as %20.
pub open spec fn badge_text(s: Seq<char>) -> Seq<char> {
    replace_all(replace_all(s, "-"@, "--"@), " "@, "%20"@)
}

/// shields.io badge backend (the default).
#[derive(Debug)]
pub struct ShieldsBackend {
    pub shields: ShieldsRenderer,
}

impl ShieldsBackend {
    /// A backend over the built-in palette and shield styles.
    pub fn new() -> (r: Result<Self>)
        ensures
            r matches Ok(b) && b.shields.is_builtin(),
    {
        let shields = ShieldsRenderer::new()?;
        Ok(ShieldsBackend { shields })
    }

    /// What rendering a primitive gives: the badge Markdown for swatches,
    /// tech badges, percentage charts, waveforms, sparklines without data,
    /// and version and license badges whose color (and, for a license, label)
    /// are given. It is an error where the project's badge toolkit would pick
    /// a color or name, and for ratings and sparklines with data, whose
    /// labels are written from floating-point values: those are measured by
    /// the caller and drawn with `rating_badge` and `chart_badge`.
    pub open spec fn rendered(self, p: Primitive, r: Result<RenderedAsset>) -> bool {
        let s = self.shields;
        match p {
            Primitive::Swatch { color, style, icon, icon_color, label, .. } => match (icon, label) {
                (Some(i), _) => {
                    let lc = match icon_color { Some(c) => c@, None => "FFFFFF"@ };
                    &&& s.color_for(color@) is Some && s.color_for(lc) is Some && s.style_for(style@) is Some ==> (r matches Ok(RenderedAsset::InlineMarkdown(m))
                        && m@ == icon_md(i@, s.color_for(color@).unwrap(), s.color_for(lc).unwrap(), s.style_for(style@).unwrap()))
                    &&& s.color_for(color@) is None || s.color_for(lc) is None || s.style_for(style@) is None ==> r is Err
                },
                (None, Some(l)) => {
                    &&& s.color_for(color@) is Some && s.style_for(style@) is Some ==> (r matches Ok(RenderedAsset::InlineMarkdown(m))
                        && m@ == labeled_md(s.color_for(color@).unwrap(), l@, s.style_for(style@).unwrap()))
                    &&& s.color_for(color@) is None || s.style_for(style@) is None ==> r is Err
                },
                (None, None) => {
                    &&& s.color_for(color@) is Some && s.style_for(style@) is Some ==> (r matches Ok(RenderedAsset::InlineMarkdown(m))
                        && m@ == block_md(s.color_for(color@).unwrap(), s.style_for(style@).unwrap()))
                    &&& s.color_for(color@) is None || s.style_for(style@) is None ==> r is Err
                },
            },
            Primitive::Tech { name, bg_color, logo_color, style, .. } => {
                &&& s.color_for(bg_color@) is Some && s.color_for(logo_color@) is Some && s.style_for(style@) is Some ==> (r matches Ok(RenderedAsset::InlineMarkdown(m))
                    && m@ == icon_md(name@, s.color_for(bg_color@).unwrap(), s.color_for(logo_color@).unwrap(), s.style_for(style@).unwrap()))
                &&& s.color_for(bg_color@) is None || s.color_for(logo_color@) is None || s.style_for(style@) is None ==> r is Err
            },
            Primitive::Progress { percent, fill_color, .. } => r matches Ok(RenderedAsset::InlineMarkdown(m)) && m@ == percent_md(percent, fill_color@),
            Primitive::Donut { percent, fill_color, .. } => r matches Ok(RenderedAsset::InlineMarkdown(m)) && m@ == percent_md(percent, fill_color@),
            Primitive::Gauge { percent, fill_color, .. } => r matches Ok(RenderedAsset::InlineMarkdown(m)) && m@ == percent_md(percent, fill_color@),
            Primitive::Waveform { values, positive_color, .. } => r matches Ok(RenderedAsset::InlineMarkdown(m))
                && m@ == waveform_md(values@.len(), positive_color@),
            Primitive::Sparkline { values, fill_color, .. } => if values@.len() == 0 {
                r matches Ok(RenderedAsset::InlineMarkdown(m)) && m@ == chart_md("chart"@, fill_color@)
            } else {
                r is Err
            },
            Primitive::Version { version, style, bg_color, prefix, .. } => match bg_color {
                Some(bg) => r matches Ok(RenderedAsset::InlineMarkdown(m))
                    && m@ == version_md(version_label(version@, match prefix { Some(x) => x@, None => "v"@ }), bg@, style@),
                None => r is Err,
            },
            Primitive::License { style, label, bg_color, .. } => match (label, bg_color) {
                (Some(l), Some(bg)) => r matches Ok(RenderedAsset::InlineMarkdown(m)) && m@ == license_md(l@, bg@, style@),
                _ => r is Err,
            },
            _ => r is Err,
        }
    }
}

/// Markdown for a waveform: an audio badge counting its points.
pub open spec fn waveform_md(n: nat, color: Seq<char>) -> Seq<char> {
    "![](https://img.shields.io/badge/\u{1f3b5}-"@ + decimal(n) + "pts-"@ + color + "?style=flat-square)"@
}

/// Markdown for a sparkline: a chart badge with a label (its range of
/// values, or "chart" without data), spaces escaped.
pub open spec fn chart_md(label: Seq<char>, color: Seq<char>) -> Seq<char> {
    "![](https://img.shields.io/badge/\u{1f4c8}-"@ + replace_all(label, " "@, "%20"@) + "-"@ + color + "?style=flat-square)"@
}

/// Markdown for a rating: a star badge labelled `value/max`, dots escaped.
pub open spec fn rating_md(value: Seq<char>, max: nat, color: Seq<char>) -> Seq<char> {
    "![](https://img.shields.io/badge/\u{2b50}-"@ + replace_all(value + "/"@ + decimal(max), "."@, "%2E"@) + "-"@ + color
        + "?style=flat-square)"@
}

/// A version's label: the version itself when it already starts with 'v'
/// or 'V' or the prefix is empty, else the prefix and the version.
pub open spec fn version_label(version: Seq<char>, prefix: Seq<char>) -> Seq<char> {
    if (version.len() > 0 && (version[0] == 'v' || version[0] == 'V')) || prefix.len() == 0 {
        version
    } else {
        prefix + version
    }
}

/// Markdown for a version badge: the label ('-' doubled) on both sides.
pub open spec fn version_md(label: Seq<char>, color: Seq<char>, style: Seq<char>) -> Seq<char> {
    let l = replace_all(label, "-"@, "--"@);
    "![](https://img.shields.io/badge/"@ + l + "-"@ + l + "-"@ + color + "?style="@ + style + ")"@
}

/// Markdown for a license badge: the label ('-' doubled, spaces escaped)
/// on both sides.
pub open spec fn license_md(label: Seq<char>, color: Seq<char>, style: Seq<char>) -> Seq<char> {
    let l = replace_all(replace_all(label, "-"@, "--"@), " "@, "%20"@);
    "![](https://img.shields.io/badge/"@ + l + "-"@ + l + "-"@ + color + "?style="@ + style + ")"@
}

fn replaced(s: &[char], pat: &str, rep: &str) -> (r: Vec<char>)
    requires
        pat@.len() > 0,
    ensures
        r@ == replace_all(s@, pat@, rep@),
{
    let p = chars_of(pat);
    let q = chars_of(rep);
    crate::text::replace_chars(s, p.as_slice(), q.as_slice())
}

/// A chart badge with the given label (its range of values, or "chart").
pub fn chart_badge(label: &str, color: &str) -> (r: String)
    ensures
        r@ == chart_md(label@, color@),
{
    proof {
        reveal_strlit(" ");
    }
    let l = chars_of(label);
    let e = replaced(l.as_slice(), " ", "%20");
    let mut m: Vec<char> = Vec::new();
    push_str_chars(&mut m, "![](https://img.shields.io/badge/\u{1f4c8}-");
    push_all(&mut m, e.as_slice());
    push_str_chars(&mut m, "-");
    push_str_chars(&mut m, color);
    push_str_chars(&mut m, "?style=flat-square)");
    string_of(m.as_slice())
}

/// A rating badge for a value written with one decimal.
pub fn rating_badge(value: &str, max: u32, color: &str) -> (r: String)
    ensures
        r@ == rating_md(value@, max as nat, color@),
{
    proof {
        reveal_strlit(".");
    }
    let mut l = chars_of(value);
    push_str_chars(&mut l, "/");
    let d = usize_to_chars(max as usize);
    push_all(&mut l, d.as_slice());
    let e = replaced(l.as_slice(), ".", "%2E");
    let mut m: Vec<char> = Vec::new();
    push_str_chars(&mut m, "![](https://img.shields.io/badge/\u{2b50}-");
    push_all(&mut m, e.as_slice());
    push_str_chars(&mut m, "-");
    push_str_chars(&mut m, color);
    push_str_chars(&mut m, "?style=flat-square)");
    string_of(m.as_slice())
}

fn version_badge(version: &str, prefix: &str, color: &str, style: &str) -> (r: String)
    ensures
        r@ == version_md(version_label(version@, prefix@), color@, style@),
{
    proof {
        reveal_strlit("-");
    }
    let v = chars_of(version);
    let p = chars_of(prefix);
    let label = if (v.len() > 0 && (v[0] == 'v' || v[0] == 'V')) || p.len() == 0 {
        v
    } else {
        crate::text::concat(p.as_slice(), v.as_slice())
    };
    let l = replaced(label.as_slice(), "-", "--");
    let mut m: Vec<char> = Vec::new();
    push_str_chars(&mut m, "![](https://img.shields.io/badge/");
    push_all(&mut m, l.as_slice());
    push_str_chars(&mut m, "-");
    push_all(&mut m, l.as_slice());
    push_str_chars(&mut m, "-");
    push_str_chars(&mut m, color);
    push_str_chars(&mut m, "?style=");
    push_str_chars(&mut m, style);
    push_str_chars(&mut m, ")");
    string_of(m.as_slice())
}

fn license_badge(label: &str, color: &str, style: &str) -> (r: String)
    ensures
        r@ == license_md(label@, color@, style@),
{
    proof {
        reveal_strlit("-");
        reveal_strlit(" ");
    }
    let v = chars_of(label);
    let a = replaced(v.as_slice(), "-", "--");
    let l = replaced(a.as_slice(), " ", "%20");
    let mut m: Vec<char> = Vec::new();
    push_str_chars(&mut m, "![](https://img.shields.io/badge/");
    push_all(&mut m, l.as_slice());
    push_str_chars(&mut m, "-");
    push_all(&mut m, l.as_slice());
    push_str_chars(&mut m, "-");
    push_str_chars(&mut m, color);
    push_str_chars(&mut m, "?style=");
    push_str_chars(&mut m, style);
    push_str_chars(&mut m, ")");
    string_of(m.as_slice())
}

/// The eighths bar of a level (levels above 7 drawn full).
pub open spec fn bar_char(level: nat) -> char {
    let bars = seq!['\u{2581}', '\u{2582}', '\u{2583}', '\u{2584}', '\u{2585}', '\u{2586}', '\u{2587}', '\u{2588}'];
    bars[if level <= 7 { level as int } else { 7 }]
}

/// The bars of a sparkline or waveform whose levels (0 to 7, scaled from
/// the data) are given.
pub fn bar_text(levels: &[usize]) -> (r: String)
    ensures
        r@ == levels@.map_values(|l: usize| bar_char(l as nat)),
{
    let bars: [char; 8] = ['\u{2581}', '\u{2582}', '\u{2583}', '\u{2584}', '\u{2585}', '\u{2586}', '\u{2587}', '\u{2588}'];
    let mut v: Vec<char> = Vec::new();
    let mut i: usize = 0;
    while i < levels.len()
        invariant
            i <= levels@.len(),
            bars@ == seq!['\u{2581}', '\u{2582}', '\u{2583}', '\u{2584}', '\u{2585}', '\u{2586}', '\u{2587}', '\u{2588}'],
            v@ == levels@.take(i as int).map_values(|l: usize| bar_char(l as nat)),
        decreases levels.len() - i,
    {
        let l = levels[i];
        let k: usize = if l <= 7 { l } else { 7 };
        v.push(bars[k]);
        i = i + 1;
        assert(levels@.take(i as int).map_values(|l: usize| bar_char(l as nat))
            =~= levels@.take(i - 1).map_values(|l: usize| bar_char(l as nat)).push(bar_char(l as nat)));
    }
    assert(levels@.take(levels@.len() as int) =~= levels@);
    string_of(v.as_slice())
}

/// The filled and empty symbols of a rating's icon: hearts, circles, or
/// (otherwise) stars.
pub open spec fn rating_symbols(icon: Seq<char>) -> (char, char) {
    if icon == "heart"@ {
        ('\u{2665}', '\u{2661}')
    } else if icon == "circle"@ {
        ('\u{25cf}', '\u{25cb}')
    } else {
        ('\u{2605}', '\u{2606}')
    }
}

/// A rating as symbols: `filled` filled ones (at most `max`), an empty one
/// for a half when room is left, then the rest of `max` empty.
pub open spec fn rating_text(icon: Seq<char>, filled: nat, half: bool, max: nat) -> Seq<char> {
    let (f, e) = rating_symbols(icon);
    let shown: nat = if filled <= max { filled } else { max };
    let rest: nat = if filled <= max { (max - filled) as nat } else { 0 };
    let empty: nat = if half { if rest >= 1 { (rest - 1) as nat } else { 0 } } else { rest };
    Seq::new(shown, |i: int| f) + (if half && filled < max { seq![e] } else { Seq::empty() }) + Seq::new(empty, |i: int| e)
}

/// Draws a rating as symbols, given its whole part and whether its
/// fraction is at least a half.
pub fn rating_symbols_text(icon: &str, filled: u32, half: bool, max: u32) -> (r: String)
    ensures
        r@ == rating_text(icon@, filled as nat, half, max as nat),
{
    proof {
        reveal_strlit("heart");
        reveal_strlit("circle");
    }
    let (f, e): (char, char) = if crate::namemap::str_eq(icon, "heart") {
        ('\u{2665}', '\u{2661}')
    } else if crate::namemap::str_eq(icon, "circle") {
        ('\u{25cf}', '\u{25cb}')
    } else {
        ('\u{2605}', '\u{2606}')
    };
    let shown: u32 = if filled <= max { filled } else { max };
    let rest: u32 = if filled <= max { max - filled } else { 0 };
    let empty: u32 = if half { if rest >= 1 { rest - 1 } else { 0 } } else { rest };
    let mut v: Vec<char> = Vec::new();
    let mut i: u32 = 0;
    while i < shown
        invariant
            i <= shown,
            v@ == Seq::new(i as nat, |k: int| f),
        decreases shown - i,
    {
        v.push(f);
        i = i + 1;
        assert(v@ =~= Seq::new(i as nat, |k: int| f));
    }
    let ghost a = v@;
    if half && filled < max {
        v.push(e);
    }
    let ghost b = v@;
    let mut j: u32 = 0;
    while j < empty
        invariant
            j <= empty,
            v@ == b + Seq::new(j as nat, |k: int| e),
        decreases empty - j,
    {
        v.push(e);
        j = j + 1;
        assert(v@ =~= b + Seq::new(j as nat, |k: int| e));
    }
    assert(v@ =~= rating_text(icon@, filled as nat, half, max as nat));
    string_of(v.as_slice())
}

fn percent_badge(percent: u8, fill: &str) -> (r: String)
    ensures
        r@ == percent_md(percent, fill@),
{
    let mut label = usize_to_chars(percent as usize);
    push_str_chars(&mut label, "%25");
    let mut m: Vec<char> = Vec::new();
    push_str_chars(&mut m, "![](https://img.shields.io/badge/");
    push_all(&mut m, label.as_slice());
    push_str_chars(&mut m, "-");
    push_all(&mut m, label.as_slice());
    push_str_chars(&mut m, "-");
    push_str_chars(&mut m, fill);
    push_str_chars(&mut m, "?style=flat-square)");
    string_of(m.as_slice())
}

fn escape_badge_text(s: &str) -> (r: Vec<char>)
    ensures
        r@ == badge_text(s@),
{
    proof {
        reveal_strlit("-");
        reveal_strlit("--");
        reveal_strlit(" ");
        reveal_strlit("%20");
    }
    let v = chars_of(s);
    let d = chars_of("-");
    let dd = chars_of("--");
    let sp = chars_of(" ");
    let pc = chars_of("%20");
    let a = crate::text::replace_chars(v.as_slice(), d.as_slice(), dd.as_slice());
    crate::text::replace_chars(a.as_slice(), sp.as_slice(), pc.as_slice())
}

fn unsupported(what: &str) -> (e: Error)
    ensures
        e is ParseError,
{
    let mut m: Vec<char> = Vec::new();
    push_str_chars(&mut m, what);
    push_str_chars(&mut m, " badges are not rendered by this backend");
    Error::ParseError(string_of(m.as_slice()))
}

impl Renderer for ShieldsBackend {
    fn render(&self, primitive: &Primitive) -> (r: Result<RenderedAsset>)
        ensures
            self.rendered(*primitive, r),
    {
        self.render_shields(primitive)
    }
}

impl ShieldsBackend {
    /// Renders a primitive as shields.io badge Markdown.
    pub fn render_shields(&self, primitive: &Primitive) -> (r: Result<RenderedAsset>)
        ensures
            self.rendered(*primitive, r),
    {
        match primitive {
            Primitive::Swatch { color, style, icon, icon_color, label, .. } => {
                match (icon, label) {
                    (Some(i), _) => {
                        let lc: &str = match icon_color {
                            Some(c) => c.as_str(),
                            None => "FFFFFF",
                        };
                        proof {
                            reveal_strlit("FFFFFF");
                        }
                        let m = self.shields.render_icon(i.as_str(), color.as_str(), lc, style.as_str())?;
                        Ok(RenderedAsset::InlineMarkdown(m))
                    },
                    (None, Some(l)) => {
                        let c = self.shields.resolve_color(color.as_str())?;
                        let st = self.shields.resolve_style(style.as_str())?;
                        let mut m: Vec<char> = Vec::new();
                        push_str_chars(&mut m, "![](https://img.shields.io/badge/-");
                        let t = escape_badge_text(l.as_str());
                        push_all(&mut m, t.as_slice());
                        push_str_chars(&mut m, "-");
                        push_str_chars(&mut m, c.as_str());
                        push_str_chars(&mut m, "?style=");
                        push_str_chars(&mut m, st.as_str());
                        push_str_chars(&mut m, ")");
                        Ok(RenderedAsset::InlineMarkdown(string_of(m.as_slice())))
                    },
                    (None, None) => {
                        let m = self.shields.render_block(color.as_str(), style.as_str())?;
                        Ok(RenderedAsset::InlineMarkdown(m))
                    },
                }
            },
            Primitive::Tech { name, bg_color, logo_color, style, .. } => {
                let m = self.shields.render_icon(name.as_str(), bg_color.as_str(), logo_color.as_str(), style.as_str())?;
                Ok(RenderedAsset::InlineMarkdown(m))
            },
            Primitive::Progress { percent, fill_color, .. } => Ok(RenderedAsset::InlineMarkdown(percent_badge(*percent, fill_color.as_str()))),
            Primitive::Donut { percent, fill_color, .. } => Ok(RenderedAsset::InlineMarkdown(percent_badge(*percent, fill_color.as_str()))),
            Primitive::Gauge { percent, fill_color, .. } => Ok(RenderedAsset::InlineMarkdown(percent_badge(*percent, fill_color.as_str()))),
            Primitive::Version { version, style, bg_color, prefix, .. } => match bg_color {
                Some(bg) => {
                    let p: &str = match prefix {
                        Some(x) => x.as_str(),
                        None => "v",
                    };
                    Ok(RenderedAsset::InlineMarkdown(version_badge(version.as_str(), p, bg.as_str(), style.as_str())))
                },
                None => Err(unsupported("Version")),
            },
            Primitive::License { style, label, bg_color, .. } => match (label, bg_color) {
                (Some(l), Some(bg)) => Ok(RenderedAsset::InlineMarkdown(license_badge(l.as_str(), bg.as_str(), style.as_str()))),
                _ => Err(unsupported("License")),
            },
            Primitive::Sparkline { values, fill_color, .. } => {
                if values.len() == 0 {
                    Ok(RenderedAsset::InlineMarkdown(chart_badge("chart", fill_color.as_str())))
                } else {
                    Err(unsupported("Sparkline"))
                }
            },
            Primitive::Rating { .. } => Err(unsupported("Rating")),
            Primitive::Waveform { values, positive_color, .. } => {
                let mut m: Vec<char> = Vec::new();
                push_str_chars(&mut m, "![](https://img.shields.io/badge/\u{1f3b5}-");
                let d = usize_to_chars(values.len());
                push_all(&mut m, d.as_slice());
                push_str_chars(&mut m, "pts-");
                push_str_chars(&mut m, positive_color.as_str());
                push_str_chars(&mut m, "?style=flat-square)");
                Ok(RenderedAsset::InlineMarkdown(string_of(m.as_slice())))
            },
        }
    }
}


/// The plain-text ASCII bar of a progress percentage: `filled` cells (the
/// last one `>`) out of ten, padded with spaces.
pub open spec fn ascii_bar(percent: u8) -> Seq<char> {
    let f = if (percent as nat) * 10 / 100 < 10 { (percent as nat) * 10 / 100 } else { 10 };
    repeat("="@, if f > 0 { (f - 1) as nat } else { 0 }) + (if f > 0 { ">"@ } else { Seq::empty() }) + repeat(" "@, (10 - f) as nat)
}

/// What the plain-text backend gives for a primitive.
pub open spec fn plain_text(p: Primitive) -> Option<Seq<char>> {
    match p {
        Primitive::Swatch { color, icon, label, .. } => Some(match (icon, label) {
            (Some(i), _) => "[#"@ + color@ + " "@ + i@ + "]"@,
            (None, Some(l)) => "[#"@ + color@ + " "@ + l@ + "]"@,
            (None, None) => "[#"@ + color@ + "]"@,
        }),
        Primitive::Tech { name, label, .. } => Some(match label {
            Some(l) => "["@ + name@ + " | "@ + l@ + "]"@,
            None => "["@ + name@ + "]"@,
        }),
        Primitive::Progress { percent, .. } => Some("["@ + ascii_bar(percent) + "] "@ + decimal(percent as nat) + "%"@),
        Primitive::Donut { percent, .. } => Some("("@ + decimal(percent as nat) + "%)"@),
        Primitive::Gauge { percent, .. } => Some("["@ + decimal(percent as nat) + "%]"@),
        Primitive::Sparkline { values, .. } => if values@.len() == 0 { Some("\u{2581}"@) } else { None },
        Primitive::Waveform { values, .. } => if values@.len() == 0 { Some("\u{2594}"@) } else { None },
        _ => None,
    }
}

/// Plain-text backend for ASCII-only contexts.
#[derive(Debug)]
pub struct PlainTextBackend {}

impl PlainTextBackend {
    /// A plain-text backend.
    pub fn new() -> (b: PlainTextBackend) {
        PlainTextBackend {}
    }

    /// Renders a primitive as plain text.
    pub fn render_text(&self, primitive: &Primitive) -> (r: Result<RenderedAsset>)
        ensures
            plain_text(*primitive) matches Some(t) ==> (r matches Ok(RenderedAsset::InlineMarkdown(m)) && m@ == t),
            plain_text(*primitive) is None ==> r is Err,
    {
        let mut m: Vec<char> = Vec::new();
        match primitive {
            Primitive::Swatch { color, icon, label, .. } => {
                push_str_chars(&mut m, "[#");
                push_str_chars(&mut m, color.as_str());
                match (icon, label) {
                    (Some(i), _) => {
                        push_str_chars(&mut m, " ");
                        push_str_chars(&mut m, i.as_str());
                    },
                    (None, Some(l)) => {
                        push_str_chars(&mut m, " ");
                        push_str_chars(&mut m, l.as_str());
                    },
                    (None, None) => {},
                }
                push_str_chars(&mut m, "]");
            },
            Primitive::Tech { name, label, .. } => {
                push_str_chars(&mut m, "[");
                push_str_chars(&mut m, name.as_str());
                match label {
                    Some(l) => {
                        push_str_chars(&mut m, " | ");
                        push_str_chars(&mut m, l.as_str());
                    },
                    None => {},
                }
                push_str_chars(&mut m, "]");
            },
            Primitive::Progress { percent, .. } => {
                let p = *percent as usize;
                let filled: usize = if p * 10 / 100 < 10 { p * 10 / 100 } else { 10 };
                let eq = chars_of("=");
                let sp = chars_of(" ");
                proof {
                    reveal_strlit("=");
                    reveal_strlit(" ");
                    reveal_strlit(">");
                }
                push_str_chars(&mut m, "[");
                let a = repeat_chars(eq.as_slice(), if filled > 0 { filled - 1 } else { 0 });
                push_all(&mut m, a.as_slice());
                if filled > 0 {
                    push_str_chars(&mut m, ">");
                }
                let b = repeat_chars(sp.as_slice(), 10 - filled);
                push_all(&mut m, b.as_slice());
                push_str_chars(&mut m, "] ");
                let d = usize_to_chars(p);
                push_all(&mut m, d.as_slice());
                push_str_chars(&mut m, "%");
                proof {
                    assert(m@ =~= "["@ + ascii_bar(*percent) + "] "@ + decimal(*percent as nat) + "%"@);
                }
            },
            Primitive::Donut { percent, .. } => {
                push_str_chars(&mut m, "(");
                let d = usize_to_chars(*percent as usize);
                push_all(&mut m, d.as_slice());
                push_str_chars(&mut m, "%)");
            },
            Primitive::Gauge { percent, .. } => {
                push_str_chars(&mut m, "[");
                let d = usize_to_chars(*percent as usize);
                push_all(&mut m, d.as_slice());
                push_str_chars(&mut m, "%]");
            },
            Primitive::Version { .. } => {
                return Err(unsupported("Version"));
            },
            Primitive::License { .. } => {
                return Err(unsupported("License"));
            },
            Primitive::Sparkline { values, .. } => {
                if values.len() > 0 {
                    return Err(unsupported("Sparkline"));
                }
                push_str_chars(&mut m, "\u{2581}");
            },
            Primitive::Rating { .. } => {
                return Err(unsupported("Rating"));
            },
            Primitive::Waveform { values, .. } => {
                if values.len() > 0 {
                    return Err(unsupported("Waveform"));
                }
                push_str_chars(&mut m, "\u{2594}");
            },
        }
        Ok(RenderedAsset::InlineMarkdown(string_of(m.as_slice())))
    }
}

impl Renderer for PlainTextBackend {
    fn render(&self, primitive: &Primitive) -> (r: Result<RenderedAsset>)
        ensures
            plain_text(*primitive) matches Some(t) ==> (r matches Ok(RenderedAsset::InlineMarkdown(m)) && m@ == t),
            plain_text(*primitive) is None ==> r is Err,
    {
        self.render_text(primitive)
    }
}

/// Settings of the SVG backend: where files go, the path prefix used in
/// Markdown references, and whether SVGs are embedded instead.
#[derive(Debug)]
pub struct SvgBackend {
    out_dir: String,
    assets_prefix: Option<String>,
    inline: bool,
}

impl SvgBackend {
    /// The output directory.
    pub closed spec fn out_dir_view(self) -> Seq<char> {
        self.out_dir@
    }

    /// The Markdown path prefix, if separate from the output directory.
    pub closed spec fn prefix_view(self) -> Option<Seq<char>> {
        match self.assets_prefix {
            Some(p) => Some(p@),
            None => None,
        }
    }

    /// Embedding instead of writing files.
    pub closed spec fn inline_view(self) -> bool {
        self.inline
    }

    /// A file-based SVG backend writing to `out_dir`.
    pub fn new(out_dir: &str) -> (b: SvgBackend)
        ensures
            b.out_dir_view() == out_dir@,
            b.prefix_view() is None,
            !b.inline_view(),
    {
        SvgBackend { out_dir: out_dir.to_owned(), assets_prefix: None, inline: false }
    }

    /// A file-based SVG backend whose Markdown references use another prefix.
    pub fn with_prefix(out_dir: &str, assets_prefix: &str) -> (b: SvgBackend)
        ensures
            b.out_dir_view() == out_dir@,
            b.prefix_view() == Some(assets_prefix@),
            !b.inline_view(),
    {
        SvgBackend { out_dir: out_dir.to_owned(), assets_prefix: Some(assets_prefix.to_owned()), inline: false }
    }

    /// An SVG backend embedding images as data URIs.
    pub fn new_inline() -> (b: SvgBackend)
        ensures
            b.out_dir_view() == Seq::<char>::empty(),
            b.prefix_view() is None,
            b.inline_view(),
    {
        SvgBackend { out_dir: String::new(), assets_prefix: None, inline: true }
    }

    /// Whether images are embedded.
    pub fn is_inline(&self) -> (b: bool)
        ensures
            b == self.inline_view(),
    {
        self.inline
    }

    /// The output directory.
    pub fn out_dir(&self) -> (r: &str)
        ensures
            r@ == self.out_dir_view(),
    {
        self.out_dir.as_str()
    }

    /// The Markdown path prefix, if set.
    pub fn assets_prefix(&self) -> (r: Option<&str>)
        ensures
            match self.prefix_view() {
                Some(p) => r matches Some(q) && q@ == p,
                None => r is None,
            },
    {
        match &self.assets_prefix {
            Some(p) => Some(p.as_str()),
            None => None,
        }
    }
}

/// `s` with its trailing `/` characters removed (`trim_end_matches('/')`).
pub open spec fn trim_slashes(s: Seq<char>) -> Seq<char>
    decreases s.len(),
{
    if s.len() > 0 && s.last() == '/' {
        trim_slashes(s.drop_last())
    } else {
        s
    }
}

/// Removes the trailing `/` characters.
fn trim_slashes_chars(s: &str) -> (r: Vec<char>)
    ensures
        r@ == trim_slashes(s@),
{
    let mut v = chars_of(s);
    while v.len() > 0 && v[v.len() - 1] == '/'
        invariant
            trim_slashes(v@) == trim_slashes(s@),
        decreases v.len(),
    {
        let ghost before = v@;
        v.pop();
        assert(v@ =~= before.drop_last());
    }
    v
}

/// Text put into a shields.io URL: space, `#`, `+` and `&` percent-encoded.
pub open spec fn url_encode(s: Seq<char>) -> Seq<char> {
    replace_all(replace_all(replace_all(replace_all(s, " "@, "%20"@), "#"@, "%23"@), "+"@, "%2B"@), "&"@, "%26"@)
}

/// Percent-encodes space, `#`, `+` and `&`.
fn url_encode_chars(s: &[char]) -> (r: Vec<char>)
    ensures
        r@ == url_encode(s@),
{
    proof {
        reveal_strlit(" ");
        reveal_strlit("#");
        reveal_strlit("+");
        reveal_strlit("&");
    }
    let a = crate::text::replace_chars(s, chars_of(" ").as_slice(), chars_of("%20").as_slice());
    let b = crate::text::replace_chars(a.as_slice(), chars_of("#").as_slice(), chars_of("%23").as_slice());
    let c = crate::text::replace_chars(b.as_slice(), chars_of("+").as_slice(), chars_of("%2B").as_slice());
    crate::text::replace_chars(c.as_slice(), chars_of("&").as_slice(), chars_of("%26").as_slice())
}

/// The shields.io image of a tech badge whose source is `shields`: the
/// label (else the name) on both sides, the name as logo.
pub open spec fn tech_shields_md(name: Seq<char>, label: Option<Seq<char>>, bg: Seq<char>, style: Seq<char>,
    logo_color: Seq<char>) -> Seq<char> {
    let t = match label {
        Some(l) => l,
        None => name,
    };
    "![](https://img.shields.io/badge/"@ + url_encode(t) + "-"@ + url_encode(t) + "-"@ + bg + "?style="@ + style
        + "&logo="@ + url_encode(name) + "&logoColor="@ + logo_color + ")"@
}

/// What the SVG backend gives without drawing: the shields.io image for a
/// tech badge whose source is `shields`.
pub open spec fn shields_source_md(p: Primitive) -> Option<Seq<char>> {
    match p {
        Primitive::Tech { name, bg_color, logo_color, style, label, source, .. } => match source {
            Some(s) => if s@ == "shields"@ {
                Some(tech_shields_md(name@, match label { Some(l) => Some(l@), None => None }, bg_color@, style@, logo_color@))
            } else {
                None
            },
            None => None,
        },
        _ => None,
    }
}

impl SvgBackend {
    /// A tech badge whose source is `shields` is a shields.io image, not an
    /// SVG; `None` for every other primitive.
    pub fn shields_source(primitive: &Primitive) -> (r: Option<RenderedAsset>)
        ensures
            match shields_source_md(*primitive) {
                Some(m) => r matches Some(RenderedAsset::InlineMarkdown(t)) && t@ == m,
                None => r is None,
            },
    {
        match primitive {
            Primitive::Tech { name, bg_color, logo_color, style, label, source, .. } => {
                match source {
                    Some(s) => {
                        if !crate::namemap::str_eq(s.as_str(), "shields") {
                            return None;
                        }
                    },
                    None => {
                        return None;
                    },
                }
                let t = match label {
                    Some(l) => chars_of(l.as_str()),
                    None => chars_of(name.as_str()),
                };
                let te = url_encode_chars(t.as_slice());
                let ne = url_encode_chars(chars_of(name.as_str()).as_slice());
                let mut m = chars_of("![](https://img.shields.io/badge/");
                push_all(&mut m, te.as_slice());
                push_str_chars(&mut m, "-");
                push_all(&mut m, te.as_slice());
                push_str_chars(&mut m, "-");
                push_str_chars(&mut m, bg_color.as_str());
                push_str_chars(&mut m, "?style=");
                push_str_chars(&mut m, style.as_str());
                push_str_chars(&mut m, "&logo=");
                push_all(&mut m, ne.as_slice());
                push_str_chars(&mut m, "&logoColor=");
                push_str_chars(&mut m, logo_color.as_str());
                push_str_chars(&mut m, ")");
                Some(RenderedAsset::InlineMarkdown(string_of(m.as_slice())))
            },
            _ => None,
        }
    }

    /// The path of a file asset named `name`: the output directory without
    /// trailing slashes, `/`, the name.
    pub open spec fn file_path_spec(self, name: Seq<char>) -> Seq<char> {
        trim_slashes(self.out_dir_view()) + "/"@ + name
    }

    /// The Markdown reference to a file asset named `name`: through the
    /// assets prefix when set, else the output directory.
    pub open spec fn markdown_ref_spec(self, name: Seq<char>) -> Seq<char> {
        let prefix = match self.prefix_view() {
            Some(p) => trim_slashes(p),
            None => trim_slashes(self.out_dir_view()),
        };
        "![]("@ + prefix + "/"@ + name + ")"@
    }

    /// The asset for a primitive whose SVG text is `svg`: inline, the SVG
    /// itself; else a file named after the primitive's type and the SVG's
    /// SHA-256 digest, with the Markdown image that references it.
    pub fn asset_for(&self, primitive: Primitive, svg: String) -> (r: RenderedAsset)
        ensures
            self.inline_view() ==> (r matches RenderedAsset::InlineMarkdown(t) && t@ == svg@),
            !self.inline_view() ==> (r matches RenderedAsset::File { relative_path, bytes, markdown_ref, primitive: bp }
                && bytes@ == vstd::utf8::encode_utf8(svg@)
                && relative_path@ == self.file_path_spec(crate::digest::content_name(bytes@, type_prefix_of(primitive)))
                && markdown_ref@ == self.markdown_ref_spec(crate::digest::content_name(bytes@, type_prefix_of(primitive)))
                && *bp == primitive),
    {
        if self.inline {
            return RenderedAsset::InlineMarkdown(svg);
        }
        let bytes = vstd::slice::slice_to_vec(svg.as_str().as_bytes());
        let filename = crate::digest::content_addressed_filename(bytes.as_slice(), type_prefix(&primitive));
        let mut path = trim_slashes_chars(self.out_dir.as_str());
        push_str_chars(&mut path, "/");
        push_str_chars(&mut path, filename.as_str());
        let mut md = chars_of("![](");
        let prefix = match &self.assets_prefix {
            Some(p) => trim_slashes_chars(p.as_str()),
            None => trim_slashes_chars(self.out_dir.as_str()),
        };
        push_all(&mut md, prefix.as_slice());
        push_str_chars(&mut md, "/");
        push_str_chars(&mut md, filename.as_str());
        push_str_chars(&mut md, ")");
        RenderedAsset::File {
            relative_path: string_of(path.as_slice()),
            bytes,
            markdown_ref: string_of(md.as_slice()),
            primitive: Box::new(primitive),
        }
    }
}

/// Assets are content-addressed: for primitives of the same kind, the same
/// SVG text gives the same file and the same Markdown reference (so a
/// repeated image is written once); primitives of different kinds never
/// share a file.
pub proof fn law_content_addressed(b: SvgBackend, p1: Primitive, p2: Primitive, svg1: Seq<char>, svg2: Seq<char>)
    ensures
        type_prefix_of(p1) == type_prefix_of(p2) && svg1 == svg2 ==> {
            let n1 = crate::digest::content_name(vstd::utf8::encode_utf8(svg1), type_prefix_of(p1));
            let n2 = crate::digest::content_name(vstd::utf8::encode_utf8(svg2), type_prefix_of(p2));
            &&& b.file_path_spec(n1) == b.file_path_spec(n2)
            &&& b.markdown_ref_spec(n1) == b.markdown_ref_spec(n2)
        },
        type_prefix_of(p1) != type_prefix_of(p2) ==> b.file_path_spec(
            crate::digest::content_name(vstd::utf8::encode_utf8(svg1), type_prefix_of(p1)),
        ) != b.file_path_spec(crate::digest::content_name(vstd::utf8::encode_utf8(svg2), type_prefix_of(p2))),
{
    let t1 = type_prefix_of(p1);
    let t2 = type_prefix_of(p2);
    if t1 != t2 {
        let n1 = crate::digest::content_name(vstd::utf8::encode_utf8(svg1), t1);
        let n2 = crate::digest::content_name(vstd::utf8::encode_utf8(svg2), t2);
        let d = trim_slashes(b.out_dir_view()) + "/"@;
        reveal_strlit("_");
        lemma_prefix_no_underscore(p1);
        lemma_prefix_no_underscore(p2);
        if t1.len() == t2.len() {
            if b.file_path_spec(n1) == b.file_path_spec(n2) {
                assert forall|j: int| 0 <= j < t1.len() implies t1[j] == t2[j] by {
                    assert((d + n1)[d.len() + j] == t1[j]);
                    assert((d + n2)[d.len() + j] == t2[j]);
                }
                assert(t1 =~= t2);
            }
        } else if t1.len() < t2.len() {
            let k = t1.len() as int;
            assert((d + n1)[d.len() + k] == '_');
            assert((d + n2)[d.len() + k] == t2[k]);
        } else {
            let k = t2.len() as int;
            assert((d + n2)[d.len() + k] == '_');
            assert((d + n1)[d.len() + k] == t1[k]);
        }
    }
}

/// File-name prefixes hold no underscore.
proof fn lemma_prefix_no_underscore(p: Primitive)
    ensures
        forall|k: int| 0 <= k < type_prefix_of(p).len() ==> type_prefix_of(p)[k] != '_',
{
    reveal_strlit("swatch");
    reveal_strlit("tech");
    reveal_strlit("version");
    reveal_strlit("license");
    reveal_strlit("progress");
    reveal_strlit("donut");
    reveal_strlit("gauge");
    reveal_strlit("sparkline");
    reveal_strlit("rating");
    reveal_strlit("waveform");
}

/// The file-name prefix of each kind of primitive.
pub open spec fn type_prefix_of(p: Primitive) -> Seq<char> {
    match p {
        Primitive::Swatch { .. } => "swatch"@,
        Primitive::Tech { .. } => "tech"@,
        Primitive::Version { .. } => "version"@,
        Primitive::License { .. } => "license"@,
        Primitive::Progress { .. } => "progress"@,
        Primitive::Donut { .. } => "donut"@,
        Primitive::Gauge { .. } => "gauge"@,
        Primitive::Sparkline { .. } => "sparkline"@,
        Primitive::Rating { .. } => "rating"@,
        Primitive::Waveform { .. } => "waveform"@,
    }
}

/// The file-name prefix for a primitive.
pub fn type_prefix(primitive: &Primitive) -> (r: &'static str)
    ensures
        r@ == type_prefix_of(*primitive),
{
    proof {
        reveal_strlit("swatch");
        reveal_strlit("tech");
        reveal_strlit("version");
        reveal_strlit("license");
        reveal_strlit("progress");
        reveal_strlit("donut");
        reveal_strlit("gauge");
        reveal_strlit("sparkline");
        reveal_strlit("rating");
        reveal_strlit("waveform");
    }
    match primitive {
        Primitive::Swatch { .. } => "swatch",
        Primitive::Tech { .. } => "tech",
        Primitive::Version { .. } => "version",
        Primitive::License { .. } => "license",
        Primitive::Progress { .. } => "progress",
        Primitive::Donut { .. } => "donut",
        Primitive::Gauge { .. } => "gauge",
        Primitive::Sparkline { .. } => "sparkline",
        Primitive::Rating { .. } => "rating",
        Primitive::Waveform { .. } => "waveform",
    }
}

/// Primitives that need SVG-only features: swatches with gradients,
/// shadows, corner radii, dashes or per-side borders, and every chart,
/// version and license badge.
pub open spec fn needs_svg_spec(p: Primitive) -> bool {
    match p {
        Primitive::Swatch { gradient, shadow, rx, ry, stroke_dash, border_top, border_right, border_bottom, border_left, .. } =>
            gradient is Some || shadow is Some || rx is Some || ry is Some || stroke_dash is Some || border_top is Some
                || border_right is Some || border_bottom is Some || border_left is Some,
        Primitive::Tech { .. } => false,
        _ => true,
    }
}

/// Backend choosing shields.io for simple badges and an SVG backend for
/// the rest.
#[derive(Debug)]
pub struct HybridBackend<S> {
    pub shields: ShieldsBackend,
    pub svg: S,
}

impl<S> HybridBackend<S> {
    /// A hybrid backend over the given SVG backend.
    pub fn new(svg: S) -> (r: Result<Self>)
        ensures
            r matches Ok(h) && h.svg == svg,
    {
        let shields = ShieldsBackend::new()?;
        Ok(HybridBackend { shields, svg })
    }

    /// Whether a primitive needs the SVG backend.
    pub fn needs_svg(primitive: &Primitive) -> (b: bool)
        ensures
            b == needs_svg_spec(*primitive),
    {
        match primitive {
            Primitive::Swatch { gradient, shadow, rx, ry, stroke_dash, border_top, border_right, border_bottom, border_left, .. } =>
                gradient.is_some() || shadow.is_some() || rx.is_some() || ry.is_some() || stroke_dash.is_some()
                    || border_top.is_some() || border_right.is_some() || border_bottom.is_some() || border_left.is_some(),
            Primitive::Tech { .. } => false,
            _ => true,
        }
    }
}

impl<S: Renderer> Renderer for HybridBackend<S> {
    fn render(&self, primitive: &Primitive) -> (r: Result<RenderedAsset>)
        ensures
            !needs_svg_spec(*primitive) ==> self.shields.rendered(*primitive, r),
    {
        if Self::needs_svg(primitive) {
            self.svg.render(primitive)
        } else {
            self.shields.render_shields(primitive)
        }
    }
}

} // verus!
