//! shields.io badge Markdown: color blocks, two-tone blocks, bars and icons.

use vstd::prelude::*;
use crate::error::{Error, Result};
use crate::namemap::{NameMap, sorted_names};
use crate::text::{chars_of, string_of, push_str_chars, push_all, lists_name, contains_name, to_uppercase, ascii_upper};

verus! {

/// A shield style definition.
#[derive(Debug)]
pub struct ShieldStyle {
    pub id: String,
    pub name: String,
    pub description: String,
    pub aliases: Vec<String>,
}

/// ASCII hexadecimal digit.
pub open spec fn hex_digit(c: char) -> bool {
    ('0' <= c && c <= '9') || ('a' <= c && c <= 'f') || ('A' <= c && c <= 'F')
}

/// Every badge carries the style it is drawn in: its URL holds the query
/// parameter `style=` with that style, right after the `?`. A two-tone
/// block ends with its left color as the label color; an icon chip names
/// its logo.
pub proof fn law_badges_carry_style(color: Seq<char>, left: Seq<char>, right: Seq<char>, logo: Seq<char>, logo_color: Seq<char>,
    style: Seq<char>)
    ensures
        crate::text::has_substring(block_md(color, style), "?style="@ + style),
        crate::text::has_substring(twotone_md(left, right, style), "?style="@ + style),
        crate::text::has_substring(icon_md(logo, color, logo_color, style), "?style="@ + style),
        ({
            let m = twotone_md(left, right, style);
            let tail = "&label=&labelColor="@ + left + ")"@;
            m.len() >= tail.len() && m.skip(m.len() - tail.len()) == tail
        }),
        crate::text::has_substring(icon_md(logo, color, logo_color, style), "&logo="@ + logo),
{
    let pat = "?style="@ + style;
    let a1 = "![](https://img.shields.io/badge/-%20-"@ + color;
    assert(block_md(color, style) =~= a1 + pat + ")"@);
    assert((a1 + pat + ")"@).subrange(a1.len() as int, (a1.len() + pat.len()) as int) =~= pat);
    assert(crate::text::occurs_at(block_md(color, style), a1.len() as int, pat));
    let a2 = "![](https://img.shields.io/badge/-%20-"@ + right;
    let b2 = "&label=&labelColor="@ + left + ")"@;
    assert(twotone_md(left, right, style) =~= a2 + pat + b2);
    assert((a2 + pat + b2).subrange(a2.len() as int, (a2.len() + pat.len()) as int) =~= pat);
    assert(crate::text::occurs_at(twotone_md(left, right, style), a2.len() as int, pat));
    let b3 = "&logo="@ + logo + "&logoColor="@ + logo_color + "&label=&labelColor="@ + color + ")"@;
    assert(icon_md(logo, color, logo_color, style) =~= a1 + pat + b3);
    assert((a1 + pat + b3).subrange(a1.len() as int, (a1.len() + pat.len()) as int) =~= pat);
    assert(crate::text::occurs_at(icon_md(logo, color, logo_color, style), a1.len() as int, pat));
    let head2 = a2 + pat;
    assert((head2 + b2).skip(head2.len() as int) =~= b2);
    let lp = "&logo="@ + logo;
    let a4 = a1 + pat;
    let b4 = "&logoColor="@ + logo_color + "&label=&labelColor="@ + color + ")"@;
    assert(icon_md(logo, color, logo_color, style) =~= a4 + lp + b4);
    assert((a4 + lp + b4).subrange(a4.len() as int, (a4.len() + lp.len()) as int) =~= lp);
    assert(crate::text::occurs_at(icon_md(logo, color, logo_color, style), a4.len() as int, lp));
}

/// Six hexadecimal digits.
pub open spec fn is_hex6(s: Seq<char>) -> bool {
    s.len() == 6 && forall|i: int| 0 <= i < 6 ==> hex_digit(#[trigger] s[i])
}

/// Markdown for a single color block.
pub open spec fn block_md(color: Seq<char>, style: Seq<char>) -> Seq<char> {
    "![](https://img.shields.io/badge/-%20-"@ + color + "?style="@ + style + ")"@
}

/// Markdown for a two-tone block.
pub open spec fn twotone_md(left: Seq<char>, right: Seq<char>, style: Seq<char>) -> Seq<char> {
    "![](https://img.shields.io/badge/-%20-"@ + right + "?style="@ + style + "&label=&labelColor="@
        + left + ")"@
}

/// Markdown for an icon chip.
pub open spec fn icon_md(logo: Seq<char>, bg: Seq<char>, logo_color: Seq<char>, style: Seq<char>) -> Seq<char> {
    "![](https://img.shields.io/badge/-%20-"@ + bg + "?style="@ + style + "&logo="@ + logo
        + "&logoColor="@ + logo_color + "&label=&labelColor="@ + bg + ")"@
}

fn hex6(v: &[char]) -> (b: bool)
    ensures
        b == is_hex6(v@),
{
    if v.len() != 6 {
        return false;
    }
    let mut i: usize = 0;
    while i < 6
        invariant
            v@.len() == 6,
            i <= 6,
            forall|j: int| 0 <= j < i ==> hex_digit(#[trigger] v@[j]),
        decreases 6 - i,
    {
        let c = v[i];
        if !(('0' <= c && c <= '9') || ('a' <= c && c <= 'f') || ('A' <= c && c <= 'F')) {
            return false;
        }
        i = i + 1;
    }
    true
}

/// A shield style seen as its id, display name and aliases.
pub open spec fn shield_row(s: ShieldStyle) -> (Seq<char>, Seq<char>, Seq<Seq<char>>) {
    (s.id@, s.name@, crate::components::strs(s.aliases@))
}

/// The built-in shield styles' ids, display names and aliases.
pub open spec fn builtin_shield_rows() -> Seq<(Seq<char>, (Seq<char>, Seq<char>, Seq<Seq<char>>))> {
    crate::data::shield_style_table().map_values(|p: (Seq<char>, (Seq<char>, Seq<char>, Seq<Seq<char>>, bool))| (p.0, (p.1.0, p.1.1, p.1.2)))
}

/// A registry shield style seen as its id, display name and aliases.
pub open spec fn source_row(s: crate::registry::ShieldStyle) -> (Seq<char>, Seq<char>, Seq<Seq<char>>) {
    (s.id@, s.name@, crate::components::strs(s.aliases@))
}

/// Shields renderer for generating shields.io badge Markdown.
#[derive(Debug)]
pub struct ShieldsRenderer {
    pub palette: NameMap<String>,
    pub styles: NameMap<ShieldStyle>,
}

impl ShieldsRenderer {
    /// What a color argument resolves to: its palette value, else the
    /// uppercased hex code, else nothing.
    pub open spec fn color_for(self, color: Seq<char>) -> Option<Seq<char>> {
        if self.palette.has(color) {
            Some(self.palette.value_of(color)@)
        } else if is_hex6(color) {
            Some(color.map_values(|c: char| ascii_upper(c)))
        } else {
            None
        }
    }

    /// What a style argument resolves to: the id itself, else the id of the
    /// first style (in id order) listing it as an alias.
    pub open spec fn style_for(self, style: Seq<char>) -> Option<Seq<char>> {
        if self.styles.has(style) {
            Some(style)
        } else if exists|i: int| 0 <= i < self.styles.values().len() && lists_name((#[trigger] self.styles.values()[i]).aliases@, style) {
            let i = choose|i: int| 0 <= i < self.styles.values().len() && lists_name((#[trigger] self.styles.values()[i]).aliases@, style)
                && forall|j: int| 0 <= j < i ==> !lists_name((#[trigger] self.styles.values()[j]).aliases@, style);
            Some(self.styles.values()[i].id@)
        } else {
            None
        }
    }

    /// The renderer holds the built-in palette (names and values) and the
    /// built-in shield styles (ids, display names and aliases).
    pub open spec fn is_builtin(self) -> bool {
        &&& forall|k: Seq<char>| #[trigger] self.palette.has(k) <==> crate::data::table_names(crate::data::palette_table()).contains(k)
        &&& forall|k: Seq<char>| #[trigger] self.palette.has(k) ==> self.palette.value_of(k)@
            == crate::data::table_value(crate::data::palette_table(), k)
        &&& forall|k: Seq<char>| #[trigger] self.styles.has(k) <==> crate::data::shield_style_names().contains(k)
        &&& forall|k: Seq<char>| #[trigger] self.styles.has(k) ==> shield_row(self.styles.value_of(k))
            == crate::data::row_for(builtin_shield_rows(), k)
        &&& crate::namemap::sorted_names(self.styles.names())
    }

    /// Create a shields renderer from the built-in palette and shield styles.
    pub fn new() -> (r: Result<Self>)
        ensures
            r matches Ok(s) && s.is_builtin(),
    {
        let data = crate::data::registry_data();
        let mut styles: Vec<(String, ShieldStyle)> = Vec::new();
        let mut src = data.shield_styles;
        proof {
            assert(crate::data::entry_names(styles@) + crate::data::entry_names(src@) =~= crate::data::entry_names(src@));
            assert(crate::data::keyed(src@, |s: crate::registry::ShieldStyle| source_row(s)) =~= builtin_shield_rows());
            assert(crate::data::keyed(styles@, |s: ShieldStyle| shield_row(s)) + crate::data::keyed(src@, |s: crate::registry::ShieldStyle| source_row(s))
                =~= builtin_shield_rows());
        }
        while src.len() > 0
            invariant
                crate::data::entry_names(styles@) + crate::data::entry_names(src@) == crate::data::shield_style_names(),
                crate::data::keyed(styles@, |s: ShieldStyle| shield_row(s)) + crate::data::keyed(src@, |s: crate::registry::ShieldStyle| source_row(s))
                    == builtin_shield_rows(),
            decreases src.len(),
        {
            let ghost d0 = styles@;
            let ghost s0 = src@;
            let (id, s) = src.remove(0);
            let description = match s.description {
                Some(d) => d,
                None => String::new(),
            };
            styles.push((id, ShieldStyle { id: s.id, name: s.name, description, aliases: s.aliases }));
            proof {
                assert(crate::data::entry_names(styles@) =~= crate::data::entry_names(d0).push(s0[0].0@));
                assert(crate::data::entry_names(src@) =~= crate::data::entry_names(s0).skip(1));
                assert(crate::data::entry_names(styles@) + crate::data::entry_names(src@) =~= crate::data::entry_names(d0)
                    + crate::data::entry_names(s0));
                crate::data::lemma_keyed_push(d0, styles@.last(), |s: ShieldStyle| shield_row(s));
                assert(styles@ == d0.push(styles@.last()));
                assert(crate::data::keyed(src@, |s: crate::registry::ShieldStyle| source_row(s))
                    =~= crate::data::keyed(s0, |s: crate::registry::ShieldStyle| source_row(s)).skip(1));
                assert(crate::data::keyed(styles@, |s: ShieldStyle| shield_row(s)) + crate::data::keyed(src@, |s: crate::registry::ShieldStyle| source_row(s))
                    =~= crate::data::keyed(d0, |s: ShieldStyle| shield_row(s)) + crate::data::keyed(s0, |s: crate::registry::ShieldStyle| source_row(s)));
            }
        }
        proof {
            assert(crate::data::entry_names(src@) =~= Seq::<Seq<char>>::empty());
            assert(crate::data::entry_names(styles@) =~= crate::data::shield_style_names());
            assert(crate::data::keyed(src@, |s: crate::registry::ShieldStyle| source_row(s)) =~= Seq::<(Seq<char>, (Seq<char>, Seq<char>, Seq<Seq<char>>))>::empty());
            assert(crate::data::keyed(styles@, |s: ShieldStyle| shield_row(s)) =~= builtin_shield_rows());
        }
        let ghost pal = data.palette@;
        let ghost st = styles@;
        let r = ShieldsRenderer { palette: NameMap::from_entries(data.palette), styles: NameMap::from_entries(styles) };
        proof {
            assert forall|k: Seq<char>| #[trigger] r.styles.has(k) <==> crate::data::shield_style_names().contains(k) by {
                crate::data::lemma_name_found(st, k);
            }
            assert forall|k: Seq<char>| #[trigger] r.styles.has(k) implies shield_row(r.styles.value_of(k))
                == crate::data::row_for(builtin_shield_rows(), k) by {
                crate::data::lemma_row_for(st, |s: ShieldStyle| shield_row(s), k);
            }
            assert forall|k: Seq<char>| #[trigger] r.palette.has(k) <==> crate::data::table_names(crate::data::palette_table()).contains(k) by {
                crate::data::lemma_name_found(pal, k);
                assert(crate::data::entry_names(pal) =~= crate::data::table_names(crate::data::text_pairs(pal)));
            }
            assert forall|k: Seq<char>| #[trigger] r.palette.has(k) implies r.palette.value_of(k)@
                == crate::data::table_value(crate::data::palette_table(), k) by {
                crate::data::lemma_name_value(pal, k);
            }
        }
        Ok(r)
    }

    /// Render a single color block.
    pub fn render_block(&self, color: &str, style: &str) -> (r: Result<String>)
        ensures
            self.color_for(color@) is Some && self.style_for(style@) is Some ==> (r matches Ok(s)
                && s@ == block_md(self.color_for(color@).unwrap(), self.style_for(style@).unwrap())),
            self.color_for(color@) is None ==> r matches Err(Error::InvalidColor(_)),
            self.color_for(color@) is Some && self.style_for(style@) is None ==> (r matches Err(Error::UnknownShieldStyle(n)) && n@ == style@),
    {
        let resolved_color = self.resolve_color(color)?;
        let resolved_style = self.resolve_style(style)?;
        let mut v: Vec<char> = Vec::new();
        push_str_chars(&mut v, "![](https://img.shields.io/badge/-%20-");
        push_str_chars(&mut v, resolved_color.as_str());
        push_str_chars(&mut v, "?style=");
        push_str_chars(&mut v, resolved_style.as_str());
        push_str_chars(&mut v, ")");
        Ok(string_of(v.as_slice()))
    }

    /// Render a two-tone block (left/right colors).
    pub fn render_twotone(&self, left_color: &str, right_color: &str, style: &str) -> (r: Result<String>)
        ensures
            self.color_for(left_color@) is Some && self.color_for(right_color@) is Some && self.style_for(style@) is Some ==> (r matches Ok(s)
                && s@ == twotone_md(self.color_for(left_color@).unwrap(), self.color_for(right_color@).unwrap(), self.style_for(style@).unwrap())),
            self.color_for(left_color@) is None || self.color_for(right_color@) is None || self.style_for(style@) is None ==> r is Err,
    {
        let left = self.resolve_color(left_color)?;
        let right = self.resolve_color(right_color)?;
        let resolved_style = self.resolve_style(style)?;
        let mut v: Vec<char> = Vec::new();
        push_str_chars(&mut v, "![](https://img.shields.io/badge/-%20-");
        push_str_chars(&mut v, right.as_str());
        push_str_chars(&mut v, "?style=");
        push_str_chars(&mut v, resolved_style.as_str());
        push_str_chars(&mut v, "&label=&labelColor=");
        push_str_chars(&mut v, left.as_str());
        push_str_chars(&mut v, ")");
        Ok(string_of(v.as_slice()))
    }

    /// Render a bar of colored blocks, joined by the separator when one is given.
    pub fn render_bar_with_separator(&self, colors: &[String], style: &str, separator: Option<&str>) -> (r: Result<String>)
        ensures
            self.style_for(style@) is Some && (forall|i: int| 0 <= i < colors@.len() ==> (#[trigger] self.color_for(colors@[i]@)) is Some) ==> (
                r matches Ok(s) && s@ == crate::text::join(
                    colors@.map_values(|c: String| block_md(self.color_for(c@).unwrap(), self.style_for(style@).unwrap())),
                    match separator { Some(sep) => sep@, None => Seq::empty() })),
            self.style_for(style@) is None ==> r is Err,
            (exists|i: int| 0 <= i < colors@.len() && (#[trigger] self.color_for(colors@[i]@)) is None) ==> r is Err,
    {
        let resolved_style = self.resolve_style(style)?;
        let mut blocks: Vec<Vec<char>> = Vec::new();
        let mut i: usize = 0;
        while i < colors.len()
            invariant
                i <= colors@.len(),
                self.style_for(style@) == Some(resolved_style@),
                blocks@.len() == i,
                forall|j: int| 0 <= j < i ==> (#[trigger] self.color_for(colors@[j]@)) is Some,
                forall|j: int| 0 <= j < i ==> #[trigger] blocks@[j]@ == block_md(self.color_for(colors@[j]@).unwrap(), resolved_style@),
            decreases colors.len() - i,
        {
            let c = self.resolve_color(colors[i].as_str())?;
            let mut v: Vec<char> = Vec::new();
            push_str_chars(&mut v, "![](https://img.shields.io/badge/-%20-");
            push_str_chars(&mut v, c.as_str());
            push_str_chars(&mut v, "?style=");
            push_str_chars(&mut v, resolved_style.as_str());
            push_str_chars(&mut v, ")");
            blocks.push(v);
            i = i + 1;
        }
        let sep = match separator {
            Some(s) => chars_of(s),
            None => {
                let e: Vec<char> = Vec::new();
                assert(e@ =~= Seq::<char>::empty());
                e
            },
        };
        assert(blocks@.map_values(|p: Vec<char>| p@) =~= colors@.map_values(|c: String| block_md(self.color_for(c@).unwrap(), self.style_for(style@).unwrap())));
        let out = crate::text::join_chars(&blocks, sep.as_slice());
        Ok(string_of(out.as_slice()))
    }

    /// Render a bar of multiple colored blocks, side by side.
    pub fn render_bar(&self, colors: &[String], style: &str) -> (r: Result<String>)
        ensures
            self.style_for(style@) is Some && (forall|i: int| 0 <= i < colors@.len() ==> (#[trigger] self.color_for(colors@[i]@)) is Some) ==> (
                r matches Ok(s) && s@ == crate::text::join(
                    colors@.map_values(|c: String| block_md(self.color_for(c@).unwrap(), self.style_for(style@).unwrap())),
                    Seq::empty())),
            self.style_for(style@) is None ==> r is Err,
            (exists|i: int| 0 <= i < colors@.len() && (#[trigger] self.color_for(colors@[i]@)) is None) ==> r is Err,
    {
        self.render_bar_with_separator(colors, style, None)
    }

    /// Render an icon chip (logo-only badge).
    pub fn render_icon(&self, logo: &str, bg_color: &str, logo_color: &str, style: &str) -> (r: Result<String>)
        ensures
            self.color_for(bg_color@) is Some && self.color_for(logo_color@) is Some && self.style_for(style@) is Some ==> (r matches Ok(s)
                && s@ == icon_md(logo@, self.color_for(bg_color@).unwrap(), self.color_for(logo_color@).unwrap(), self.style_for(style@).unwrap())),
            self.color_for(bg_color@) is None || self.color_for(logo_color@) is None || self.style_for(style@) is None ==> r is Err,
    {
        let bg = self.resolve_color(bg_color)?;
        let logo_col = self.resolve_color(logo_color)?;
        let resolved_style = self.resolve_style(style)?;
        let mut v: Vec<char> = Vec::new();
        push_str_chars(&mut v, "![](https://img.shields.io/badge/-%20-");
        push_str_chars(&mut v, bg.as_str());
        push_str_chars(&mut v, "?style=");
        push_str_chars(&mut v, resolved_style.as_str());
        push_str_chars(&mut v, "&logo=");
        push_str_chars(&mut v, logo);
        push_str_chars(&mut v, "&logoColor=");
        push_str_chars(&mut v, logo_col.as_str());
        push_str_chars(&mut v, "&label=&labelColor=");
        push_str_chars(&mut v, bg.as_str());
        push_str_chars(&mut v, ")");
        Ok(string_of(v.as_slice()))
    }

    /// Resolve a color from a palette name, or accept a 6-digit hex code (uppercased).
    pub fn resolve_color(&self, color: &str) -> (r: Result<String>)
        ensures
            self.color_for(color@) matches Some(h) ==> (r matches Ok(s) && s@ == h),
            self.color_for(color@) is None ==> (r matches Err(Error::InvalidColor(m)) && m@ == color@ + " (use palette name or 6-digit hex)"@),
    {
        if let Some(hex) = self.palette.get(color) {
            return Ok(hex.clone());
        }
        let v = chars_of(color);
        if hex6(v.as_slice()) {
            let up = to_uppercase(color);
            proof {
                assert forall|i: int| 0 <= i < color@.len() implies (#[trigger] color@[i] as u32) < 128 by {
                    assert(hex_digit(color@[i]));
                }
            }
            return Ok(up);
        }
        let mut m: Vec<char> = Vec::new();
        push_str_chars(&mut m, color);
        push_str_chars(&mut m, " (use palette name or 6-digit hex)");
        Err(Error::InvalidColor(string_of(m.as_slice())))
    }

    /// Resolve a style by ID or alias.
    pub(crate) fn resolve_style(&self, style: &str) -> (r: Result<String>)
        ensures
            self.style_for(style@) matches Some(s) ==> (r matches Ok(t) && t@ == s),
            self.style_for(style@) is None ==> (r matches Err(Error::UnknownShieldStyle(n)) && n@ == style@),
    {
        if self.styles.contains_key(style) {
            return Ok(style.to_owned());
        }
        let n = self.styles.len();
        let mut i: usize = 0;
        while i < n
            invariant
                i <= n,
                n == self.styles.values().len(),
                n == self.styles.names().len(),
                !self.styles.has(style@),
                forall|j: int| 0 <= j < i ==> !lists_name((#[trigger] self.styles.values()[j]).aliases@, style@),
            decreases n - i,
        {
            let s = self.styles.value_at(i);
            if contains_name(&s.aliases, style) {
                proof {
                    let w = choose|k: int| 0 <= k < self.styles.values().len() && lists_name((#[trigger] self.styles.values()[k]).aliases@, style@)
                        && forall|j: int| 0 <= j < k ==> !lists_name((#[trigger] self.styles.values()[j]).aliases@, style@);
                    assert(w == i as int) by {
                        if w < i { } else if w > i { assert(lists_name(self.styles.values()[i as int].aliases@, style@)); }
                    }
                }
                return Ok(s.id.clone());
            }
            i = i + 1;
        }
        Err(Error::UnknownShieldStyle(style.to_owned()))
    }

    /// Check if a shield style exists.
    pub fn has_style(&self, name: &str) -> (b: bool)
        ensures
            b == self.style_for(name@) is Some,
    {
        self.resolve_style(name).is_ok()
    }

    /// List all shield styles, in id order.
    pub fn list_styles(&self) -> (r: Vec<&ShieldStyle>)
        ensures
            r@.len() == self.styles.values().len(),
            forall|i: int| 0 <= i < r@.len() ==> *(#[trigger] r@[i]) == self.styles.values()[i],
    {
        let n = self.styles.len();
        let mut r: Vec<&ShieldStyle> = Vec::new();
        let mut i: usize = 0;
        while i < n
            invariant
                i <= n,
                n == self.styles.values().len(),
                n == self.styles.names().len(),
                r@.len() == i,
                forall|j: int| 0 <= j < i ==> *(#[trigger] r@[j]) == self.styles.values()[j],
            decreases n - i,
        {
            r.push(self.styles.value_at(i));
            i = i + 1;
        }
        r
    }

    /// List all palette colors as (name, hex), sorted by name.
    pub fn list_palette(&self) -> (r: Vec<(&String, &String)>)
        ensures
            r@.len() == self.palette.names().len(),
            forall|i: int| 0 <= i < r@.len() ==> (#[trigger] r@[i]).0@ == self.palette.names()[i] && *r@[i].1 == self.palette.values()[i],
            sorted_names(self.palette.names()),
    {
        palette_entries(&self.palette)
    }
}

/// The entries of a palette as (name, value) pairs in name order.
pub fn palette_entries(p: &NameMap<String>) -> (r: Vec<(&String, &String)>)
    ensures
        r@.len() == p.names().len(),
        forall|i: int| 0 <= i < r@.len() ==> (#[trigger] r@[i]).0@ == p.names()[i] && *r@[i].1 == p.values()[i],
        sorted_names(p.names()),
{
    let n = p.len();
    let mut r: Vec<(&String, &String)> = Vec::new();
    let mut i: usize = 0;
    while i < n
        invariant
            i <= n,
            n == p.values().len(),
            n == p.names().len(),
            sorted_names(p.names()),
            r@.len() == i,
            forall|j: int| 0 <= j < i ==> (#[trigger] r@[j]).0@ == p.names()[j] && *r@[j].1 == p.values()[j],
        decreases n - i,
    {
        r.push((p.name_at(i), p.value_at(i)));
        i = i + 1;
    }
    r
}

} // verus!
