//! The integer side of SVG rendering: style metrics, logo contrast color,
//! stroke attributes and thumb padding. Drawing itself (floating-point
//! geometry) happens outside the library.

use vstd::prelude::*;
use crate::text::{chars_of, string_of, push_str_chars, push_all, usize_to_chars, decimal};

verus! {

/// SVG metrics for a badge style.
#[derive(Debug)]
pub struct SvgMetrics {
    pub height: u32,
    pub rx: u32,
    pub plastic: bool,
}

/// The metrics of each style: (height, corner radius, plastic gloss).
pub open spec fn metrics_for(style: Seq<char>) -> (u32, u32, bool) {
    if style == "flat-square"@ {
        (20, 0, false)
    } else if style == "flat"@ {
        (20, 3, false)
    } else if style == "for-the-badge"@ {
        (28, 3, false)
    } else if style == "plastic"@ {
        (20, 3, true)
    } else if style == "social"@ {
        (20, 10, false)
    } else {
        (20, 3, false)
    }
}

impl SvgMetrics {
    /// Metrics for a style name; unknown styles get height 20, radius 3.
    pub fn from_style(style: &str) -> (m: SvgMetrics)
        ensures
            (m.height, m.rx, m.plastic) == metrics_for(style@),
    {
        proof {
            reveal_strlit("flat-square");
            reveal_strlit("flat");
            reveal_strlit("for-the-badge");
            reveal_strlit("plastic");
            reveal_strlit("social");
        }
        if crate::namemap::str_eq(style, "flat-square") {
            SvgMetrics { height: 20, rx: 0, plastic: false }
        } else if crate::namemap::str_eq(style, "flat") {
            SvgMetrics { height: 20, rx: 3, plastic: false }
        } else if crate::namemap::str_eq(style, "for-the-badge") {
            SvgMetrics { height: 28, rx: 3, plastic: false }
        } else if crate::namemap::str_eq(style, "plastic") {
            SvgMetrics { height: 20, rx: 3, plastic: true }
        } else if crate::namemap::str_eq(style, "social") {
            SvgMetrics { height: 20, rx: 10, plastic: false }
        } else {
            SvgMetrics { height: 20, rx: 3, plastic: false }
        }
    }
}

/// `s` without its leading '#' characters.
pub open spec fn strip_hashes(s: Seq<char>) -> Seq<char>
    decreases s.len(),
{
    if s.len() > 0 && s[0] == '#' {
        strip_hashes(s.skip(1))
    } else {
        s
    }
}

/// The value of a hexadecimal digit.
pub open spec fn hex_value(c: char) -> Option<nat> {
    if '0' <= c && c <= '9' {
        Some((c as u32 - '0' as u32) as nat)
    } else if 'a' <= c && c <= 'f' {
        Some((c as u32 - 'a' as u32 + 10) as nat)
    } else if 'A' <= c && c <= 'F' {
        Some((c as u32 - 'A' as u32 + 10) as nat)
    } else {
        None
    }
}

/// A two-character channel read as `u8::from_str_radix(_, 16)`, or 0 when
/// that fails.
pub open spec fn channel(a: char, b: char) -> nat {
    match (hex_value(a), hex_value(b)) {
        (Some(x), Some(y)) => 16 * x + y,
        (None, Some(y)) => if a == '+' { y } else { 0 },
        _ => 0,
    }
}

/// The number of bytes of `c` in UTF-8.
pub open spec fn utf8_width(c: char) -> nat {
    if (c as u32) < 0x80 {
        1
    } else if (c as u32) < 0x800 {
        2
    } else if (c as u32) < 0x10000 {
        3
    } else {
        4
    }
}

/// The number of bytes of `s` in UTF-8.
pub open spec fn utf8_len(s: Seq<char>) -> nat
    decreases s.len(),
{
    if s.len() == 0 {
        0
    } else {
        utf8_len(s.drop_last()) + utf8_width(s.last())
    }
}

/// The two bytes of `h` that start at its character `i`, read as a channel
/// (`u8::from_str_radix(_, 16)`, 0 when that fails), with the index of the
/// character after them: one two-byte character holds no hex digit and
/// reads as 0; two one-byte characters read as `channel` says; `None` where
/// the two bytes would end inside a character.
pub open spec fn byte_pair(h: Seq<char>, i: int) -> Option<(nat, int)> {
    if 0 <= i < h.len() && utf8_width(h[i]) == 2 {
        Some((0, i + 1))
    } else if 0 <= i && i + 1 < h.len() && utf8_width(h[i]) == 1 && utf8_width(h[i + 1]) == 1 {
        Some((channel(h[i], h[i + 1]), i + 2))
    } else {
        None
    }
}

/// The red, green and blue channels read from the first six bytes of `h`,
/// or `None` where one of those two-byte slices would split a character.
pub open spec fn hex_channels(h: Seq<char>) -> Option<(nat, nat, nat)> {
    match byte_pair(h, 0) {
        Some((r, i1)) => match byte_pair(h, i1) {
            Some((g, i2)) => match byte_pair(h, i2) {
                Some((b, _)) => Some((r, g, b)),
                None => None,
            },
            None => None,
        },
        None => None,
    }
}

/// The background color can be read: after its leading '#' characters it
/// has fewer than six bytes, or its first six bytes split into three
/// two-byte slices on character boundaries (slicing there elsewhere
/// panics).
pub open spec fn logo_color_defined(bg: Seq<char>) -> bool {
    utf8_len(strip_hashes(bg)) < 6 || hex_channels(strip_hashes(bg)) is Some
}

/// Black text on light backgrounds, white on dark. Fewer than six bytes
/// after the leading '#' characters give white; otherwise the channels are
/// read from the first six bytes and the luminance (weights 0.2126, 0.7152,
/// 0.0722) above the midpoint, as single-precision arithmetic decides it,
/// gives black. In whole numbers: the weighted sum of the channels above
/// 1275000, or the one color (30, 153, 162) whose sum is exactly 1275000 and
/// which single-precision rounding puts above the midpoint (every other
/// color lies far enough from the midpoint for rounding not to matter).
/// A color whose bytes cannot be sliced so (see `logo_color_defined`) gives
/// white.
pub open spec fn logo_color_for(bg: Seq<char>) -> Seq<char> {
    let h = strip_hashes(bg);
    if utf8_len(h) < 6 {
        "FFFFFF"@
    } else {
        match hex_channels(h) {
            Some((r, g, b)) => if 2126 * r + 7152 * g + 722 * b > 1275000 || (r == 30 && g == 153 && b == 162) {
                "000000"@
            } else {
                "FFFFFF"@
            },
            None => "FFFFFF"@,
        }
    }
}

fn hex_digit_value(c: char) -> (r: Option<u32>)
    ensures
        r matches Some(v) ==> hex_value(c) == Some(v as nat),
        r is None ==> hex_value(c) is None,
{
    if '0' <= c && c <= '9' {
        Some(c as u32 - '0' as u32)
    } else if 'a' <= c && c <= 'f' {
        Some(c as u32 - 'a' as u32 + 10)
    } else if 'A' <= c && c <= 'F' {
        Some(c as u32 - 'A' as u32 + 10)
    } else {
        None
    }
}

fn channel_exec(a: char, b: char) -> (r: u32)
    ensures
        r as nat == channel(a, b),
        r <= 255,
{
    match (hex_digit_value(a), hex_digit_value(b)) {
        (Some(x), Some(y)) => 16 * x + y,
        (None, Some(y)) => if a == '+' { y } else { 0 },
        _ => 0,
    }
}

fn utf8_width_exec(c: char) -> (r: usize)
    ensures
        r as nat == utf8_width(c),
{
    if (c as u32) < 0x80 {
        1
    } else if (c as u32) < 0x800 {
        2
    } else if (c as u32) < 0x10000 {
        3
    } else {
        4
    }
}

fn read_byte_pair(h: &[char], i: usize) -> (r: Option<(u32, usize)>)
    ensures
        match byte_pair(h@, i as int) {
            Some((v, j)) => r matches Some((rv, rj)) && rv as nat == v && rj as int == j && rv <= 255,
            None => r is None,
        },
{
    if i < h.len() && utf8_width_exec(h[i]) == 2 {
        Some((0, i + 1))
    } else if i < h.len() && h.len() - i > 1 && utf8_width_exec(h[i]) == 1 && utf8_width_exec(h[i + 1]) == 1 {
        Some((channel_exec(h[i], h[i + 1]), i + 2))
    } else {
        None
    }
}

/// The logo color for a background, as `logo_color_for` says.
pub(crate) fn logo_color(bg_hex: &str) -> (r: &'static str)
    ensures
        r@ == logo_color_for(bg_hex@),
{
    proof {
        reveal_strlit("FFFFFF");
        reveal_strlit("000000");
    }
    let v = chars_of(bg_hex);
    let mut i: usize = 0;
    assert(v@.skip(0) =~= v@);
    while i < v.len() && v[i] == '#'
        invariant
            i <= v@.len(),
            strip_hashes(v@.skip(i as int)) == strip_hashes(v@),
        decreases v.len() - i,
    {
        assert(v@.skip(i as int).skip(1) =~= v@.skip(i + 1));
        i = i + 1;
    }
    let h = crate::text::slice_chars(v.as_slice(), i, v.len());
    proof {
        assert(h@ =~= v@.skip(i as int));
        assert(h@.take(0) =~= Seq::<char>::empty());
    }
    let mut bytes: usize = 0;
    let mut k: usize = 0;
    while k < h.len()
        invariant
            k <= h@.len(),
            bytes as nat == if utf8_len(h@.take(k as int)) < 6 { utf8_len(h@.take(k as int)) } else { 6 },
        decreases h.len() - k,
    {
        let w = utf8_width_exec(h[k]);
        proof {
            assert(h@.take(k + 1).drop_last() =~= h@.take(k as int));
            assert(h@.take(k + 1).last() == h@[k as int]);
        }
        bytes = if bytes + w < 6 { bytes + w } else { 6 };
        k = k + 1;
    }
    proof {
        assert(h@.take(h@.len() as int) =~= h@);
    }
    if bytes < 6 {
        return "FFFFFF";
    }
    let (r, i1) = match read_byte_pair(h.as_slice(), 0) {
        Some(x) => x,
        None => {
            return "FFFFFF";
        },
    };
    let (g, i2) = match read_byte_pair(h.as_slice(), i1) {
        Some(x) => x,
        None => {
            return "FFFFFF";
        },
    };
    let (b, _) = match read_byte_pair(h.as_slice(), i2) {
        Some(x) => x,
        None => {
            return "FFFFFF";
        },
    };
    let lum: u64 = 2126 * (r as u64) + 7152 * (g as u64) + 722 * (b as u64);
    if lum > 1275000 || (r == 30 && g == 153 && b == 162) {
        "000000"
    } else {
        "FFFFFF"
    }
}

/// The logo color (black or white) that contrasts with a background hex
/// color.
pub fn get_logo_color_for_bg(bg_hex: &str) -> (r: &'static str)
    requires
        logo_color_defined(bg_hex@),
    ensures
        r@ == logo_color_for(bg_hex@),
{
    logo_color(bg_hex)
}

/// A hex color with a leading '#'.
pub fn ensure_hash_prefix(color: &str) -> (r: String)
    ensures
        r@ == (if color@.len() > 0 && color@[0] == '#' { color@ } else { seq!['#'] + color@ }),
{
    let v = chars_of(color);
    if v.len() > 0 && v[0] == '#' {
        color.to_owned()
    } else {
        let mut out: Vec<char> = Vec::new();
        out.push('#');
        push_all(&mut out, v.as_slice());
        string_of(out.as_slice())
    }
}

/// The stroke attribute for an SVG element: ` stroke="#C" stroke-width="W"`
/// when a color is given and the width is positive, else nothing.
pub fn build_stroke_attr(color: Option<&str>, width: u32) -> (r: String)
    ensures
        r@ == (match color {
            Some(c) => if width > 0 {
                " stroke=\"#"@ + c@ + "\" stroke-width=\""@ + decimal(width as nat) + "\""@
            } else {
                Seq::empty()
            },
            None => Seq::empty(),
        }),
{
    match color {
        Some(c) => {
            if width > 0 {
                let mut out: Vec<char> = Vec::new();
                push_str_chars(&mut out, " stroke=\"#");
                push_str_chars(&mut out, c);
                push_str_chars(&mut out, "\" stroke-width=\"");
                let w = usize_to_chars(width as usize);
                push_all(&mut out, w.as_slice());
                push_str_chars(&mut out, "\"");
                string_of(out.as_slice())
            } else {
                String::new()
            }
        },
        None => String::new(),
    }
}

/// Padding so that a thumb larger than the track does not clip: half the
/// thumb size less half the thickness, saturating at zero.
pub fn thumb_padding(thumb_size: Option<u32>, thickness: u32) -> (r: u32)
    ensures
        r == (match thumb_size {
            Some(s) => if s / 2 > thickness / 2 { (s / 2 - thickness / 2) as u32 } else { 0 },
            None => 0,
        }),
{
    match thumb_size {
        Some(s) => if s / 2 > thickness / 2 { s / 2 - thickness / 2 } else { 0 },
        None => 0,
    }
}

} // verus!
