//! Swatch images: a colored rectangle with an optional border, label,
//! gradient, drop shadow, plastic gloss and per-side borders, as SVG text.
//!
//! Two parts of a swatch come from outside: the opacity, written as the
//! floating-point number it is, and the drawn icon.

use vstd::prelude::*;
use crate::svg::metrics_for;
use crate::primitive::Primitive;
use crate::registry::clone_opt_string;
use crate::text::{
    chars_of, string_of, push_str_chars, push_all, usize_to_chars, decimal, split_on, split_chars, parse_unsigned,
    parse_unsigned_chars, all_digits, digits_value, replace_all, replace_chars, slice_chars,
};

verus! {

/// What a swatch image shows.
#[derive(Debug)]
pub struct SwatchOptions {
    pub color: String,
    pub style: String,
    /// The fill opacity as written into the image, given only when it is
    /// below 1.
    pub opacity: Option<String>,
    pub width: Option<u32>,
    pub height: Option<u32>,
    pub border_color: Option<String>,
    pub border_width: Option<u32>,
    pub label: Option<String>,
    pub label_color: Option<String>,
    pub icon: Option<String>,
    pub icon_color: Option<String>,
    pub rx: Option<u32>,
    pub ry: Option<u32>,
    /// Drop shadow `color/blur/offset_x/offset_y`.
    pub shadow: Option<String>,
    /// Gradient `direction/color1/color2`.
    pub gradient: Option<String>,
    /// Dash pattern `dash/gap`.
    pub stroke_dash: Option<String>,
    /// Per-side borders, `color/width` or just `color`.
    pub border_top: Option<String>,
    pub border_right: Option<String>,
    pub border_bottom: Option<String>,
    pub border_left: Option<String>,
}

/// A whole number in decimal, with '-' in front when negative.
pub open spec fn signed_decimal(v: int) -> Seq<char> {
    if v < 0 {
        seq!['-'] + decimal((-v) as nat)
    } else {
        decimal(v as nat)
    }
}

/// What `str::parse::<i32>()` gives: an optional sign, then at least one
/// ASCII digit, with a value within the `i32` range.
pub open spec fn parse_i32(s: Seq<char>) -> Option<int> {
    if s.len() > 0 && s[0] == '-' {
        let d = s.skip(1);
        if d.len() == 0 || !all_digits(d) || digits_value(d) > 0x8000_0000 {
            None
        } else {
            Some(-(digits_value(d) as int))
        }
    } else {
        match parse_unsigned(s, 0x7fff_ffff) {
            Some(v) => Some(v as int),
            None => None,
        }
    }
}

/// A drop shadow `color/blur/offset_x/offset_y`: the color, a `u32` blur
/// and `i32` offsets; `None` with fewer than four parts or a number that
/// does not parse.
pub open spec fn shadow_of(s: Seq<char>) -> Option<(Seq<char>, nat, int, int)> {
    let ps = split_on(s, '/');
    if ps.len() >= 4 {
        match (parse_unsigned(ps[1], u32::MAX as nat), parse_i32(ps[2]), parse_i32(ps[3])) {
            (Some(b), Some(x), Some(y)) => Some((ps[0], b, x, y)),
            _ => None,
        }
    } else {
        None
    }
}

/// A gradient `direction/color1/color2`; `None` with fewer than three parts.
pub open spec fn gradient_of(s: Seq<char>) -> Option<(Seq<char>, Seq<char>, Seq<char>)> {
    let ps = split_on(s, '/');
    if ps.len() >= 3 {
        Some((ps[0], ps[1], ps[2]))
    } else {
        None
    }
}

/// A per-side border `color/width` or `color`: the color and the width
/// (2 when it does not parse or is not given); black, 2 wide, with more
/// parts.
pub open spec fn border_spec_of(s: Seq<char>) -> (Seq<char>, nat) {
    let ps = split_on(s, '/');
    if ps.len() == 2 {
        (ps[0], match parse_unsigned(ps[1], u32::MAX as nat) {
            Some(w) => w,
            None => 2,
        })
    } else if ps.len() == 1 {
        (ps[0], 2)
    } else {
        ("000000"@, 2)
    }
}

/// The shadow of the options, when given and well formed.
pub open spec fn shadow_config(o: SwatchOptions) -> Option<(Seq<char>, nat, int, int)> {
    match o.shadow {
        Some(s) => shadow_of(s@),
        None => None,
    }
}

/// The gradient of the options, when given and well formed.
pub open spec fn gradient_config(o: SwatchOptions) -> Option<(Seq<char>, Seq<char>, Seq<char>)> {
    match o.gradient {
        Some(g) => gradient_of(g@),
        None => None,
    }
}

/// The dash attribute: the pattern with '/' written as ','.
pub open spec fn dash_attr(o: SwatchOptions) -> Seq<char> {
    match o.stroke_dash {
        Some(d) => " stroke-dasharray=\""@ + replace_all(d@, "/"@, ","@) + "\""@,
        None => Seq::empty(),
    }
}

/// The border attributes and the border's width: the given width when
/// positive, 1 when only a color is given, none without a color.
pub open spec fn border_part(o: SwatchOptions) -> (Seq<char>, nat) {
    match (o.border_color, o.border_width) {
        (Some(bc), Some(bw)) => if bw > 0 {
            (" stroke=\"#"@ + bc@ + "\" stroke-width=\""@ + decimal(bw as nat) + "\""@ + dash_attr(o), bw as nat)
        } else {
            (Seq::empty(), 0)
        },
        (Some(bc), None) => (" stroke=\"#"@ + bc@ + "\" stroke-width=\"1\""@ + dash_attr(o), 1),
        _ => (Seq::empty(), 0),
    }
}

/// Width, height, corner radii, border width and shadow padding.
pub open spec fn geometry(o: SwatchOptions) -> (nat, nat, nat, nat, nat, nat) {
    let m = metrics_for(o.style@);
    let w = match o.width {
        Some(w) => w as nat,
        None => 20,
    };
    let h = match o.height {
        Some(h) => h as nat,
        None => m.0 as nat,
    };
    let rx = match o.rx {
        Some(r) => r as nat,
        None => m.1 as nat,
    };
    let ry = match o.ry {
        Some(r) => r as nat,
        None => rx,
    };
    let sp: nat = if shadow_config(o) is Some { 20 } else { 0 };
    (w, h, rx, ry, border_part(o).1, sp)
}

/// The image size fits in `u32`.
pub open spec fn swatch_fits(o: SwatchOptions) -> bool {
    let g = geometry(o);
    &&& g.0 + 2 * g.4 + g.5 <= u32::MAX
    &&& g.1 + 2 * g.4 + g.5 <= u32::MAX
}

/// The label, centered, 14 high on swatches over 24 tall, else 10.
pub open spec fn label_elem(o: SwatchOptions) -> Seq<char> {
    let g = geometry(o);
    match o.label {
        Some(text) => {
            let fs: nat = if g.1 > 24 { 14 } else { 10 };
            let y = g.1 / 2 + fs / 3 + g.4 + g.5 / 2;
            let x = g.0 / 2 + g.4 + g.5 / 2;
            let fill = match o.label_color {
                Some(c) => c@,
                None => "white"@,
            };
            "\n  <text x=\""@ + decimal(x) + "\" y=\""@ + decimal(y) + "\" text-anchor=\"middle\" fill=\""@ + fill
                + "\" font-family=\"Arial, sans-serif\" font-size=\""@ + decimal(fs) + "\" font-weight=\"bold\">"@ + text@
                + "</text>"@
        },
        None => Seq::empty(),
    }
}

/// The shadow filter definition.
pub open spec fn shadow_defs(sh: (Seq<char>, nat, int, int)) -> Seq<char> {
    "    <filter id=\"shadow\" x=\"-50%\" y=\"-50%\" width=\"200%\" height=\"200%\">\n<feDropShadow dx=\""@
        + signed_decimal(sh.2) + "\" dy=\""@ + signed_decimal(sh.3) + "\" stdDeviation=\""@ + decimal(sh.1)
        + "\" flood-color=\"#"@ + sh.0 + "\" flood-opacity=\"0.8\"/>\n</filter>\n"@
}

/// The end points of a gradient direction: vertical, diagonal, else
/// horizontal.
pub open spec fn gradient_axis(direction: Seq<char>) -> Seq<char> {
    if direction == "vertical"@ {
        "x1=\"0%\" y1=\"0%\" x2=\"0%\" y2=\"100%\""@
    } else if direction == "diagonal"@ {
        "x1=\"0%\" y1=\"0%\" x2=\"100%\" y2=\"100%\""@
    } else {
        "x1=\"0%\" y1=\"0%\" x2=\"100%\" y2=\"0%\""@
    }
}

/// The gradient definition.
pub open spec fn gradient_defs(g: (Seq<char>, Seq<char>, Seq<char>)) -> Seq<char> {
    "    <linearGradient id=\"grad\" "@ + gradient_axis(g.0) + ">\n<stop offset=\"0%\" style=\"stop-color:#"@ + g.1
        + ";stop-opacity:1\" />\n<stop offset=\"100%\" style=\"stop-color:#"@ + g.2 + ";stop-opacity:1\" />\n</linearGradient>\n"@
}

/// The plastic gloss gradient definition.
pub open spec fn shine_defs() -> Seq<char> {
    "    <linearGradient id=\"shine\" x1=\"0%\" y1=\"0%\" x2=\"0%\" y2=\"100%\">\n<stop offset=\"0%\" style=\"stop-color:#ffffff;stop-opacity:0.2\" />\n<stop offset=\"100%\" style=\"stop-color:#000000;stop-opacity:0.1\" />\n</linearGradient>\n"@
}

/// The definitions: shadow filter, gradient, gloss, in that order.
pub open spec fn defs_content(o: SwatchOptions) -> Seq<char> {
    (match shadow_config(o) {
        Some(sh) => shadow_defs(sh),
        None => Seq::empty(),
    }) + (match gradient_config(o) {
        Some(g) => gradient_defs(g),
        None => Seq::empty(),
    }) + (if metrics_for(o.style@).2 { shine_defs() } else { Seq::empty() })
}

/// The `<defs>` section, when there is anything to define.
pub open spec fn defs_section(o: SwatchOptions) -> Seq<char> {
    if defs_content(o).len() > 0 {
        "  <defs>\n"@ + defs_content(o) + "\n  </defs>\n"@
    } else {
        Seq::empty()
    }
}

/// One border line from (x1, y1) to (x2, y2).
pub open spec fn side_line(x1: nat, y1: nat, x2: nat, y2: nat, spec: Seq<char>) -> Seq<char> {
    let b = border_spec_of(spec);
    "\n  <line x1=\""@ + decimal(x1) + "\" y1=\""@ + decimal(y1) + "\" x2=\""@ + decimal(x2) + "\" y2=\""@ + decimal(y2)
        + "\" stroke=\"#"@ + b.0 + "\" stroke-width=\""@ + decimal(b.1) + "\" stroke-linecap=\"square\"/>"@
}

/// A side's line when that side has a border.
pub open spec fn side_if(side: Option<String>, x1: nat, y1: nat, x2: nat, y2: nat) -> Seq<char> {
    match side {
        Some(s) => side_line(x1, y1, x2, y2, s@),
        None => Seq::empty(),
    }
}

/// The per-side border lines: top, right, bottom, left.
pub open spec fn side_lines(o: SwatchOptions) -> Seq<char> {
    let g = geometry(o);
    let x = g.4 + g.5 / 2;
    let y = g.4 + g.5 / 2;
    side_if(o.border_top, x, y, x + g.0, y) + side_if(o.border_right, x + g.0, y, x + g.0, y + g.1)
        + side_if(o.border_bottom, x + g.0, y + g.1, x, y + g.1) + side_if(o.border_left, x, y + g.1, x, y)
}

/// The gloss overlay of the plastic style.
pub open spec fn shine_overlay(o: SwatchOptions) -> Seq<char> {
    let g = geometry(o);
    if metrics_for(o.style@).2 {
        "\n  <rect x=\""@ + decimal(g.4 + g.5 / 2) + "\" y=\""@ + decimal(g.4 + g.5 / 2) + "\" width=\""@ + decimal(g.0)
            + "\" height=\""@ + decimal(g.1) + "\" fill=\"url(#shine)\" rx=\""@ + decimal(g.2) + "\" ry=\""@ + decimal(g.3)
            + "\"/>"@
    } else {
        Seq::empty()
    }
}

/// The rectangle's fill: the gradient when there is one, else the color.
pub open spec fn fill_attr(o: SwatchOptions) -> Seq<char> {
    if gradient_config(o) is Some {
        "url(#grad)"@
    } else {
        "#"@ + o.color@
    }
}

/// The rectangle's extra attributes: opacity, border, shadow filter.
pub open spec fn rect_extras(o: SwatchOptions) -> Seq<char> {
    (match o.opacity {
        Some(t) => " fill-opacity=\""@ + t@ + "\""@,
        None => Seq::empty(),
    }) + border_part(o).0 + (if shadow_config(o) is Some { " filter=\"url(#shadow)\""@ } else { Seq::empty() })
}

/// The `<svg>` opening tag, sized to hold the border and the shadow.
pub open spec fn svg_open(o: SwatchOptions) -> Seq<char> {
    let g = geometry(o);
    let vw = g.0 + 2 * g.4 + g.5;
    let vh = g.1 + 2 * g.4 + g.5;
    "<svg xmlns=\"http://www.w3.org/2000/svg\" width=\""@ + decimal(vw) + "\" height=\""@ + decimal(vh)
        + "\" viewBox=\"0 0 "@ + decimal(vw) + " "@ + decimal(vh) + "\">\n"@
}

/// The colored rectangle, inset by the border and half the shadow padding.
pub open spec fn rect_elem(o: SwatchOptions) -> Seq<char> {
    let g = geometry(o);
    let x = g.4 + g.5 / 2;
    "  <rect x=\""@ + decimal(x) + "\" y=\""@ + decimal(x) + "\" width=\""@ + decimal(g.0) + "\" height=\""@ + decimal(g.1)
        + "\" fill=\""@ + fill_attr(o) + "\" rx=\""@ + decimal(g.2) + "\" ry=\""@ + decimal(g.3) + "\""@ + rect_extras(o)
        + "/>"@
}

/// The swatch image, with `icon` (the drawn icon element) after the gloss.
pub open spec fn swatch_svg(o: SwatchOptions, icon: Seq<char>) -> Seq<char> {
    svg_open(o) + defs_section(o) + rect_elem(o) + side_lines(o) + shine_overlay(o) + icon + label_elem(o) + "\n</svg>"@
}


/// Appends a number in decimal.
fn push_dec(v: &mut Vec<char>, n: u64)
    requires
        n <= u32::MAX,
    ensures
        final(v)@ == old(v)@ + decimal(n as nat),
{
    let d = usize_to_chars(n as usize);
    push_all(v, d.as_slice());
}

/// Appends a signed number in decimal.
fn push_signed(v: &mut Vec<char>, n: i32)
    ensures
        final(v)@ == old(v)@ + signed_decimal(n as int),
{
    if n < 0 {
        v.push('-');
        let m: i64 = 0i64 - (n as i64);
        let d = usize_to_chars(m as usize);
        push_all(v, d.as_slice());
        assert(final(v)@ =~= old(v)@ + (seq!['-'] + decimal((-(n as int)) as nat)));
    } else {
        let d = usize_to_chars(n as usize);
        push_all(v, d.as_slice());
    }
}

/// Parses an `i32` as `str::parse` does.
pub fn parse_i32_chars(s: &[char]) -> (r: Option<i32>)
    ensures
        match parse_i32(s@) {
            Some(v) => r matches Some(x) && x as int == v,
            None => r is None,
        },
{
    if s.len() > 0 && s[0] == '-' {
        let d = slice_chars(s, 1, s.len());
        assert(d@ =~= s@.skip(1));
        if d.len() == 0 {
            return None;
        }
        if d[0] == '+' {
            assert(!crate::text::ascii_digit(d@[0]));
            return None;
        }
        assert(crate::text::unsigned_body(d@) == d@);
        match parse_unsigned_chars(d.as_slice(), 0x8000_0000) {
            Some(v) => {
                let m: i64 = 0i64 - (v as i64);
                Some(m as i32)
            },
            None => None,
        }
    } else {
        match parse_unsigned_chars(s, 0x7fff_ffff) {
            Some(v) => Some(v as i32),
            None => None,
        }
    }
}

/// Reads a drop shadow `color/blur/offset_x/offset_y`.
fn parse_shadow(s: &str) -> (r: Option<(String, u32, i32, i32)>)
    ensures
        match shadow_of(s@) {
            Some((c, b, x, y)) => r matches Some((rc, rb, rx, ry)) && rc@ == c && rb as nat == b && rx as int == x
                && ry as int == y,
            None => r is None,
        },
{
    let v = chars_of(s);
    let ps = split_chars(v.as_slice(), '/');
    if ps.len() >= 4 {
        let b = parse_unsigned_chars(ps[1].as_slice(), 0xffff_ffff);
        let x = parse_i32_chars(ps[2].as_slice());
        let y = parse_i32_chars(ps[3].as_slice());
        match (b, x, y) {
            (Some(b), Some(x), Some(y)) => Some((string_of(ps[0].as_slice()), b as u32, x, y)),
            _ => None,
        }
    } else {
        None
    }
}

/// Reads a gradient `direction/color1/color2`.
fn parse_gradient(s: &str) -> (r: Option<(String, String, String)>)
    ensures
        match gradient_of(s@) {
            Some((d, a, b)) => r matches Some((rd, ra, rb)) && rd@ == d && ra@ == a && rb@ == b,
            None => r is None,
        },
{
    let v = chars_of(s);
    let ps = split_chars(v.as_slice(), '/');
    if ps.len() >= 3 {
        Some((string_of(ps[0].as_slice()), string_of(ps[1].as_slice()), string_of(ps[2].as_slice())))
    } else {
        None
    }
}

/// Reads a per-side border `color/width` or `color`.
fn parse_border_spec(s: &str) -> (r: (String, u32))
    ensures
        r.0@ == border_spec_of(s@).0,
        r.1 as nat == border_spec_of(s@).1,
{
    let v = chars_of(s);
    let ps = split_chars(v.as_slice(), '/');
    if ps.len() == 2 {
        let w = match parse_unsigned_chars(ps[1].as_slice(), 0xffff_ffff) {
            Some(w) => w as u32,
            None => 2,
        };
        (string_of(ps[0].as_slice()), w)
    } else if ps.len() == 1 {
        (string_of(ps[0].as_slice()), 2)
    } else {
        proof {
            reveal_strlit("000000");
        }
        ("000000".to_owned(), 2)
    }
}

/// The shadow of the options.
fn shadow_config_exec(o: &SwatchOptions) -> (r: Option<(String, u32, i32, i32)>)
    ensures
        match shadow_config(*o) {
            Some((c, b, x, y)) => r matches Some((rc, rb, rx, ry)) && rc@ == c && rb as nat == b && rx as int == x
                && ry as int == y,
            None => r is None,
        },
{
    match &o.shadow {
        Some(s) => parse_shadow(s.as_str()),
        None => None,
    }
}

/// The gradient of the options.
fn gradient_config_exec(o: &SwatchOptions) -> (r: Option<(String, String, String)>)
    ensures
        match gradient_config(*o) {
            Some((d, a, b)) => r matches Some((rd, ra, rb)) && rd@ == d && ra@ == a && rb@ == b,
            None => r is None,
        },
{
    match &o.gradient {
        Some(g) => parse_gradient(g.as_str()),
        None => None,
    }
}

/// The dash attribute.
fn dash_attr_exec(o: &SwatchOptions) -> (r: Vec<char>)
    ensures
        r@ == dash_attr(*o),
{
    match &o.stroke_dash {
        Some(d) => {
            proof {
                reveal_strlit("/");
            }
            let mut v = chars_of(" stroke-dasharray=\"");
            let dv = chars_of(d.as_str());
            let sl = chars_of("/");
            let cm = chars_of(",");
            let rep = replace_chars(dv.as_slice(), sl.as_slice(), cm.as_slice());
            push_all(&mut v, rep.as_slice());
            push_str_chars(&mut v, "\"");
            v
        },
        None => Vec::new(),
    }
}

/// The border attributes and width.
fn border_part_exec(o: &SwatchOptions) -> (r: (Vec<char>, u32))
    ensures
        r.0@ == border_part(*o).0,
        r.1 as nat == border_part(*o).1,
{
    match (&o.border_color, o.border_width) {
        (Some(bc), Some(bw)) => {
            if bw > 0 {
                let mut v = chars_of(" stroke=\"#");
                push_str_chars(&mut v, bc.as_str());
                push_str_chars(&mut v, "\" stroke-width=\"");
                push_dec(&mut v, bw as u64);
                push_str_chars(&mut v, "\"");
                let d = dash_attr_exec(o);
                push_all(&mut v, d.as_slice());
                (v, bw)
            } else {
                (Vec::new(), 0)
            }
        },
        (Some(bc), None) => {
            let mut v = chars_of(" stroke=\"#");
            push_str_chars(&mut v, bc.as_str());
            push_str_chars(&mut v, "\" stroke-width=\"1\"");
            let d = dash_attr_exec(o);
            push_all(&mut v, d.as_slice());
            (v, 1)
        },
        _ => (Vec::new(), 0),
    }
}

/// Width, height, corner radii, border width and shadow padding.
fn geometry_exec(o: &SwatchOptions) -> (r: (u64, u64, u64, u64, u64, u64))
    ensures
        (r.0 as nat, r.1 as nat, r.2 as nat, r.3 as nat, r.4 as nat, r.5 as nat) == geometry(*o),
        r.0 <= u32::MAX && r.1 <= u32::MAX && r.2 <= u32::MAX && r.3 <= u32::MAX && r.4 <= u32::MAX && r.5 <= 20,
{
    let m = crate::svg::SvgMetrics::from_style(o.style.as_str());
    let w: u64 = match o.width {
        Some(w) => w as u64,
        None => 20,
    };
    let h: u64 = match o.height {
        Some(h) => h as u64,
        None => m.height as u64,
    };
    let rx: u64 = match o.rx {
        Some(r) => r as u64,
        None => m.rx as u64,
    };
    let ry: u64 = match o.ry {
        Some(r) => r as u64,
        None => rx,
    };
    let (_, bo) = border_part_exec(o);
    let sp: u64 = if shadow_config_exec(o).is_some() { 20 } else { 0 };
    (w, h, rx, ry, bo as u64, sp)
}

/// The label element.
fn label_elem_exec(o: &SwatchOptions, g: (u64, u64, u64, u64, u64, u64)) -> (r: Vec<char>)
    requires
        (g.0 as nat, g.1 as nat, g.2 as nat, g.3 as nat, g.4 as nat, g.5 as nat) == geometry(*o),
        g.5 <= 20,
        swatch_fits(*o),
    ensures
        r@ == label_elem(*o),
{
    match &o.label {
        Some(text) => {
            let fs: u64 = if g.1 > 24 { 14 } else { 10 };
            let y = g.1 / 2 + fs / 3 + g.4 + g.5 / 2;
            let x = g.0 / 2 + g.4 + g.5 / 2;
            let mut v = chars_of("\n  <text x=\"");
            push_dec(&mut v, x);
            push_str_chars(&mut v, "\" y=\"");
            push_dec(&mut v, y);
            push_str_chars(&mut v, "\" text-anchor=\"middle\" fill=\"");
            match &o.label_color {
                Some(c) => push_str_chars(&mut v, c.as_str()),
                None => push_str_chars(&mut v, "white"),
            }
            push_str_chars(&mut v, "\" font-family=\"Arial, sans-serif\" font-size=\"");
            push_dec(&mut v, fs);
            push_str_chars(&mut v, "\" font-weight=\"bold\">");
            push_str_chars(&mut v, text.as_str());
            push_str_chars(&mut v, "</text>");
            v
        },
        None => Vec::new(),
    }
}

/// The definitions section.
fn defs_section_exec(o: &SwatchOptions) -> (r: Vec<char>)
    ensures
        r@ == defs_section(*o),
{
    let mut d: Vec<char> = Vec::new();
    match shadow_config_exec(o) {
        Some((color, blur, ox, oy)) => {
            push_str_chars(&mut d, "    <filter id=\"shadow\" x=\"-50%\" y=\"-50%\" width=\"200%\" height=\"200%\">\n<feDropShadow dx=\"");
            push_signed(&mut d, ox);
            push_str_chars(&mut d, "\" dy=\"");
            push_signed(&mut d, oy);
            push_str_chars(&mut d, "\" stdDeviation=\"");
            push_dec(&mut d, blur as u64);
            push_str_chars(&mut d, "\" flood-color=\"#");
            push_str_chars(&mut d, color.as_str());
            push_str_chars(&mut d, "\" flood-opacity=\"0.8\"/>\n</filter>\n");
        },
        None => {},
    }
    match gradient_config_exec(o) {
        Some((direction, c1, c2)) => {
            push_str_chars(&mut d, "    <linearGradient id=\"grad\" ");
            if crate::namemap::str_eq(direction.as_str(), "vertical") {
                push_str_chars(&mut d, "x1=\"0%\" y1=\"0%\" x2=\"0%\" y2=\"100%\"");
            } else if crate::namemap::str_eq(direction.as_str(), "diagonal") {
                push_str_chars(&mut d, "x1=\"0%\" y1=\"0%\" x2=\"100%\" y2=\"100%\"");
            } else {
                push_str_chars(&mut d, "x1=\"0%\" y1=\"0%\" x2=\"100%\" y2=\"0%\"");
            }
            push_str_chars(&mut d, ">\n<stop offset=\"0%\" style=\"stop-color:#");
            push_str_chars(&mut d, c1.as_str());
            push_str_chars(&mut d, ";stop-opacity:1\" />\n<stop offset=\"100%\" style=\"stop-color:#");
            push_str_chars(&mut d, c2.as_str());
            push_str_chars(&mut d, ";stop-opacity:1\" />\n</linearGradient>\n");
        },
        None => {},
    }
    let m = crate::svg::SvgMetrics::from_style(o.style.as_str());
    if m.plastic {
        push_str_chars(&mut d, "    <linearGradient id=\"shine\" x1=\"0%\" y1=\"0%\" x2=\"0%\" y2=\"100%\">\n<stop offset=\"0%\" style=\"stop-color:#ffffff;stop-opacity:0.2\" />\n<stop offset=\"100%\" style=\"stop-color:#000000;stop-opacity:0.1\" />\n</linearGradient>\n");
    }
    proof {
        assert(d@ =~= defs_content(*o));
    }
    if d.len() > 0 {
        let mut v = chars_of("  <defs>\n");
        push_all(&mut v, d.as_slice());
        push_str_chars(&mut v, "\n  </defs>\n");
        v
    } else {
        Vec::new()
    }
}

/// One per-side border line, when that side has a border.
fn side_exec(v: &mut Vec<char>, side: &Option<String>, x1: u64, y1: u64, x2: u64, y2: u64)
    requires
        x1 <= u32::MAX && y1 <= u32::MAX && x2 <= u32::MAX && y2 <= u32::MAX,
    ensures
        final(v)@ == old(v)@ + side_if(*side, x1 as nat, y1 as nat, x2 as nat, y2 as nat),
{
    match side {
        Some(spec) => {
            let (color, bw) = parse_border_spec(spec.as_str());
            push_str_chars(v, "\n  <line x1=\"");
            push_dec(v, x1);
            push_str_chars(v, "\" y1=\"");
            push_dec(v, y1);
            push_str_chars(v, "\" x2=\"");
            push_dec(v, x2);
            push_str_chars(v, "\" y2=\"");
            push_dec(v, y2);
            push_str_chars(v, "\" stroke=\"#");
            push_str_chars(v, color.as_str());
            push_str_chars(v, "\" stroke-width=\"");
            push_dec(v, bw as u64);
            push_str_chars(v, "\" stroke-linecap=\"square\"/>");
            proof {
                assert(final(v)@ =~= old(v)@ + side_line(x1 as nat, y1 as nat, x2 as nat, y2 as nat, spec@));
            }
        },
        None => {
            assert(final(v)@ =~= old(v)@ + Seq::<char>::empty());
        },
    }
}

/// The per-side border lines.
fn side_lines_exec(o: &SwatchOptions, g: (u64, u64, u64, u64, u64, u64)) -> (r: Vec<char>)
    requires
        (g.0 as nat, g.1 as nat, g.2 as nat, g.3 as nat, g.4 as nat, g.5 as nat) == geometry(*o),
        g.5 <= 20,
        swatch_fits(*o),
    ensures
        r@ == side_lines(*o),
{
    let x = g.4 + g.5 / 2;
    let y = g.4 + g.5 / 2;
    let mut v: Vec<char> = Vec::new();
    side_exec(&mut v, &o.border_top, x, y, x + g.0, y);
    side_exec(&mut v, &o.border_right, x + g.0, y, x + g.0, y + g.1);
    side_exec(&mut v, &o.border_bottom, x + g.0, y + g.1, x, y + g.1);
    side_exec(&mut v, &o.border_left, x, y + g.1, x, y);
    proof {
        assert(v@ =~= side_lines(*o));
    }
    v
}

/// The gloss overlay.
fn shine_overlay_exec(o: &SwatchOptions, g: (u64, u64, u64, u64, u64, u64)) -> (r: Vec<char>)
    requires
        (g.0 as nat, g.1 as nat, g.2 as nat, g.3 as nat, g.4 as nat, g.5 as nat) == geometry(*o),
        g.2 <= u32::MAX && g.3 <= u32::MAX && g.5 <= 20,
        swatch_fits(*o),
    ensures
        r@ == shine_overlay(*o),
{
    let m = crate::svg::SvgMetrics::from_style(o.style.as_str());
    if m.plastic {
        let x = g.4 + g.5 / 2;
        let mut v = chars_of("\n  <rect x=\"");
        push_dec(&mut v, x);
        push_str_chars(&mut v, "\" y=\"");
        push_dec(&mut v, x);
        push_str_chars(&mut v, "\" width=\"");
        push_dec(&mut v, g.0);
        push_str_chars(&mut v, "\" height=\"");
        push_dec(&mut v, g.1);
        push_str_chars(&mut v, "\" fill=\"url(#shine)\" rx=\"");
        push_dec(&mut v, g.2);
        push_str_chars(&mut v, "\" ry=\"");
        push_dec(&mut v, g.3);
        push_str_chars(&mut v, "\"/>");
        v
    } else {
        Vec::new()
    }
}

/// The rectangle's extra attributes.
fn rect_extras_exec(o: &SwatchOptions) -> (r: Vec<char>)
    ensures
        r@ == rect_extras(*o),
{
    let mut v: Vec<char> = Vec::new();
    match &o.opacity {
        Some(t) => {
            push_str_chars(&mut v, " fill-opacity=\"");
            push_str_chars(&mut v, t.as_str());
            push_str_chars(&mut v, "\"");
        },
        None => {},
    }
    let (b, _) = border_part_exec(o);
    push_all(&mut v, b.as_slice());
    if shadow_config_exec(o).is_some() {
        push_str_chars(&mut v, " filter=\"url(#shadow)\"");
    }
    proof {
        assert(v@ =~= rect_extras(*o));
    }
    v
}
/// The `<svg>` opening tag.
fn svg_open_exec(o: &SwatchOptions, g: (u64, u64, u64, u64, u64, u64)) -> (r: Vec<char>)
    requires
        (g.0 as nat, g.1 as nat, g.2 as nat, g.3 as nat, g.4 as nat, g.5 as nat) == geometry(*o),
        swatch_fits(*o),
    ensures
        r@ == svg_open(*o),
{
    let vw = g.0 + 2 * g.4 + g.5;
    let vh = g.1 + 2 * g.4 + g.5;
    let mut v = chars_of("<svg xmlns=\"http://www.w3.org/2000/svg\" width=\"");
    push_dec(&mut v, vw);
    push_str_chars(&mut v, "\" height=\"");
    push_dec(&mut v, vh);
    push_str_chars(&mut v, "\" viewBox=\"0 0 ");
    push_dec(&mut v, vw);
    push_str_chars(&mut v, " ");
    push_dec(&mut v, vh);
    push_str_chars(&mut v, "\">\n");
    v
}

/// The colored rectangle.
fn rect_elem_exec(o: &SwatchOptions, g: (u64, u64, u64, u64, u64, u64)) -> (r: Vec<char>)
    requires
        (g.0 as nat, g.1 as nat, g.2 as nat, g.3 as nat, g.4 as nat, g.5 as nat) == geometry(*o),
        g.2 <= u32::MAX && g.3 <= u32::MAX && g.5 <= 20,
        swatch_fits(*o),
    ensures
        r@ == rect_elem(*o),
{
    let x = g.4 + g.5 / 2;
    let mut v = chars_of("  <rect x=\"");
    push_dec(&mut v, x);
    push_str_chars(&mut v, "\" y=\"");
    push_dec(&mut v, x);
    push_str_chars(&mut v, "\" width=\"");
    push_dec(&mut v, g.0);
    push_str_chars(&mut v, "\" height=\"");
    push_dec(&mut v, g.1);
    push_str_chars(&mut v, "\" fill=\"");
    let ghost before_fill = v@;
    if gradient_config_exec(o).is_some() {
        push_str_chars(&mut v, "url(#grad)");
    } else {
        push_str_chars(&mut v, "#");
        push_str_chars(&mut v, o.color.as_str());
    }
    assert(v@ =~= before_fill + fill_attr(*o));
    push_str_chars(&mut v, "\" rx=\"");
    push_dec(&mut v, g.2);
    push_str_chars(&mut v, "\" ry=\"");
    push_dec(&mut v, g.3);
    push_str_chars(&mut v, "\"");
    let extras = rect_extras_exec(o);
    push_all(&mut v, extras.as_slice());
    push_str_chars(&mut v, "/>");
    v
}

/// Renders a swatch as SVG, with `icon` (the drawn icon element, empty
/// when there is none) placed after the gloss.
pub fn render(opts: &SwatchOptions, icon: &str) -> (r: String)
    requires
        swatch_fits(*opts),
    ensures
        r@ == swatch_svg(*opts, icon@),
{
    let g = geometry_exec(opts);
    let mut v = svg_open_exec(opts, g);
    let defs = defs_section_exec(opts);
    push_all(&mut v, defs.as_slice());
    let rect = rect_elem_exec(opts, g);
    push_all(&mut v, rect.as_slice());
    let sides = side_lines_exec(opts, g);
    push_all(&mut v, sides.as_slice());
    let shine = shine_overlay_exec(opts, g);
    push_all(&mut v, shine.as_slice());
    push_str_chars(&mut v, icon);
    let label = label_elem_exec(opts, g);
    push_all(&mut v, label.as_slice());
    push_str_chars(&mut v, "\n</svg>");
    string_of(v.as_slice())
}



/// Whether the image size fits in `u32` (the condition `render` needs).
pub fn fits(opts: &SwatchOptions) -> (b: bool)
    ensures
        b == swatch_fits(*opts),
{
    let g = geometry_exec(opts);
    g.0 + 2 * g.4 + g.5 <= 0xffff_ffff && g.1 + 2 * g.4 + g.5 <= 0xffff_ffff
}


/// The text views of optional strings.
pub open spec fn opt_view(o: Option<String>) -> Option<Seq<char>> {
    match o {
        Some(s) => Some(s@),
        None => None,
    }
}

/// `o` carries the fields of the swatch primitive `p`, with `opacity` as
/// its opacity text.
pub open spec fn options_match(o: SwatchOptions, p: Primitive, opacity: Option<Seq<char>>) -> bool {
    match p {
        Primitive::Swatch { color, style, width, height, border_color, border_width, label, label_color, icon,
            icon_color, rx, ry, shadow, gradient, stroke_dash, border_top, border_right, border_bottom, border_left, .. } => {
            &&& o.color@ == color@ && o.style@ == style@ && opt_view(o.opacity) == opacity
            &&& o.width == width && o.height == height && o.border_width == border_width && o.rx == rx && o.ry == ry
            &&& opt_view(o.border_color) == opt_view(border_color) && opt_view(o.label) == opt_view(label)
            &&& opt_view(o.label_color) == opt_view(label_color) && opt_view(o.icon) == opt_view(icon)
            &&& opt_view(o.icon_color) == opt_view(icon_color) && opt_view(o.shadow) == opt_view(shadow)
            &&& opt_view(o.gradient) == opt_view(gradient) && opt_view(o.stroke_dash) == opt_view(stroke_dash)
            &&& opt_view(o.border_top) == opt_view(border_top) && opt_view(o.border_right) == opt_view(border_right)
            &&& opt_view(o.border_bottom) == opt_view(border_bottom) && opt_view(o.border_left) == opt_view(border_left)
        },
        _ => false,
    }
}

/// The options of a swatch primitive, `opacity` being its opacity as
/// written into the image (given only when below 1); `None` for other
/// primitives.
pub fn options_of(p: &Primitive, opacity: Option<String>) -> (r: Option<SwatchOptions>)
    ensures
        p is Swatch ==> (r matches Some(o) && options_match(o, *p, opt_view(opacity))),
        !(p is Swatch) ==> r is None,
{
    match p {
        Primitive::Swatch { color, style, width, height, border_color, border_width, label, label_color, icon,
            icon_color, rx, ry, shadow, gradient, stroke_dash, border_top, border_right, border_bottom, border_left, .. } => {
            Some(SwatchOptions {
                color: color.clone(),
                style: style.clone(),
                opacity,
                width: *width,
                height: *height,
                border_color: clone_opt_string(border_color),
                border_width: *border_width,
                label: clone_opt_string(label),
                label_color: clone_opt_string(label_color),
                icon: clone_opt_string(icon),
                icon_color: clone_opt_string(icon_color),
                rx: *rx,
                ry: *ry,
                shadow: clone_opt_string(shadow),
                gradient: clone_opt_string(gradient),
                stroke_dash: clone_opt_string(stroke_dash),
                border_top: clone_opt_string(border_top),
                border_right: clone_opt_string(border_right),
                border_bottom: clone_opt_string(border_bottom),
                border_left: clone_opt_string(border_left),
            })
        },
        _ => None,
    }
}

} // verus!
