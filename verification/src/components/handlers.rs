//! Native component handlers: parameter reading and the expansion of each
//! native component into a primitive or a delayed template.

use vstd::prelude::*;
use crate::error::{Error, Result};
use crate::namemap::NameMap;
use crate::primitive::Primitive;
use crate::components::{ComponentsRenderer, ComponentOutput, PostProcess, param};
use crate::numeric::{float_text, is_float_text, numeric_fields, parse_number_list, string_views};
use crate::text::{split_on, chars_of, string_of, push_str_chars, push_all, slice_chars, parse_unsigned, parse_unsigned_chars};

verus! {

/// The view of an optional string.
pub open spec fn opt_str(o: Option<String>) -> Option<Seq<char>> {
    match o {
        Some(s) => Some(s@),
        None => None,
    }
}

/// A `u32` parameter: its value when it parses, else `default`.
pub open spec fn u32_param(p: NameMap<String>, k: Seq<char>, default: u32) -> u32 {
    match param(p, k) {
        Some(v) => match parse_unsigned(v, u32::MAX as nat) {
            Some(n) => n as u32,
            None => default,
        },
        None => default,
    }
}

/// An optional `u32` parameter: its value when given and it parses.
pub open spec fn u32_param_opt(p: NameMap<String>, k: Seq<char>) -> Option<u32> {
    match param(p, k) {
        Some(v) => match parse_unsigned(v, u32::MAX as nat) {
            Some(n) => Some(n as u32),
            None => None,
        },
        None => None,
    }
}

/// A boolean parameter: true for "true" or "1", false for anything else
/// given, `default` when absent.
pub open spec fn bool_param(p: NameMap<String>, k: Seq<char>, default: bool) -> bool {
    match param(p, k) {
        Some(v) => v == "true"@ || v == "1"@,
        None => default,
    }
}

impl ComponentsRenderer {
    /// A color parameter resolved, else the default resolved.
    pub open spec fn color_param(self, p: NameMap<String>, k: Seq<char>, default: Seq<char>) -> Seq<char> {
        match param(p, k) {
            Some(v) => self.color_of(v),
            None => self.color_of(default),
        }
    }

    /// An optional color parameter resolved.
    pub open spec fn color_param_opt(self, p: NameMap<String>, k: Seq<char>) -> Option<Seq<char>> {
        match param(p, k) {
            Some(v) => Some(self.color_of(v)),
            None => None,
        }
    }
}

/// A `u32` parameter with a default (`parse_param` for `u32`).
pub fn parse_param(params: &NameMap<String>, key: &str, default: u32) -> (r: u32)
    ensures
        r == u32_param(*params, key@, default),
{
    match params.get(key) {
        Some(v) => {
            let c = chars_of(v.as_str());
            match parse_unsigned_chars(c.as_slice(), 0xffff_ffff) {
                Some(n) => n as u32,
                None => default,
            }
        },
        None => default,
    }
}

/// An optional `u32` parameter (`parse_param_opt` for `u32`).
pub fn parse_param_opt(params: &NameMap<String>, key: &str) -> (r: Option<u32>)
    ensures
        r == u32_param_opt(*params, key@),
{
    match params.get(key) {
        Some(v) => {
            let c = chars_of(v.as_str());
            match parse_unsigned_chars(c.as_slice(), 0xffff_ffff) {
                Some(n) => Some(n as u32),
                None => None,
            }
        },
        None => None,
    }
}

/// A `u8` parameter read as `str::parse::<u8>` does.
fn parse_u8(s: &str) -> (r: Option<u8>)
    ensures
        r matches Some(n) ==> parse_unsigned(s@, 255) == Some(n as nat),
        r is None ==> parse_unsigned(s@, 255) is None,
{
    let c = chars_of(s);
    match parse_unsigned_chars(c.as_slice(), 255) {
        Some(n) => Some(n as u8),
        None => None,
    }
}

/// A boolean parameter: "true" or "1" is true.
pub fn parse_bool(params: &NameMap<String>, key: &str, default: bool) -> (r: bool)
    ensures
        r == bool_param(*params, key@, default),
{
    proof {
        reveal_strlit("true");
        reveal_strlit("1");
    }
    match params.get(key) {
        Some(v) => crate::namemap::str_eq(v.as_str(), "true") || crate::namemap::str_eq(v.as_str(), "1"),
        None => default,
    }
}

/// A color parameter resolved through the palette, else the default resolved.
pub fn resolve_color_with_default(params: &NameMap<String>, key: &str, default: &str, renderer: &ComponentsRenderer) -> (r: String)
    ensures
        r@ == renderer.color_param(*params, key@, default@),
{
    match params.get(key) {
        Some(c) => renderer.resolve_color(c.as_str()),
        None => renderer.resolve_color(default),
    }
}

/// The first of several keys that is given, resolved; else the default resolved.
pub fn resolve_color_with_fallback(params: &NameMap<String>, keys: &[&str], default: &str, renderer: &ComponentsRenderer) -> (r: String)
    ensures
        (exists|i: int| 0 <= i < keys@.len() && params.has(#[trigger] keys@[i]@)) ==> {
            let i = choose|i: int| 0 <= i < keys@.len() && params.has(#[trigger] keys@[i]@)
                && forall|j: int| 0 <= j < i ==> !params.has(#[trigger] keys@[j]@);
            r@ == renderer.color_of(params.value_of(keys@[i]@)@)
        },
        (forall|i: int| 0 <= i < keys@.len() ==> !params.has(#[trigger] keys@[i]@)) ==> r@ == renderer.color_of(default@),
{
    let mut i: usize = 0;
    while i < keys.len()
        invariant
            i <= keys@.len(),
            forall|j: int| 0 <= j < i ==> !params.has(#[trigger] keys@[j]@),
        decreases keys.len() - i,
    {
        if let Some(c) = params.get(keys[i]) {
            proof {
                let w = choose|w: int| 0 <= w < keys@.len() && params.has(#[trigger] keys@[w]@)
                    && forall|j: int| 0 <= j < w ==> !params.has(#[trigger] keys@[j]@);
                assert(w == i as int) by {
                    if w > i {
                        assert(params.has(keys@[i as int]@));
                    }
                }
            }
            return renderer.resolve_color(c.as_str());
        }
        i = i + 1;
    }
    renderer.resolve_color(default)
}

/// An optional color parameter resolved.
pub fn resolve_color_opt(params: &NameMap<String>, key: &str, renderer: &ComponentsRenderer) -> (r: Option<String>)
    ensures
        opt_str(r) == renderer.color_param_opt(*params, key@),
{
    match params.get(key) {
        Some(c) => Some(renderer.resolve_color(c.as_str())),
        None => None,
    }
}

/// An optional string parameter.
pub fn get_string_opt(params: &NameMap<String>, key: &str) -> (r: Option<String>)
    ensures
        opt_str(r) == param(*params, key@),
{
    match params.get(key) {
        Some(v) => Some(v.clone()),
        None => None,
    }
}

/// A string parameter with a default.
pub fn get_string(params: &NameMap<String>, key: &str, default: &str) -> (r: String)
    ensures
        r@ == (match param(*params, key@) {
            Some(v) => v,
            None => default@,
        }),
{
    match params.get(key) {
        Some(v) => v.clone(),
        None => default.to_owned(),
    }
}

/// The first of two keys that is given.
pub open spec fn param2(p: NameMap<String>, a: Seq<char>, b: Seq<char>) -> Option<Seq<char>> {
    match param(p, a) {
        Some(v) => Some(v),
        None => param(p, b),
    }
}

/// The first of three keys that is given.
pub open spec fn param3(p: NameMap<String>, a: Seq<char>, b: Seq<char>, c: Seq<char>) -> Option<Seq<char>> {
    match param(p, a) {
        Some(v) => Some(v),
        None => param2(p, b, c),
    }
}

fn get2(params: &NameMap<String>, a: &str, b: &str) -> (r: Option<String>)
    ensures
        opt_str(r) == param2(*params, a@, b@),
{
    match params.get(a) {
        Some(v) => Some(v.clone()),
        None => get_string_opt(params, b),
    }
}

fn get3(params: &NameMap<String>, a: &str, b: &str, c: &str) -> (r: Option<String>)
    ensures
        opt_str(r) == param3(*params, a@, b@, c@),
{
    match params.get(a) {
        Some(v) => Some(v.clone()),
        None => get2(params, b, c),
    }
}


/// The first of two keys given, resolved as a color; else the default resolved.
pub open spec fn color_fallback2(r: ComponentsRenderer, p: NameMap<String>, a: Seq<char>, b: Seq<char>, d: Seq<char>) -> Seq<char> {
    match param2(p, a, b) {
        Some(v) => r.color_of(v),
        None => r.color_of(d),
    }
}

/// The message for a native component missing its first argument.
pub open spec fn missing_arg_msg(component: Seq<char>, what: Seq<char>) -> Seq<char> {
    component + " component requires "@ + what
}

/// The message for a percentage that does not parse as `u8`.
pub open spec fn bad_percent_msg(arg: Seq<char>) -> Seq<char> {
    "Invalid percentage '"@ + arg + "' - must be a number 0-100"@
}

fn parse_error2(a: &str, b: &str) -> (e: Error)
    ensures
        e matches Error::ParseError(m) && m@ == a@ + b@,
{
    let mut m: Vec<char> = Vec::new();
    push_str_chars(&mut m, a);
    push_str_chars(&mut m, b);
    Error::ParseError(string_of(m.as_slice()))
}

fn bad_percent(arg: &str) -> (e: Error)
    ensures
        e matches Error::ParseError(m) && m@ == bad_percent_msg(arg@),
{
    let mut m: Vec<char> = Vec::new();
    push_str_chars(&mut m, "Invalid percentage '");
    push_str_chars(&mut m, arg);
    push_str_chars(&mut m, "' - must be a number 0-100");
    Error::ParseError(string_of(m.as_slice()))
}

/// The percentage argument: the `u8` it parses as, capped at 100.
pub open spec fn percent_of(arg: Seq<char>) -> Option<u8> {
    match parse_unsigned(arg, 255) {
        Some(n) => Some(if n < 100 { n as u8 } else { 100u8 }),
        None => None,
    }
}

fn read_percent(args: &[String], component: &str) -> (r: Result<u8>)
    ensures
        args@.len() == 0 ==> (r matches Err(Error::ParseError(m)) && m@ == missing_arg_msg(component@, "a percentage argument"@)),
        args@.len() > 0 && percent_of(args@[0]@) is None ==> (r matches Err(Error::ParseError(m)) && m@ == bad_percent_msg(args@[0]@)),
        args@.len() > 0 && percent_of(args@[0]@) is Some ==> (r matches Ok(n) && Some(n) == percent_of(args@[0]@)),
{
    if args.len() == 0 {
        proof {
            reveal_strlit(" component requires a percentage argument");
            reveal_strlit(" component requires ");
            reveal_strlit("a percentage argument");
        }
        return Err(parse_error2(component, " component requires a percentage argument"));
    }
    match parse_u8(args[0].as_str()) {
        Some(n) => Ok(if n < 100 { n } else { 100 }),
        None => Err(bad_percent(args[0].as_str())),
    }
}

/// What `handle_progress` gives.
pub open spec fn progress_result(renderer: ComponentsRenderer, args: Seq<Seq<char>>, params: NameMap<String>, style: Seq<char>, r: Result<ComponentOutput>) -> bool {
    &&& args.len() == 0 ==> (r matches Err(Error::ParseError(m)) && m@ == missing_arg_msg("progress"@, "a percentage argument"@))
    &&& args.len() > 0 && percent_of(args[0]) is None ==> (r matches Err(Error::ParseError(m)) && m@ == bad_percent_msg(args[0]))
    &&& args.len() > 0 && percent_of(args[0]) is Some ==> (r matches Ok(ComponentOutput::Primitive(Primitive::Progress {
                percent, width, height, track_color, fill_color, fill_height, rx, show_label, label_color, border_color,
                border_width, thumb_size, thumb_width, thumb_color, thumb_shape, thumb_border, thumb_border_width }))
                && Some(percent) == percent_of(args[0])
                && width == u32_param(params, "width"@, 100)
                && height == u32_param(params, "height"@, 10)
                && fill_height == u32_param(params, "fill_height"@, height)
                && rx == u32_param(params, "rx"@, 3)
                && track_color@ == color_fallback2(renderer, params, "track"@, "color"@, "gray"@)
                && fill_color@ == renderer.color_param(params, "fill"@, "pink"@)
                && show_label == bool_param(params, "label"@, false)
                && opt_str(label_color) == renderer.color_param_opt(params, "label_color"@)
                && opt_str(border_color) == renderer.color_param_opt(params, "border"@)
                && border_width == u32_param(params, "border_width"@, if border_color is Some { 1 } else { 0 })
                && thumb_size == u32_param_opt(params, "thumb"@)
                && thumb_width == u32_param_opt(params, "thumb_width"@)
                && opt_str(thumb_color) == renderer.color_param_opt(params, "thumb_color"@)
                && thumb_shape@ == (match param(params, "thumb_shape"@) { Some(v) => v, None => "circle"@ })
                && opt_str(thumb_border) == renderer.color_param_opt(params, "thumb_border"@)
                && thumb_border_width == u32_param(params, "thumb_border_width"@, 0))
}

/// Expands `progress`: a progress bar (track 100x10, radius 3 by default).
pub fn handle_progress(args: &[String], params: &NameMap<String>, renderer: &ComponentsRenderer) -> (r: Result<ComponentOutput>)
    ensures
        progress_result(*renderer, crate::components::strs(args@), *params, Seq::empty(), r),
{
    proof {
        reveal_strlit("progress");
    }
    let percent = read_percent(args, "progress")?;
    let width = parse_param(params, "width", 100);
    let height = parse_param(params, "height", 10);
    let fill_height = parse_param(params, "fill_height", height);
    let rx = parse_param(params, "rx", 3);
    let track_color = match get2(params, "track", "color") {
        Some(c) => renderer.resolve_color(c.as_str()),
        None => renderer.resolve_color("gray"),
    };
    let fill_color = resolve_color_with_default(params, "fill", "pink", renderer);
    let show_label = parse_bool(params, "label", false);
    let label_color = resolve_color_opt(params, "label_color", renderer);
    let border_color = resolve_color_opt(params, "border", renderer);
    let bw_default: u32 = if border_color.is_some() { 1 } else { 0 };
    let border_width = parse_param(params, "border_width", bw_default);
    let thumb_size = parse_param_opt(params, "thumb");
    let thumb_width = parse_param_opt(params, "thumb_width");
    let thumb_color = resolve_color_opt(params, "thumb_color", renderer);
    let thumb_shape = get_string(params, "thumb_shape", "circle");
    let thumb_border = resolve_color_opt(params, "thumb_border", renderer);
    let thumb_border_width = parse_param(params, "thumb_border_width", 0);
    Ok(ComponentOutput::Primitive(Primitive::Progress {
        percent,
        width,
        height,
        track_color,
        fill_color,
        fill_height,
        rx,
        show_label,
        label_color,
        border_color,
        border_width,
        thumb_size,
        thumb_width,
        thumb_color,
        thumb_shape,
        thumb_border,
        thumb_border_width,
    }))
}

/// What `handle_donut` gives.
pub open spec fn donut_result(renderer: ComponentsRenderer, args: Seq<Seq<char>>, params: NameMap<String>, style: Seq<char>, r: Result<ComponentOutput>) -> bool {
    &&& args.len() == 0 ==> (r matches Err(Error::ParseError(m)) && m@ == missing_arg_msg("donut"@, "a percentage argument"@))
    &&& args.len() > 0 && percent_of(args[0]) is None ==> (r matches Err(Error::ParseError(m)) && m@ == bad_percent_msg(args[0]))
    &&& args.len() > 0 && percent_of(args[0]) is Some ==> (r matches Ok(ComponentOutput::Primitive(Primitive::Donut {
                percent, size, thickness, track_color, fill_color, show_label, label_color, thumb_size, thumb_color,
                thumb_border, thumb_border_width }))
                && Some(percent) == percent_of(args[0])
                && size == u32_param(params, "size"@, 40)
                && thickness == u32_param(params, "thickness"@, 4)
                && track_color@ == renderer.color_param(params, "track"@, "gray"@)
                && fill_color@ == renderer.color_param(params, "fill"@, "pink"@)
                && show_label == bool_param(params, "label"@, false)
                && opt_str(label_color) == renderer.color_param_opt(params, "label_color"@)
                && thumb_size == u32_param_opt(params, "thumb"@)
                && opt_str(thumb_color) == renderer.color_param_opt(params, "thumb_color"@)
                && opt_str(thumb_border) == renderer.color_param_opt(params, "thumb_border"@)
                && thumb_border_width == u32_param(params, "thumb_border_width"@, 0))
}

/// Expands `donut`: a ring chart (size 40, thickness 4 by default).
pub fn handle_donut(args: &[String], params: &NameMap<String>, renderer: &ComponentsRenderer) -> (r: Result<ComponentOutput>)
    ensures
        donut_result(*renderer, crate::components::strs(args@), *params, Seq::empty(), r),
{
    proof {
        reveal_strlit("donut");
    }
    let percent = read_percent(args, "donut")?;
    Ok(ComponentOutput::Primitive(Primitive::Donut {
        percent,
        size: parse_param(params, "size", 40),
        thickness: parse_param(params, "thickness", 4),
        track_color: resolve_color_with_default(params, "track", "gray", renderer),
        fill_color: resolve_color_with_default(params, "fill", "pink", renderer),
        show_label: parse_bool(params, "label", false),
        label_color: resolve_color_opt(params, "label_color", renderer),
        thumb_size: parse_param_opt(params, "thumb"),
        thumb_color: resolve_color_opt(params, "thumb_color", renderer),
        thumb_border: resolve_color_opt(params, "thumb_border", renderer),
        thumb_border_width: parse_param(params, "thumb_border_width", 0),
    }))
}

/// `v` kept within `[lo, hi]`.
pub open spec fn clamp_u32(v: u32, lo: u32, hi: u32) -> u32 {
    if v < lo { lo } else if v > hi { hi } else { v }
}

/// What `handle_gauge` gives.
pub open spec fn gauge_result(renderer: ComponentsRenderer, args: Seq<Seq<char>>, params: NameMap<String>, style: Seq<char>, r: Result<ComponentOutput>) -> bool {
    &&& args.len() == 0 ==> (r matches Err(Error::ParseError(m)) && m@ == missing_arg_msg("gauge"@, "a percentage argument"@))
    &&& args.len() > 0 && percent_of(args[0]) is None ==> (r matches Err(Error::ParseError(m)) && m@ == bad_percent_msg(args[0]))
    &&& args.len() > 0 && percent_of(args[0]) is Some ==> (r matches Ok(ComponentOutput::Primitive(Primitive::Gauge {
                percent, size, thickness, track_color, fill_color, show_label, label_color, thumb_size, thumb_color }))
                && Some(percent) == percent_of(args[0])
                && size == clamp_u32(u32_param(params, "size"@, 80), 10, 500)
                && thickness == clamp_u32(u32_param(params, "thickness"@, 8), 1, 50)
                && track_color@ == renderer.color_param(params, "track"@, "gray"@)
                && fill_color@ == renderer.color_param(params, "fill"@, "pink"@)
                && show_label == bool_param(params, "label"@, false)
                && opt_str(label_color) == renderer.color_param_opt(params, "label_color"@)
                && thumb_size == u32_param_opt(params, "thumb"@)
                && opt_str(thumb_color) == renderer.color_param_opt(params, "thumb_color"@))
}

/// Expands `gauge`: a semi-circular meter (size 80 within 10..=500,
/// thickness 8 within 1..=50).
pub fn handle_gauge(args: &[String], params: &NameMap<String>, renderer: &ComponentsRenderer) -> (r: Result<ComponentOutput>)
    ensures
        gauge_result(*renderer, crate::components::strs(args@), *params, Seq::empty(), r),
{
    proof {
        reveal_strlit("gauge");
    }
    let percent = read_percent(args, "gauge")?;
    let size0 = parse_param(params, "size", 80);
    let thickness0 = parse_param(params, "thickness", 8);
    let size = if size0 < 10 { 10 } else if size0 > 500 { 500 } else { size0 };
    let thickness = if thickness0 < 1 { 1 } else if thickness0 > 50 { 50 } else { thickness0 };
    Ok(ComponentOutput::Primitive(Primitive::Gauge {
        percent,
        size,
        thickness,
        track_color: resolve_color_with_default(params, "track", "gray", renderer),
        fill_color: resolve_color_with_default(params, "fill", "pink", renderer),
        show_label: parse_bool(params, "label", false),
        label_color: resolve_color_opt(params, "label_color", renderer),
        thumb_size: parse_param_opt(params, "thumb"),
        thumb_color: resolve_color_opt(params, "thumb_color", renderer),
    }))
}


fn missing_arg(component: &str, what: &str) -> (e: Error)
    ensures
        e matches Error::ParseError(m) && m@ == missing_arg_msg(component@, what@),
{
    let mut m: Vec<char> = Vec::new();
    push_str_chars(&mut m, component);
    push_str_chars(&mut m, " component requires ");
    push_str_chars(&mut m, what);
    Error::ParseError(string_of(m.as_slice()))
}

/// A parameter that is a number text (`f32::from_str` accepts it), else none.
pub open spec fn number_param(p: NameMap<String>, k: Seq<char>) -> Option<Seq<char>> {
    match param(p, k) {
        Some(v) => if float_text(v) { Some(v) } else { None },
        None => None,
    }
}

/// A parameter kept only when it is a number text.
pub fn number_param_opt(params: &NameMap<String>, key: &str) -> (r: Option<String>)
    ensures
        opt_str(r) == number_param(*params, key@),
{
    match params.get(key) {
        Some(v) => {
            let c = chars_of(v.as_str());
            if is_float_text(c.as_slice()) {
                Some(v.clone())
            } else {
                None
            }
        },
        None => None,
    }
}

/// What `handle_swatch` gives.
pub open spec fn swatch_result(renderer: ComponentsRenderer, args: Seq<Seq<char>>, params: NameMap<String>, style: Seq<char>, r: Result<ComponentOutput>) -> bool {
    &&& args.len() == 0 ==> (r matches Err(Error::ParseError(m)) && m@ == missing_arg_msg("swatch"@, "a color argument"@))
    &&& args.len() > 0 ==> (r matches Ok(ComponentOutput::Primitive(Primitive::Swatch {
                color, style: st, opacity, width, height, border_color, border_width, label, label_color, icon, icon_color,
                rx, ry, shadow, gradient, stroke_dash, logo_size, border_top, border_right, border_bottom, border_left }))
                && color@ == renderer.color_of(args[0])
                && st@ == style
                && opt_str(opacity) == number_param(params, "opacity"@)
                && width == u32_param_opt(params, "width"@)
                && height == u32_param_opt(params, "height"@)
                && opt_str(border_color) == renderer.color_param_opt(params, "border"@)
                && border_width == u32_param_opt(params, "border_width"@)
                && opt_str(label) == param(params, "label"@)
                && opt_str(label_color) == renderer.color_param_opt(params, "label_color"@)
                && opt_str(icon) == param(params, "icon"@)
                && opt_str(icon_color) == renderer.color_param_opt(params, "icon_color"@)
                && rx == u32_param_opt(params, "rx"@)
                && ry == u32_param_opt(params, "ry"@)
                && opt_str(shadow) == param(params, "shadow"@)
                && opt_str(gradient) == param(params, "gradient"@)
                && opt_str(stroke_dash) == param(params, "stroke_dash"@)
                && opt_str(logo_size) == param(params, "logo_size"@)
                && opt_str(border_top) == param(params, "border_top"@)
                && opt_str(border_right) == param(params, "border_right"@)
                && opt_str(border_bottom) == param(params, "border_bottom"@)
                && opt_str(border_left) == param(params, "border_left"@))
}

/// Expands `swatch`: a colored block; the first positional argument is the
/// color, the parameters its options.
pub fn handle_swatch(args: &[String], params: &NameMap<String>, style: &str, renderer: &ComponentsRenderer) -> (r: Result<ComponentOutput>)
    ensures
        swatch_result(*renderer, crate::components::strs(args@), *params, style@, r),
{
    if args.len() == 0 {
        proof {
            reveal_strlit("swatch");
            reveal_strlit("a color argument");
        }
        return Err(missing_arg("swatch", "a color argument"));
    }
    let color = renderer.resolve_color(args[0].as_str());
    Ok(ComponentOutput::Primitive(Primitive::Swatch {
        color,
        style: style.to_owned(),
        opacity: number_param_opt(params, "opacity"),
        width: parse_param_opt(params, "width"),
        height: parse_param_opt(params, "height"),
        border_color: resolve_color_opt(params, "border", renderer),
        border_width: parse_param_opt(params, "border_width"),
        label: get_string_opt(params, "label"),
        label_color: resolve_color_opt(params, "label_color", renderer),
        icon: get_string_opt(params, "icon"),
        icon_color: resolve_color_opt(params, "icon_color", renderer),
        rx: parse_param_opt(params, "rx"),
        ry: parse_param_opt(params, "ry"),
        shadow: get_string_opt(params, "shadow"),
        gradient: get_string_opt(params, "gradient"),
        stroke_dash: get_string_opt(params, "stroke_dash"),
        logo_size: get_string_opt(params, "logo_size"),
        border_top: get_string_opt(params, "border_top"),
        border_right: get_string_opt(params, "border_right"),
        border_bottom: get_string_opt(params, "border_bottom"),
        border_left: get_string_opt(params, "border_left"),
    }))
}

/// The corner radii of a badge: a preset (`left`, `right`, `none`, `all`,
/// radius 6), else `rx` as one radius or four comma-separated radii.
pub open spec fn corners_of(rx: Option<Seq<char>>, corners: Option<Seq<char>>) -> (Option<u32>, Option<[u32; 4]>) {
    if corners == Some("left"@) {
        (None, Some([6u32, 0, 0, 6]))
    } else if corners == Some("right"@) {
        (None, Some([0u32, 6, 6, 0]))
    } else if corners == Some("none"@) {
        (None, Some([0u32, 0, 0, 0]))
    } else if corners == Some("all"@) {
        (Some(6u32), None)
    } else {
        match rx {
            Some(v) => if crate::components::has_comma(v) {
                let nums = radii(crate::text::split_on(v, ','));
                if nums.len() == 4 {
                    (None, Some([nums[0], nums[1], nums[2], nums[3]]))
                } else {
                    (None, None)
                }
            } else {
                match parse_unsigned(v, u32::MAX as nat) {
                    Some(n) => (Some(n as u32), None),
                    None => (None, None),
                }
            },
            None => (None, None),
        }
    }
}

/// The pieces that parse as `u32` once trimmed, in order.
pub open spec fn radii(pieces: Seq<Seq<char>>) -> Seq<u32>
    decreases pieces.len(),
{
    if pieces.len() == 0 {
        Seq::empty()
    } else {
        let rest = radii(pieces.drop_last());
        match parse_unsigned(crate::text::trim(pieces.last()), u32::MAX as nat) {
            Some(n) => rest.push(n as u32),
            None => rest,
        }
    }
}

/// Reads the corner parameters of a tech badge.
pub fn parse_corners(rx_param: Option<&String>, corners_param: Option<&String>) -> (r: (Option<u32>, Option<[u32; 4]>))
    ensures
        r == corners_of(match rx_param { Some(s) => Some(s@), None => None }, match corners_param { Some(s) => Some(s@), None => None }),
{
    proof {
        reveal_strlit("left");
        reveal_strlit("right");
        reveal_strlit("none");
        reveal_strlit("all");
    }
    if let Some(c) = corners_param {
        if crate::namemap::str_eq(c.as_str(), "left") {
            return (None, Some([6, 0, 0, 6]));
        } else if crate::namemap::str_eq(c.as_str(), "right") {
            return (None, Some([0, 6, 6, 0]));
        } else if crate::namemap::str_eq(c.as_str(), "none") {
            return (None, Some([0, 0, 0, 0]));
        } else if crate::namemap::str_eq(c.as_str(), "all") {
            return (Some(6), None);
        }
    }
    if let Some(rx) = rx_param {
        let v = chars_of(rx.as_str());
        if crate::components::contains_comma(v.as_slice()) {
            let pieces = crate::text::split_chars(v.as_slice(), ',');
            let mut nums: Vec<u32> = Vec::new();
            let mut i: usize = 0;
            let ghost ps = crate::text::split_on(v@, ',');
            while i < pieces.len()
                invariant
                    i <= pieces@.len(),
                    ps == crate::text::split_on(v@, ','),
                    pieces@.len() == ps.len(),
                    forall|k: int| 0 <= k < pieces@.len() ==> #[trigger] pieces@[k]@ == ps[k],
                    nums@ == radii(ps.take(i as int)),
                decreases pieces.len() - i,
            {
                let t = crate::text::trim_chars(pieces[i].as_slice());
                proof {
                    assert(ps.take(i + 1).drop_last() =~= ps.take(i as int));
                }
                match parse_unsigned_chars(t.as_slice(), 0xffff_ffff) {
                    Some(n) => nums.push(n as u32),
                    None => {},
                }
                i = i + 1;
            }
            proof {
                assert(ps.take(pieces@.len() as int) =~= ps);
            }
            if nums.len() == 4 {
                return (None, Some([nums[0], nums[1], nums[2], nums[3]]));
            }
            return (None, None);
        } else {
            match parse_unsigned_chars(v.as_slice(), 0xffff_ffff) {
                Some(n) => {
                    return (Some(n as u32), None);
                },
                None => {},
            }
        }
    }
    (None, None)
}

/// What `handle_tech` gives.
pub open spec fn tech_result(renderer: ComponentsRenderer, args: Seq<Seq<char>>, params: NameMap<String>, style: Seq<char>, r: Result<ComponentOutput>) -> bool {
    &&& args.len() == 0 ==> (r matches Err(Error::ParseError(m)) && m@ == missing_arg_msg("tech"@, "a technology name argument"@))
    &&& args.len() > 0 ==> (r matches Ok(ComponentOutput::Primitive(Primitive::Tech {
                name, bg_color, logo_color, style: st, label, border_color, border_width, rx, corners, text_color, font, source,
                chevron, bg_left, bg_right, raised }))
                && name@ == args[0]
                && bg_color@ == renderer.color_param(params, "bg"@, "dark1"@)
                && logo_color@ == (match param(params, "logo"@) {
                    Some(v) => renderer.color_of(v),
                    None => crate::svg::logo_color_for(bg_color@),
                })
                && st@ == style
                && opt_str(label) == (match param(params, "label"@) { Some(v) => Some(v), None => Some(args[0]) })
                && opt_str(border_color) == renderer.color_param_opt(params, "border"@)
                && border_width == u32_param_opt(params, "border_width"@)
                && (rx, corners) == corners_of(param(params, "rx"@), param(params, "corners"@))
                && opt_str(text_color) == (match param3(params, "text_color"@, "text"@, "color"@) {
                    Some(v) => Some(renderer.color_of(v)),
                    None => None,
                })
                && opt_str(font) == param2(params, "font"@, "font_family"@)
                && opt_str(source) == param(params, "source"@)
                && chevron is None && bg_left is None && bg_right is None && raised is None)
}

/// Expands `tech`: a technology badge with the default background `dark1`
/// and a logo color contrasting with the background.
pub fn handle_tech(args: &[String], params: &NameMap<String>, style: &str, renderer: &ComponentsRenderer) -> (r: Result<ComponentOutput>)
    ensures
        tech_result(*renderer, crate::components::strs(args@), *params, style@, r),
{
    if args.len() == 0 {
        proof {
            reveal_strlit("tech");
            reveal_strlit("a technology name argument");
        }
        return Err(missing_arg("tech", "a technology name argument"));
    }
    let name = args[0].clone();
    let bg_color = resolve_color_with_default(params, "bg", "dark1", renderer);
    let logo_color = match params.get("logo") {
        Some(c) => renderer.resolve_color(c.as_str()),
        None => crate::svg::logo_color(bg_color.as_str()).to_owned(),
    };
    let label = match params.get("label") {
        Some(l) => Some(l.clone()),
        None => Some(name.clone()),
    };
    let border_color = resolve_color_opt(params, "border", renderer);
    let border_width = parse_param_opt(params, "border_width");
    let (rx, corners) = parse_corners(params.get("rx"), params.get("corners"));
    let text_color = match get3(params, "text_color", "text", "color") {
        Some(c) => Some(renderer.resolve_color(c.as_str())),
        None => None,
    };
    let font = get2(params, "font", "font_family");
    let source = get_string_opt(params, "source");
    Ok(ComponentOutput::Primitive(Primitive::Tech {
        name,
        bg_color,
        logo_color,
        style: style.to_owned(),
        label,
        border_color,
        border_width,
        rx,
        corners,
        text_color,
        font,
        source,
        chevron: None,
        bg_left: None,
        bg_right: None,
        raised: None,
    }))
}

/// What `handle_version` gives.
pub open spec fn version_result(renderer: ComponentsRenderer, args: Seq<Seq<char>>, params: NameMap<String>, style: Seq<char>, r: Result<ComponentOutput>) -> bool {
    &&& args.len() == 0 ==> (r matches Err(Error::ParseError(m)) && m@ == missing_arg_msg("version"@, "a version string argument"@))
    &&& args.len() > 0 ==> (r matches Ok(ComponentOutput::Primitive(Primitive::Version {
                version, style: st, status, bg_color, text_color, prefix, border_color, border_width, rx }))
                && version@ == args[0]
                && st@ == style
                && opt_str(status) == param(params, "status"@)
                && opt_str(bg_color) == renderer.color_param_opt(params, "bg"@)
                && opt_str(text_color) == (match param3(params, "text"@, "text_color"@, "color"@) {
                    Some(v) => Some(renderer.color_of(v)),
                    None => None,
                })
                && opt_str(prefix) == param(params, "prefix"@)
                && opt_str(border_color) == renderer.color_param_opt(params, "border"@)
                && border_width == u32_param_opt(params, "border_width"@)
                && rx == u32_param_opt(params, "rx"@))
}

/// Expands `version`: a version badge; the status color is left to the
/// rendering side unless `bg` overrides it.
pub fn handle_version(args: &[String], params: &NameMap<String>, style: &str, renderer: &ComponentsRenderer) -> (r: Result<ComponentOutput>)
    ensures
        version_result(*renderer, crate::components::strs(args@), *params, style@, r),
{
    if args.len() == 0 {
        proof {
            reveal_strlit("version");
            reveal_strlit("a version string argument");
        }
        return Err(missing_arg("version", "a version string argument"));
    }
    let text_color = match get3(params, "text", "text_color", "color") {
        Some(c) => Some(renderer.resolve_color(c.as_str())),
        None => None,
    };
    Ok(ComponentOutput::Primitive(Primitive::Version {
        version: args[0].clone(),
        style: style.to_owned(),
        status: get_string_opt(params, "status"),
        bg_color: resolve_color_opt(params, "bg", renderer),
        text_color,
        prefix: get_string_opt(params, "prefix"),
        border_color: resolve_color_opt(params, "border", renderer),
        border_width: parse_param_opt(params, "border_width"),
        rx: parse_param_opt(params, "rx"),
    }))
}

/// What `handle_license` gives.
pub open spec fn license_result(renderer: ComponentsRenderer, args: Seq<Seq<char>>, params: NameMap<String>, style: Seq<char>, r: Result<ComponentOutput>) -> bool {
    &&& args.len() == 0 ==> (r matches Err(Error::ParseError(m)) && m@ == missing_arg_msg("license"@, "a license name argument"@))
    &&& args.len() > 0 ==> (r matches Ok(ComponentOutput::Primitive(Primitive::License {
                license, style: st, label, bg_color, text_color, border_color, border_width, rx }))
                && license@ == args[0]
                && st@ == style
                && opt_str(label) == param(params, "label"@)
                && opt_str(bg_color) == renderer.color_param_opt(params, "bg"@)
                && opt_str(text_color) == (match param3(params, "text"@, "text_color"@, "color"@) {
                    Some(v) => Some(renderer.color_of(v)),
                    None => None,
                })
                && opt_str(border_color) == renderer.color_param_opt(params, "border"@)
                && border_width == u32_param_opt(params, "border_width"@)
                && rx == u32_param_opt(params, "rx"@))
}

/// Expands `license`: a license badge; the category color is left to the
/// rendering side unless `bg` overrides it.
pub fn handle_license(args: &[String], params: &NameMap<String>, style: &str, renderer: &ComponentsRenderer) -> (r: Result<ComponentOutput>)
    ensures
        license_result(*renderer, crate::components::strs(args@), *params, style@, r),
{
    if args.len() == 0 {
        proof {
            reveal_strlit("license");
            reveal_strlit("a license name argument");
        }
        return Err(missing_arg("license", "a license name argument"));
    }
    let text_color = match get3(params, "text", "text_color", "color") {
        Some(c) => Some(renderer.resolve_color(c.as_str())),
        None => None,
    };
    Ok(ComponentOutput::Primitive(Primitive::License {
        license: args[0].clone(),
        style: style.to_owned(),
        label: get_string_opt(params, "label"),
        bg_color: resolve_color_opt(params, "bg", renderer),
        text_color,
        border_color: resolve_color_opt(params, "border", renderer),
        border_width: parse_param_opt(params, "border_width"),
        rx: parse_param_opt(params, "rx"),
    }))
}

/// The alignment of a row: `left`, `center` or `right` as given, else `center`.
pub open spec fn row_align(p: NameMap<String>) -> Seq<char> {
    match param(p, "align"@) {
        Some(a) => if a == "left"@ || a == "center"@ || a == "right"@ { a } else { "center"@ },
        None => "center"@,
    }
}

/// Expands `row`: the content, to be parsed and then laid out as a row.
pub fn handle_row(params: &NameMap<String>, content: Option<&str>) -> (r: Result<ComponentOutput>)
    ensures
        r matches Ok(ComponentOutput::TemplateDelayed { template, post_process: PostProcess::Row { align } })
            && template@ == (match content { Some(c) => c@, None => Seq::empty() })
            && align@ == row_align(*params),
{
    proof {
        reveal_strlit("align");
        reveal_strlit("left");
        reveal_strlit("center");
        reveal_strlit("right");
    }
    let align = match params.get("align") {
        Some(a) => if crate::namemap::str_eq(a.as_str(), "left") || crate::namemap::str_eq(a.as_str(), "center")
            || crate::namemap::str_eq(a.as_str(), "right") { a.clone() } else { "center".to_owned() },
        None => "center".to_owned(),
    };
    let template = match content {
        Some(c) => c.to_owned(),
        None => String::new(),
    };
    Ok(ComponentOutput::TemplateDelayed { template, post_process: PostProcess::Row { align } })
}


/// A `u32` parameter with a default, kept within `[lo, hi]`.
pub fn parse_param_clamped(params: &NameMap<String>, key: &str, default: u32, lo: u32, hi: u32) -> (r: u32)
    requires
        lo <= hi,
    ensures
        r == clamp_u32(u32_param(*params, key@, default), lo, hi),
{
    let v = parse_param(params, key, default);
    if v < lo { lo } else if v > hi { hi } else { v }
}

/// What `handle_sparkline` gives.
pub open spec fn sparkline_result(renderer: ComponentsRenderer, args: Seq<Seq<char>>, params: NameMap<String>, style: Seq<char>, r: Result<ComponentOutput>) -> bool {
    &&& args.len() == 0 ==> (r matches Err(Error::ParseError(m)) && m@ == missing_arg_msg("sparkline"@, "comma-separated values"@))
    &&& args.len() > 0 && numeric_fields(split_on(args[0], ',')).len() == 0 ==> (r matches Err(Error::ParseError(m))
        && m@ == "sparkline requires at least one numeric value"@)
    &&& args.len() > 0 && numeric_fields(split_on(args[0], ',')).len() > 0 ==> (r matches Ok(ComponentOutput::Primitive(Primitive::Sparkline {
                values, width, height, chart_type, fill_color, stroke_color, stroke_width, track_color, show_dots, dot_radius }))
                && string_views(values@) == numeric_fields(split_on(args[0], ','))
                && width == clamp_u32(u32_param(params, "width"@, 100), 1, 2000)
                && height == clamp_u32(u32_param(params, "height"@, 20), 1, 500)
                && stroke_width == clamp_u32(u32_param(params, "stroke_width"@, 2), 1, 20)
                && dot_radius == clamp_u32(u32_param(params, "dot_radius"@, 2), 1, 20)
                && chart_type@ == (match param(params, "type"@) { Some(v) => v, None => "line"@ })
                && fill_color@ == renderer.color_param(params, "fill"@, "pink"@)
                && opt_str(stroke_color) == renderer.color_param_opt(params, "stroke"@)
                && opt_str(track_color) == renderer.color_param_opt(params, "track"@)
                && show_dots == bool_param(params, "dots"@, false))
}

/// Expands `sparkline`: the numbers of the comma-separated first argument
/// (others are skipped), at least one.
pub fn handle_sparkline(args: &[String], params: &NameMap<String>, renderer: &ComponentsRenderer) -> (r: Result<ComponentOutput>)
    ensures
        sparkline_result(*renderer, crate::components::strs(args@), *params, Seq::empty(), r),
{
    if args.len() == 0 {
        proof {
            reveal_strlit("sparkline");
            reveal_strlit("comma-separated values");
        }
        return Err(missing_arg("sparkline", "comma-separated values"));
    }
    let values = parse_number_list(args[0].as_str());
    if values.len() == 0 {
        return Err(Error::ParseError("sparkline requires at least one numeric value".to_owned()));
    }
    Ok(ComponentOutput::Primitive(Primitive::Sparkline {
        values,
        width: parse_param_clamped(params, "width", 100, 1, 2000),
        height: parse_param_clamped(params, "height", 20, 1, 500),
        chart_type: get_string(params, "type", "line"),
        fill_color: resolve_color_with_default(params, "fill", "pink", renderer),
        stroke_color: resolve_color_opt(params, "stroke", renderer),
        stroke_width: parse_param_clamped(params, "stroke_width", 2, 1, 20),
        track_color: resolve_color_opt(params, "track", renderer),
        show_dots: parse_bool(params, "dots", false),
        dot_radius: parse_param_clamped(params, "dot_radius", 2, 1, 20),
    }))
}

/// What `handle_rating` gives.
pub open spec fn rating_result(renderer: ComponentsRenderer, args: Seq<Seq<char>>, params: NameMap<String>, style: Seq<char>, r: Result<ComponentOutput>) -> bool {
    &&& args.len() == 0 ==> (r matches Err(Error::ParseError(m)) && m@ == missing_arg_msg("rating"@, "a value argument"@))
    &&& args.len() > 0 && !float_text(args[0]) ==> (r matches Err(Error::ParseError(m))
        && m@ == "Invalid rating value '"@ + args[0] + "' - must be a number"@)
    &&& args.len() > 0 && float_text(args[0]) ==> (r matches Ok(ComponentOutput::Primitive(Primitive::Rating {
                value, max, size, fill_color, empty_color, icon, spacing }))
                && value@ == args[0]
                && max == clamp_u32(u32_param(params, "max"@, 5), 1, 20)
                && size == clamp_u32(u32_param(params, "size"@, 20), 1, 100)
                && spacing == clamp_u32(u32_param(params, "spacing"@, 2), 0, 50)
                && fill_color@ == renderer.color_param(params, "fill"@, "warning"@)
                && empty_color@ == renderer.color_param(params, "empty"@, "gray"@)
                && icon@ == (match param(params, "icon"@) { Some(v) => v, None => "star"@ }))
}

/// Expands `rating`: the value must be a number; it is kept as written for
/// the rendering side.
pub fn handle_rating(args: &[String], params: &NameMap<String>, renderer: &ComponentsRenderer) -> (r: Result<ComponentOutput>)
    ensures
        rating_result(*renderer, crate::components::strs(args@), *params, Seq::empty(), r),
{
    if args.len() == 0 {
        proof {
            reveal_strlit("rating");
            reveal_strlit("a value argument");
        }
        return Err(missing_arg("rating", "a value argument"));
    }
    let v = chars_of(args[0].as_str());
    if !is_float_text(v.as_slice()) {
        let mut m: Vec<char> = Vec::new();
        push_str_chars(&mut m, "Invalid rating value '");
        push_str_chars(&mut m, args[0].as_str());
        push_str_chars(&mut m, "' - must be a number");
        return Err(Error::ParseError(string_of(m.as_slice())));
    }
    Ok(ComponentOutput::Primitive(Primitive::Rating {
        value: args[0].clone(),
        max: parse_param_clamped(params, "max", 5, 1, 20),
        size: parse_param_clamped(params, "size", 20, 1, 100),
        fill_color: resolve_color_with_default(params, "fill", "warning", renderer),
        empty_color: resolve_color_with_default(params, "empty", "gray", renderer),
        icon: get_string(params, "icon", "star"),
        spacing: parse_param_clamped(params, "spacing", 2, 0, 50),
    }))
}

/// What `handle_waveform` gives.
pub open spec fn waveform_result(renderer: ComponentsRenderer, args: Seq<Seq<char>>, params: NameMap<String>, style: Seq<char>, r: Result<ComponentOutput>) -> bool {
    &&& args.len() == 0 ==> (r matches Err(Error::ParseError(m)) && m@ == missing_arg_msg("waveform"@, "values argument"@))
    &&& args.len() > 0 && numeric_fields(split_on(args[0], ',')).len() == 0 ==> (r matches Err(Error::ParseError(m))
        && m@ == "waveform values must contain at least one number"@)
    &&& args.len() > 0 && numeric_fields(split_on(args[0], ',')).len() > 0 ==> (r matches Ok(ComponentOutput::Primitive(Primitive::Waveform {
                values, width, height, positive_color, negative_color, bar_width, spacing, track_color, show_center_line,
                center_line_color }))
                && string_views(values@) == numeric_fields(split_on(args[0], ','))
                && width == clamp_u32(u32_param(params, "width"@, 100), 1, 2000)
                && height == clamp_u32(u32_param(params, "height"@, 40), 1, 500)
                && spacing == clamp_u32(u32_param(params, "spacing"@, 1), 0, 50)
                && bar_width == clamp_u32(match param2(params, "bar_width"@, "bar"@) {
                    Some(v) => match parse_unsigned(v, u32::MAX as nat) { Some(n) => n as u32, None => 3 },
                    None => 3,
                }, 1, 50)
                && positive_color@ == color_fallback2(renderer, params, "positive"@, "up"@, "success"@)
                && negative_color@ == color_fallback2(renderer, params, "negative"@, "down"@, "error"@)
                && opt_str(track_color) == renderer.color_param_opt(params, "track"@)
                && show_center_line == bool_param(params, "center"@, false)
                && opt_str(center_line_color) == renderer.color_param_opt(params, "center_color"@))
}

/// Expands `waveform`: the numbers of the comma-separated first argument
/// (others are skipped), at least one.
pub fn handle_waveform(args: &[String], params: &NameMap<String>, renderer: &ComponentsRenderer) -> (r: Result<ComponentOutput>)
    ensures
        waveform_result(*renderer, crate::components::strs(args@), *params, Seq::empty(), r),
{
    if args.len() == 0 {
        proof {
            reveal_strlit("waveform");
            reveal_strlit("values argument");
        }
        return Err(missing_arg("waveform", "values argument"));
    }
    let values = parse_number_list(args[0].as_str());
    if values.len() == 0 {
        return Err(Error::ParseError("waveform values must contain at least one number".to_owned()));
    }
    let bar0: u32 = match get2(params, "bar_width", "bar") {
        Some(v) => {
            let c = chars_of(v.as_str());
            match parse_unsigned_chars(c.as_slice(), 0xffff_ffff) {
                Some(n) => n as u32,
                None => 3,
            }
        },
        None => 3,
    };
    let bar_width = if bar0 < 1 { 1 } else if bar0 > 50 { 50 } else { bar0 };
    let positive_color = match get2(params, "positive", "up") {
        Some(c) => renderer.resolve_color(c.as_str()),
        None => renderer.resolve_color("success"),
    };
    let negative_color = match get2(params, "negative", "down") {
        Some(c) => renderer.resolve_color(c.as_str()),
        None => renderer.resolve_color("error"),
    };
    Ok(ComponentOutput::Primitive(Primitive::Waveform {
        values,
        width: parse_param_clamped(params, "width", 100, 1, 2000),
        height: parse_param_clamped(params, "height", 40, 1, 500),
        positive_color,
        negative_color,
        bar_width,
        spacing: parse_param_clamped(params, "spacing", 1, 0, 50),
        track_color: resolve_color_opt(params, "track", renderer),
        show_center_line: parse_bool(params, "center", false),
        center_line_color: resolve_color_opt(params, "center_color", renderer),
    }))
}


/// The first index `>= from` holding whitespace, or `s.len()`.
pub open spec fn ws_from(s: Seq<char>, from: int) -> int
    decreases s.len() - from,
{
    if from >= s.len() {
        s.len() as int
    } else if crate::text::char_whitespace(s[from]) {
        from
    } else {
        ws_from(s, from + 1)
    }
}

pub proof fn lemma_ws_from(s: Seq<char>, from: int)
    requires
        0 <= from <= s.len(),
    ensures
        from <= ws_from(s, from) <= s.len(),
        ws_from(s, from) < s.len() ==> crate::text::char_whitespace(s[ws_from(s, from)]),
        forall|i: int| from <= i < ws_from(s, from) ==> !crate::text::char_whitespace(#[trigger] s[i]),
    decreases s.len() - from,
{
    if from < s.len() && !crate::text::char_whitespace(s[from]) {
        lemma_ws_from(s, from + 1);
    }
}

pub proof fn lemma_trim_start_len(s: Seq<char>)
    ensures
        crate::text::trim_start(s).len() <= s.len(),
        crate::text::trim_start(s).len() > 0 ==> !crate::text::char_whitespace(crate::text::trim_start(s)[0]),
    decreases s.len(),
{
    if s.len() > 0 && crate::text::char_whitespace(s[0]) {
        lemma_trim_start_len(s.skip(1));
    }
}

/// The whitespace-separated words of `s` (`str::split_whitespace`).
pub open spec fn words(s: Seq<char>) -> Seq<Seq<char>>
    decreases s.len(),
{
    let t = crate::text::trim_start(s);
    if t.len() == 0 {
        Seq::empty()
    } else {
        let e = ws_from(t, 0);
        proof {
            lemma_trim_start_len(s);
            lemma_ws_from(t, 0);
            if e == 0 {
                assert(crate::text::char_whitespace(t[0]));
            }
        }
        seq![t.take(e)] + words(t.skip(e))
    }
}

/// Markdown images `![alt](url)` rewritten as `<img alt="alt" src="url">`,
/// anything malformed kept as is.
pub open spec fn img_html(s: Seq<char>) -> Seq<char>
    decreases s.len(),
{
    let st = crate::components::find_from(s, "!["@, 0);
    if st < 0 || st + 2 > s.len() {
        s
    } else {
        let after = s.skip(st + 2);
        let ae = crate::text::index_of_from(after, ']', 0);
        let ok_paren = ae + 1 < after.len() && after[ae + 1] == '(';
        if ok_paren {
            let ap = after.skip(ae + 2);
            let ue = crate::text::index_of_from(ap, ')', 0);
            if ue < ap.len() {
                proof {
                    crate::text::lemma_index_of_from(after, ']', 0);
                    crate::text::lemma_index_of_from(ap, ')', 0);
                }
                s.take(st) + "<img alt=\""@ + after.take(ae) + "\" src=\""@ + ap.take(ue) + "\">"@ + img_html(ap.skip(ue + 1))
            } else {
                s.take(st) + "!["@ + img_html(after)
            }
        } else {
            s.take(st) + "!["@ + img_html(after)
        }
    }
}

/// A row: whitespace collapsed to single spaces, images as HTML, wrapped in
/// an aligned paragraph.
pub open spec fn row_html(content: Seq<char>, align: Seq<char>) -> Seq<char> {
    "<p align=\""@ + align + "\">\n"@ + crate::text::trim(img_html(crate::text::join(words(content), " "@))) + "\n</p>"@
}


/// Exec `words`.
pub fn split_whitespace_chars(s: &[char]) -> (r: Vec<Vec<char>>)
    ensures
        r@.len() == words(s@).len(),
        forall|k: int| 0 <= k < r@.len() ==> #[trigger] r@[k]@ == words(s@)[k],
{
    let mut acc: Vec<Vec<char>> = Vec::new();
    let ghost mut accv: Seq<Seq<char>> = Seq::empty();
    let mut i: usize = 0;
    assert(s@.skip(0) =~= s@);
    loop
        invariant
            i <= s@.len(),
            acc@.len() == accv.len(),
            forall|k: int| 0 <= k < acc@.len() ==> #[trigger] acc@[k]@ == accv[k],
            words(s@) == accv + words(s@.skip(i as int)),
        decreases s@.len() - i,
    {
        let mut j = i;
        while j < s.len() && crate::text::is_whitespace(s[j])
            invariant
                i <= j <= s@.len(),
                crate::text::trim_start(s@.skip(i as int)) == crate::text::trim_start(s@.skip(j as int)),
            decreases s@.len() - j,
        {
            proof {
                assert(s@.skip(j as int)[0] == s@[j as int]);
                assert(s@.skip(j as int).skip(1) =~= s@.skip(j + 1));
            }
            j = j + 1;
        }
        let ghost t = s@.skip(j as int);
        proof {
            assert(crate::text::trim_start(t) == t);
        }
        if j >= s.len() {
            proof {
                assert(t.len() == 0);
                assert(words(s@.skip(i as int)) =~= Seq::<Seq<char>>::empty());
                assert(accv + Seq::<Seq<char>>::empty() =~= accv);
            }
            return acc;
        }
        let mut e = j + 1;
        proof {
            assert(t[0] == s@[j as int]);
            lemma_ws_from(t, 0);
            assert(ws_from(t, 0) == ws_from(t, 1));
        }
        while e < s.len() && !crate::text::is_whitespace(s[e])
            invariant
                j < e <= s@.len(),
                t == s@.skip(j as int),
                ws_from(t, 0) == ws_from(t, e - j),
            decreases s@.len() - e,
        {
            proof {
                assert(t[e - j] == s@[e as int]);
            }
            e = e + 1;
        }
        let word = slice_chars(s, j, e);
        proof {
            if e < s.len() {
                assert(t[e - j] == s@[e as int]);
            }
            assert(ws_from(t, e - j) == e - j);
            assert(word@ =~= t.take(e - j));
            assert(t.skip(e - j) =~= s@.skip(e as int));
            assert(words(s@.skip(i as int)) == seq![t.take(e - j)] + words(t.skip(e - j)));
            let old_accv = accv;
            accv = accv.push(word@);
            assert(old_accv + (seq![word@] + words(s@.skip(e as int))) =~= accv + words(s@.skip(e as int)));
        }
        acc.push(word);
        i = e;
    }
}

/// Exec `img_html`.
#[verifier::rlimit(60)]
#[verifier::spinoff_prover]
fn img_html_exec(c: &[char]) -> (r: Vec<char>)
    ensures
        r@ == img_html(c@),
{
    let open = chars_of("![");
    proof {
        reveal_strlit("![");
        reveal_strlit("<img alt=\"");
        reveal_strlit("\" src=\"");
        reveal_strlit("\">");
    }
    let mut out: Vec<char> = Vec::new();
    let mut rem = copy_slice(c);
    loop
        invariant
            open@ == "!["@,
            img_html(c@) == out@ + img_html(rem@),
        decreases rem@.len(),
    {
        proof {
            reveal_strlit("![");
            reveal_strlit("<img alt=\"");
            reveal_strlit("\" src=\"");
            reveal_strlit("\">");
        }
        let found = crate::components::find_seq_from(rem.as_slice(), open.as_slice(), 0);
        match found {
            None => {
                push_all(&mut out, rem.as_slice());
                return out;
            },
            Some(st) => {
                proof {
                    crate::components::lemma_find_from(rem@, open@, 0);
                }
                let rlen = rem.len();
                let after = slice_chars(rem.as_slice(), st + 2, rem.len());
                let ae = crate::text::find_char_from(after.as_slice(), ']', 0);
                proof {
                    assert(after@ =~= rem@.skip(st + 2));
                    crate::text::lemma_index_of_from(after@, ']', 0);
                }
                let before = slice_chars(rem.as_slice(), 0, st);
                push_all(&mut out, before.as_slice());
                if ae + 1 < after.len() && after[ae + 1] == '(' {
                    let ap = slice_chars(after.as_slice(), ae + 2, after.len());
                    let ue = crate::text::find_char_from(ap.as_slice(), ')', 0);
                    proof {
                        crate::text::lemma_index_of_from(ap@, ')', 0);
                    }
                    if ue < ap.len() {
                        push_str_chars(&mut out, "<img alt=\"");
                        let alt = slice_chars(after.as_slice(), 0, ae);
                        push_all(&mut out, alt.as_slice());
                        push_str_chars(&mut out, "\" src=\"");
                        let url = slice_chars(ap.as_slice(), 0, ue);
                        push_all(&mut out, url.as_slice());
                        push_str_chars(&mut out, "\">");
                        let next = slice_chars(ap.as_slice(), ue + 1, ap.len());
                        proof {
                            assert(img_html(rem@) == rem@.take(st as int) + "<img alt=\""@ + after@.take(ae as int) + "\" src=\""@
                                + ap@.take(ue as int) + "\">"@ + img_html(next@));
                            assert(before@ =~= rem@.take(st as int));
                            assert(alt@ =~= after@.take(ae as int));
                            assert(url@ =~= ap@.take(ue as int));
                        }
                        rem = next;
                        continue;
                    }
                }
                push_str_chars(&mut out, "![");
                proof {
                    assert(before@ =~= rem@.take(st as int));
                    assert(img_html(rem@) == rem@.take(st as int) + "!["@ + img_html(after@));
                }
                rem = after;
            },
        }
    }
}

fn copy_slice(c: &[char]) -> (r: Vec<char>)
    ensures
        r@ == c@,
{
    crate::text::copy_chars(c)
}

/// Lays out rendered content as a row: whitespace runs collapse to one
/// space, Markdown images become `<img>` tags, and the result is wrapped in
/// `<p align="...">`.
pub fn apply_row(content: &str, align: &str) -> (r: String)
    ensures
        r@ == row_html(content@, align@),
{
    let v = chars_of(content);
    let ws = split_whitespace_chars(v.as_slice());
    let sp = chars_of(" ");
    proof {
        assert(ws@.map_values(|p: Vec<char>| p@) =~= words(content@));
    }
    let collapsed = crate::text::join_chars(&ws, sp.as_slice());
    let imgs = img_html_exec(collapsed.as_slice());
    let body = crate::text::trim_chars(imgs.as_slice());
    let mut out: Vec<char> = Vec::new();
    push_str_chars(&mut out, "<p align=\"");
    push_str_chars(&mut out, align);
    push_str_chars(&mut out, "\">\n");
    push_all(&mut out, body.as_slice());
    push_str_chars(&mut out, "\n</p>");
    string_of(out.as_slice())
}

} // verus!
