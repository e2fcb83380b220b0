//! Progress bars and sliders as SVG text. Where the fill ends, a fraction
//! of a width computed in floating point, comes from outside; the rest of
//! the layout is whole numbers and text.

use vstd::prelude::*;
use crate::text::{string_of, push_str_chars, push_all, usize_to_chars, decimal};
use crate::swatch::opt_view;

verus! {

/// The stroke attribute of an element: ` stroke="#C" stroke-width="W"` when
/// a color is given and the width is positive, else nothing.
pub open spec fn stroke(color: Option<Seq<char>>, width: nat) -> Seq<char> {
    match color {
        Some(c) => if width > 0 {
            " stroke=\"#"@ + c + "\" stroke-width=\""@ + decimal(width) + "\""@
        } else {
            Seq::empty()
        },
        None => Seq::empty(),
    }
}

fn push_dec(v: &mut Vec<char>, n: u32)
    ensures
        final(v)@ == old(v)@ + decimal(n as nat),
{
    let d = usize_to_chars(n as usize);
    push_all(v, d.as_slice());
}

fn push_stroke(v: &mut Vec<char>, color: &Option<String>, width: u32)
    ensures
        final(v)@ == old(v)@ + stroke(opt_view(*color), width as nat),
{
    match color {
        Some(c) => {
            if width > 0 {
                let ghost v0 = v@;
                push_str_chars(v, " stroke=\"#");
                push_str_chars(v, c.as_str());
                push_str_chars(v, "\" stroke-width=\"");
                push_dec(v, width);
                push_str_chars(v, "\"");
                assert(v@ =~= v0 + stroke(opt_view(*color), width as nat));
            } else {
                assert(v@ =~= v@ + Seq::<char>::empty());
            }
        },
        None => {
            assert(v@ =~= v@ + Seq::<char>::empty());
        },
    }
}

/// What a progress bar shows.
#[derive(Debug)]
pub struct ProgressOptions {
    pub percent: u8,
    pub width: u32,
    pub height: u32,
    pub track_color: String,
    pub fill_color: String,
    pub fill_height: u32,
    pub rx: u32,
    pub show_label: bool,
    pub label_color: Option<String>,
    pub border_color: Option<String>,
    pub border_width: u32,
}

/// The percentage label of a progress bar: shown when asked for and the
/// bar is at least 50 wide and 14 high, centred, in bold.
pub open spec fn progress_label(o: ProgressOptions) -> Seq<char> {
    if o.show_label && o.width >= 50 && o.height >= 14 {
        let font_size: nat = if o.height >= 20 { 12 } else { 10 };
        let color = match o.label_color { Some(c) => c@, None => "FFFFFF"@ };
        "\n  <text x=\""@ + decimal((o.width / 2) as nat) + "\" y=\""@ + decimal((o.height / 2 + font_size / 3) as nat)
            + "\" text-anchor=\"middle\" fill=\"#"@ + color
            + "\" font-family=\"Arial, sans-serif\" font-size=\""@ + decimal(font_size)
            + "\" font-weight=\"bold\" letter-spacing=\"1\">"@ + decimal(o.percent as nat) + "%</text>"@
    } else {
        Seq::empty()
    }
}

/// A progress bar whose fill is `fill_width` wide: the track, then the
/// fill (centred vertically when thinner, its corner radius kept within
/// half its height), then the label.
pub open spec fn progress_spec(o: ProgressOptions, fill_width: nat) -> Seq<char> {
    let fill_y: nat = if o.fill_height < o.height { ((o.height - o.fill_height) / 2) as nat } else { 0 };
    let fill_rx: nat = if o.fill_height < o.height {
        if o.rx <= o.fill_height / 2 { o.rx as nat } else { (o.fill_height / 2) as nat }
    } else {
        o.rx as nat
    };
    "<svg xmlns=\"http://www.w3.org/2000/svg\" width=\""@ + decimal(o.width as nat) + "\" height=\""@ + decimal(o.height as nat)
        + "\" viewBox=\"0 0 "@ + decimal(o.width as nat) + " "@ + decimal(o.height as nat) + "\">\n  <rect width=\""@
        + decimal(o.width as nat) + "\" height=\""@ + decimal(o.height as nat) + "\" fill=\"#"@ + o.track_color@ + "\" rx=\""@
        + decimal(o.rx as nat) + "\""@ + stroke(opt_view(o.border_color), o.border_width as nat)
        + "/>\n  <rect x=\"0\" y=\""@ + decimal(fill_y) + "\" width=\""@ + decimal(fill_width) + "\" height=\""@
        + decimal(o.fill_height as nat) + "\" fill=\"#"@ + o.fill_color@ + "\" rx=\""@ + decimal(fill_rx) + "\"/>"@
        + progress_label(o) + "\n</svg>"@
}

/// A progress bar that shows its label (asked for, at least 50 wide and 14
/// high) ends with the label's text: `>`, its percent in decimal, `%`,
/// then the closing `</text>` and `</svg>`.
pub proof fn law_progress_label_shows_percent(o: ProgressOptions, fill_width: nat)
    requires
        o.show_label,
        o.width >= 50,
        o.height >= 14,
    ensures
        ({
            let s = progress_spec(o, fill_width);
            let t = decimal(o.percent as nat) + "%</text>"@ + "\n</svg>"@;
            &&& s.len() > t.len()
            &&& s.skip(s.len() - t.len()) == t
            &&& s[s.len() - t.len() - 1] == '>'
        }),
{
    let s = progress_spec(o, fill_width);
    let t = decimal(o.percent as nat) + "%</text>"@ + "\n</svg>"@;
    let font_size: nat = if o.height >= 20 { 12 } else { 10 };
    let color = match o.label_color { Some(c) => c@, None => "FFFFFF"@ };
    let lit = "\" font-weight=\"bold\" letter-spacing=\"1\">"@;
    reveal_strlit("\" font-weight=\"bold\" letter-spacing=\"1\">");
    let fill_y: nat = if o.fill_height < o.height { ((o.height - o.fill_height) / 2) as nat } else { 0 };
    let fill_rx: nat = if o.fill_height < o.height {
        if o.rx <= o.fill_height / 2 { o.rx as nat } else { (o.fill_height / 2) as nat }
    } else {
        o.rx as nat
    };
    let head = "<svg xmlns=\"http://www.w3.org/2000/svg\" width=\""@ + decimal(o.width as nat) + "\" height=\""@ + decimal(o.height as nat)
        + "\" viewBox=\"0 0 "@ + decimal(o.width as nat) + " "@ + decimal(o.height as nat) + "\">\n  <rect width=\""@
        + decimal(o.width as nat) + "\" height=\""@ + decimal(o.height as nat) + "\" fill=\"#"@ + o.track_color@ + "\" rx=\""@
        + decimal(o.rx as nat) + "\""@ + stroke(opt_view(o.border_color), o.border_width as nat)
        + "/>\n  <rect x=\"0\" y=\""@ + decimal(fill_y) + "\" width=\""@ + decimal(fill_width) + "\" height=\""@
        + decimal(o.fill_height as nat) + "\" fill=\"#"@ + o.fill_color@ + "\" rx=\""@ + decimal(fill_rx) + "\"/>"@
        + "\n  <text x=\""@ + decimal((o.width / 2) as nat) + "\" y=\""@ + decimal((o.height / 2 + font_size / 3) as nat)
        + "\" text-anchor=\"middle\" fill=\"#"@ + color
        + "\" font-family=\"Arial, sans-serif\" font-size=\""@ + decimal(font_size) + lit;
    assert(s =~= head + t);
    assert((head + t).skip(head.len() as int) =~= t);
    assert(head.len() > 0);
    assert(s[head.len() - 1] == head[head.len() - 1]);
    assert(head[head.len() - 1] == lit[lit.len() - 1]);
}

fn progress_label_exec(o: &ProgressOptions) -> (r: Vec<char>)
    ensures
        r@ == progress_label(*o),
{
    let mut v: Vec<char> = Vec::new();
    if o.show_label && o.width >= 50 && o.height >= 14 {
        let font_size: u32 = if o.height >= 20 { 12 } else { 10 };
        push_str_chars(&mut v, "\n  <text x=\"");
        push_dec(&mut v, o.width / 2);
        push_str_chars(&mut v, "\" y=\"");
        push_dec(&mut v, o.height / 2 + font_size / 3);
        push_str_chars(&mut v, "\" text-anchor=\"middle\" fill=\"#");
        match &o.label_color {
            Some(c) => push_str_chars(&mut v, c.as_str()),
            None => push_str_chars(&mut v, "FFFFFF"),
        }
        push_str_chars(&mut v, "\" font-family=\"Arial, sans-serif\" font-size=\"");
        push_dec(&mut v, font_size);
        push_str_chars(&mut v, "\" font-weight=\"bold\" letter-spacing=\"1\">");
        push_dec(&mut v, o.percent as u32);
        push_str_chars(&mut v, "%</text>");
    }
    assert(v@ =~= progress_label(*o));
    v
}

/// Draws a progress bar whose fill is `fill_width` wide.
pub fn progress_svg(o: &ProgressOptions, fill_width: u32) -> (r: String)
    ensures
        r@ == progress_spec(*o, fill_width as nat),
{
    let fill_y: u32 = if o.fill_height < o.height { (o.height - o.fill_height) / 2 } else { 0 };
    let fill_rx: u32 = if o.fill_height < o.height {
        if o.rx <= o.fill_height / 2 { o.rx } else { o.fill_height / 2 }
    } else {
        o.rx
    };
    let mut v: Vec<char> = Vec::new();
    push_str_chars(&mut v, "<svg xmlns=\"http://www.w3.org/2000/svg\" width=\"");
    push_dec(&mut v, o.width);
    push_str_chars(&mut v, "\" height=\"");
    push_dec(&mut v, o.height);
    push_str_chars(&mut v, "\" viewBox=\"0 0 ");
    push_dec(&mut v, o.width);
    push_str_chars(&mut v, " ");
    push_dec(&mut v, o.height);
    push_str_chars(&mut v, "\">\n  <rect width=\"");
    push_dec(&mut v, o.width);
    push_str_chars(&mut v, "\" height=\"");
    push_dec(&mut v, o.height);
    push_str_chars(&mut v, "\" fill=\"#");
    push_str_chars(&mut v, o.track_color.as_str());
    push_str_chars(&mut v, "\" rx=\"");
    push_dec(&mut v, o.rx);
    push_str_chars(&mut v, "\"");
    push_stroke(&mut v, &o.border_color, o.border_width);
    push_str_chars(&mut v, "/>\n  <rect x=\"0\" y=\"");
    push_dec(&mut v, fill_y);
    push_str_chars(&mut v, "\" width=\"");
    push_dec(&mut v, fill_width);
    push_str_chars(&mut v, "\" height=\"");
    push_dec(&mut v, o.fill_height);
    push_str_chars(&mut v, "\" fill=\"#");
    push_str_chars(&mut v, o.fill_color.as_str());
    push_str_chars(&mut v, "\" rx=\"");
    push_dec(&mut v, fill_rx);
    push_str_chars(&mut v, "\"/>");
    let label = progress_label_exec(o);
    push_all(&mut v, label.as_slice());
    push_str_chars(&mut v, "\n</svg>");
    assert(v@ =~= progress_spec(*o, fill_width as nat));
    string_of(v.as_slice())
}

/// What a slider (a track with a thumb) shows.
#[derive(Debug)]
pub struct SliderOptions {
    pub percent: u8,
    pub width: u32,
    pub height: u32,
    pub track_color: String,
    pub fill_color: String,
    pub thumb_height: u32,
    pub thumb_width: Option<u32>,
    pub thumb_color: Option<String>,
    pub thumb_shape: String,
    pub border_color: Option<String>,
    pub border_width: u32,
    pub thumb_border: Option<String>,
    pub thumb_border_width: u32,
}

/// The thumb's width: as given, else its height.
pub open spec fn thumb_w(o: SliderOptions) -> nat {
    match o.thumb_width {
        Some(w) => w as nat,
        None => o.thumb_height as nat,
    }
}

/// The image's height: room for the track and the thumb.
pub open spec fn slider_height(o: SliderOptions) -> nat {
    if o.height >= o.thumb_height { o.height as nat } else { o.thumb_height as nat }
}

/// The vertical centre of the image.
pub open spec fn center_y(o: SliderOptions) -> nat {
    slider_height(o) / 2
}

/// Half of a whole number, written with one decimal.
pub open spec fn half_text(n: nat) -> Seq<char> {
    decimal(n / 2) + if n % 2 == 0 { ".0"@ } else { ".5"@ }
}

/// The thumb drawn at `x`: a rounded square, a diamond, or (otherwise) an
/// ellipse, in the thumb color (the fill color by default).
pub open spec fn thumb_elem(o: SliderOptions, x: nat) -> Seq<char> {
    let w = thumb_w(o);
    let hh: nat = (o.thumb_height / 2) as nat;
    let hw: nat = w / 2;
    let cy = center_y(o);
    let color = match o.thumb_color { Some(c) => c@, None => o.fill_color@ };
    let border = stroke(opt_view(o.thumb_border), o.thumb_border_width as nat);
    if o.thumb_shape@ == "square"@ {
        let m: nat = if hh <= hw { hh } else { hw };
        let rx: nat = if m <= 4 { m } else { 4 };
        "<rect x=\""@ + decimal((x - hw) as nat) + "\" y=\""@ + decimal((cy - hh) as nat) + "\" width=\""@ + decimal(w)
            + "\" height=\""@ + decimal(o.thumb_height as nat) + "\" fill=\"#"@ + color + "\" rx=\""@ + decimal(rx) + "\""@
            + border + "/>"@
    } else if o.thumb_shape@ == "diamond"@ {
        "<polygon points=\""@ + decimal(x) + ","@ + decimal((cy - hh) as nat) + " "@ + decimal(x + hw) + ","@ + decimal(cy)
            + " "@ + decimal(x) + ","@ + decimal(cy + hh) + " "@ + decimal((x - hw) as nat) + ","@ + decimal(cy)
            + "\" fill=\"#"@ + color + "\""@ + border + "/>"@
    } else {
        "<ellipse cx=\""@ + decimal(x) + "\" cy=\""@ + decimal(cy) + "\" rx=\""@ + half_text(w) + "\" ry=\""@
            + half_text(o.thumb_height as nat) + "\" fill=\"#"@ + color + "\""@ + border + "/>"@
    }
}

/// Where the track of a slider starts vertically.
pub open spec fn track_y(o: SliderOptions) -> nat {
    (center_y(o) - o.height / 2) as nat
}

/// The corner radius of a slider's track: half its height, at most 3.
pub open spec fn track_rx(o: SliderOptions) -> nat {
    if o.height / 2 <= 3 { (o.height / 2) as nat } else { 3 }
}

/// A slider's opening and track.
pub open spec fn slider_head(o: SliderOptions) -> Seq<char> {
    let h = slider_height(o);
    "<svg xmlns=\"http://www.w3.org/2000/svg\" width=\""@ + decimal(o.width as nat) + "\" height=\""@ + decimal(h)
        + "\" viewBox=\"0 0 "@ + decimal(o.width as nat) + " "@ + decimal(h) + "\">\n  <rect x=\"0\" y=\""@ + decimal(track_y(o))
        + "\" width=\""@ + decimal(o.width as nat) + "\" height=\""@ + decimal(o.height as nat) + "\" fill=\"#"@ + o.track_color@
        + "\" rx=\""@ + decimal(track_rx(o)) + "\""@ + stroke(opt_view(o.border_color), o.border_width as nat) + "/>"@
}

/// A slider's fill, from the left edge to the thumb at `x`.
pub open spec fn slider_fill(o: SliderOptions, x: nat) -> Seq<char> {
    if x > 0 {
        "\n  <rect x=\"0\" y=\""@ + decimal(track_y(o)) + "\" width=\""@ + decimal(x) + "\" height=\""@ + decimal(o.height as nat)
            + "\" fill=\"#"@ + o.fill_color@ + "\" rx=\""@ + decimal(track_rx(o)) + "\"/>"@
    } else {
        Seq::empty()
    }
}

/// A slider with its thumb centred at `x`: the track (at most 3 round),
/// the fill from the left edge to the thumb, then the thumb.
pub open spec fn slider_spec(o: SliderOptions, x: nat) -> Seq<char> {
    slider_head(o) + slider_fill(o, x) + "\n  "@ + thumb_elem(o, x) + "\n</svg>"@
}

/// The thumb's centre `x` lies at least half its width from the left edge,
/// its right edge is within `u32`, and the thumb's sizes are at most 2^24
/// (below which a size's half is written exactly).
pub open spec fn slider_fits(o: SliderOptions, x: nat) -> bool {
    &&& thumb_w(o) / 2 <= x
    &&& x + thumb_w(o) / 2 <= u32::MAX
    &&& thumb_w(o) <= 16777216
    &&& o.thumb_height <= 16777216
}

/// Whether `slider_svg` can draw the slider with its thumb at `x`.
pub fn slider_fits_at(o: &SliderOptions, x: u32) -> (b: bool)
    ensures
        b == slider_fits(*o, x as nat),
{
    let w: u32 = match o.thumb_width {
        Some(w) => w,
        None => o.thumb_height,
    };
    w / 2 <= x && (x as u64) + ((w / 2) as u64) <= 4294967295u64 && w <= 16777216 && o.thumb_height <= 16777216
}

fn push_half(v: &mut Vec<char>, n: u32)
    ensures
        final(v)@ == old(v)@ + half_text(n as nat),
{
    push_dec(v, n / 2);
    if n % 2 == 0 {
        push_str_chars(v, ".0");
    } else {
        push_str_chars(v, ".5");
    }
}

fn thumb_elem_exec(o: &SliderOptions, x: u32) -> (r: Vec<char>)
    requires
        slider_fits(*o, x as nat),
    ensures
        r@ == thumb_elem(*o, x as nat),
{
    let w: u32 = match o.thumb_width {
        Some(w) => w,
        None => o.thumb_height,
    };
    let hh = o.thumb_height / 2;
    let hw = w / 2;
    let sh = if o.height >= o.thumb_height { o.height } else { o.thumb_height };
    let cy = sh / 2;
    let mut v: Vec<char> = Vec::new();
    proof {
        reveal_strlit("square");
        reveal_strlit("diamond");
    }
    let is_square = crate::namemap::str_eq(o.thumb_shape.as_str(), "square");
    let is_diamond = crate::namemap::str_eq(o.thumb_shape.as_str(), "diamond");
    if is_square {
        let m = if hh <= hw { hh } else { hw };
        let rx = if m <= 4 { m } else { 4 };
        push_str_chars(&mut v, "<rect x=\"");
        push_dec(&mut v, x - hw);
        push_str_chars(&mut v, "\" y=\"");
        push_dec(&mut v, cy - hh);
        push_str_chars(&mut v, "\" width=\"");
        push_dec(&mut v, w);
        push_str_chars(&mut v, "\" height=\"");
        push_dec(&mut v, o.thumb_height);
        push_str_chars(&mut v, "\" fill=\"#");
    } else if is_diamond {
        push_str_chars(&mut v, "<polygon points=\"");
        push_dec(&mut v, x);
        push_str_chars(&mut v, ",");
        push_dec(&mut v, cy - hh);
        push_str_chars(&mut v, " ");
        push_dec(&mut v, x + hw);
        push_str_chars(&mut v, ",");
        push_dec(&mut v, cy);
        push_str_chars(&mut v, " ");
        push_dec(&mut v, x);
        push_str_chars(&mut v, ",");
        push_dec(&mut v, cy + hh);
        push_str_chars(&mut v, " ");
        push_dec(&mut v, x - hw);
        push_str_chars(&mut v, ",");
        push_dec(&mut v, cy);
        push_str_chars(&mut v, "\" fill=\"#");
    } else {
        push_str_chars(&mut v, "<ellipse cx=\"");
        push_dec(&mut v, x);
        push_str_chars(&mut v, "\" cy=\"");
        push_dec(&mut v, cy);
        push_str_chars(&mut v, "\" rx=\"");
        push_half(&mut v, w);
        push_str_chars(&mut v, "\" ry=\"");
        push_half(&mut v, o.thumb_height);
        push_str_chars(&mut v, "\" fill=\"#");
    }
    match &o.thumb_color {
        Some(c) => push_str_chars(&mut v, c.as_str()),
        None => push_str_chars(&mut v, o.fill_color.as_str()),
    }
    if is_square {
        let m = if hh <= hw { hh } else { hw };
        let rx = if m <= 4 { m } else { 4 };
        push_str_chars(&mut v, "\" rx=\"");
        push_dec(&mut v, rx);
    }
    push_str_chars(&mut v, "\"");
    push_stroke(&mut v, &o.thumb_border, o.thumb_border_width);
    push_str_chars(&mut v, "/>");
    assert(v@ =~= thumb_elem(*o, x as nat));
    v
}

fn slider_head_exec(o: &SliderOptions) -> (r: Vec<char>)
    ensures
        r@ == slider_head(*o),
{
    let sh = if o.height >= o.thumb_height { o.height } else { o.thumb_height };
    let cy = sh / 2;
    let track_y = cy - o.height / 2;
    let track_rx = if o.height / 2 <= 3 { o.height / 2 } else { 3 };
    let mut v: Vec<char> = Vec::new();
    push_str_chars(&mut v, "<svg xmlns=\"http://www.w3.org/2000/svg\" width=\"");
    push_dec(&mut v, o.width);
    push_str_chars(&mut v, "\" height=\"");
    push_dec(&mut v, sh);
    push_str_chars(&mut v, "\" viewBox=\"0 0 ");
    push_dec(&mut v, o.width);
    push_str_chars(&mut v, " ");
    push_dec(&mut v, sh);
    push_str_chars(&mut v, "\">\n  <rect x=\"0\" y=\"");
    push_dec(&mut v, track_y);
    push_str_chars(&mut v, "\" width=\"");
    push_dec(&mut v, o.width);
    push_str_chars(&mut v, "\" height=\"");
    push_dec(&mut v, o.height);
    push_str_chars(&mut v, "\" fill=\"#");
    push_str_chars(&mut v, o.track_color.as_str());
    push_str_chars(&mut v, "\" rx=\"");
    push_dec(&mut v, track_rx);
    push_str_chars(&mut v, "\"");
    push_stroke(&mut v, &o.border_color, o.border_width);
    push_str_chars(&mut v, "/>");
    assert(v@ =~= slider_head(*o));
    v
}

fn slider_fill_exec(o: &SliderOptions, x: u32) -> (r: Vec<char>)
    ensures
        r@ == slider_fill(*o, x as nat),
{
    let sh = if o.height >= o.thumb_height { o.height } else { o.thumb_height };
    let cy = sh / 2;
    let track_y = cy - o.height / 2;
    let track_rx = if o.height / 2 <= 3 { o.height / 2 } else { 3 };
    let mut v: Vec<char> = Vec::new();
    if x > 0 {
        push_str_chars(&mut v, "\n  <rect x=\"0\" y=\"");
        push_dec(&mut v, track_y);
        push_str_chars(&mut v, "\" width=\"");
        push_dec(&mut v, x);
        push_str_chars(&mut v, "\" height=\"");
        push_dec(&mut v, o.height);
        push_str_chars(&mut v, "\" fill=\"#");
        push_str_chars(&mut v, o.fill_color.as_str());
        push_str_chars(&mut v, "\" rx=\"");
        push_dec(&mut v, track_rx);
        push_str_chars(&mut v, "\"/>");
    }
    assert(v@ =~= slider_fill(*o, x as nat));
    v
}

/// Draws a slider with its thumb centred at `x` (the thumb's half width
/// plus the fraction of the usable width that the percentage gives).
pub fn slider_svg(o: &SliderOptions, x: u32) -> (r: String)
    requires
        slider_fits(*o, x as nat),
    ensures
        r@ == slider_spec(*o, x as nat),
{
    let mut v = slider_head_exec(o);
    let f = slider_fill_exec(o, x);
    push_all(&mut v, f.as_slice());
    push_str_chars(&mut v, "\n  ");
    let t = thumb_elem_exec(o, x);
    push_all(&mut v, t.as_slice());
    push_str_chars(&mut v, "\n</svg>");
    assert(v@ =~= slider_spec(*o, x as nat));
    string_of(v.as_slice())
}

} // verus!
