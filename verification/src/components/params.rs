//! Parameter metadata of the components: the parameters that tech badges
//! and the visualization components accept, and the sources and metrics of
//! live badges, for validation and completion.

use vstd::prelude::*;

verus! {

/// Metadata of one parameter.
#[derive(Debug)]
pub struct ParamInfo {
    /// The parameter's name as written in templates.
    pub name: &'static str,
    /// What it does.
    pub description: &'static str,
    /// An example of its use.
    pub example: &'static str,
    /// Its values with their meanings, where they are enumerated.
    pub values: Option<Vec<(&'static str, &'static str)>>,
}

/// The view of a list of (name, description) pairs.
pub open spec fn pairs_view(v: Seq<(&'static str, &'static str)>) -> Seq<(Seq<char>, Seq<char>)> {
    v.map_values(|x: (&'static str, &'static str)| (x.0@, x.1@))
}

/// The view of a parameter's metadata: name, description, example and values.
pub open spec fn param_view(p: ParamInfo) -> (Seq<char>, Seq<char>, Seq<char>, Option<Seq<(Seq<char>, Seq<char>)>>) {
    (p.name@, p.description@, p.example@, match p.values {
        Some(v) => Some(pairs_view(v@)),
        None => None,
    })
}

/// The views of a list of parameters.
pub open spec fn params_view(v: Seq<ParamInfo>) -> Seq<(Seq<char>, Seq<char>, Seq<char>, Option<Seq<(Seq<char>, Seq<char>)>>)> {
    v.map_values(|p: ParamInfo| param_view(p))
}

/// The names of a list of parameter views.
pub open spec fn names_in(v: Seq<(Seq<char>, Seq<char>, Seq<char>, Option<Seq<(Seq<char>, Seq<char>)>>)>) -> Seq<Seq<char>> {
    v.map_values(|p: (Seq<char>, Seq<char>, Seq<char>, Option<Seq<(Seq<char>, Seq<char>)>>)| p.0)
}

/// The parameters of tech badges.
pub open spec fn tech_params_spec() -> Seq<(Seq<char>, Seq<char>, Seq<char>, Option<Seq<(Seq<char>, Seq<char>)>>)> {
    seq![
        ("label"@, "Custom label text"@, "label=My Label"@, None),
        ("bg"@, "Background color (both segments)"@, "bg=1a1a1a"@, None),
        ("bg_left"@, "Left (icon) segment background"@, "bg_left=DEA584"@, None),
        ("bg_right"@, "Right (label) segment background"@, "bg_right=B8856E"@, None),
        ("logo"@, "Icon/logo color"@, "logo=FFFFFF"@, None),
        ("text"@, "Label text color"@, "text=000000"@, None),
        ("text_color"@, "Label text color (alias)"@, "text_color=FFFFFF"@, None),
        ("color"@, "Label text color (alias)"@, "color=000000"@, None),
        ("font"@, "Custom font family"@, "font=Monaco,monospace"@, None),
        ("font_family"@, "Custom font family (alias)"@, "font_family=Arial"@, None),
        ("logo_size"@, "Icon size (xs/sm/md/lg/xl/xxl or pixels)"@, "logo_size=lg"@, Some(seq![("xs"@, "10px - Extra small"@), ("sm"@, "12px - Small"@), ("md"@, "14px - Medium (default)"@), ("lg"@, "16px - Large"@), ("xl"@, "18px - Extra large"@), ("xxl"@, "20px - Extra extra large"@)])),
        ("icon_size"@, "Icon size (alias for logo_size)"@, "icon_size=16"@, Some(seq![("xs"@, "10px - Extra small"@), ("sm"@, "12px - Small"@), ("md"@, "14px - Medium (default)"@), ("lg"@, "16px - Large"@), ("xl"@, "18px - Extra large"@), ("xxl"@, "20px - Extra extra large"@)])),
        ("height"@, "Badge height in pixels"@, "height=24"@, None),
        ("raised"@, "Raised icon effect (pixels)"@, "raised=4"@, None),
        ("rx"@, "Uniform corner radius"@, "rx=6"@, None),
        ("corners"@, "Corner preset (left/right/none/all)"@, "corners=left"@, Some(seq![("left"@, "Rounded left, square right"@), ("right"@, "Square left, rounded right"@), ("none"@, "All square corners"@), ("all"@, "All rounded corners"@)])),
        ("top_left"@, "Top-left corner radius"@, "top_left=8"@, None),
        ("top_right"@, "Top-right corner radius"@, "top_right=8"@, None),
        ("bottom_left"@, "Bottom-left corner radius"@, "bottom_left=8"@, None),
        ("bottom_right"@, "Bottom-right corner radius"@, "bottom_right=8"@, None),
        ("chevron"@, "Arrow shape (left/right/both)"@, "chevron=right"@, Some(seq![("left"@, "Left-pointing arrow ←"@), ("right"@, "Right-pointing arrow →"@), ("both"@, "Both arrows ← →"@)])),
        ("border"@, "Border color"@, "border=61DAFB"@, None),
        ("border_width"@, "Border thickness"@, "border_width=2"@, None),
        ("border_full"@, "Border around entire badge"@, "border_full=true"@, Some(seq![("true"@, "Enable"@), ("false"@, "Disable (default)"@)])),
        ("divider"@, "Center divider line"@, "divider=true"@, Some(seq![("true"@, "Enable"@), ("false"@, "Disable (default)"@)])),
        ("style"@, "Badge style"@, "style=flat"@, Some(seq![("flat"@, "Rounded corners (rx=3)"@), ("flat-square"@, "Sharp corners (default)"@), ("plastic"@, "Shiny gradient overlay"@), ("for-the-badge"@, "Tall blocks (height=28)"@), ("social"@, "Very rounded (rx=10)"@), ("outline"@, "Border-only with transparent fill"@), ("ghost"@, "Alias for outline"@)])),
        ("icon"@, "Custom SVG path data"@, "icon=M12 2L2 7..."@, None),
        ("source"@, "Render source (shields for shields.io)"@, "source=shields"@, Some(seq![("shields"@, "Use shields.io URL instead of SVG"@)])),
        ("url"@, "Make badge a clickable link"@, "url=https://example.com"@, None),
    ]
}

/// The parameters of tech badges.
pub fn tech_params() -> (r: Vec<ParamInfo>)
    ensures
        params_view(r@) == tech_params_spec(),
{
    let mut r: Vec<ParamInfo> = Vec::new();
    r.push(ParamInfo { name: "label", description: "Custom label text", example: "label=My Label", values: None });
    r.push(ParamInfo { name: "bg", description: "Background color (both segments)", example: "bg=1a1a1a", values: None });
    r.push(ParamInfo { name: "bg_left", description: "Left (icon) segment background", example: "bg_left=DEA584", values: None });
    r.push(ParamInfo { name: "bg_right", description: "Right (label) segment background", example: "bg_right=B8856E", values: None });
    r.push(ParamInfo { name: "logo", description: "Icon/logo color", example: "logo=FFFFFF", values: None });
    r.push(ParamInfo { name: "text", description: "Label text color", example: "text=000000", values: None });
    r.push(ParamInfo { name: "text_color", description: "Label text color (alias)", example: "text_color=FFFFFF", values: None });
    r.push(ParamInfo { name: "color", description: "Label text color (alias)", example: "color=000000", values: None });
    r.push(ParamInfo { name: "font", description: "Custom font family", example: "font=Monaco,monospace", values: None });
    r.push(ParamInfo { name: "font_family", description: "Custom font family (alias)", example: "font_family=Arial", values: None });
    let mut v: Vec<(&'static str, &'static str)> = Vec::new();
    v.push(("xs", "10px - Extra small"));
    v.push(("sm", "12px - Small"));
    v.push(("md", "14px - Medium (default)"));
    v.push(("lg", "16px - Large"));
    v.push(("xl", "18px - Extra large"));
    v.push(("xxl", "20px - Extra extra large"));
    assert(pairs_view(v@) =~= seq![("xs"@, "10px - Extra small"@), ("sm"@, "12px - Small"@), ("md"@, "14px - Medium (default)"@), ("lg"@, "16px - Large"@), ("xl"@, "18px - Extra large"@), ("xxl"@, "20px - Extra extra large"@)]);
    r.push(ParamInfo { name: "logo_size", description: "Icon size (xs/sm/md/lg/xl/xxl or pixels)", example: "logo_size=lg", values: Some(v) });
    let mut v: Vec<(&'static str, &'static str)> = Vec::new();
    v.push(("xs", "10px - Extra small"));
    v.push(("sm", "12px - Small"));
    v.push(("md", "14px - Medium (default)"));
    v.push(("lg", "16px - Large"));
    v.push(("xl", "18px - Extra large"));
    v.push(("xxl", "20px - Extra extra large"));
    assert(pairs_view(v@) =~= seq![("xs"@, "10px - Extra small"@), ("sm"@, "12px - Small"@), ("md"@, "14px - Medium (default)"@), ("lg"@, "16px - Large"@), ("xl"@, "18px - Extra large"@), ("xxl"@, "20px - Extra extra large"@)]);
    r.push(ParamInfo { name: "icon_size", description: "Icon size (alias for logo_size)", example: "icon_size=16", values: Some(v) });
    r.push(ParamInfo { name: "height", description: "Badge height in pixels", example: "height=24", values: None });
    r.push(ParamInfo { name: "raised", description: "Raised icon effect (pixels)", example: "raised=4", values: None });
    r.push(ParamInfo { name: "rx", description: "Uniform corner radius", example: "rx=6", values: None });
    let mut v: Vec<(&'static str, &'static str)> = Vec::new();
    v.push(("left", "Rounded left, square right"));
    v.push(("right", "Square left, rounded right"));
    v.push(("none", "All square corners"));
    v.push(("all", "All rounded corners"));
    assert(pairs_view(v@) =~= seq![("left"@, "Rounded left, square right"@), ("right"@, "Square left, rounded right"@), ("none"@, "All square corners"@), ("all"@, "All rounded corners"@)]);
    r.push(ParamInfo { name: "corners", description: "Corner preset (left/right/none/all)", example: "corners=left", values: Some(v) });
    r.push(ParamInfo { name: "top_left", description: "Top-left corner radius", example: "top_left=8", values: None });
    r.push(ParamInfo { name: "top_right", description: "Top-right corner radius", example: "top_right=8", values: None });
    r.push(ParamInfo { name: "bottom_left", description: "Bottom-left corner radius", example: "bottom_left=8", values: None });
    r.push(ParamInfo { name: "bottom_right", description: "Bottom-right corner radius", example: "bottom_right=8", values: None });
    let mut v: Vec<(&'static str, &'static str)> = Vec::new();
    v.push(("left", "Left-pointing arrow ←"));
    v.push(("right", "Right-pointing arrow →"));
    v.push(("both", "Both arrows ← →"));
    assert(pairs_view(v@) =~= seq![("left"@, "Left-pointing arrow ←"@), ("right"@, "Right-pointing arrow →"@), ("both"@, "Both arrows ← →"@)]);
    r.push(ParamInfo { name: "chevron", description: "Arrow shape (left/right/both)", example: "chevron=right", values: Some(v) });
    r.push(ParamInfo { name: "border", description: "Border color", example: "border=61DAFB", values: None });
    r.push(ParamInfo { name: "border_width", description: "Border thickness", example: "border_width=2", values: None });
    let mut v: Vec<(&'static str, &'static str)> = Vec::new();
    v.push(("true", "Enable"));
    v.push(("false", "Disable (default)"));
    assert(pairs_view(v@) =~= seq![("true"@, "Enable"@), ("false"@, "Disable (default)"@)]);
    r.push(ParamInfo { name: "border_full", description: "Border around entire badge", example: "border_full=true", values: Some(v) });
    let mut v: Vec<(&'static str, &'static str)> = Vec::new();
    v.push(("true", "Enable"));
    v.push(("false", "Disable (default)"));
    assert(pairs_view(v@) =~= seq![("true"@, "Enable"@), ("false"@, "Disable (default)"@)]);
    r.push(ParamInfo { name: "divider", description: "Center divider line", example: "divider=true", values: Some(v) });
    let mut v: Vec<(&'static str, &'static str)> = Vec::new();
    v.push(("flat", "Rounded corners (rx=3)"));
    v.push(("flat-square", "Sharp corners (default)"));
    v.push(("plastic", "Shiny gradient overlay"));
    v.push(("for-the-badge", "Tall blocks (height=28)"));
    v.push(("social", "Very rounded (rx=10)"));
    v.push(("outline", "Border-only with transparent fill"));
    v.push(("ghost", "Alias for outline"));
    assert(pairs_view(v@) =~= seq![("flat"@, "Rounded corners (rx=3)"@), ("flat-square"@, "Sharp corners (default)"@), ("plastic"@, "Shiny gradient overlay"@), ("for-the-badge"@, "Tall blocks (height=28)"@), ("social"@, "Very rounded (rx=10)"@), ("outline"@, "Border-only with transparent fill"@), ("ghost"@, "Alias for outline"@)]);
    r.push(ParamInfo { name: "style", description: "Badge style", example: "style=flat", values: Some(v) });
    r.push(ParamInfo { name: "icon", description: "Custom SVG path data", example: "icon=M12 2L2 7...", values: None });
    let mut v: Vec<(&'static str, &'static str)> = Vec::new();
    v.push(("shields", "Use shields.io URL instead of SVG"));
    assert(pairs_view(v@) =~= seq![("shields"@, "Use shields.io URL instead of SVG"@)]);
    r.push(ParamInfo { name: "source", description: "Render source (shields for shields.io)", example: "source=shields", values: Some(v) });
    r.push(ParamInfo { name: "url", description: "Make badge a clickable link", example: "url=https://example.com", values: None });
    assert(params_view(r@) =~= tech_params_spec());
    r
}

/// The parameters of progress bars.
pub open spec fn progress_params_spec() -> Seq<(Seq<char>, Seq<char>, Seq<char>, Option<Seq<(Seq<char>, Seq<char>)>>)> {
    seq![
        ("width"@, "Bar width in pixels"@, "width=200"@, None),
        ("height"@, "Bar height in pixels"@, "height=12"@, None),
        ("fill"@, "Fill/progress color"@, "fill=accent"@, None),
        ("track"@, "Track/background color"@, "track=333333"@, None),
        ("rx"@, "Corner radius"@, "rx=5"@, None),
        ("label"@, "Show percentage label"@, "label=true"@, Some(seq![("true"@, "Show label"@), ("false"@, "Hide label (default)"@)])),
        ("thumb"@, "Show thumb indicator"@, "thumb=true"@, Some(seq![("true"@, "Show thumb"@), ("false"@, "Hide thumb (default)"@)])),
        ("thumb_size"@, "Thumb indicator size"@, "thumb_size=14"@, None),
        ("thumb_color"@, "Thumb indicator color"@, "thumb_color=FFFFFF"@, None),
        ("thumb_shape"@, "Thumb shape"@, "thumb_shape=circle"@, Some(seq![("circle"@, "Round thumb (default)"@), ("square"@, "Square thumb"@), ("diamond"@, "Diamond thumb"@)])),
        ("thumb_border"@, "Thumb border color"@, "thumb_border=000000"@, None),
        ("thumb_border_width"@, "Thumb border width"@, "thumb_border_width=2"@, None),
    ]
}

/// The parameters of progress bars.
pub fn progress_params() -> (r: Vec<ParamInfo>)
    ensures
        params_view(r@) == progress_params_spec(),
{
    let mut r: Vec<ParamInfo> = Vec::new();
    r.push(ParamInfo { name: "width", description: "Bar width in pixels", example: "width=200", values: None });
    r.push(ParamInfo { name: "height", description: "Bar height in pixels", example: "height=12", values: None });
    r.push(ParamInfo { name: "fill", description: "Fill/progress color", example: "fill=accent", values: None });
    r.push(ParamInfo { name: "track", description: "Track/background color", example: "track=333333", values: None });
    r.push(ParamInfo { name: "rx", description: "Corner radius", example: "rx=5", values: None });
    let mut v: Vec<(&'static str, &'static str)> = Vec::new();
    v.push(("true", "Show label"));
    v.push(("false", "Hide label (default)"));
    assert(pairs_view(v@) =~= seq![("true"@, "Show label"@), ("false"@, "Hide label (default)"@)]);
    r.push(ParamInfo { name: "label", description: "Show percentage label", example: "label=true", values: Some(v) });
    let mut v: Vec<(&'static str, &'static str)> = Vec::new();
    v.push(("true", "Show thumb"));
    v.push(("false", "Hide thumb (default)"));
    assert(pairs_view(v@) =~= seq![("true"@, "Show thumb"@), ("false"@, "Hide thumb (default)"@)]);
    r.push(ParamInfo { name: "thumb", description: "Show thumb indicator", example: "thumb=true", values: Some(v) });
    r.push(ParamInfo { name: "thumb_size", description: "Thumb indicator size", example: "thumb_size=14", values: None });
    r.push(ParamInfo { name: "thumb_color", description: "Thumb indicator color", example: "thumb_color=FFFFFF", values: None });
    let mut v: Vec<(&'static str, &'static str)> = Vec::new();
    v.push(("circle", "Round thumb (default)"));
    v.push(("square", "Square thumb"));
    v.push(("diamond", "Diamond thumb"));
    assert(pairs_view(v@) =~= seq![("circle"@, "Round thumb (default)"@), ("square"@, "Square thumb"@), ("diamond"@, "Diamond thumb"@)]);
    r.push(ParamInfo { name: "thumb_shape", description: "Thumb shape", example: "thumb_shape=circle", values: Some(v) });
    r.push(ParamInfo { name: "thumb_border", description: "Thumb border color", example: "thumb_border=000000", values: None });
    r.push(ParamInfo { name: "thumb_border_width", description: "Thumb border width", example: "thumb_border_width=2", values: None });
    assert(params_view(r@) =~= progress_params_spec());
    r
}

/// The parameters of donut charts.
pub open spec fn donut_params_spec() -> Seq<(Seq<char>, Seq<char>, Seq<char>, Option<Seq<(Seq<char>, Seq<char>)>>)> {
    seq![
        ("size"@, "Diameter in pixels"@, "size=60"@, None),
        ("thickness"@, "Ring thickness"@, "thickness=6"@, None),
        ("fill"@, "Fill/progress color"@, "fill=success"@, None),
        ("track"@, "Track/background color"@, "track=333333"@, None),
        ("label"@, "Show percentage label"@, "label=true"@, Some(seq![("true"@, "Show label"@), ("false"@, "Hide label (default)"@)])),
        ("thumb"@, "Show thumb indicator"@, "thumb=true"@, Some(seq![("true"@, "Show thumb"@), ("false"@, "Hide thumb (default)"@)])),
        ("thumb_size"@, "Thumb indicator size"@, "thumb_size=8"@, None),
        ("thumb_color"@, "Thumb indicator color"@, "thumb_color=FFFFFF"@, None),
    ]
}

/// The parameters of donut charts.
pub fn donut_params() -> (r: Vec<ParamInfo>)
    ensures
        params_view(r@) == donut_params_spec(),
{
    let mut r: Vec<ParamInfo> = Vec::new();
    r.push(ParamInfo { name: "size", description: "Diameter in pixels", example: "size=60", values: None });
    r.push(ParamInfo { name: "thickness", description: "Ring thickness", example: "thickness=6", values: None });
    r.push(ParamInfo { name: "fill", description: "Fill/progress color", example: "fill=success", values: None });
    r.push(ParamInfo { name: "track", description: "Track/background color", example: "track=333333", values: None });
    let mut v: Vec<(&'static str, &'static str)> = Vec::new();
    v.push(("true", "Show label"));
    v.push(("false", "Hide label (default)"));
    assert(pairs_view(v@) =~= seq![("true"@, "Show label"@), ("false"@, "Hide label (default)"@)]);
    r.push(ParamInfo { name: "label", description: "Show percentage label", example: "label=true", values: Some(v) });
    let mut v: Vec<(&'static str, &'static str)> = Vec::new();
    v.push(("true", "Show thumb"));
    v.push(("false", "Hide thumb (default)"));
    assert(pairs_view(v@) =~= seq![("true"@, "Show thumb"@), ("false"@, "Hide thumb (default)"@)]);
    r.push(ParamInfo { name: "thumb", description: "Show thumb indicator", example: "thumb=true", values: Some(v) });
    r.push(ParamInfo { name: "thumb_size", description: "Thumb indicator size", example: "thumb_size=8", values: None });
    r.push(ParamInfo { name: "thumb_color", description: "Thumb indicator color", example: "thumb_color=FFFFFF", values: None });
    assert(params_view(r@) =~= donut_params_spec());
    r
}

/// The parameters of gauges.
pub open spec fn gauge_params_spec() -> Seq<(Seq<char>, Seq<char>, Seq<char>, Option<Seq<(Seq<char>, Seq<char>)>>)> {
    seq![
        ("size"@, "Width in pixels"@, "size=100"@, None),
        ("thickness"@, "Arc thickness"@, "thickness=10"@, None),
        ("fill"@, "Fill/progress color"@, "fill=warning"@, None),
        ("track"@, "Track/background color"@, "track=333333"@, None),
        ("label"@, "Show percentage label"@, "label=true"@, Some(seq![("true"@, "Show label"@), ("false"@, "Hide label (default)"@)])),
        ("thumb"@, "Show thumb indicator"@, "thumb=true"@, Some(seq![("true"@, "Show thumb"@), ("false"@, "Hide thumb (default)"@)])),
        ("thumb_size"@, "Thumb indicator size"@, "thumb_size=10"@, None),
        ("thumb_color"@, "Thumb indicator color"@, "thumb_color=FFFFFF"@, None),
    ]
}

/// The parameters of gauges.
pub fn gauge_params() -> (r: Vec<ParamInfo>)
    ensures
        params_view(r@) == gauge_params_spec(),
{
    let mut r: Vec<ParamInfo> = Vec::new();
    r.push(ParamInfo { name: "size", description: "Width in pixels", example: "size=100", values: None });
    r.push(ParamInfo { name: "thickness", description: "Arc thickness", example: "thickness=10", values: None });
    r.push(ParamInfo { name: "fill", description: "Fill/progress color", example: "fill=warning", values: None });
    r.push(ParamInfo { name: "track", description: "Track/background color", example: "track=333333", values: None });
    let mut v: Vec<(&'static str, &'static str)> = Vec::new();
    v.push(("true", "Show label"));
    v.push(("false", "Hide label (default)"));
    assert(pairs_view(v@) =~= seq![("true"@, "Show label"@), ("false"@, "Hide label (default)"@)]);
    r.push(ParamInfo { name: "label", description: "Show percentage label", example: "label=true", values: Some(v) });
    let mut v: Vec<(&'static str, &'static str)> = Vec::new();
    v.push(("true", "Show thumb"));
    v.push(("false", "Hide thumb (default)"));
    assert(pairs_view(v@) =~= seq![("true"@, "Show thumb"@), ("false"@, "Hide thumb (default)"@)]);
    r.push(ParamInfo { name: "thumb", description: "Show thumb indicator", example: "thumb=true", values: Some(v) });
    r.push(ParamInfo { name: "thumb_size", description: "Thumb indicator size", example: "thumb_size=10", values: None });
    r.push(ParamInfo { name: "thumb_color", description: "Thumb indicator color", example: "thumb_color=FFFFFF", values: None });
    assert(params_view(r@) =~= gauge_params_spec());
    r
}

/// The parameters of sparklines.
pub open spec fn sparkline_params_spec() -> Seq<(Seq<char>, Seq<char>, Seq<char>, Option<Seq<(Seq<char>, Seq<char>)>>)> {
    seq![
        ("type"@, "Chart type"@, "type=bar"@, Some(seq![("line"@, "Line chart (default)"@), ("bar"@, "Bar chart"@), ("area"@, "Area chart"@)])),
        ("width"@, "Chart width in pixels"@, "width=150"@, None),
        ("height"@, "Chart height in pixels"@, "height=30"@, None),
        ("fill"@, "Line/bar/area fill color"@, "fill=accent"@, None),
        ("stroke"@, "Line stroke color"@, "stroke=accent"@, None),
        ("stroke_width"@, "Line stroke width"@, "stroke_width=2"@, None),
        ("dots"@, "Show dots at data points"@, "dots=true"@, Some(seq![("true"@, "Show dots"@), ("false"@, "Hide dots (default)"@)])),
        ("dot_size"@, "Dot radius"@, "dot_size=3"@, None),
    ]
}

/// The parameters of sparklines.
pub fn sparkline_params() -> (r: Vec<ParamInfo>)
    ensures
        params_view(r@) == sparkline_params_spec(),
{
    let mut r: Vec<ParamInfo> = Vec::new();
    let mut v: Vec<(&'static str, &'static str)> = Vec::new();
    v.push(("line", "Line chart (default)"));
    v.push(("bar", "Bar chart"));
    v.push(("area", "Area chart"));
    assert(pairs_view(v@) =~= seq![("line"@, "Line chart (default)"@), ("bar"@, "Bar chart"@), ("area"@, "Area chart"@)]);
    r.push(ParamInfo { name: "type", description: "Chart type", example: "type=bar", values: Some(v) });
    r.push(ParamInfo { name: "width", description: "Chart width in pixels", example: "width=150", values: None });
    r.push(ParamInfo { name: "height", description: "Chart height in pixels", example: "height=30", values: None });
    r.push(ParamInfo { name: "fill", description: "Line/bar/area fill color", example: "fill=accent", values: None });
    r.push(ParamInfo { name: "stroke", description: "Line stroke color", example: "stroke=accent", values: None });
    r.push(ParamInfo { name: "stroke_width", description: "Line stroke width", example: "stroke_width=2", values: None });
    let mut v: Vec<(&'static str, &'static str)> = Vec::new();
    v.push(("true", "Show dots"));
    v.push(("false", "Hide dots (default)"));
    assert(pairs_view(v@) =~= seq![("true"@, "Show dots"@), ("false"@, "Hide dots (default)"@)]);
    r.push(ParamInfo { name: "dots", description: "Show dots at data points", example: "dots=true", values: Some(v) });
    r.push(ParamInfo { name: "dot_size", description: "Dot radius", example: "dot_size=3", values: None });
    assert(params_view(r@) =~= sparkline_params_spec());
    r
}

/// The parameters of ratings.
pub open spec fn rating_params_spec() -> Seq<(Seq<char>, Seq<char>, Seq<char>, Option<Seq<(Seq<char>, Seq<char>)>>)> {
    seq![
        ("max"@, "Maximum rating value"@, "max=5"@, None),
        ("icon"@, "Icon shape"@, "icon=heart"@, Some(seq![("star"@, "Star icon (default)"@), ("heart"@, "Heart icon"@), ("circle"@, "Circle icon"@)])),
        ("size"@, "Icon size in pixels"@, "size=24"@, None),
        ("fill"@, "Filled icon color"@, "fill=warning"@, None),
        ("empty"@, "Empty icon color"@, "empty=gray"@, None),
        ("gap"@, "Gap between icons"@, "gap=4"@, None),
    ]
}

/// The parameters of ratings.
pub fn rating_params() -> (r: Vec<ParamInfo>)
    ensures
        params_view(r@) == rating_params_spec(),
{
    let mut r: Vec<ParamInfo> = Vec::new();
    r.push(ParamInfo { name: "max", description: "Maximum rating value", example: "max=5", values: None });
    let mut v: Vec<(&'static str, &'static str)> = Vec::new();
    v.push(("star", "Star icon (default)"));
    v.push(("heart", "Heart icon"));
    v.push(("circle", "Circle icon"));
    assert(pairs_view(v@) =~= seq![("star"@, "Star icon (default)"@), ("heart"@, "Heart icon"@), ("circle"@, "Circle icon"@)]);
    r.push(ParamInfo { name: "icon", description: "Icon shape", example: "icon=heart", values: Some(v) });
    r.push(ParamInfo { name: "size", description: "Icon size in pixels", example: "size=24", values: None });
    r.push(ParamInfo { name: "fill", description: "Filled icon color", example: "fill=warning", values: None });
    r.push(ParamInfo { name: "empty", description: "Empty icon color", example: "empty=gray", values: None });
    r.push(ParamInfo { name: "gap", description: "Gap between icons", example: "gap=4", values: None });
    assert(params_view(r@) =~= rating_params_spec());
    r
}

/// The parameters of waveforms.
pub open spec fn waveform_params_spec() -> Seq<(Seq<char>, Seq<char>, Seq<char>, Option<Seq<(Seq<char>, Seq<char>)>>)> {
    seq![
        ("width"@, "Total width in pixels"@, "width=150"@, None),
        ("height"@, "Total height in pixels"@, "height=50"@, None),
        ("positive"@, "Color for bars above zero"@, "positive=success"@, None),
        ("up"@, "Alias for positive"@, "up=accent"@, None),
        ("negative"@, "Color for bars below zero"@, "negative=error"@, None),
        ("down"@, "Alias for negative"@, "down=pink"@, None),
        ("bar_width"@, "Width of each bar"@, "bar_width=4"@, None),
        ("bar"@, "Alias for bar_width"@, "bar=3"@, None),
        ("gap"@, "Gap between bars"@, "gap=2"@, None),
        ("center"@, "Show center line"@, "center=true"@, Some(seq![("true"@, "Show center line"@), ("false"@, "Hide center line (default)"@)])),
    ]
}

/// The parameters of waveforms.
pub fn waveform_params() -> (r: Vec<ParamInfo>)
    ensures
        params_view(r@) == waveform_params_spec(),
{
    let mut r: Vec<ParamInfo> = Vec::new();
    r.push(ParamInfo { name: "width", description: "Total width in pixels", example: "width=150", values: None });
    r.push(ParamInfo { name: "height", description: "Total height in pixels", example: "height=50", values: None });
    r.push(ParamInfo { name: "positive", description: "Color for bars above zero", example: "positive=success", values: None });
    r.push(ParamInfo { name: "up", description: "Alias for positive", example: "up=accent", values: None });
    r.push(ParamInfo { name: "negative", description: "Color for bars below zero", example: "negative=error", values: None });
    r.push(ParamInfo { name: "down", description: "Alias for negative", example: "down=pink", values: None });
    r.push(ParamInfo { name: "bar_width", description: "Width of each bar", example: "bar_width=4", values: None });
    r.push(ParamInfo { name: "bar", description: "Alias for bar_width", example: "bar=3", values: None });
    r.push(ParamInfo { name: "gap", description: "Gap between bars", example: "gap=2", values: None });
    let mut v: Vec<(&'static str, &'static str)> = Vec::new();
    v.push(("true", "Show center line"));
    v.push(("false", "Hide center line (default)"));
    assert(pairs_view(v@) =~= seq![("true"@, "Show center line"@), ("false"@, "Hide center line (default)"@)]);
    r.push(ParamInfo { name: "center", description: "Show center line", example: "center=true", values: Some(v) });
    assert(params_view(r@) =~= waveform_params_spec());
    r
}

/// The live badge sources: name, description and metrics.
pub open spec fn live_sources_spec() -> Seq<(Seq<char>, Seq<char>, Seq<(Seq<char>, Seq<char>)>)> {
    seq![
        ("github"@, "GitHub repository metrics"@, seq![("stars"@, "Repository star count"@), ("forks"@, "Fork count"@), ("issues"@, "Open issue count"@), ("watchers"@, "Watcher count"@), ("size"@, "Repository size"@), ("language"@, "Primary programming language"@), ("license"@, "SPDX license identifier"@), ("archived"@, "Is repository archived"@), ("branch"@, "Default branch name"@), ("topics"@, "Repository topics"@), ("description"@, "Repository description"@)]),
        ("npm"@, "npm package metrics"@, seq![("version"@, "Latest stable version"@), ("license"@, "Package license"@), ("next"@, "Latest @next tag version"@), ("beta"@, "Latest @beta tag version"@), ("description"@, "Package description"@)]),
        ("crates"@, "crates.io package metrics"@, seq![("version"@, "Latest version"@), ("downloads"@, "Total download count"@), ("description"@, "Crate description"@)]),
        ("pypi"@, "PyPI package metrics"@, seq![("version"@, "Latest version"@), ("license"@, "Package license"@), ("author"@, "Package author"@), ("python"@, "Required Python version"@), ("summary"@, "Package summary"@)]),
        ("codecov"@, "Codecov coverage metrics"@, seq![("coverage"@, "Coverage percentage"@), ("lines"@, "Total lines tracked"@), ("hits"@, "Lines with coverage"@), ("misses"@, "Lines without coverage"@), ("files"@, "Number of files tracked"@), ("branches"@, "Branch coverage count"@)]),
        ("actions"@, "GitHub Actions workflow status"@, seq![("run_number"@, "Workflow run number"@), ("workflow"@, "Workflow name"@), ("event"@, "Trigger event"@), ("branch"@, "Branch name"@)]),
        ("docker"@, "Docker Hub image metrics"@, seq![("pulls"@, "Total pull count"@), ("pulls_raw"@, "Unformatted pull count"@), ("stars"@, "Star count"@), ("tag"@, "Latest tag"@), ("description"@, "Image description"@), ("official"@, "Official or Community"@)]),
        ("packagist"@, "Packagist (PHP) package metrics"@, seq![("version"@, "Latest stable version"@), ("downloads"@, "Total download count"@), ("downloads_raw"@, "Unformatted download count"@), ("monthly"@, "Monthly downloads"@), ("daily"@, "Daily downloads"@), ("stars"@, "Star/faver count"@), ("license"@, "Package license"@), ("php"@, "Required PHP version"@), ("description"@, "Package description"@)]),
        ("rubygems"@, "RubyGems package metrics"@, seq![("version"@, "Latest version"@), ("downloads"@, "Total download count"@), ("downloads_raw"@, "Unformatted download count"@), ("version_downloads"@, "Downloads for latest version"@), ("license"@, "Gem license"@), ("authors"@, "Gem authors"@), ("info"@, "Gem info"@), ("ruby"@, "Required Ruby version"@)]),
        ("nuget"@, "NuGet (.NET) package metrics"@, seq![("version"@, "Latest version"@), ("downloads"@, "Total download count"@), ("downloads_raw"@, "Unformatted download count"@), ("description"@, "Package description"@), ("authors"@, "Package authors"@), ("license"@, "Package license"@)]),
    ]
}

/// The view of a live source.
pub open spec fn source_view(s: (&'static str, &'static str, Vec<(&'static str, &'static str)>)) -> (Seq<char>, Seq<char>, Seq<(Seq<char>, Seq<char>)>) {
    (s.0@, s.1@, pairs_view(s.2@))
}

/// The live badge sources with their metrics.
pub fn live_sources() -> (r: Vec<(&'static str, &'static str, Vec<(&'static str, &'static str)>)>)
    ensures
        r@.map_values(|s: (&'static str, &'static str, Vec<(&'static str, &'static str)>)| source_view(s)) == live_sources_spec(),
{
    let mut r: Vec<(&'static str, &'static str, Vec<(&'static str, &'static str)>)> = Vec::new();
    let mut m: Vec<(&'static str, &'static str)> = Vec::new();
    m.push(("stars", "Repository star count"));
    m.push(("forks", "Fork count"));
    m.push(("issues", "Open issue count"));
    m.push(("watchers", "Watcher count"));
    m.push(("size", "Repository size"));
    m.push(("language", "Primary programming language"));
    m.push(("license", "SPDX license identifier"));
    m.push(("archived", "Is repository archived"));
    m.push(("branch", "Default branch name"));
    m.push(("topics", "Repository topics"));
    m.push(("description", "Repository description"));
    assert(pairs_view(m@) =~= seq![("stars"@, "Repository star count"@), ("forks"@, "Fork count"@), ("issues"@, "Open issue count"@), ("watchers"@, "Watcher count"@), ("size"@, "Repository size"@), ("language"@, "Primary programming language"@), ("license"@, "SPDX license identifier"@), ("archived"@, "Is repository archived"@), ("branch"@, "Default branch name"@), ("topics"@, "Repository topics"@), ("description"@, "Repository description"@)]);
    r.push(("github", "GitHub repository metrics", m));
    let mut m: Vec<(&'static str, &'static str)> = Vec::new();
    m.push(("version", "Latest stable version"));
    m.push(("license", "Package license"));
    m.push(("next", "Latest @next tag version"));
    m.push(("beta", "Latest @beta tag version"));
    m.push(("description", "Package description"));
    assert(pairs_view(m@) =~= seq![("version"@, "Latest stable version"@), ("license"@, "Package license"@), ("next"@, "Latest @next tag version"@), ("beta"@, "Latest @beta tag version"@), ("description"@, "Package description"@)]);
    r.push(("npm", "npm package metrics", m));
    let mut m: Vec<(&'static str, &'static str)> = Vec::new();
    m.push(("version", "Latest version"));
    m.push(("downloads", "Total download count"));
    m.push(("description", "Crate description"));
    assert(pairs_view(m@) =~= seq![("version"@, "Latest version"@), ("downloads"@, "Total download count"@), ("description"@, "Crate description"@)]);
    r.push(("crates", "crates.io package metrics", m));
    let mut m: Vec<(&'static str, &'static str)> = Vec::new();
    m.push(("version", "Latest version"));
    m.push(("license", "Package license"));
    m.push(("author", "Package author"));
    m.push(("python", "Required Python version"));
    m.push(("summary", "Package summary"));
    assert(pairs_view(m@) =~= seq![("version"@, "Latest version"@), ("license"@, "Package license"@), ("author"@, "Package author"@), ("python"@, "Required Python version"@), ("summary"@, "Package summary"@)]);
    r.push(("pypi", "PyPI package metrics", m));
    let mut m: Vec<(&'static str, &'static str)> = Vec::new();
    m.push(("coverage", "Coverage percentage"));
    m.push(("lines", "Total lines tracked"));
    m.push(("hits", "Lines with coverage"));
    m.push(("misses", "Lines without coverage"));
    m.push(("files", "Number of files tracked"));
    m.push(("branches", "Branch coverage count"));
    assert(pairs_view(m@) =~= seq![("coverage"@, "Coverage percentage"@), ("lines"@, "Total lines tracked"@), ("hits"@, "Lines with coverage"@), ("misses"@, "Lines without coverage"@), ("files"@, "Number of files tracked"@), ("branches"@, "Branch coverage count"@)]);
    r.push(("codecov", "Codecov coverage metrics", m));
    let mut m: Vec<(&'static str, &'static str)> = Vec::new();
    m.push(("run_number", "Workflow run number"));
    m.push(("workflow", "Workflow name"));
    m.push(("event", "Trigger event"));
    m.push(("branch", "Branch name"));
    assert(pairs_view(m@) =~= seq![("run_number"@, "Workflow run number"@), ("workflow"@, "Workflow name"@), ("event"@, "Trigger event"@), ("branch"@, "Branch name"@)]);
    r.push(("actions", "GitHub Actions workflow status", m));
    let mut m: Vec<(&'static str, &'static str)> = Vec::new();
    m.push(("pulls", "Total pull count"));
    m.push(("pulls_raw", "Unformatted pull count"));
    m.push(("stars", "Star count"));
    m.push(("tag", "Latest tag"));
    m.push(("description", "Image description"));
    m.push(("official", "Official or Community"));
    assert(pairs_view(m@) =~= seq![("pulls"@, "Total pull count"@), ("pulls_raw"@, "Unformatted pull count"@), ("stars"@, "Star count"@), ("tag"@, "Latest tag"@), ("description"@, "Image description"@), ("official"@, "Official or Community"@)]);
    r.push(("docker", "Docker Hub image metrics", m));
    let mut m: Vec<(&'static str, &'static str)> = Vec::new();
    m.push(("version", "Latest stable version"));
    m.push(("downloads", "Total download count"));
    m.push(("downloads_raw", "Unformatted download count"));
    m.push(("monthly", "Monthly downloads"));
    m.push(("daily", "Daily downloads"));
    m.push(("stars", "Star/faver count"));
    m.push(("license", "Package license"));
    m.push(("php", "Required PHP version"));
    m.push(("description", "Package description"));
    assert(pairs_view(m@) =~= seq![("version"@, "Latest stable version"@), ("downloads"@, "Total download count"@), ("downloads_raw"@, "Unformatted download count"@), ("monthly"@, "Monthly downloads"@), ("daily"@, "Daily downloads"@), ("stars"@, "Star/faver count"@), ("license"@, "Package license"@), ("php"@, "Required PHP version"@), ("description"@, "Package description"@)]);
    r.push(("packagist", "Packagist (PHP) package metrics", m));
    let mut m: Vec<(&'static str, &'static str)> = Vec::new();
    m.push(("version", "Latest version"));
    m.push(("downloads", "Total download count"));
    m.push(("downloads_raw", "Unformatted download count"));
    m.push(("version_downloads", "Downloads for latest version"));
    m.push(("license", "Gem license"));
    m.push(("authors", "Gem authors"));
    m.push(("info", "Gem info"));
    m.push(("ruby", "Required Ruby version"));
    assert(pairs_view(m@) =~= seq![("version"@, "Latest version"@), ("downloads"@, "Total download count"@), ("downloads_raw"@, "Unformatted download count"@), ("version_downloads"@, "Downloads for latest version"@), ("license"@, "Gem license"@), ("authors"@, "Gem authors"@), ("info"@, "Gem info"@), ("ruby"@, "Required Ruby version"@)]);
    r.push(("rubygems", "RubyGems package metrics", m));
    let mut m: Vec<(&'static str, &'static str)> = Vec::new();
    m.push(("version", "Latest version"));
    m.push(("downloads", "Total download count"));
    m.push(("downloads_raw", "Unformatted download count"));
    m.push(("description", "Package description"));
    m.push(("authors", "Package authors"));
    m.push(("license", "Package license"));
    assert(pairs_view(m@) =~= seq![("version"@, "Latest version"@), ("downloads"@, "Total download count"@), ("downloads_raw"@, "Unformatted download count"@), ("description"@, "Package description"@), ("authors"@, "Package authors"@), ("license"@, "Package license"@)]);
    r.push(("nuget", "NuGet (.NET) package metrics", m));
    assert(r@.map_values(|s: (&'static str, &'static str, Vec<(&'static str, &'static str)>)| source_view(s)) =~= live_sources_spec());
    r
}
/// The views of a list of string slices.
pub open spec fn str_views<'a>(v: Seq<&'a str>) -> Seq<Seq<char>> {
    v.map_values(|s: &'a str| s@)
}

/// The names of the live sources.
pub open spec fn live_source_names() -> Seq<Seq<char>> {
    live_sources_spec().map_values(|s: (Seq<char>, Seq<char>, Seq<(Seq<char>, Seq<char>)>)| s.0)
}

/// The names of the valid live sources, in order.
pub fn valid_live_sources() -> (r: Vec<&'static str>)
    ensures
        str_views(r@) == live_source_names(),
{
    let all = live_sources();
    let mut r: Vec<&'static str> = Vec::new();
    let mut i: usize = 0;
    while i < all.len()
        invariant
            i <= all@.len(),
            all@.map_values(|s: (&'static str, &'static str, Vec<(&'static str, &'static str)>)| source_view(s))
                == live_sources_spec(),
            str_views(r@) == live_source_names().take(i as int),
        decreases all.len() - i,
    {
        assert(live_sources_spec()[i as int] == source_view(all@[i as int]));
        assert(live_source_names()[i as int] == all@[i as int].0@);
        let ghost before = r@;
        r.push(all[i].0);
        assert(str_views(r@) =~= str_views(before).push(all@[i as int].0@));
        i = i + 1;
        assert(str_views(r@) =~= live_source_names().take(i as int));
    }
    assert(live_source_names().take(i as int) =~= live_source_names());
    r
}

/// The position of the first live source named `source` at or after `k`, or
/// the number of sources.
pub open spec fn source_pos(source: Seq<char>, k: int) -> int
    decreases live_sources_spec().len() - k,
{
    if k >= live_sources_spec().len() {
        live_sources_spec().len() as int
    } else if live_sources_spec()[k].0 == source {
        k
    } else {
        source_pos(source, k + 1)
    }
}

/// The metrics of a live source, if it is one.
pub open spec fn source_metrics(source: Seq<char>) -> Option<Seq<(Seq<char>, Seq<char>)>> {
    let i = source_pos(source, 0);
    if i < live_sources_spec().len() {
        Some(live_sources_spec()[i].2)
    } else {
        None
    }
}

/// The metrics of a live source.
pub fn metrics_for_source(source: &str) -> (r: Option<Vec<(&'static str, &'static str)>>)
    ensures
        match source_metrics(source@) {
            Some(m) => r matches Some(v) && pairs_view(v@) == m,
            None => r is None,
        },
{
    let mut all = live_sources();
    let ghost spec = live_sources_spec();
    let mut i: usize = 0;
    while i < all.len()
        invariant
            i <= all@.len(),
            all@.map_values(|s: (&'static str, &'static str, Vec<(&'static str, &'static str)>)| source_view(s)) == spec,
            spec == live_sources_spec(),
            source_pos(source@, 0) == source_pos(source@, i as int),
        decreases all.len() - i,
    {
        if crate::namemap::str_eq(all[i].0, source) {
            assert(spec[i as int].0 == all@[i as int].0@);
            let (_, _, m) = all.remove(i);
            return Some(m);
        }
        assert(spec[i as int].0 == all@[i as int].0@);
        i = i + 1;
    }
    None
}

/// Whether `metric` is a metric of the live source `source`.
pub fn is_valid_metric(source: &str, metric: &str) -> (b: bool)
    ensures
        b == match source_metrics(source@) {
            Some(m) => exists|i: int| 0 <= i < m.len() && (#[trigger] m[i]).0 == metric@,
            None => false,
        },
{
    match metrics_for_source(source) {
        Some(m) => {
            let mut i: usize = 0;
            while i < m.len()
                invariant
                    i <= m@.len(),
                    source_metrics(source@) == Some(pairs_view(m@)),
                    forall|j: int| 0 <= j < i ==> (#[trigger] pairs_view(m@)[j]).0 != metric@,
                decreases m.len() - i,
            {
                if crate::namemap::str_eq(m[i].0, metric) {
                    proof {
                        let sm = pairs_view(m@);
                        assert(sm[i as int].0 == metric@);
                        assert(exists|k: int| 0 <= k < sm.len() && (#[trigger] sm[k]).0 == metric@);
                        assert(source_metrics(source@) == Some(sm));
                        assert(source_metrics(source@).unwrap() == sm);
                    }
                    return true;
                }
                i = i + 1;
            }
            false
        },
        None => false,
    }
}

/// The names of the tech badge parameters.
pub open spec fn tech_param_names() -> Seq<Seq<char>> {
    names_in(tech_params_spec())
}

/// The names of the tech badge parameters, in order.
pub fn valid_tech_param_names() -> (r: Vec<&'static str>)
    ensures
        str_views(r@) == tech_param_names(),
{
    let all = tech_params();
    let mut r: Vec<&'static str> = Vec::new();
    let mut i: usize = 0;
    while i < all.len()
        invariant
            i <= all@.len(),
            params_view(all@) == tech_params_spec(),
            str_views(r@) == tech_param_names().take(i as int),
        decreases all.len() - i,
    {
        assert(tech_params_spec()[i as int] == param_view(all@[i as int]));
        assert(tech_param_names()[i as int] == all@[i as int].name@);
        let ghost before = r@;
        r.push(all[i].name);
        assert(str_views(r@) =~= str_views(before).push(all@[i as int].name@));
        i = i + 1;
        assert(str_views(r@) =~= tech_param_names().take(i as int));
    }
    assert(tech_param_names().take(i as int) =~= tech_param_names());
    r
}

/// Whether `name` is a tech badge parameter.
pub fn is_valid_tech_param(name: &str) -> (b: bool)
    ensures
        b == tech_param_names().contains(name@),
{
    let all = valid_tech_param_names();
    let mut i: usize = 0;
    while i < all.len()
        invariant
            i <= all@.len(),
            str_views(all@) == tech_param_names(),
            forall|j: int| 0 <= j < i ==> tech_param_names()[j] != name@,
        decreases all.len() - i,
    {
        if crate::namemap::str_eq(all[i], name) {
            assert(tech_param_names()[i as int] == name@);
            return true;
        }
        i = i + 1;
    }
    false
}

/// The names among the first `n` that are no tech badge parameter, in order.
pub open spec fn unknown_names(names: Seq<Seq<char>>, n: int) -> Seq<Seq<char>>
    decreases n,
{
    if n <= 0 {
        Seq::empty()
    } else {
        let r = unknown_names(names, n - 1);
        if tech_param_names().contains(names[n - 1]) {
            r
        } else {
            r.push(names[n - 1])
        }
    }
}

/// The given parameter names that tech badges do not know, in order.
pub fn unknown_tech_params<'a>(params: &[&'a str]) -> (r: Vec<&'a str>)
    ensures
        str_views(r@) == unknown_names(str_views(params@), params@.len() as int),
{
    let ghost names = str_views(params@);
    let mut r: Vec<&'a str> = Vec::new();
    let mut i: usize = 0;
    while i < params.len()
        invariant
            i <= params@.len(),
            names == str_views(params@),
            str_views(r@) == unknown_names(names, i as int),
        decreases params.len() - i,
    {
        let ghost before = r@;
        if !is_valid_tech_param(params[i]) {
            r.push(params[i]);
            assert(str_views(r@) =~= str_views(before).push(names[i as int]));
        }
        i = i + 1;
    }
    r
}

/// The parameters of a visualization component: progress, donut, gauge,
/// sparkline, rating or waveform.
pub open spec fn visualization_params(component: Seq<char>) -> Option<Seq<(Seq<char>, Seq<char>, Seq<char>, Option<Seq<(Seq<char>, Seq<char>)>>)>> {
    if component == "progress"@ {
        Some(progress_params_spec())
    } else if component == "donut"@ {
        Some(donut_params_spec())
    } else if component == "gauge"@ {
        Some(gauge_params_spec())
    } else if component == "sparkline"@ {
        Some(sparkline_params_spec())
    } else if component == "rating"@ {
        Some(rating_params_spec())
    } else if component == "waveform"@ {
        Some(waveform_params_spec())
    } else {
        None
    }
}

/// The parameters of a visualization component.
pub fn params_for_visualization(component: &str) -> (r: Option<Vec<ParamInfo>>)
    ensures
        match visualization_params(component@) {
            Some(p) => r matches Some(v) && params_view(v@) == p,
            None => r is None,
        },
{
    if crate::namemap::str_eq(component, "progress") {
        Some(progress_params())
    } else if crate::namemap::str_eq(component, "donut") {
        Some(donut_params())
    } else if crate::namemap::str_eq(component, "gauge") {
        Some(gauge_params())
    } else if crate::namemap::str_eq(component, "sparkline") {
        Some(sparkline_params())
    } else if crate::namemap::str_eq(component, "rating") {
        Some(rating_params())
    } else if crate::namemap::str_eq(component, "waveform") {
        Some(waveform_params())
    } else {
        None
    }
}

} // verus!
