//! Rendering-neutral primitives for image-based visual elements.
//!
//! A primitive states what a component means (a colored block, a technology
//! badge, a progress bar, ...) without committing to a backend. Numbers that
//! only a floating-point renderer reads (swatch opacity, chart values) are
//! kept as number texts that `f32::from_str` accepts.

use vstd::prelude::*;

verus! {

/// A semantic visual element produced by a native component.
#[derive(Debug, Clone)]
pub enum Primitive {
    /// Single colored block with optional enhancements.
    Swatch {
        color: String,
        style: String,
        /// Opacity as a number text; the SVG side reads it and keeps it
        /// within 0 to 1.
        opacity: Option<String>,
        width: Option<u32>,
        height: Option<u32>,
        border_color: Option<String>,
        border_width: Option<u32>,
        label: Option<String>,
        label_color: Option<String>,
        icon: Option<String>,
        icon_color: Option<String>,
        rx: Option<u32>,
        ry: Option<u32>,
        shadow: Option<String>,
        gradient: Option<String>,
        stroke_dash: Option<String>,
        logo_size: Option<String>,
        border_top: Option<String>,
        border_right: Option<String>,
        border_bottom: Option<String>,
        border_left: Option<String>,
    },
    /// Technology badge with logo.
    Tech {
        name: String,
        bg_color: String,
        logo_color: String,
        style: String,
        label: Option<String>,
        border_color: Option<String>,
        border_width: Option<u32>,
        rx: Option<u32>,
        corners: Option<[u32; 4]>,
        text_color: Option<String>,
        font: Option<String>,
        source: Option<String>,
        /// Chevron (arrow-shaped) edges.
        chevron: Option<String>,
        /// Background of the left (icon) segment.
        bg_left: Option<String>,
        /// Background of the right (label) segment.
        bg_right: Option<String>,
        /// Raised icon effect, in pixels.
        raised: Option<u32>,
    },
    /// Progress bar with track and fill.
    Progress {
        percent: u8,
        width: u32,
        height: u32,
        track_color: String,
        fill_color: String,
        fill_height: u32,
        rx: u32,
        show_label: bool,
        label_color: Option<String>,
        border_color: Option<String>,
        border_width: u32,
        thumb_size: Option<u32>,
        thumb_width: Option<u32>,
        thumb_color: Option<String>,
        thumb_shape: String,
        thumb_border: Option<String>,
        thumb_border_width: u32,
    },
    /// Ring chart showing a percentage.
    Donut {
        percent: u8,
        size: u32,
        thickness: u32,
        track_color: String,
        fill_color: String,
        show_label: bool,
        label_color: Option<String>,
        thumb_size: Option<u32>,
        thumb_color: Option<String>,
        thumb_border: Option<String>,
        thumb_border_width: u32,
    },
    /// Semi-circular meter showing a percentage.
    Gauge {
        percent: u8,
        size: u32,
        thickness: u32,
        track_color: String,
        fill_color: String,
        show_label: bool,
        label_color: Option<String>,
        thumb_size: Option<u32>,
        thumb_color: Option<String>,
    },
    /// Version badge; its status color is decided by the badge toolkit.
    Version {
        version: String,
        style: String,
        status: Option<String>,
        bg_color: Option<String>,
        text_color: Option<String>,
        prefix: Option<String>,
        border_color: Option<String>,
        border_width: Option<u32>,
        rx: Option<u32>,
    },
    /// License badge; its category color is decided by the badge toolkit.
    License {
        license: String,
        style: String,
        label: Option<String>,
        bg_color: Option<String>,
        text_color: Option<String>,
        border_color: Option<String>,
        border_width: Option<u32>,
        rx: Option<u32>,
    },
    /// Mini inline chart; `values` are the number texts of the data, each
    /// one that `f32::from_str` accepts, turned into floats by the rendering
    /// side.
    Sparkline {
        values: Vec<String>,
        width: u32,
        height: u32,
        chart_type: String,
        fill_color: String,
        stroke_color: Option<String>,
        stroke_width: u32,
        track_color: Option<String>,
        show_dots: bool,
        dot_radius: u32,
    },
    /// Star or heart rating; `value` is the number text as written, one that
    /// `f32::from_str` accepts.
    Rating {
        value: String,
        max: u32,
        size: u32,
        fill_color: String,
        empty_color: String,
        icon: String,
        spacing: u32,
    },
    /// Audio-style bars above and below a center line; `values` are the
    /// number texts of the data, as for `Sparkline`.
    Waveform {
        values: Vec<String>,
        width: u32,
        height: u32,
        positive_color: String,
        negative_color: String,
        bar_width: u32,
        spacing: u32,
        track_color: Option<String>,
        show_center_line: bool,
        center_line_color: Option<String>,
    },
}

impl Primitive {
    /// The default shield style.
    pub fn default_style() -> (r: &'static str)
        ensures
            r@ == "flat-square"@,
    {
        proof {
            reveal_strlit("flat-square");
        }
        "flat-square"
    }

    /// A swatch with just color and style, every other option unset.
    pub fn simple_swatch(color: &str, style: &str) -> (p: Primitive)
        ensures
            p matches Primitive::Swatch { color: c, style: s, opacity, width, height, border_color, border_width, label,
                label_color, icon, icon_color, rx, ry, shadow, gradient, stroke_dash, logo_size, border_top, border_right,
                border_bottom, border_left } && c@ == color@ && s@ == style@ && opacity is None && width is None && height is None
                && border_color is None && border_width is None && label is None && label_color is None && icon is None
                && icon_color is None && rx is None && ry is None && shadow is None && gradient is None && stroke_dash is None
                && logo_size is None && border_top is None && border_right is None && border_bottom is None && border_left is None,
    {
        Primitive::Swatch {
            color: color.to_owned(),
            style: style.to_owned(),
            opacity: None,
            width: None,
            height: None,
            border_color: None,
            border_width: None,
            label: None,
            label_color: None,
            icon: None,
            icon_color: None,
            rx: None,
            ry: None,
            shadow: None,
            gradient: None,
            stroke_dash: None,
            logo_size: None,
            border_top: None,
            border_right: None,
            border_bottom: None,
            border_left: None,
        }
    }

    /// A progress bar with default geometry (100x10, radius 3).
    pub fn simple_progress(percent: u8, track_color: &str, fill_color: &str) -> (p: Primitive)
        ensures
            p matches Primitive::Progress { percent: pc, width, height, track_color: t, fill_color: f, fill_height, rx,
                show_label, label_color, border_color, border_width, thumb_size, thumb_width, thumb_color, thumb_shape,
                thumb_border, thumb_border_width } && pc == (if percent < 100 { percent } else { 100 }) && width == 100
                && height == 10 && t@ == track_color@ && f@ == fill_color@ && fill_height == 10 && rx == 3 && !show_label
                && label_color is None && border_color is None && border_width == 0 && thumb_size is None
                && thumb_width is None && thumb_color is None && thumb_shape@ == "circle"@ && thumb_border is None
                && thumb_border_width == 0,
    {
        proof {
            reveal_strlit("circle");
        }
        Primitive::Progress {
            percent: if percent < 100 { percent } else { 100 },
            width: 100,
            height: 10,
            track_color: track_color.to_owned(),
            fill_color: fill_color.to_owned(),
            fill_height: 10,
            rx: 3,
            show_label: false,
            label_color: None,
            border_color: None,
            border_width: 0,
            thumb_size: None,
            thumb_width: None,
            thumb_color: None,
            thumb_shape: "circle".to_owned(),
            thumb_border: None,
            thumb_border_width: 0,
        }
    }

    /// A donut with default geometry (size 40, thickness 4).
    pub fn simple_donut(percent: u8, track_color: &str, fill_color: &str) -> (p: Primitive)
        ensures
            p matches Primitive::Donut { percent: pc, size, thickness, track_color: t, fill_color: f, show_label,
                label_color, thumb_size, thumb_color, thumb_border, thumb_border_width }
                && pc == (if percent < 100 { percent } else { 100 }) && size == 40 && thickness == 4 && t@ == track_color@
                && f@ == fill_color@ && !show_label && label_color is None && thumb_size is None && thumb_color is None
                && thumb_border is None && thumb_border_width == 0,
    {
        Primitive::Donut {
            percent: if percent < 100 { percent } else { 100 },
            size: 40,
            thickness: 4,
            track_color: track_color.to_owned(),
            fill_color: fill_color.to_owned(),
            show_label: false,
            label_color: None,
            thumb_size: None,
            thumb_color: None,
            thumb_border: None,
            thumb_border_width: 0,
        }
    }

    /// A gauge with default geometry (size 80, thickness 8).
    pub fn simple_gauge(percent: u8, track_color: &str, fill_color: &str) -> (p: Primitive)
        ensures
            p matches Primitive::Gauge { percent: pc, size, thickness, track_color: t, fill_color: f, show_label,
                label_color, thumb_size, thumb_color }
                && pc == (if percent < 100 { percent } else { 100 }) && size == 80 && thickness == 8 && t@ == track_color@
                && f@ == fill_color@ && !show_label && label_color is None && thumb_size is None && thumb_color is None,
    {
        Primitive::Gauge {
            percent: if percent < 100 { percent } else { 100 },
            size: 80,
            thickness: 8,
            track_color: track_color.to_owned(),
            fill_color: fill_color.to_owned(),
            show_label: false,
            label_color: None,
            thumb_size: None,
            thumb_color: None,
        }
    }

    /// A sparkline with default geometry (100x20, line, stroke 2, dots of
    /// radius 2 hidden) over number texts.
    pub fn simple_sparkline(values: Vec<String>, fill_color: &str) -> (p: Primitive)
        requires
            forall|i: int| 0 <= i < values@.len() ==> crate::numeric::float_text(#[trigger] values@[i]@),
        ensures
            p matches Primitive::Sparkline { values: v, width, height, chart_type, fill_color: f, stroke_color, stroke_width,
                track_color, show_dots, dot_radius } && v == values && width == 100 && height == 20
                && chart_type@ == "line"@ && f@ == fill_color@ && stroke_color is None && stroke_width == 2
                && track_color is None && !show_dots && dot_radius == 2,
    {
        Primitive::Sparkline {
            values,
            width: 100,
            height: 20,
            chart_type: "line".to_owned(),
            fill_color: fill_color.to_owned(),
            stroke_color: None,
            stroke_width: 2,
            track_color: None,
            show_dots: false,
            dot_radius: 2,
        }
    }

    /// A five-star rating of size 20 with slate empty stars.
    pub fn simple_rating(value: &str, fill_color: &str) -> (p: Primitive)
        requires
            crate::numeric::float_text(value@),
        ensures
            p matches Primitive::Rating { value: v, max, size, fill_color: f, empty_color, icon, spacing } && v@ == value@
                && max == 5 && size == 20 && f@ == fill_color@ && empty_color@ == "6B7280"@ && icon@ == "star"@
                && spacing == 2,
    {
        Primitive::Rating {
            value: value.to_owned(),
            max: 5,
            size: 20,
            fill_color: fill_color.to_owned(),
            empty_color: "6B7280".to_owned(),
            icon: "star".to_owned(),
            spacing: 2,
        }
    }

    /// A waveform with default geometry (100x40, bars 3 wide, 1 apart, no
    /// track or center line) over number texts.
    pub fn simple_waveform(values: Vec<String>, positive_color: &str, negative_color: &str) -> (p: Primitive)
        requires
            forall|i: int| 0 <= i < values@.len() ==> crate::numeric::float_text(#[trigger] values@[i]@),
        ensures
            p matches Primitive::Waveform { values: v, width, height, positive_color: pc, negative_color: nc, bar_width,
                spacing, track_color, show_center_line, center_line_color } && v == values && width == 100 && height == 40
                && pc@ == positive_color@ && nc@ == negative_color@ && bar_width == 3 && spacing == 1
                && track_color is None && !show_center_line && center_line_color is None,
    {
        Primitive::Waveform {
            values,
            width: 100,
            height: 40,
            positive_color: positive_color.to_owned(),
            negative_color: negative_color.to_owned(),
            bar_width: 3,
            spacing: 1,
            track_color: None,
            show_center_line: false,
            center_line_color: None,
        }
    }

}

} // verus!
