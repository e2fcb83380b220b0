use mdfx::components::handlers::{
    handle_gauge, handle_license, handle_rating, handle_sparkline, handle_version, handle_waveform,
};
use mdfx::components::tech_group::handle_tech_group;
use mdfx::components::{ComponentOutput, ComponentsRenderer};
use mdfx::namemap::NameMap;
use mdfx::primitive::Primitive;

// The built-in palette leaves hex colors as they are, so it stands in for an
// identity color resolver on the hex values used below.
fn colors() -> ComponentsRenderer {
    ComponentsRenderer::new().unwrap()
}

fn params(pairs: &[(&str, &str)]) -> NameMap<String> {
    let mut p = NameMap::new();
    for (k, v) in pairs {
        p.insert(k.to_string(), v.to_string());
    }
    p
}

fn numbers(values: &[String]) -> Vec<f32> {
    values.iter().map(|v| v.parse::<f32>().unwrap()).collect()
}

#[test]
fn gauge_test_handle_missing_args() {
    let result = handle_gauge(&[], &NameMap::new(), &colors());
    assert!(result.is_err());
}

#[test]
fn test_handle_invalid_percent() {
    let result = handle_gauge(&["abc".to_string()], &NameMap::new(), &colors());
    assert!(result.is_err());
}

#[test]
fn gauge_test_handle_colors() {
    let p = params(&[("track", "AABBCC"), ("fill", "FF0000")]);
    let result = handle_gauge(&["75".to_string()], &p, &colors());
    assert!(result.is_ok());
    if let Ok(ComponentOutput::Primitive(Primitive::Gauge { track_color, fill_color, .. })) = result {
        assert_eq!(track_color, "AABBCC");
        assert_eq!(fill_color, "FF0000");
    } else {
        panic!("Expected Gauge primitive");
    }
}

#[test]
fn test_handle_thumb() {
    let p = params(&[("thumb", "12"), ("thumb_color", "00FF00")]);
    let result = handle_gauge(&["50".to_string()], &p, &colors());
    assert!(result.is_ok());
    if let Ok(ComponentOutput::Primitive(Primitive::Gauge { thumb_size, thumb_color, .. })) = result {
        assert!(thumb_size.is_some());
        assert_eq!(thumb_size.unwrap(), 12);
        assert_eq!(thumb_color, Some("00FF00".to_string()));
    } else {
        panic!("Expected Gauge primitive");
    }
}

#[test]
fn gauge_test_handle_defaults() {
    let result = handle_gauge(&["50".to_string()], &NameMap::new(), &colors());
    assert!(result.is_ok());
    if let Ok(ComponentOutput::Primitive(Primitive::Gauge { size, thickness, show_label, thumb_size, .. })) = result {
        assert_eq!(size, 80);
        assert_eq!(thickness, 8);
        assert!(!show_label);
        assert!(thumb_size.is_none());
    } else {
        panic!("Expected Gauge primitive");
    }
}

#[test]
fn license_test_handle_basic() {
    let result = handle_license(&["MIT".to_string()], &NameMap::new(), "flat", &colors());
    assert!(result.is_ok());
    if let Ok(ComponentOutput::Primitive(Primitive::License { license, style, .. })) = result {
        assert_eq!(license, "MIT");
        assert_eq!(style, "flat");
    } else {
        panic!("Expected License primitive");
    }
}

#[test]
fn test_handle_with_custom_label() {
    let p = params(&[("label", "Open Source")]);
    let result = handle_license(&["MIT".to_string()], &p, "flat", &colors());
    assert!(result.is_ok());
    if let Ok(ComponentOutput::Primitive(Primitive::License { label, .. })) = result {
        assert_eq!(label, Some("Open Source".to_string()));
    } else {
        panic!("Expected License primitive");
    }
}

#[test]
fn license_test_handle_with_colors() {
    let p = params(&[("bg", "FF0000"), ("text", "FFFFFF")]);
    let result = handle_license(&["MIT".to_string()], &p, "flat", &colors());
    assert!(result.is_ok());
    if let Ok(ComponentOutput::Primitive(Primitive::License { bg_color, text_color, .. })) = result {
        assert_eq!(bg_color, Some("FF0000".to_string()));
        assert_eq!(text_color, Some("FFFFFF".to_string()));
    } else {
        panic!("Expected License primitive");
    }
}

#[test]
fn test_handle_missing_license() {
    let result = handle_license(&[], &NameMap::new(), "flat", &colors());
    assert!(result.is_err());
}

#[test]
fn rating_test_handle_missing_args() {
    let result = handle_rating(&[], &NameMap::new(), &colors());
    assert!(result.is_err());
}

#[test]
fn test_handle_invalid_value() {
    let result = handle_rating(&["abc".to_string()], &NameMap::new(), &colors());
    assert!(result.is_err());
}

#[test]
fn rating_test_handle_colors() {
    let p = params(&[("fill", "FFD700"), ("empty", "CCCCCC")]);
    let result = handle_rating(&["3.5".to_string()], &p, &colors());
    assert!(result.is_ok());
    if let Ok(ComponentOutput::Primitive(Primitive::Rating { fill_color, empty_color, .. })) = result {
        assert_eq!(fill_color, "FFD700");
        assert_eq!(empty_color, "CCCCCC");
    } else {
        panic!("Expected Rating primitive");
    }
}

#[test]
fn rating_test_handle_defaults() {
    let result = handle_rating(&["4".to_string()], &NameMap::new(), &colors());
    assert!(result.is_ok());
    if let Ok(ComponentOutput::Primitive(Primitive::Rating { max, size, spacing, icon, .. })) = result {
        assert_eq!(max, 5);
        assert_eq!(size, 20);
        assert_eq!(spacing, 2);
        assert_eq!(icon, "star");
    } else {
        panic!("Expected Rating primitive");
    }
}

#[test]
fn rating_values_as_written() {
    for (input, expected) in [("0", 0.0f32), ("3", 3.0), ("3.5", 3.5), ("4.75", 4.75), ("5", 5.0)] {
        let result = handle_rating(&[input.to_string()], &NameMap::new(), &colors());
        if let Ok(ComponentOutput::Primitive(Primitive::Rating { value, .. })) = result {
            assert!((value.parse::<f32>().unwrap() - expected).abs() < 0.001);
        } else {
            panic!("Expected Rating primitive");
        }
    }
}

#[test]
fn rating_invalid_value_message() {
    let result = handle_rating(&["many".to_string()], &NameMap::new(), &colors());
    assert_eq!(result.unwrap_err().to_string(), "Parse error: Invalid rating value 'many' - must be a number");
}

#[test]
fn sparkline_test_handle_missing_args() {
    let result = handle_sparkline(&[], &NameMap::new(), &colors());
    assert!(result.is_err());
}

#[test]
fn sparkline_test_handle_no_numeric_values() {
    let result = handle_sparkline(&["abc,def".to_string()], &NameMap::new(), &colors());
    assert!(result.is_err());
}

#[test]
fn test_handle_mixed_values_skips_invalid() {
    let result = handle_sparkline(&["1,abc,3".to_string()], &NameMap::new(), &colors());
    assert!(result.is_ok());
    if let Ok(ComponentOutput::Primitive(Primitive::Sparkline { values, .. })) = result {
        assert_eq!(numbers(&values), vec![1.0, 3.0]);
    } else {
        panic!("Expected Sparkline primitive");
    }
}

#[test]
fn sparkline_test_handle_colors() {
    let p = params(&[("fill", "FF0000"), ("stroke", "0000FF"), ("track", "CCCCCC")]);
    let result = handle_sparkline(&["1,2,3".to_string()], &p, &colors());
    assert!(result.is_ok());
    if let Ok(ComponentOutput::Primitive(Primitive::Sparkline { fill_color, stroke_color, track_color, .. })) = result {
        assert_eq!(fill_color, "FF0000");
        assert_eq!(stroke_color, Some("0000FF".to_string()));
        assert_eq!(track_color, Some("CCCCCC".to_string()));
    } else {
        panic!("Expected Sparkline primitive");
    }
}

#[test]
fn sparkline_test_handle_defaults() {
    let result = handle_sparkline(&["1,2,3".to_string()], &NameMap::new(), &colors());
    assert!(result.is_ok());
    if let Ok(ComponentOutput::Primitive(Primitive::Sparkline {
        width,
        height,
        chart_type,
        stroke_width,
        show_dots,
        dot_radius,
        stroke_color,
        track_color,
        ..
    })) = result
    {
        assert_eq!(width, 100);
        assert_eq!(height, 20);
        assert_eq!(chart_type, "line");
        assert_eq!(stroke_width, 2);
        assert!(!show_dots);
        assert_eq!(dot_radius, 2);
        assert!(stroke_color.is_none());
        assert!(track_color.is_none());
    } else {
        panic!("Expected Sparkline primitive");
    }
}

#[test]
fn sparkline_values_parsed() {
    let cases: [(&str, Vec<f32>); 5] = [
        ("1,2,3,4,5", vec![1.0, 2.0, 3.0, 4.0, 5.0]),
        ("10, 20, 30", vec![10.0, 20.0, 30.0]),
        ("1.5,2.5,3.5", vec![1.5, 2.5, 3.5]),
        ("-1,0,1", vec![-1.0, 0.0, 1.0]),
        ("100", vec![100.0]),
    ];
    for (input, expected) in cases {
        let result = handle_sparkline(&[input.to_string()], &NameMap::new(), &colors());
        if let Ok(ComponentOutput::Primitive(Primitive::Sparkline { values, .. })) = result {
            assert_eq!(numbers(&values), expected);
        } else {
            panic!("Expected Sparkline primitive");
        }
    }
}

#[test]
fn sparkline_number_forms() {
    let result = handle_sparkline(&["1e3, .5, 5., inf, -NaN, +2, 1_0, ., e5, 1e".to_string()], &NameMap::new(), &colors());
    if let Ok(ComponentOutput::Primitive(Primitive::Sparkline { values, .. })) = result {
        assert_eq!(values, vec!["1e3", ".5", "5.", "inf", "-NaN", "+2"]);
        for v in &values {
            assert!(v.parse::<f32>().is_ok());
        }
    } else {
        panic!("Expected Sparkline primitive");
    }
}

#[test]
fn version_test_handle_basic() {
    let result = handle_version(&["1.0.0".to_string()], &NameMap::new(), "flat", &colors());
    assert!(result.is_ok());
    if let Ok(ComponentOutput::Primitive(Primitive::Version { version, style, .. })) = result {
        assert_eq!(version, "1.0.0");
        assert_eq!(style, "flat");
    } else {
        panic!("Expected Version primitive");
    }
}

#[test]
fn test_handle_with_status_override() {
    let p = params(&[("status", "deprecated")]);
    let result = handle_version(&["1.0.0".to_string()], &p, "flat", &colors());
    assert!(result.is_ok());
    if let Ok(ComponentOutput::Primitive(Primitive::Version { status, .. })) = result {
        assert_eq!(status, Some("deprecated".to_string()));
    } else {
        panic!("Expected Version primitive");
    }
}

#[test]
fn version_test_handle_with_colors() {
    let p = params(&[("bg", "FF0000"), ("text", "FFFFFF")]);
    let result = handle_version(&["1.0.0".to_string()], &p, "flat", &colors());
    assert!(result.is_ok());
    if let Ok(ComponentOutput::Primitive(Primitive::Version { bg_color, text_color, .. })) = result {
        assert_eq!(bg_color, Some("FF0000".to_string()));
        assert_eq!(text_color, Some("FFFFFF".to_string()));
    } else {
        panic!("Expected Version primitive");
    }
}

#[test]
fn test_handle_missing_version() {
    let result = handle_version(&[], &NameMap::new(), "flat", &colors());
    assert!(result.is_err());
}

#[test]
fn waveform_test_handle_missing_args() {
    let result = handle_waveform(&[], &NameMap::new(), &colors());
    assert!(result.is_err());
}

#[test]
fn waveform_test_handle_no_numeric_values() {
    let result = handle_waveform(&["abc,def".to_string()], &NameMap::new(), &colors());
    assert!(result.is_err());
}

#[test]
fn test_handle_bar_alias() {
    let p = params(&[("bar", "6")]);
    let result = handle_waveform(&["1,-1".to_string()], &p, &colors());
    assert!(result.is_ok());
    if let Ok(ComponentOutput::Primitive(Primitive::Waveform { bar_width, .. })) = result {
        assert_eq!(bar_width, 6);
    } else {
        panic!("Expected Waveform primitive");
    }
}

#[test]
fn waveform_test_handle_colors() {
    let p = params(&[("positive", "00FF00"), ("negative", "FF0000"), ("track", "CCCCCC")]);
    let result = handle_waveform(&["1,-1".to_string()], &p, &colors());
    assert!(result.is_ok());
    if let Ok(ComponentOutput::Primitive(Primitive::Waveform { positive_color, negative_color, track_color, .. })) = result {
        assert_eq!(positive_color, "00FF00");
        assert_eq!(negative_color, "FF0000");
        assert_eq!(track_color, Some("CCCCCC".to_string()));
    } else {
        panic!("Expected Waveform primitive");
    }
}

#[test]
fn test_handle_color_aliases() {
    let p = params(&[("up", "00FF00"), ("down", "FF0000")]);
    let result = handle_waveform(&["1,-1".to_string()], &p, &colors());
    assert!(result.is_ok());
    if let Ok(ComponentOutput::Primitive(Primitive::Waveform { positive_color, negative_color, .. })) = result {
        assert_eq!(positive_color, "00FF00");
        assert_eq!(negative_color, "FF0000");
    } else {
        panic!("Expected Waveform primitive");
    }
}

#[test]
fn test_handle_center_color() {
    let p = params(&[("center", "true"), ("center_color", "888888")]);
    let result = handle_waveform(&["1,-1".to_string()], &p, &colors());
    assert!(result.is_ok());
    if let Ok(ComponentOutput::Primitive(Primitive::Waveform { show_center_line, center_line_color, .. })) = result {
        assert!(show_center_line);
        assert_eq!(center_line_color, Some("888888".to_string()));
    } else {
        panic!("Expected Waveform primitive");
    }
}

#[test]
fn waveform_test_handle_defaults() {
    let result = handle_waveform(&["1,-1".to_string()], &NameMap::new(), &colors());
    assert!(result.is_ok());
    if let Ok(ComponentOutput::Primitive(Primitive::Waveform {
        width,
        height,
        bar_width,
        spacing,
        show_center_line,
        track_color,
        center_line_color,
        ..
    })) = result
    {
        assert_eq!(width, 100);
        assert_eq!(height, 40);
        assert_eq!(bar_width, 3);
        assert_eq!(spacing, 1);
        assert!(!show_center_line);
        assert!(track_color.is_none());
        assert!(center_line_color.is_none());
    } else {
        panic!("Expected Waveform primitive");
    }
}

fn group(pairs: &[(&str, &str)], content: &str) -> String {
    match handle_tech_group(&params(pairs), Some(content)).unwrap() {
        ComponentOutput::Template(t) => t,
        _ => unreachable!("Expected Template output"),
    }
}

#[test]
fn test_existing_corners_not_overwritten() {
    let template = group(&[], "{{ui:tech:rust:corners=all/}}{{ui:tech:typescript/}}");
    assert!(template.contains("corners=all"));
    assert!(template.contains("corners=right"));
}

#[test]
fn test_mixed_with_style_inheritance() {
    let template = group(&[("bg", "1a1a2e")], "{{ui:version:2.0.0/}}{{ui:tech:docker/}}");
    assert_eq!(template.matches("bg=1a1a2e").count(), 2);
    assert!(template.contains("corners=left"));
    assert!(template.contains("corners=right"));
}

#[test]
fn test_ignores_non_groupable_components() {
    let template = group(&[], "{{ui:swatch:ff0000/}}{{ui:tech:rust/}}");
    assert!(!template.contains("corners="));
    assert!(template.contains("{{ui:swatch:ff0000/}}"));
}

#[test]
fn tech_group_corner_assignments() {
    assert_eq!(group(&[], "{{ui:tech:rust/}}"), "{{ui:tech:rust/}}");
    assert_eq!(
        group(&[], "{{ui:tech:rust/}}{{ui:tech:typescript/}}"),
        "{{ui:tech:rust:corners=left/}}{{ui:tech:typescript:corners=right/}}"
    );
    assert_eq!(
        group(&[], "{{ui:tech:rust/}}{{ui:tech:typescript/}}{{ui:tech:docker/}}"),
        "{{ui:tech:rust:corners=left/}}{{ui:tech:typescript:corners=none/}}{{ui:tech:docker:corners=right/}}"
    );
}

#[test]
fn tech_group_style_inheritance() {
    let t = group(&[("bg", "1a1a2e"), ("border", "00ff00")], "{{ui:tech:rust/}}{{ui:tech:go/}}");
    assert_eq!(t.matches("bg=1a1a2e").count(), 2);
    assert_eq!(t.matches("border=00ff00").count(), 2);
    let t = group(&[("bg", "1a1a2e")], "{{ui:tech:rust/}}{{ui:tech:go:bg=custom/}}");
    assert_eq!(t.matches("bg=1a1a2e").count(), 1);
    assert!(t.contains("bg=custom"));
    let t = group(&[("border", "ff0000")], "{{ui:tech:rust/}}");
    assert_eq!(t, "{{ui:tech:rust:border=ff0000/}}");
}

#[test]
fn tech_group_mixed_types() {
    let t = group(&[], "{{ui:version:1.0.0/}}{{ui:tech:rust/}}{{ui:license:MIT/}}");
    assert!(t.contains("version:1.0.0:corners=left"));
    assert!(t.contains("tech:rust:corners=none"));
    assert!(t.contains("license:MIT:corners=right"));
}

#[test]
fn tech_group_gap_wraps_in_row() {
    let t = group(&[("gap", "4")], "{{ui:tech:rust/}}{{ui:tech:go/}}");
    assert_eq!(t, "{{ui:row}}{{ui:tech:rust:corners=left/}}{{ui:tech:go:corners=right/}}{{/ui}}");
    // gap is not passed down, and a group without badges is left alone
    assert_eq!(group(&[("gap", "4")], "plain"), "plain");
}

#[test]
fn tech_group_closing_tag_form() {
    let t = group(&[], "{{ui:tech:rust}}x{{/ui}}{{ui:tech:go/}}");
    assert_eq!(t, "{{ui:tech:rust:corners=left}}x{{/ui}}{{ui:tech:go:corners=right/}}");
}
