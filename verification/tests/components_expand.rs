use mdfx::components::{ComponentOutput, ComponentsRenderer};
use mdfx::namemap::NameMap;
use mdfx::primitive::Primitive;

fn expand(args: &[&str]) -> ComponentOutput {
    let renderer = ComponentsRenderer::new().unwrap();
    let args: Vec<String> = args.iter().map(|a| a.to_string()).collect();
    renderer.expand("swatch", &args, None).unwrap()
}

#[test]
fn test_expand_swatch_with_arg() {
    match expand(&["accent"]) {
        ComponentOutput::Primitive(Primitive::Swatch { color, .. }) => assert_eq!(color, "F41C80"),
        _ => panic!("Expected Primitive::Swatch"),
    }
}

#[test]
fn test_expand_swatch_with_hex() {
    match expand(&["abc123"]) {
        ComponentOutput::Primitive(Primitive::Swatch { color, .. }) => assert_eq!(color, "abc123"),
        _ => panic!("Expected Primitive::Swatch"),
    }
}

#[test]
fn components_test_expand_swatch_with_opacity() {
    match expand(&["accent", "opacity=0.5"]) {
        ComponentOutput::Primitive(Primitive::Swatch { color, opacity, .. }) => {
            assert_eq!(color, "F41C80");
            assert_eq!(opacity.map(|o| o.parse::<f32>().unwrap()), Some(0.5));
        },
        _ => panic!("Expected Primitive::Swatch"),
    }
}

#[test]
fn mod_test_expand_swatch_with_opacity() {
    match expand(&["pink", "opacity=0.5"]) {
        ComponentOutput::Primitive(Primitive::Swatch { color, opacity, .. }) => {
            assert_eq!(color, "F41C80");
            assert_eq!(opacity.map(|o| o.parse::<f32>().unwrap()), Some(0.5));
        },
        _ => panic!("Expected Primitive::Swatch"),
    }
}

#[test]
fn swatch_opacity_not_a_number_is_dropped() {
    match expand(&["pink", "opacity=half"]) {
        ComponentOutput::Primitive(Primitive::Swatch { opacity, .. }) => assert_eq!(opacity, None),
        _ => panic!("Expected Primitive::Swatch"),
    }
}

#[test]
fn components_test_expand_swatch_with_dimensions() {
    match expand(&["cobalt", "width=40", "height=30"]) {
        ComponentOutput::Primitive(Primitive::Swatch { color, width, height, .. }) => {
            assert_eq!(color, "2B6CB0");
            assert_eq!(width, Some(40));
            assert_eq!(height, Some(30));
        },
        _ => panic!("Expected Primitive::Swatch"),
    }
}

#[test]
fn mod_test_expand_swatch_with_dimensions() {
    match expand(&["cobalt", "width=40", "height=30"]) {
        ComponentOutput::Primitive(Primitive::Swatch { color, width, height, .. }) => {
            assert_eq!(color, "2B6CB0");
            assert_eq!(width, Some(40));
            assert_eq!(height, Some(30));
        },
        _ => panic!("Expected Primitive::Swatch"),
    }
}

#[test]
fn components_test_expand_swatch_with_border() {
    match expand(&["accent", "border=white", "border_width=2"]) {
        ComponentOutput::Primitive(Primitive::Swatch { border_color, border_width, .. }) => {
            assert_eq!(border_color, Some("FFFFFF".to_string()));
            assert_eq!(border_width, Some(2));
        },
        _ => panic!("Expected Primitive::Swatch"),
    }
}

#[test]
fn mod_test_expand_swatch_with_border() {
    match expand(&["pink", "border=white", "border_width=2"]) {
        ComponentOutput::Primitive(Primitive::Swatch { border_color, border_width, .. }) => {
            assert_eq!(border_color, Some("FFFFFF".to_string()));
            assert_eq!(border_width, Some(2));
        },
        _ => panic!("Expected Primitive::Swatch"),
    }
}

#[test]
fn components_test_expand_swatch_with_label() {
    match expand(&["accent", "label=v1"]) {
        ComponentOutput::Primitive(Primitive::Swatch { label, .. }) => assert_eq!(label, Some("v1".to_string())),
        _ => panic!("Expected Primitive::Swatch"),
    }
}

#[test]
fn mod_test_expand_swatch_with_label() {
    match expand(&["pink", "label=v1"]) {
        ComponentOutput::Primitive(Primitive::Swatch { label, .. }) => assert_eq!(label, Some("v1".to_string())),
        _ => panic!("Expected Primitive::Swatch"),
    }
}

fn extended(name: &str, value: &str) -> ComponentsRenderer {
    let mut renderer = ComponentsRenderer::new().unwrap();
    let mut custom = NameMap::new();
    custom.insert(name.to_string(), value.to_string());
    renderer.extend_palette(custom);
    renderer
}

#[test]
fn components_test_extend_palette() {
    let renderer = extended("brand", "FF5500");
    match renderer.expand("swatch", &["brand".to_string()], None).unwrap() {
        ComponentOutput::Primitive(Primitive::Swatch { color, .. }) => assert_eq!(color, "FF5500"),
        _ => panic!("Expected Primitive::Swatch"),
    }
}

#[test]
fn mod_test_extend_palette() {
    let renderer = extended("brand", "FF5500");
    match renderer.expand("swatch", &["brand".to_string()], None).unwrap() {
        ComponentOutput::Primitive(Primitive::Swatch { color, .. }) => assert_eq!(color, "FF5500"),
        _ => panic!("Expected Primitive::Swatch"),
    }
}

#[test]
fn components_test_extend_palette_override() {
    let renderer = extended("accent", "00FF00");
    match renderer.expand("swatch", &["accent".to_string()], None).unwrap() {
        ComponentOutput::Primitive(Primitive::Swatch { color, .. }) => assert_eq!(color, "00FF00"),
        _ => panic!("Expected Primitive::Swatch"),
    }
}

#[test]
fn mod_test_extend_palette_override() {
    let renderer = extended("pink", "00FF00");
    match renderer.expand("swatch", &["pink".to_string()], None).unwrap() {
        ComponentOutput::Primitive(Primitive::Swatch { color, .. }) => assert_eq!(color, "00FF00"),
        _ => panic!("Expected Primitive::Swatch"),
    }
    // other names resolve as before
    assert_eq!(renderer.resolve_color("cobalt"), "2B6CB0");
}

#[test]
fn components_test_expand_tech() {
    let renderer = ComponentsRenderer::new().unwrap();
    match renderer.expand("tech", &["rust".to_string()], None).unwrap() {
        ComponentOutput::Primitive(Primitive::Tech { name, bg_color, .. }) => {
            assert_eq!(name, "rust");
            assert_eq!(bg_color, "292A2D");
        },
        _ => panic!("Expected Primitive::Tech"),
    }
}

#[test]
fn test_expand_header_with_content() {
    let renderer = ComponentsRenderer::new().unwrap();
    match renderer.expand("header", &[], Some("INSTALLATION")).unwrap() {
        ComponentOutput::Template(template) => {
            assert!(template.contains("INSTALLATION"));
            assert!(template.contains("{{frame:gradient}}"));
            assert!(template.contains("{{mathbold:separator=dot}}"));
        },
        _ => panic!("Expected ComponentOutput::Template"),
    }
}

#[test]
fn test_expand_callout_with_content() {
    let renderer = ComponentsRenderer::new().unwrap();
    match renderer.expand("callout", &["warning".to_string()], Some("Breaking change")).unwrap() {
        ComponentOutput::Template(template) => {
            assert!(template.contains("Breaking change"));
            assert!(template.contains("EAB308"));
        },
        _ => panic!("Expected ComponentOutput::Template"),
    }
}

#[test]
fn components_test_expand_unknown_component() {
    let renderer = ComponentsRenderer::new().unwrap();
    let result = renderer.expand("nonexistent", &[], None);
    assert!(result.is_err());
    assert!(result.unwrap_err().to_string().contains("Unknown component"));
}

#[test]
fn mod_test_expand_unknown_component() {
    let renderer = ComponentsRenderer::new().unwrap();
    let result = renderer.expand("nonexistent", &[], None);
    assert!(result.is_err());
    assert!(result.unwrap_err().to_string().contains("Unknown component"));
}

#[test]
fn expand_tech_group_through_renderer() {
    let renderer = ComponentsRenderer::new().unwrap();
    let out = renderer
        .expand("tech-group", &["bg=111111".to_string()], Some("{{ui:tech:rust/}}{{ui:tech:go/}}"))
        .unwrap();
    match out {
        ComponentOutput::Template(t) => assert_eq!(
            t,
            "{{ui:tech:rust:bg=111111:corners=left/}}{{ui:tech:go:bg=111111:corners=right/}}"
        ),
        _ => panic!("Expected ComponentOutput::Template"),
    }
}

#[test]
fn expand_dynamic_component_needs_fetch() {
    let renderer = ComponentsRenderer::new().unwrap();
    let err = renderer.expand("live", &["github".to_string()], None).unwrap_err();
    assert_eq!(
        err.to_string(),
        "Parse error: Dynamic component 'live' requires the 'fetch' feature. Rebuild with: --features fetch"
    );
}
