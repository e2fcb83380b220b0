use mdfx::shields::ShieldsRenderer;

#[test]
fn test_shields_renderer_new() {
    let renderer = ShieldsRenderer::new();
    assert!(renderer.is_ok());
}

#[test]
fn test_render_block() {
    let renderer = ShieldsRenderer::new().unwrap();
    let result = renderer.render_block("2B6CB0", "flat-square").unwrap();
    assert!(result.contains("https://img.shields.io/badge/"));
    assert!(result.contains("2B6CB0"));
    assert!(result.contains("style=flat-square"));
}

#[test]
fn test_render_block_with_palette_name() {
    let renderer = ShieldsRenderer::new().unwrap();
    let result = renderer.render_block("cobalt", "flat-square").unwrap();
    assert!(result.contains("2B6CB0"));
}

#[test]
fn test_render_twotone() {
    let renderer = ShieldsRenderer::new().unwrap();
    let result = renderer
        .render_twotone("111111", "2B6CB0", "flat-square")
        .unwrap();
    assert!(result.contains("labelColor=111111"));
    assert!(result.contains("-2B6CB0?")); // Right color appears in badge path
}

#[test]
fn test_render_bar() {
    let renderer = ShieldsRenderer::new().unwrap();
    let colors = vec![
        "22C55E".to_string(),
        "F59E0B".to_string(),
        "334155".to_string(),
    ];
    let result = renderer.render_bar(&colors, "flat-square").unwrap();
    assert!(result.contains("22C55E"));
    assert!(result.contains("F59E0B"));
    assert!(result.contains("334155"));
    // Should contain 3 separate badges
    assert_eq!(result.matches("![](").count(), 3);
}

#[test]
fn test_render_icon() {
    let renderer = ShieldsRenderer::new().unwrap();
    let result = renderer
        .render_icon("rust", "000000", "FFFFFF", "flat-square")
        .unwrap();
    assert!(result.contains("logo=rust"));
    assert!(result.contains("logoColor=FFFFFF"));
    assert!(result.contains("000000"));
}

#[test]
fn shields_test_resolve_color_palette() {
    let renderer = ShieldsRenderer::new().unwrap();
    let result = renderer.resolve_color("cobalt").unwrap();
    assert_eq!(result, "2B6CB0");
}

#[test]
fn test_resolve_color_hex() {
    let renderer = ShieldsRenderer::new().unwrap();
    let result = renderer.resolve_color("abc123").unwrap();
    assert_eq!(result, "ABC123");
}

#[test]
fn test_resolve_color_invalid() {
    let renderer = ShieldsRenderer::new().unwrap();
    let result = renderer.resolve_color("invalid");
    assert!(result.is_err());
}

#[test]
fn shields_test_style_alias() {
    let renderer = ShieldsRenderer::new().unwrap();
    // Test that "square" alias resolves to "flat-square"
    let result = renderer.render_block("cobalt", "square").unwrap();
    assert!(result.contains("style=flat-square"));

    // Test that "flat" is now its own style (not alias)
    let result_flat = renderer.render_block("cobalt", "flat").unwrap();
    assert!(result_flat.contains("style=flat"));
}

#[test]
fn test_has_style() {
    let renderer = ShieldsRenderer::new().unwrap();
    assert!(renderer.has_style("flat-square"));
    assert!(renderer.has_style("flat"));
    assert!(!renderer.has_style("nonexistent"));
}

#[test]
fn shields_test_list_styles() {
    let renderer = ShieldsRenderer::new().unwrap();
    let styles = renderer.list_styles();
    assert!(!styles.is_empty());
}

#[test]
fn shields_test_list_palette() {
    let renderer = ShieldsRenderer::new().unwrap();
    let colors = renderer.list_palette();
    assert!(!colors.is_empty());
    assert!(colors.iter().any(|(name, _)| *name == "cobalt"));
}
