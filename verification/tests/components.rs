use mdfx::components::ComponentsRenderer;

#[test]
fn components_test_components_renderer_new() {
    let renderer = ComponentsRenderer::new();
    assert!(renderer.is_ok());
}

#[test]
fn test_has_component() {
    let renderer = ComponentsRenderer::new().unwrap();
    assert!(renderer.has("divider"));
    assert!(renderer.has("tech"));
    assert!(!renderer.has("nonexistent"));
}

#[test]
fn components_test_list_components() {
    let renderer = ComponentsRenderer::new().unwrap();
    let components = renderer.list();

    assert!(!components.is_empty());
    assert!(components.iter().any(|(name, _)| *name == "divider"));
    assert!(components.iter().any(|(name, _)| *name == "tech"));
}

#[test]
fn components_test_list_palette() {
    let renderer = ComponentsRenderer::new().unwrap();
    let colors = renderer.list_palette();

    assert!(!colors.is_empty());
    assert!(colors.iter().any(|(name, _)| *name == "accent"));
    assert!(colors.iter().any(|(name, _)| *name == "ui.bg"));
}

#[test]
fn components_test_resolve_color_palette() {
    let renderer = ComponentsRenderer::new().unwrap();
    let resolved = renderer.resolve_color("accent");
    assert_eq!(resolved, "F41C80");
}

#[test]
fn test_resolve_color_passthrough() {
    let renderer = ComponentsRenderer::new().unwrap();
    let resolved = renderer.resolve_color("abc123");
    assert_eq!(resolved, "abc123");
}

#[test]
fn test_apply_blockquote_single_line() {
    let renderer = ComponentsRenderer::new().unwrap();
    let input = "Single line";
    let result = renderer.apply_blockquote(input);
    assert_eq!(result, "> Single line");
}

#[test]
fn test_apply_blockquote_multiple_lines() {
    let renderer = ComponentsRenderer::new().unwrap();
    let input = "Line 1\nLine 2\nLine 3";
    let result = renderer.apply_blockquote(input);
    assert_eq!(result, "> Line 1\n> Line 2\n> Line 3");
}

#[test]
fn test_apply_blockquote_with_empty_lines() {
    let renderer = ComponentsRenderer::new().unwrap();
    let input = "Line 1\n\nLine 3";
    let result = renderer.apply_blockquote(input);
    // Empty lines should get ">" (no trailing space)
    assert_eq!(result, "> Line 1\n>\n> Line 3");
}

#[test]
fn test_apply_blockquote_preserves_indentation() {
    let renderer = ComponentsRenderer::new().unwrap();
    let input = "Normal\n  Indented\n    More indented";
    let result = renderer.apply_blockquote(input);
    // Blockquote prefix goes before existing indentation
    assert_eq!(result, "> Normal\n>   Indented\n>     More indented");
}

#[test]
fn test_apply_blockquote_with_markdown() {
    let renderer = ComponentsRenderer::new().unwrap();
    let input = "**Bold text**\n- List item\n- Another item";
    let result = renderer.apply_blockquote(input);
    // Markdown inside blockquote should be preserved
    assert_eq!(result, "> **Bold text**\n> - List item\n> - Another item");
}

#[test]
fn test_apply_blockquote_empty_string() {
    let renderer = ComponentsRenderer::new().unwrap();
    let input = "";
    let result = renderer.apply_blockquote(input);
    // Empty input should return empty (lines() on empty string returns no lines)
    assert_eq!(result, "");
}

#[test]
fn test_apply_blockquote_whitespace_only_lines() {
    let renderer = ComponentsRenderer::new().unwrap();
    let input = "Line 1\n   \nLine 3";
    let result = renderer.apply_blockquote(input);
    // Whitespace-only lines should be treated as empty (trim() is empty)
    assert_eq!(result, "> Line 1\n>\n> Line 3");
}

#[test]
fn test_split_style_arg_with_style() {
    let args = vec!["F41C80".to_string(), "style=flat".to_string()];
    let (remaining, style) = ComponentsRenderer::split_style_arg(&args);
    assert_eq!(remaining, vec!["F41C80"]);
    assert_eq!(style, "flat");
}

#[test]
fn test_split_style_arg_no_style() {
    let args = vec!["F41C80".to_string()];
    let (remaining, style) = ComponentsRenderer::split_style_arg(&args);
    assert_eq!(remaining, vec!["F41C80"]);
    assert_eq!(style, "flat-square");
}


#[test]
fn mod_test_components_renderer_new() {
    let renderer = ComponentsRenderer::new();
    assert!(renderer.is_ok());
}

#[test]
fn mod_test_list_components() {
    let renderer = ComponentsRenderer::new().unwrap();
    let components = renderer.list();

    assert!(!components.is_empty());
    assert!(components.iter().any(|(name, _)| *name == "swatch"));
    assert!(components.iter().any(|(name, _)| *name == "tech"));
}

#[test]
fn mod_test_list_palette() {
    let renderer = ComponentsRenderer::new().unwrap();
    let colors = renderer.list_palette();

    assert!(!colors.is_empty());
    assert!(colors.iter().any(|(name, _)| *name == "pink"));
    assert!(colors.iter().any(|(name, _)| *name == "dark1"));
}

#[test]
fn test_apply_row_multiple_images() {
    // Test multiple images (complex case)
    let result = ComponentsRenderer::apply_row("![a](1.png) ![b](2.png)", "center");
    assert!(result.contains("<img alt=\"a\" src=\"1.png\">"));
    assert!(result.contains("<img alt=\"b\" src=\"2.png\">"));
}
