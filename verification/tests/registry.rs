use mdfx::registry::{EvalContext, Registry, ResolvedRenderable};

#[test]
fn test_registry_loads() {
    let registry = Registry::new().unwrap();
    assert_eq!(registry.version(), "2.0.0");
}

#[test]
fn test_palette_resolution() {
    let registry = Registry::new().unwrap();
    assert_eq!(registry.resolve_color("accent"), Some("F41C80"));
    assert_eq!(registry.resolve_color("success"), Some("22C55E"));
    assert_eq!(registry.resolve_color("nonexistent"), None);
}

#[test]
fn test_separator_lookup() {
    let registry = Registry::new().unwrap();

    // Valid separator
    let result = registry.separator("dot");
    assert!(result.is_some());
    assert_eq!(result.unwrap(), "·");

    // Unknown separator
    let result = registry.separator("nonexistent");
    assert!(result.is_none());
}

#[test]
fn test_style_lookup() {
    let registry = Registry::new().unwrap();

    // Direct lookup
    let style = registry.style("mathbold");
    assert!(style.is_some());
    assert_eq!(style.unwrap().name, "Mathematical Bold");

    // Alias lookup
    let style = registry.style("mb");
    assert!(style.is_some());
    assert_eq!(style.unwrap().id, "mathbold");
}

#[test]
fn test_frame_lookup() {
    let registry = Registry::new().unwrap();

    // Direct lookup
    let frame = registry.frame("gradient");
    assert!(frame.is_some());
    assert_eq!(frame.unwrap().prefix, "▓▒░ ");

    // Alias lookup
    let frame = registry.frame("grad");
    assert!(frame.is_some());
    assert_eq!(frame.unwrap().prefix, "▓▒░ ");
}

#[test]
fn registry_test_frame_alternate_mode() {
    let registry = Registry::new().unwrap();

    // Alternate mode: suffix is pattern rotated by 1 (▓▒░ → ▒░▓)
    let frame = registry.frame("gradient-wave").unwrap();
    assert_eq!(frame.prefix, "▓▒░ ");
    assert_eq!(frame.suffix, " ▒░▓");
}

#[test]
fn test_component_contexts() {
    let registry = Registry::new().unwrap();

    // Swatch works in both inline and block
    let component = registry.component("swatch").unwrap();
    assert!(component.contexts.contains(&EvalContext::Block));
    assert!(component.contexts.contains(&EvalContext::Inline));

    // Tech works in both inline and block
    let component = registry.component("tech").unwrap();
    assert!(component.contexts.contains(&EvalContext::Block));
    assert!(component.contexts.contains(&EvalContext::Inline));
}

#[test]
fn test_unified_resolution() {
    let registry = Registry::new().unwrap();

    // Component resolution
    match registry.resolve("swatch", EvalContext::Block) {
        ResolvedRenderable::Component(c) => assert_eq!(c.component_type, "native"),
        _ => panic!("Expected component"),
    }

    // Literal fallback
    match registry.resolve("→", EvalContext::Inline) {
        ResolvedRenderable::Literal(s) => assert_eq!(s, "→"),
        _ => panic!("Expected literal"),
    }
}

#[test]
fn test_context_promotion() {
    // Inline can promote to anything
    assert!(EvalContext::Inline.can_promote_to(EvalContext::Block));
    assert!(EvalContext::Inline.can_promote_to(EvalContext::FrameChrome));

    // FrameChrome can promote to anything
    assert!(EvalContext::FrameChrome.can_promote_to(EvalContext::Inline));
    assert!(EvalContext::FrameChrome.can_promote_to(EvalContext::Block));

    // Block cannot promote to more restrictive
    assert!(!EvalContext::Block.can_promote_to(EvalContext::Inline));
    assert!(!EvalContext::Block.can_promote_to(EvalContext::FrameChrome));
}

#[test]
fn test_shield_styles() {
    let registry = Registry::new().unwrap();

    let style = registry.shield_style("flat-square").unwrap();
    assert!(style.default);

    let style = registry.shield_style("square").unwrap(); // alias
    assert_eq!(style.id, "flat-square");

    assert_eq!(registry.default_shield_style(), "flat-square");
}

#[test]
fn test_metadata() {
    let registry = Registry::new().unwrap();
    let meta = registry.metadata();

    assert!(meta.total_glyphs > 0);
    assert!(meta.total_styles > 0);
    assert!(meta.total_frames > 0);
}

#[test]
fn test_schema_version() {
    let registry = Registry::new().unwrap();
    let schema = registry.schema_version();
    // Should have a valid schema version string
    assert!(!schema.is_empty());
}

#[test]
fn test_palette() {
    let registry = Registry::new().unwrap();
    let palette = registry.palette();

    // Should have palette colors
    assert!(!palette.is_empty());
    // Should contain known colors
    assert!(palette.contains_key("accent"));
}

#[test]
fn test_glyphs() {
    let registry = Registry::new().unwrap();
    let glyphs = registry.glyphs();

    // Should have glyphs
    assert!(!glyphs.is_empty());
}

#[test]
fn test_glyph() {
    let registry = Registry::new().unwrap();

    // Test getting a known glyph
    let dot = registry.glyph("dot");
    assert!(dot.is_some());

    // Test getting unknown glyph returns None
    let unknown = registry.glyph("nonexistent_glyph_xyz");
    assert!(unknown.is_none());
}

#[test]
fn test_components() {
    let registry = Registry::new().unwrap();
    let components = registry.components();

    // Should have components
    assert!(!components.is_empty());
}

#[test]
fn test_frames() {
    let registry = Registry::new().unwrap();
    let frames = registry.frames();

    // Should have frames
    assert!(!frames.is_empty());
}

#[test]
fn test_styles() {
    let registry = Registry::new().unwrap();
    let styles = registry.styles();

    // Should have styles
    assert!(!styles.is_empty());
}

#[test]
fn test_shield_styles_collection() {
    let registry = Registry::new().unwrap();
    let shield_styles = registry.shield_styles();

    // Should have shield styles
    assert!(!shield_styles.is_empty());
    // Should contain flat-square (default)
    assert!(shield_styles.contains_key("flat-square"));
}


#[test]
fn block_components_have_block_context_only() {
    let registry = Registry::new().unwrap();
    let row = registry.component("row").unwrap();
    assert_eq!(row.contexts, vec![EvalContext::Block]);
    assert_eq!(row.component_type, "native");
    assert!(!row.self_closing);
    let callout = registry.component("callout").unwrap();
    assert_eq!(callout.contexts, vec![EvalContext::Block]);
    assert_eq!(callout.post_process.as_deref(), Some("blockquote"));
}
