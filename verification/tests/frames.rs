use mdfx::frames::FrameRenderer;

#[test]
fn test_frame_renderer_new() {
    let renderer = FrameRenderer::new();
    assert!(renderer.is_ok());
}

#[test]
fn test_apply_gradient_frame() {
    let renderer = FrameRenderer::new().unwrap();
    let result = renderer.apply_frame("Test", "gradient");
    assert!(result.is_ok());
    assert_eq!(result.unwrap(), "▓▒░ Test ░▒▓");
}

#[test]
fn test_has_frame() {
    let renderer = FrameRenderer::new().unwrap();
    assert!(renderer.has_frame("gradient"));
    assert!(renderer.has_frame("solid-left"));
    assert!(!renderer.has_frame("nonexistent"));
}

#[test]
fn test_list_frames() {
    let renderer = FrameRenderer::new().unwrap();
    let frames = renderer.list_frames();
    assert!(frames.len() >= 10); // At least 10 frames
}

#[test]
fn frames_test_frame_alias() {
    let renderer = FrameRenderer::new().unwrap();
    // Check that aliases work
    let frame = renderer.get_frame("gradient");
    assert!(frame.is_ok());
}
