use mdfx::badges::BadgeRenderer;

#[test]
fn test_badge_renderer_new() {
    let renderer = BadgeRenderer::new();
    assert!(renderer.is_ok());
}

#[test]
fn test_apply_circle_badge() {
    let renderer = BadgeRenderer::new().unwrap();
    let result = renderer.apply_badge("1", "circle").unwrap();
    assert_eq!(result, "①");
}

#[test]
fn test_apply_circle_badge_multi_digit() {
    let renderer = BadgeRenderer::new().unwrap();
    let result = renderer.apply_badge("10", "circle").unwrap();
    assert_eq!(result, "⑩");
}

#[test]
fn test_apply_paren_badge() {
    let renderer = BadgeRenderer::new().unwrap();
    let result = renderer.apply_badge("5", "paren").unwrap();
    assert_eq!(result, "⑸");
}

#[test]
fn test_apply_paren_letter_badge() {
    let renderer = BadgeRenderer::new().unwrap();
    let result = renderer.apply_badge("a", "paren-letter").unwrap();
    assert_eq!(result, "⒜");
}

#[test]
fn test_apply_negative_circle_badge() {
    let renderer = BadgeRenderer::new().unwrap();
    let result = renderer.apply_badge("3", "negative-circle").unwrap();
    assert_eq!(result, "❸");
}

#[test]
fn test_badge_alias() {
    let renderer = BadgeRenderer::new().unwrap();
    let result = renderer.apply_badge("2", "circled").unwrap();
    assert_eq!(result, "②");
}

#[test]
fn test_unknown_badge() {
    let renderer = BadgeRenderer::new().unwrap();
    let result = renderer.apply_badge("1", "invalid-badge");
    assert!(result.is_err());
}

#[test]
fn test_unsupported_char() {
    let renderer = BadgeRenderer::new().unwrap();
    let result = renderer.apply_badge("99", "circle");
    assert!(result.is_err());
}

#[test]
fn test_has_badge() {
    let renderer = BadgeRenderer::new().unwrap();
    assert!(renderer.has_badge("circle"));
    assert!(renderer.has_badge("circled"));
    assert!(!renderer.has_badge("nonexistent"));
}

#[test]
fn test_list_badges() {
    let renderer = BadgeRenderer::new().unwrap();
    let badges = renderer.list_badges();
    assert!(!badges.is_empty());
}

#[test]
fn list_badges_in_id_order_with_matching_ids() {
    let renderer = BadgeRenderer::new().unwrap();
    let ids: Vec<String> = renderer.list_badges().iter().map(|b| b.id.clone()).collect();
    assert_eq!(ids, vec!["circle", "negative-circle", "paren", "paren-letter"]);
}
