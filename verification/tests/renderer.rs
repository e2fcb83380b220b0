use mdfx::renderer::{ShieldsBackend, SvgBackend};
use mdfx::svg::{ensure_hash_prefix, get_logo_color_for_bg};

#[test]
fn test_get_logo_color_for_bg() {
    // Dark backgrounds -> white logo
    assert_eq!(get_logo_color_for_bg("000000"), "FFFFFF");
    assert_eq!(get_logo_color_for_bg("#000000"), "FFFFFF");
    assert_eq!(get_logo_color_for_bg("3178C6"), "FFFFFF");

    // Light backgrounds -> black logo
    assert_eq!(get_logo_color_for_bg("FFFFFF"), "000000");
    assert_eq!(get_logo_color_for_bg("#FFFFFF"), "000000");
    assert_eq!(get_logo_color_for_bg("F7DF1E"), "000000");
}

#[test]
fn test_ensure_hash_prefix() {
    assert_eq!(ensure_hash_prefix("FF0000"), "#FF0000");
    assert_eq!(ensure_hash_prefix("#FF0000"), "#FF0000");
}

#[test]
fn svg_test_svg_backend_creation() {
    let backend = SvgBackend::new("assets/mdfx");
    assert_eq!(backend.out_dir(), "assets/mdfx");
}

#[test]
fn mod_test_svg_backend_creation() {
    let backend = SvgBackend::new("assets/mdfx");
    assert_eq!(backend.out_dir(), "assets/mdfx");
}

#[test]
fn test_shields_backend_creation() {
    let backend = ShieldsBackend::new();
    assert!(backend.is_ok());
}

#[test]
fn logo_color_at_the_midpoint() {
    assert_eq!(get_logo_color_for_bg("1E99A2"), "000000");
    assert_eq!(get_logo_color_for_bg("#1E99A1"), "FFFFFF");
}

#[test]
fn logo_color_counts_bytes() {
    // "aaaaé" is six bytes long: the last two-byte slice holds no hex digit.
    assert_eq!(get_logo_color_for_bg("aaaaé"), "000000");
    // "aé" is three bytes long.
    assert_eq!(get_logo_color_for_bg("aé"), "FFFFFF");
    assert_eq!(get_logo_color_for_bg("##aaaaé"), "000000");
}
