use mdfx::primitive::Primitive;
use mdfx::renderer::{RenderedAsset, SvgBackend};
use mdfx::swatch::{fits, options_of, parse_i32_chars, render, SwatchOptions};

fn base(color: &str, style: &str) -> SwatchOptions {
    SwatchOptions {
        color: color.to_string(),
        style: style.to_string(),
        opacity: None,
        width: None,
        height: None,
        border_color: None,
        border_width: None,
        label: None,
        label_color: None,
        icon: None,
        icon_color: None,
        rx: None,
        ry: None,
        shadow: None,
        gradient: None,
        stroke_dash: None,
        border_top: None,
        border_right: None,
        border_bottom: None,
        border_left: None,
    }
}

fn chars(s: &str) -> Vec<char> {
    s.chars().collect()
}

#[test]
fn swatch_plain_block() {
    let o = base("FF0000", "flat-square");
    assert!(fits(&o));
    assert_eq!(
        render(&o, ""),
        "<svg xmlns=\"http://www.w3.org/2000/svg\" width=\"20\" height=\"20\" viewBox=\"0 0 20 20\">\n  <rect x=\"0\" y=\"0\" width=\"20\" height=\"20\" fill=\"#FF0000\" rx=\"0\" ry=\"0\"/>\n</svg>"
    );
}

#[test]
fn swatch_custom_size_and_radius() {
    let mut o = base("336699", "for-the-badge");
    o.width = Some(40);
    o.ry = Some(5);
    assert_eq!(
        render(&o, ""),
        "<svg xmlns=\"http://www.w3.org/2000/svg\" width=\"40\" height=\"28\" viewBox=\"0 0 40 28\">\n  <rect x=\"0\" y=\"0\" width=\"40\" height=\"28\" fill=\"#336699\" rx=\"3\" ry=\"5\"/>\n</svg>"
    );
}

#[test]
fn swatch_every_enhancement() {
    let mut o = base("00FF00", "plastic");
    o.opacity = Some("0.5".to_string());
    o.border_color = Some("000000".to_string());
    o.border_width = Some(2);
    o.stroke_dash = Some("4/2".to_string());
    o.shadow = Some("000000/4/2/-3".to_string());
    o.gradient = Some("vertical/FF0000/0000FF".to_string());
    o.label = Some("Hi".to_string());
    o.border_top = Some("FF0000/3".to_string());
    o.border_left = Some("00FF00".to_string());
    let expected = String::new()
        + "<svg xmlns=\"http://www.w3.org/2000/svg\" width=\"44\" height=\"44\" viewBox=\"0 0 44 44\">\n"
        + "  <defs>\n"
        + "    <filter id=\"shadow\" x=\"-50%\" y=\"-50%\" width=\"200%\" height=\"200%\">\n"
        + "<feDropShadow dx=\"2\" dy=\"-3\" stdDeviation=\"4\" flood-color=\"#000000\" flood-opacity=\"0.8\"/>\n"
        + "</filter>\n"
        + "    <linearGradient id=\"grad\" x1=\"0%\" y1=\"0%\" x2=\"0%\" y2=\"100%\">\n"
        + "<stop offset=\"0%\" style=\"stop-color:#FF0000;stop-opacity:1\" />\n"
        + "<stop offset=\"100%\" style=\"stop-color:#0000FF;stop-opacity:1\" />\n"
        + "</linearGradient>\n"
        + "    <linearGradient id=\"shine\" x1=\"0%\" y1=\"0%\" x2=\"0%\" y2=\"100%\">\n"
        + "<stop offset=\"0%\" style=\"stop-color:#ffffff;stop-opacity:0.2\" />\n"
        + "<stop offset=\"100%\" style=\"stop-color:#000000;stop-opacity:0.1\" />\n"
        + "</linearGradient>\n"
        + "\n  </defs>\n"
        + "  <rect x=\"12\" y=\"12\" width=\"20\" height=\"20\" fill=\"url(#grad)\" rx=\"3\" ry=\"3\" fill-opacity=\"0.5\" stroke=\"#000000\" stroke-width=\"2\" stroke-dasharray=\"4,2\" filter=\"url(#shadow)\"/>"
        + "\n  <line x1=\"12\" y1=\"12\" x2=\"32\" y2=\"12\" stroke=\"#FF0000\" stroke-width=\"3\" stroke-linecap=\"square\"/>"
        + "\n  <line x1=\"12\" y1=\"32\" x2=\"12\" y2=\"12\" stroke=\"#00FF00\" stroke-width=\"2\" stroke-linecap=\"square\"/>"
        + "\n  <rect x=\"12\" y=\"12\" width=\"20\" height=\"20\" fill=\"url(#shine)\" rx=\"3\" ry=\"3\"/>"
        + "\n  <text x=\"22\" y=\"25\" text-anchor=\"middle\" fill=\"white\" font-family=\"Arial, sans-serif\" font-size=\"10\" font-weight=\"bold\">Hi</text>"
        + "\n</svg>";
    assert_eq!(render(&o, ""), expected);
}

#[test]
fn swatch_zero_border_and_bad_shadow_ignored() {
    let mut o = base("ABCDEF", "flat");
    o.border_color = Some("000000".to_string());
    o.border_width = Some(0);
    o.shadow = Some("000000/x/1/1".to_string());
    o.gradient = Some("diagonal/FF0000".to_string());
    assert_eq!(
        render(&o, ""),
        "<svg xmlns=\"http://www.w3.org/2000/svg\" width=\"20\" height=\"20\" viewBox=\"0 0 20 20\">\n  <rect x=\"0\" y=\"0\" width=\"20\" height=\"20\" fill=\"#ABCDEF\" rx=\"3\" ry=\"3\"/>\n</svg>"
    );
}

#[test]
fn swatch_border_color_alone_is_one_wide() {
    let mut o = base("ABCDEF", "flat");
    o.border_color = Some("111111".to_string());
    o.height = Some(30);
    o.label = Some("Big".to_string());
    o.label_color = Some("black".to_string());
    o.border_bottom = Some("000000/x".to_string());
    o.border_right = Some("a/b/c".to_string());
    let expected = String::new()
        + "<svg xmlns=\"http://www.w3.org/2000/svg\" width=\"22\" height=\"32\" viewBox=\"0 0 22 32\">\n"
        + "  <rect x=\"1\" y=\"1\" width=\"20\" height=\"30\" fill=\"#ABCDEF\" rx=\"3\" ry=\"3\" stroke=\"#111111\" stroke-width=\"1\"/>"
        + "\n  <line x1=\"21\" y1=\"1\" x2=\"21\" y2=\"31\" stroke=\"#000000\" stroke-width=\"2\" stroke-linecap=\"square\"/>"
        + "\n  <line x1=\"21\" y1=\"31\" x2=\"1\" y2=\"31\" stroke=\"#000000\" stroke-width=\"2\" stroke-linecap=\"square\"/>"
        + "\n  <text x=\"11\" y=\"20\" text-anchor=\"middle\" fill=\"black\" font-family=\"Arial, sans-serif\" font-size=\"14\" font-weight=\"bold\">Big</text>"
        + "\n</svg>";
    assert_eq!(render(&o, ""), expected);
}

#[test]
fn swatch_icon_element_follows_gloss() {
    let o = base("000000", "flat-square");
    let out = render(&o, "<g/>");
    assert!(out.ends_with("ry=\"0\"/><g/>\n</svg>"));
}

#[test]
fn swatch_size_overflow_detected() {
    let mut o = base("000000", "flat-square");
    o.width = Some(u32::MAX);
    o.border_color = Some("000000".to_string());
    assert!(!fits(&o));
}

#[test]
fn swatch_options_from_primitive() {
    let p = Primitive::simple_swatch("FF0000", "flat");
    let o = options_of(&p, Some("0.3".to_string())).unwrap();
    assert_eq!(o.color, "FF0000");
    assert_eq!(o.style, "flat");
    assert_eq!(o.opacity.as_deref(), Some("0.3"));
    let q = Primitive::simple_rating("3.5", "FFD700");
    assert!(options_of(&q, None).is_none());
}

#[test]
fn parse_i32_like_std() {
    assert_eq!(parse_i32_chars(&chars("-5")), Some(-5));
    assert_eq!(parse_i32_chars(&chars("+7")), Some(7));
    assert_eq!(parse_i32_chars(&chars("42")), Some(42));
    assert_eq!(parse_i32_chars(&chars("-")), None);
    assert_eq!(parse_i32_chars(&chars("+")), None);
    assert_eq!(parse_i32_chars(&chars("")), None);
    assert_eq!(parse_i32_chars(&chars("-+1")), None);
    assert_eq!(parse_i32_chars(&chars("2147483647")), Some(i32::MAX));
    assert_eq!(parse_i32_chars(&chars("2147483648")), None);
    assert_eq!(parse_i32_chars(&chars("-2147483648")), Some(i32::MIN));
    assert_eq!(parse_i32_chars(&chars("-2147483649")), None);
    for s in ["0", "-0", "+0", "12a", " 1", "007", "-99999999999"] {
        assert_eq!(parse_i32_chars(&chars(s)), s.parse::<i32>().ok(), "{}", s);
    }
}

#[test]
fn asset_paths_follow_content() {
    let b = SvgBackend::new("assets/mdfx/");
    let svg = "<svg>same</svg>".to_string();
    let path = |a: RenderedAsset| a.file_path().unwrap().to_string();
    let p1 = path(b.asset_for(Primitive::simple_swatch("FF0000", "flat"), svg.clone()));
    let p2 = path(b.asset_for(Primitive::simple_swatch("00FF00", "flat-square"), svg.clone()));
    let p3 = path(b.asset_for(Primitive::simple_donut(50, "gray", "blue"), svg.clone()));
    let p4 = path(b.asset_for(Primitive::simple_swatch("FF0000", "flat"), "<svg>other</svg>".to_string()));
    assert_eq!(p1, p2);
    assert!(p1.starts_with("assets/mdfx/swatch_"));
    assert!(p3.starts_with("assets/mdfx/donut_"));
    assert_ne!(p1, p3);
    assert_ne!(p1, p4);
}
