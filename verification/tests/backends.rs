use mdfx::digest::content_addressed_filename;
use mdfx::error::Result;
use mdfx::manifest::{timestamp_text, AssetEntry, AssetManifest, PrimitiveInfo, VerificationResult, MANIFEST_VERSION};
use mdfx::parser::TemplateParser;
use mdfx::primitive::Primitive;
use mdfx::renderer::{HybridBackend, PlainTextBackend, RenderedAsset, Renderer, ShieldsBackend, SvgBackend};

// A file-based backend for the tests: the SVG text is a stand-in (drawing
// SVGs is not part of the library), the asset around it is the library's.
struct SvgFiles(SvgBackend);

impl Renderer for SvgFiles {
    fn render(&self, primitive: &Primitive) -> Result<RenderedAsset> {
        if let Some(asset) = SvgBackend::shields_source(primitive) {
            return Ok(asset);
        }
        Ok(self.0.asset_for(primitive.clone(), format!("<svg>{:?}</svg>", primitive)))
    }
}

fn swatch_with(label: Option<&str>, icon: Option<&str>, color: &str) -> Primitive {
    Primitive::Swatch {
        color: color.to_string(),
        style: "flat-square".to_string(),
        opacity: None,
        width: None,
        height: None,
        border_color: None,
        border_width: None,
        label: label.map(|l| l.to_string()),
        label_color: None,
        icon: icon.map(|i| i.to_string()),
        icon_color: None,
        rx: None,
        ry: None,
        shadow: None,
        gradient: None,
        stroke_dash: None,
        logo_size: None,
        border_top: None,
        border_right: None,
        border_bottom: None,
        border_left: None,
    }
}

fn tech(name: &str, bg: &str, logo: &str, label: Option<&str>) -> Primitive {
    Primitive::Tech {
        name: name.to_string(),
        bg_color: bg.to_string(),
        logo_color: logo.to_string(),
        style: "flat-square".to_string(),
        label: label.map(|l| l.to_string()),
        border_color: None,
        border_width: None,
        rx: None,
        corners: None,
        text_color: None,
        font: None,
        source: None,
        chevron: None,
        bg_left: None,
        bg_right: None,
        raised: None,
    }
}

#[test]
fn test_plaintext_swatch() {
    let backend = PlainTextBackend::new();
    let asset = backend.render(&Primitive::simple_swatch("F41C80", "flat-square")).unwrap();
    assert_eq!(asset.to_markdown(), "[#F41C80]");
}

#[test]
fn test_plaintext_swatch_with_label() {
    let backend = PlainTextBackend::new();
    let asset = backend.render(&swatch_with(Some("v1.0"), None, "FF6B35")).unwrap();
    assert_eq!(asset.to_markdown(), "[#FF6B35 v1.0]");
}

#[test]
fn test_plaintext_swatch_with_icon() {
    let backend = PlainTextBackend::new();
    let asset = backend.render(&swatch_with(None, Some("rust"), "F41C80")).unwrap();
    assert_eq!(asset.to_markdown(), "[#F41C80 rust]");
}

#[test]
fn test_plaintext_tech() {
    let backend = PlainTextBackend::new();
    let asset = backend.render(&tech("rust", "DEA584", "000000", None)).unwrap();
    assert_eq!(asset.to_markdown(), "[rust]");
}

#[test]
fn test_plaintext_tech_with_label() {
    let backend = PlainTextBackend::new();
    let asset = backend.render(&tech("rust", "DEA584", "000000", Some("v1.80"))).unwrap();
    assert_eq!(asset.to_markdown(), "[rust | v1.80]");
}

#[test]
fn shields_test_render_swatch_primitive() {
    let backend = ShieldsBackend::new().unwrap();
    let result = backend.render(&Primitive::simple_swatch("2B6CB0", "flat-square")).unwrap();
    let markdown = result.to_markdown();
    assert!(markdown.contains("https://img.shields.io/badge/"));
    assert!(markdown.contains("2B6CB0"));
    assert!(markdown.contains("style=flat-square"));
    assert!(!result.is_file_based());
}

#[test]
fn shields_test_render_tech_primitive() {
    let backend = ShieldsBackend::new().unwrap();
    let result = backend.render(&tech("rust", "000000", "FFFFFF", None)).unwrap();
    let markdown = result.to_markdown();
    assert!(markdown.contains("logo=rust"));
    assert!(markdown.contains("logoColor=FFFFFF"));
    assert!(markdown.contains("000000"));
}

#[test]
fn test_render_with_palette_colors() {
    let backend = ShieldsBackend::new().unwrap();
    let result = backend.render(&Primitive::simple_swatch("cobalt", "flat-square")).unwrap();
    assert!(result.to_markdown().contains("2B6CB0"));
}

#[test]
fn test_simple_swatch_uses_shields() {
    let backend = HybridBackend::new(SvgFiles(SvgBackend::new("assets"))).unwrap();
    let result = backend.render(&Primitive::simple_swatch("FF0000", "flat-square")).unwrap();
    assert!(!result.is_file_based());
    assert!(result.to_markdown().contains("shields.io"));
}

#[test]
fn hybrid_sends_charts_to_svg() {
    let backend = HybridBackend::new(SvgFiles(SvgBackend::new("assets"))).unwrap();
    let result = backend.render(&Primitive::simple_progress(40, "gray", "pink")).unwrap();
    assert!(result.is_file_based());
    assert!(result.to_markdown().starts_with("![](assets/progress_"));
}

#[test]
fn test_frame_multiline_with_ui_components() {
    let parser = TemplateParser::with_backend(SvgFiles(SvgBackend::new("assets/test"))).unwrap();
    let input = "{{frame:gradient}}\n{{ui:swatch:pink/}}\n{{ui:swatch:success/}}\n{{/frame}}";
    let result = parser.process_with_assets(input).unwrap();
    assert!(result.markdown.starts_with("▓\u{fe0e}▒\u{fe0e}░\u{fe0e}"));
    assert!(result.markdown.ends_with("░\u{fe0e}▒\u{fe0e}▓\u{fe0e}"));
    assert_eq!(result.assets.len(), 2);
    assert!(result.markdown.contains("![](assets/test/swatch_"));
}

#[test]
fn test_process_with_assets_preserves_code_blocks() {
    let parser = TemplateParser::with_backend(SvgFiles(SvgBackend::new("assets/test"))).unwrap();
    let input = "```\n{{ui:swatch:pink/}}\n```\n{{ui:swatch:pink/}}";
    let result = parser.process_with_assets(input).unwrap();
    assert!(result.markdown.contains("```\n{{ui:swatch:pink/}}\n```"));
    assert_eq!(result.assets.len(), 1);
}

#[test]
fn svg_asset_paths_and_reference() {
    let svg = "<svg>content1</svg>".to_string();
    let name = content_addressed_filename(svg.as_bytes(), "swatch");
    let backend = SvgBackend::with_prefix("examples/assets//", "assets/");
    match backend.asset_for(Primitive::simple_swatch("FF0000", "flat"), svg.clone()) {
        RenderedAsset::File { relative_path, bytes, markdown_ref, .. } => {
            assert_eq!(relative_path, format!("examples/assets/{}", name));
            assert_eq!(bytes, svg.as_bytes().to_vec());
            assert_eq!(markdown_ref, format!("![](assets/{})", name));
        },
        _ => panic!("Expected a file asset"),
    }
    let inline = SvgBackend::new_inline();
    assert_eq!(inline.asset_for(Primitive::simple_swatch("FF0000", "flat"), svg.clone()).to_markdown(), svg);
}

#[test]
fn tech_badge_from_shields_source() {
    let mut p = tech("node js", "339933", "FFFFFF", Some("C#+&"));
    if let Primitive::Tech { source, .. } = &mut p {
        *source = Some("shields".to_string());
    }
    let asset = SvgBackend::shields_source(&p).unwrap();
    assert_eq!(
        asset.to_markdown(),
        "![](https://img.shields.io/badge/C%23%2B%26-C%23%2B%26-339933?style=flat-square&logo=node%20js&logoColor=FFFFFF)"
    );
    assert!(SvgBackend::shields_source(&tech("rust", "000000", "FFFFFF", None)).is_none());
}

#[test]
fn test_content_addressed_filename() {
    for (content, prefix) in [(&b"<svg>content1</svg>"[..], "swatch"), (&b"<svg>content2</svg>"[..], "tech"),
        (&b"<svg>progress</svg>"[..], "progress")] {
        let name = content_addressed_filename(content, prefix);
        assert!(name.starts_with(&format!("{}_", prefix)));
        assert!(name.ends_with(".svg"));
        assert_eq!(name.len(), prefix.len() + 1 + 16 + 4);
        assert_eq!(name, content_addressed_filename(content, prefix));
    }
}

#[test]
fn known_sha256_prefix() {
    // SHA-256 of the empty input starts e3b0c44298fc1c14
    assert_eq!(content_addressed_filename(b"", "swatch"), "swatch_e3b0c44298fc1c14.svg");
    assert_eq!(mdfx::digest::lower_hex_string(&[0x00, 0x0f, 0xa5, 0xff]), "000fa5ff");
}

#[test]
fn test_content_addressed_different_content() {
    let name1 = content_addressed_filename(b"<svg>content1</svg>", "swatch");
    let name2 = content_addressed_filename(b"<svg>content2</svg>", "swatch");
    assert_ne!(name1, name2);
}

#[test]
fn test_create_manifest() {
    for (backend, dir) in [("svg", "assets/mdfx"), ("shields", "assets"), ("png", "images/generated")] {
        let manifest = AssetManifest::new(backend, dir);
        assert_eq!(manifest.version, MANIFEST_VERSION);
        assert_eq!(manifest.backend, backend);
        assert_eq!(manifest.assets_dir, dir);
        assert_eq!(manifest.total_assets, 0);
        assert!(manifest.generator_version.is_some());
    }
}

#[test]
fn test_add_asset() {
    let mut manifest = AssetManifest::new("svg", "assets/mdfx");
    let primitive = Primitive::simple_swatch("F41C80", "flat-square");
    let svg_bytes = b"<svg>test</svg>";
    manifest.add_asset("assets/mdfx/swatch_abc123.svg".to_string(), svg_bytes, &primitive, "swatch".to_string());
    assert_eq!(manifest.total_assets, 1);
    assert_eq!(manifest.assets[0].path, "assets/mdfx/swatch_abc123.svg");
    assert_eq!(manifest.assets[0].asset_type, "swatch");
    assert_eq!(manifest.assets[0].size_bytes, svg_bytes.len());
    assert!(!manifest.assets[0].sha256.is_empty());
}

#[test]
fn test_add_asset_with_source() {
    let mut manifest = AssetManifest::new("svg", "assets");
    let primitive = Primitive::simple_swatch("FF0000", "flat");
    manifest.add_asset_with_source("test.svg".to_string(), b"<svg/>", &primitive, "swatch".to_string(),
        Some("README.md".to_string()));
    assert_eq!(manifest.assets[0].source_files, vec!["README.md"]);
    assert!(manifest.assets[0].generated_at.is_some());
    assert!(manifest.assets[0].generator_version.is_some());
}

#[test]
fn test_primitive_info_conversion() {
    let info = PrimitiveInfo::from(&tech("rust", "292A2D", "FFFFFF", None));
    match info {
        PrimitiveInfo::Tech { name, .. } => assert_eq!(name, "rust"),
        _ => panic!("Wrong variant"),
    }
}

#[test]
fn test_asset_paths() {
    let mut manifest = AssetManifest::new("svg", "assets");
    let primitive = Primitive::simple_swatch("FF0000", "flat");
    manifest.add_asset("path1.svg".to_string(), b"svg1", &primitive, "swatch".to_string());
    manifest.add_asset("path2.svg".to_string(), b"svg2", &primitive, "swatch".to_string());
    let paths = manifest.asset_paths();
    assert_eq!(paths.len(), 2);
    assert!(paths.contains(&"path1.svg"));
    assert!(paths.contains(&"path2.svg"));
}

#[test]
fn test_merge_manifests() {
    let mut manifest = AssetManifest::new("svg", "assets");
    let primitive = Primitive::simple_swatch("FF0000", "flat");
    manifest.add_asset_with_source("old.svg".to_string(), b"<svg>old</svg>", &primitive, "swatch".to_string(),
        Some("file1.md".to_string()));
    let new_entry = AssetEntry::new("new.svg".to_string(), b"<svg>new</svg>", &primitive, "swatch".to_string(),
        Some("file2.md".to_string()));
    manifest.merge(vec![new_entry], Some(vec!["new.svg".to_string()]));
    assert_eq!(manifest.total_assets, 1);
    assert_eq!(manifest.assets[0].path, "new.svg");
}

#[test]
fn merge_updates_and_keeps_sources() {
    let mut manifest = AssetManifest::new("svg", "assets");
    let primitive = Primitive::simple_swatch("FF0000", "flat");
    manifest.add_asset_with_source("a.svg".to_string(), b"1", &primitive, "swatch".to_string(), Some("x.md".to_string()));
    manifest.add_asset("b.svg".to_string(), b"22", &primitive, "swatch".to_string());
    let first = AssetEntry::new("a.svg".to_string(), b"333", &primitive, "swatch".to_string(), Some("y.md".to_string()));
    let again = AssetEntry::new("a.svg".to_string(), b"4444", &primitive, "swatch".to_string(), Some("x.md".to_string()));
    let fresh = AssetEntry::new("c.svg".to_string(), b"55555", &primitive, "swatch".to_string(), None);
    manifest.merge(vec![first, fresh, again], None);
    let paths: Vec<&str> = manifest.asset_paths();
    assert_eq!(paths, vec!["a.svg", "b.svg", "c.svg"]);
    // the last entry for a path counts; the old sources come first
    assert_eq!(manifest.assets[0].size_bytes, 4);
    assert_eq!(manifest.assets[0].source_files, vec!["x.md"]);
    assert_eq!(manifest.total_assets, 3);
    assert_eq!(manifest.total_size_bytes, 4 + 2 + 5);
}

#[test]
fn test_stats() {
    let mut manifest = AssetManifest::new("svg", "assets");
    let primitive = Primitive::simple_swatch("FF0000", "flat");
    manifest.add_asset("swatch1.svg".to_string(), b"<svg>1</svg>", &primitive, "swatch".to_string());
    manifest.add_asset("swatch2.svg".to_string(), b"<svg>22</svg>", &primitive, "swatch".to_string());
    let stats = manifest.stats();
    assert_eq!(stats.total_assets, 2);
    assert!(stats.total_size_bytes > 0);
    assert!(stats.by_type.contains_key("swatch"));
    assert_eq!(stats.by_type.get("swatch").unwrap().count, 2);
    assert_eq!(stats.largest_asset, Some("swatch2.svg".to_string()));
}

#[test]
fn stats_largest_is_last_of_equal_size() {
    let mut manifest = AssetManifest::new("svg", "assets");
    let p = Primitive::simple_swatch("FF0000", "flat");
    manifest.add_asset("a.svg".to_string(), b"xx", &p, "swatch".to_string());
    manifest.add_asset("b.svg".to_string(), b"yy", &p, "tech".to_string());
    manifest.add_asset("c.svg".to_string(), b"z", &p, "swatch".to_string());
    let stats = manifest.stats();
    assert_eq!(stats.largest_asset, Some("b.svg".to_string()));
    assert_eq!(stats.by_type.get("swatch").unwrap().total_bytes, 3);
    assert_eq!(stats.by_type.get("tech").unwrap().count, 1);
}

#[test]
fn verify_against_reads() {
    let mut manifest = AssetManifest::new("svg", ".");
    let p = Primitive::simple_swatch("FF0000", "flat");
    manifest.add_asset("ok.svg".to_string(), b"<svg>valid</svg>", &p, "swatch".to_string());
    manifest.add_asset("changed.svg".to_string(), b"<svg>original</svg>", &p, "swatch".to_string());
    manifest.add_asset("gone.svg".to_string(), b"<svg/>", &p, "swatch".to_string());
    manifest.add_asset("locked.svg".to_string(), b"<svg/>", &p, "swatch".to_string());
    let reads = vec![
        Some(Ok(b"<svg>valid</svg>".to_vec())),
        Some(Ok(b"<svg>modified</svg>".to_vec())),
        None,
        Some(Err("permission denied".to_string())),
    ];
    let results = manifest.verify(&reads);
    assert!(matches!(&results[0], VerificationResult::Valid { path } if path == "ok.svg"));
    assert!(matches!(&results[1], VerificationResult::HashMismatch { path, .. } if path == "changed.svg"));
    assert!(matches!(&results[2], VerificationResult::Missing { path } if path == "gone.svg"));
    assert!(matches!(&results[3], VerificationResult::ReadError { error, .. } if error == "permission denied"));
}

#[test]
fn manifest_lookup_and_migrate() {
    let mut manifest = AssetManifest::new("svg", "assets");
    let p = Primitive::simple_swatch("FF0000", "flat");
    manifest.add_asset("a.svg".to_string(), b"", &p, "swatch".to_string());
    assert!(manifest.has_content_hash("e3b0c44298fc1c149afbf4c8996fb92427ae41e4649b934ca495991b7852b855"));
    assert!(manifest.get_asset("a.svg").is_some());
    assert!(manifest.get_asset("b.svg").is_none());
    manifest.version = "1.0.0".to_string();
    manifest.migrate();
    assert_eq!(manifest.version, MANIFEST_VERSION);
}

#[test]
fn test_primitive_info_from_progress() {
    match PrimitiveInfo::from(&Primitive::simple_progress(75, "#E0E0E0", "#4CAF50")) {
        PrimitiveInfo::Progress { percent, width, height } => {
            assert_eq!(percent, 75);
            assert_eq!(width, 100);
            assert_eq!(height, 10);
        },
        _ => panic!("Expected Progress variant"),
    }
}

#[test]
fn test_primitive_info_from_donut() {
    match PrimitiveInfo::from(&Primitive::simple_donut(50, "#E0E0E0", "#2196F3")) {
        PrimitiveInfo::Donut { percent, size, thickness } => {
            assert_eq!(percent, 50);
            assert_eq!(size, 40);
            assert_eq!(thickness, 4);
        },
        _ => panic!("Expected Donut variant"),
    }
}

#[test]
fn test_primitive_info_from_gauge() {
    let primitive = Primitive::Gauge {
        percent: 80,
        size: 100,
        thickness: 10,
        track_color: "#E0E0E0".to_string(),
        fill_color: "#FF5722".to_string(),
        show_label: true,
        label_color: Some("#000000".to_string()),
        thumb_size: None,
        thumb_color: None,
    };
    match PrimitiveInfo::from(&primitive) {
        PrimitiveInfo::Gauge { percent, size, thickness } => {
            assert_eq!(percent, 80);
            assert_eq!(size, 100);
            assert_eq!(thickness, 10);
        },
        _ => panic!("Expected Gauge variant"),
    }
}

fn texts(v: &[f32]) -> Vec<String> {
    v.iter().map(|x| x.to_string()).collect()
}

#[test]
fn test_primitive_info_from_sparkline() {
    let primitive = Primitive::Sparkline {
        values: texts(&[1.0, 2.0, 3.0, 4.0, 5.0]),
        width: 120,
        height: 30,
        chart_type: "line".to_string(),
        fill_color: "#9C27B0".to_string(),
        stroke_color: None,
        stroke_width: 2,
        track_color: None,
        show_dots: false,
        dot_radius: 3,
    };
    match PrimitiveInfo::from(&primitive) {
        PrimitiveInfo::Sparkline { point_count, width, height, chart_type } => {
            assert_eq!(point_count, 5);
            assert_eq!(width, 120);
            assert_eq!(height, 30);
            assert_eq!(chart_type, "line");
        },
        _ => panic!("Expected Sparkline variant"),
    }
}

#[test]
fn test_primitive_info_from_rating() {
    let primitive = Primitive::Rating {
        value: 4.0f32.to_string(),
        max: 5,
        icon: "star".to_string(),
        fill_color: "#FFD700".to_string(),
        empty_color: "#E0E0E0".to_string(),
        size: 20,
        spacing: 2,
    };
    match PrimitiveInfo::from(&primitive) {
        PrimitiveInfo::Rating { value, max, icon } => {
            assert!((value.parse::<f32>().unwrap() - 4.0).abs() < f32::EPSILON);
            assert_eq!(max, 5);
            assert_eq!(icon, "star");
        },
        _ => panic!("Expected Rating variant"),
    }
}

#[test]
fn test_primitive_info_from_waveform() {
    let primitive = Primitive::Waveform {
        values: texts(&[0.5, 0.8, 0.3, 0.9, 0.6]),
        width: 100,
        height: 40,
        positive_color: "#00BCD4".to_string(),
        negative_color: "#FF5722".to_string(),
        bar_width: 3,
        spacing: 1,
        track_color: None,
        show_center_line: false,
        center_line_color: None,
    };
    match PrimitiveInfo::from(&primitive) {
        PrimitiveInfo::Waveform { point_count, width, height } => {
            assert_eq!(point_count, 5);
            assert_eq!(width, 100);
            assert_eq!(height, 40);
        },
        _ => panic!("Expected Waveform variant"),
    }
}

#[test]
fn test_primitive_swatch() {
    if let Primitive::Swatch { color, style, .. } = Primitive::simple_swatch("ff6b35", "flat-square") {
        assert_eq!(color, "ff6b35");
        assert_eq!(style, "flat-square");
    } else {
        panic!("Expected Swatch primitive");
    }
}

#[test]
fn test_primitive_swatch_with_options() {
    let swatch = Primitive::Swatch {
        color: "F41C80".to_string(),
        style: "flat".to_string(),
        opacity: Some("0.5".to_string()),
        width: Some(40),
        height: Some(30),
        border_color: Some("FFFFFF".to_string()),
        border_width: Some(2),
        label: Some("v1".to_string()),
        label_color: Some("000000".to_string()),
        icon: Some("rust".to_string()),
        icon_color: Some("FFFFFF".to_string()),
        rx: Some(5),
        ry: Some(10),
        shadow: Some("000000:4:2:2".to_string()),
        gradient: Some("horizontal:FF0000:0000FF".to_string()),
        stroke_dash: Some("4:2".to_string()),
        logo_size: Some("auto".to_string()),
        border_top: Some("FF0000/2".to_string()),
        border_right: None,
        border_bottom: Some("0000FF/3".to_string()),
        border_left: None,
    };
    if let Primitive::Swatch { opacity, width, label, rx, shadow, gradient, stroke_dash, logo_size, .. } = swatch {
        assert_eq!(opacity.map(|o| o.parse::<f32>().unwrap()), Some(0.5));
        assert_eq!(width, Some(40));
        assert_eq!(label, Some("v1".to_string()));
        assert_eq!(rx, Some(5));
        assert_eq!(shadow, Some("000000:4:2:2".to_string()));
        assert_eq!(gradient, Some("horizontal:FF0000:0000FF".to_string()));
        assert_eq!(stroke_dash, Some("4:2".to_string()));
        assert_eq!(logo_size, Some("auto".to_string()));
    } else {
        panic!("Expected Swatch primitive");
    }
}

#[test]
fn test_primitive_tech() {
    if let Primitive::Tech { name, .. } = tech("rust", "000000", "ffffff", None) {
        assert_eq!(name, "rust");
    } else {
        panic!("Expected Tech primitive");
    }
}

#[test]
fn test_primitive_tech_with_label() {
    if let Primitive::Tech { name, label, .. } = tech("rust", "000000", "ffffff", Some("v1.80")) {
        assert_eq!(name, "rust");
        assert_eq!(label, Some("v1.80".to_string()));
    } else {
        panic!("Expected Tech primitive");
    }
}

#[test]
fn test_primitive_tech_with_border() {
    let mut t = tech("rust", "000000", "ffffff", Some("v1.80"));
    if let Primitive::Tech { border_color, border_width, rx, .. } = &mut t {
        *border_color = Some("F41C80".to_string());
        *border_width = Some(2);
        *rx = Some(8);
    }
    if let Primitive::Tech { name, border_color, border_width, rx, .. } = t {
        assert_eq!(name, "rust");
        assert_eq!(border_color, Some("F41C80".to_string()));
        assert_eq!(border_width, Some(2));
        assert_eq!(rx, Some(8));
    } else {
        panic!("Expected Tech primitive");
    }
}

#[test]
fn test_primitive_progress() {
    if let Primitive::Progress { percent, width, height, fill_height, .. } = Primitive::simple_progress(75, "gray", "pink") {
        assert_eq!(percent, 75);
        assert_eq!(width, 100);
        assert_eq!(height, 10);
        assert_eq!(fill_height, 10);
    } else {
        panic!("Expected Progress primitive");
    }
}

#[test]
fn test_primitive_progress_clamped() {
    if let Primitive::Progress { percent, .. } = Primitive::simple_progress(150, "gray", "pink") {
        assert_eq!(percent, 100);
    } else {
        panic!("Expected Progress primitive");
    }
}

#[test]
fn simple_chart_constructors() {
    if let Primitive::Sparkline { values, width, height, .. } = Primitive::simple_sparkline(texts(&[1.0, 2.5]), "pink") {
        assert_eq!(values, vec!["1", "2.5"]);
        assert_eq!((width, height), (100, 20));
    } else {
        panic!("Expected Sparkline primitive");
    }
    if let Primitive::Rating { value, max, empty_color, .. } = Primitive::simple_rating("3.5", "warning") {
        assert_eq!(value, "3.5");
        assert_eq!(max, 5);
        assert_eq!(empty_color, "6B7280");
    } else {
        panic!("Expected Rating primitive");
    }
    if let Primitive::Waveform { bar_width, spacing, .. } = Primitive::simple_waveform(texts(&[1.0, -1.0]), "green", "red") {
        assert_eq!((bar_width, spacing), (3, 1));
    } else {
        panic!("Expected Waveform primitive");
    }
}

#[test]
fn shields_renders_waveform_point_count() {
    let backend = ShieldsBackend::new().unwrap();
    let p = Primitive::simple_waveform(texts(&[1.0, -1.0, 0.5]), "22C55E", "EF4444");
    let result = backend.render(&p).unwrap();
    assert_eq!(result.to_markdown(), "![](https://img.shields.io/badge/\u{1f3b5}-3pts-22C55E?style=flat-square)");
}

#[test]
fn shields_renders_empty_sparkline_as_chart() {
    let backend = ShieldsBackend::new().unwrap();
    let p = Primitive::simple_sparkline(Vec::new(), "F41C80");
    let result = backend.render(&p).unwrap();
    assert_eq!(result.to_markdown(), "![](https://img.shields.io/badge/\u{1f4c8}-chart-F41C80?style=flat-square)");
}

#[test]
fn plaintext_renders_empty_sparkline_and_waveform() {
    let backend = PlainTextBackend::new();
    let s = backend.render(&Primitive::simple_sparkline(Vec::new(), "pink")).unwrap();
    assert_eq!(s.to_markdown(), "\u{2581}");
    let w = backend.render(&Primitive::simple_waveform(Vec::new(), "green", "red")).unwrap();
    assert_eq!(w.to_markdown(), "\u{2594}");
}

#[test]
fn rating_symbols_with_half() {
    assert_eq!(mdfx::renderer::rating_symbols_text("star", 4, true, 5), "\u{2605}\u{2605}\u{2605}\u{2605}\u{2606}");
    assert_eq!(mdfx::renderer::rating_symbols_text("heart", 3, false, 5), "\u{2665}\u{2665}\u{2665}\u{2661}\u{2661}");
    assert_eq!(mdfx::renderer::rating_symbols_text("circle", 7, true, 5), "\u{25cf}\u{25cf}\u{25cf}\u{25cf}\u{25cf}");
}

#[test]
fn rating_badge_escapes_dots() {
    assert_eq!(
        mdfx::renderer::rating_badge("4.5", 5, "FFD700"),
        "![](https://img.shields.io/badge/\u{2b50}-4%2E5/5-FFD700?style=flat-square)"
    );
}

#[test]
fn chart_badge_with_range() {
    assert_eq!(
        mdfx::renderer::chart_badge("1..9", "F41C80"),
        "![](https://img.shields.io/badge/\u{1f4c8}-1..9-F41C80?style=flat-square)"
    );
}

#[test]
fn bar_text_levels() {
    assert_eq!(mdfx::renderer::bar_text(&[0, 3, 7, 9]), "\u{2581}\u{2584}\u{2588}\u{2588}");
}

#[test]
fn shields_version_with_color() {
    let backend = ShieldsBackend::new().unwrap();
    let p = Primitive::Version {
        version: "1.0.0-beta".to_string(),
        style: "flat-square".to_string(),
        status: None,
        bg_color: Some("22C55E".to_string()),
        text_color: None,
        prefix: None,
        border_color: None,
        border_width: None,
        rx: None,
    };
    assert_eq!(
        backend.render(&p).unwrap().to_markdown(),
        "![](https://img.shields.io/badge/v1.0.0--beta-v1.0.0--beta-22C55E?style=flat-square)"
    );
}

#[test]
fn shields_license_with_label_and_color() {
    let backend = ShieldsBackend::new().unwrap();
    let p = Primitive::License {
        license: "MIT".to_string(),
        style: "flat".to_string(),
        label: Some("MIT License".to_string()),
        bg_color: Some("3B82F6".to_string()),
        text_color: None,
        border_color: None,
        border_width: None,
        rx: None,
    };
    assert_eq!(
        backend.render(&p).unwrap().to_markdown(),
        "![](https://img.shields.io/badge/MIT%20License-MIT%20License-3B82F6?style=flat)"
    );
}

#[test]
fn slider_svg_layout() {
    let o = mdfx::bars::SliderOptions {
        percent: 50,
        width: 100,
        height: 4,
        track_color: "333333".to_string(),
        fill_color: "F41C80".to_string(),
        thumb_height: 12,
        thumb_width: None,
        thumb_color: None,
        thumb_shape: "circle".to_string(),
        border_color: None,
        border_width: 0,
        thumb_border: None,
        thumb_border_width: 0,
    };
    assert!(mdfx::bars::slider_fits_at(&o, 50));
    assert_eq!(
        mdfx::bars::slider_svg(&o, 50),
        "<svg xmlns=\"http://www.w3.org/2000/svg\" width=\"100\" height=\"12\" viewBox=\"0 0 100 12\">\n  <rect x=\"0\" y=\"4\" width=\"100\" height=\"4\" fill=\"#333333\" rx=\"2\"/>\n  <rect x=\"0\" y=\"4\" width=\"50\" height=\"4\" fill=\"#F41C80\" rx=\"2\"/>\n  <ellipse cx=\"50\" cy=\"6\" rx=\"6.0\" ry=\"6.0\" fill=\"#F41C80\"/>\n</svg>"
    );
}

#[test]
fn slider_svg_diamond_thumb() {
    let o = mdfx::bars::SliderOptions {
        percent: 0,
        width: 40,
        height: 4,
        track_color: "333333".to_string(),
        fill_color: "F41C80".to_string(),
        thumb_height: 8,
        thumb_width: Some(6),
        thumb_color: Some("FFFFFF".to_string()),
        thumb_shape: "diamond".to_string(),
        border_color: None,
        border_width: 0,
        thumb_border: Some("000000".to_string()),
        thumb_border_width: 1,
    };
    assert_eq!(
        mdfx::bars::slider_svg(&o, 3),
        "<svg xmlns=\"http://www.w3.org/2000/svg\" width=\"40\" height=\"8\" viewBox=\"0 0 40 8\">\n  <rect x=\"0\" y=\"2\" width=\"40\" height=\"4\" fill=\"#333333\" rx=\"2\"/>\n  <rect x=\"0\" y=\"2\" width=\"3\" height=\"4\" fill=\"#F41C80\" rx=\"2\"/>\n  <polygon points=\"3,0 6,4 3,8 0,4\" fill=\"#FFFFFF\" stroke=\"#000000\" stroke-width=\"1\"/>\n</svg>"
    );
}

#[test]
fn progress_svg_layout() {
    let o = mdfx::bars::ProgressOptions {
        percent: 75,
        width: 100,
        height: 10,
        track_color: "333333".to_string(),
        fill_color: "F41C80".to_string(),
        fill_height: 10,
        rx: 3,
        show_label: false,
        label_color: None,
        border_color: None,
        border_width: 0,
    };
    assert_eq!(
        mdfx::bars::progress_svg(&o, 75),
        "<svg xmlns=\"http://www.w3.org/2000/svg\" width=\"100\" height=\"10\" viewBox=\"0 0 100 10\">\n  <rect width=\"100\" height=\"10\" fill=\"#333333\" rx=\"3\"/>\n  <rect x=\"0\" y=\"0\" width=\"75\" height=\"10\" fill=\"#F41C80\" rx=\"3\"/>\n</svg>"
    );
}

#[test]
fn assets_follow_the_text_outside_code() {
    let parser = TemplateParser::with_backend(SvgFiles(SvgBackend::new("assets/test"))).unwrap();
    let input = "`{{ui:swatch:info/}}` {{ui:swatch:success/}}\n```\n{{ui:swatch:info/}}\n```\n{{ui:swatch:pink/}}";
    let result = parser.process_with_assets(input).unwrap();
    assert!(result.markdown.starts_with("`{{ui:swatch:info/}}` "));
    assert!(result.markdown.contains("```\n{{ui:swatch:info/}}\n```"));
    assert_eq!(result.assets.len(), 2);
    let first: String = result.assets[0].to_markdown().to_string();
    let second: String = result.assets[1].to_markdown().to_string();
    assert_ne!(first, second);
    let at_first = result.markdown.find(&first[..]).unwrap();
    let at_second = result.markdown.find(&second[..]).unwrap();
    assert!(at_first < at_second);
}

#[test]
fn inline_backends_collect_no_assets() {
    let parser = TemplateParser::new().unwrap();
    let result = parser.process_with_assets("{{ui:swatch:pink/}} {{ui:swatch:success/}}").unwrap();
    assert!(result.assets.is_empty());
}

#[test]
fn clock_readings_as_rfc3339() {
    assert_eq!(timestamp_text(None), "1970-01-01T00:00:00+00:00");
    assert_eq!(timestamp_text(Some((1431648000, 0))), "2015-05-15T00:00:00+00:00");
    assert_eq!(timestamp_text(Some((0, 500_000_000))), "1970-01-01T00:00:00.500+00:00");
    assert_eq!(timestamp_text(Some((u64::MAX, 0))), "1970-01-01T00:00:00+00:00");
}

#[test]
fn plain_text_collects_nothing() {
    let parser = TemplateParser::with_backend(SvgFiles(SvgBackend::new("assets/test"))).unwrap();
    let result = parser.process_with_assets("# Title\n\nNo templates { here }.").unwrap();
    assert_eq!(result.markdown, "# Title\n\nNo templates { here }.");
    assert!(result.assets.is_empty());
}
