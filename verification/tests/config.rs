use mdfx::config::{expand_partial, MdfxConfig, PartialDef};

#[test]
fn test_expand_partial() {
    let template = "{{fr:gradient}}$1{{/}}";
    let result = expand_partial(template, "HELLO");
    assert_eq!(result, "{{fr:gradient}}HELLO{{/}}");

    let template2 = "PREFIX $content SUFFIX";
    let result2 = expand_partial(template2, "MIDDLE");
    assert_eq!(result2, "PREFIX MIDDLE SUFFIX");
}

#[test]
fn test_config_merge() {
    let mut config1 = MdfxConfig::new();
    config1.partials.insert(
        "a".to_string(),
        PartialDef {
            template: "template_a".to_string(),
            description: None,
        },
    );

    let mut config2 = MdfxConfig::new();
    config2.partials.insert(
        "b".to_string(),
        PartialDef {
            template: "template_b".to_string(),
            description: None,
        },
    );

    config1.merge(config2);
    assert!(config1.has_partial("a"));
    assert!(config1.has_partial("b"));
}

#[test]
fn test_config_new() {
    let config = MdfxConfig::new();
    assert!(config.partials.is_empty());
    assert!(config.palette.is_empty());
}

#[test]
fn test_partial_names() {
    let mut config = MdfxConfig::new();
    config.partials.insert(
        "alpha".to_string(),
        PartialDef {
            template: "a".to_string(),
            description: None,
        },
    );
    config.partials.insert(
        "beta".to_string(),
        PartialDef {
            template: "b".to_string(),
            description: None,
        },
    );

    let names: Vec<&String> = config.partial_names().into_iter().collect();
    assert_eq!(names.len(), 2);
    assert!(names.iter().any(|n| *n == "alpha"));
    assert!(names.iter().any(|n| *n == "beta"));
}

#[test]
fn test_get_partial_not_found() {
    let config = MdfxConfig::new();
    assert!(config.get_partial("nonexistent").is_none());
    assert!(!config.has_partial("nonexistent"));
}

#[test]
fn test_merge_palette_override() {
    let mut config1 = MdfxConfig::new();
    config1
        .palette
        .insert("color".to_string(), "FF0000".to_string());

    let mut config2 = MdfxConfig::new();
    config2
        .palette
        .insert("color".to_string(), "00FF00".to_string());

    config1.merge(config2);
    assert_eq!(config1.palette.get("color"), Some(&"00FF00".to_string()));
}

#[test]
fn test_expand_partial_both_placeholders() {
    let template = "$content and $1";
    let result = expand_partial(template, "VALUE");
    assert_eq!(result, "VALUE and VALUE");
}

#[test]
fn test_expand_partial_no_placeholder() {
    let template = "no placeholders here";
    let result = expand_partial(template, "unused");
    assert_eq!(result, "no placeholders here");
}
