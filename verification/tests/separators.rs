use mdfx::separators::SeparatorsData;

#[test]
fn test_load_separators() {
    let data = SeparatorsData::load().unwrap();
    assert!(data.separators.len() >= 5);
    assert_eq!(data.version, "1.0.0");
}

#[test]
fn test_find_separator_by_id() {
    let data = SeparatorsData::load().unwrap();
    let sep = data.find_separator("dot");
    assert!(sep.is_some());
    assert_eq!(sep.unwrap().char, "·");
}

#[test]
fn test_resolve_named_separator() {
    let data = SeparatorsData::load().unwrap();
    let result = data.resolve("dot");
    assert_eq!(result, Some("·".to_string()));
}

#[test]
fn test_resolve_direct_character() {
    let data = SeparatorsData::load().unwrap();
    let result = data.resolve("⚡");
    assert_eq!(result, Some("⚡".to_string()));
}

#[test]
fn test_resolve_invalid() {
    let data = SeparatorsData::load().unwrap();
    let result = data.resolve("notaseparator");
    assert_eq!(result, None);
}

#[test]
fn test_list_ids() {
    let data = SeparatorsData::load().unwrap();
    let ids = data.list_ids();
    assert!(ids.contains(&"dot".to_string()));
    assert!(ids.contains(&"bullet".to_string()));
    assert!(ids.contains(&"arrow".to_string()));
}

#[test]
fn test_all_predefined_separators() {
    let data = SeparatorsData::load().unwrap();

    // Test that all original separators still exist
    assert!(data.find_separator("dot").is_some());
    assert!(data.find_separator("bullet").is_some());
    assert!(data.find_separator("dash").is_some());
    assert!(data.find_separator("bolddash").is_some());
    assert!(data.find_separator("arrow").is_some());
}
