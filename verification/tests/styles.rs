use mdfx::styles::{StyleCategory, StylesData};

#[test]
fn test_find_style_by_id() {
    let data = StylesData::load().unwrap();
    let style = data.find_style("mathbold");
    assert!(style.is_some());
    assert_eq!(style.unwrap().name, "Mathematical Bold");
}

#[test]
fn test_find_style_by_alias() {
    let data = StylesData::load().unwrap();
    let style = data.find_style("mb");
    assert!(style.is_some());
    assert_eq!(style.unwrap().id, "mathbold");
}

#[test]
fn test_style_supports_char() {
    let data = StylesData::load().unwrap();
    let mathbold = data.find_style("mathbold").unwrap();

    assert!(mathbold.supports_char('A'));
    assert!(mathbold.supports_char('a'));
    assert!(mathbold.supports_char('0'));
    assert!(!mathbold.supports_char('!'));
}

#[test]
fn test_convert_char() {
    let data = StylesData::load().unwrap();
    let mathbold = data.find_style("mathbold").unwrap();

    assert_eq!(mathbold.convert_char('A'), '𝐀');
    assert_eq!(mathbold.convert_char('B'), '𝐁');
    assert_eq!(mathbold.convert_char('!'), '!'); // unchanged
}

#[test]
fn test_by_category() {
    let data = StylesData::load().unwrap();
    let bold_styles = data.by_category(&StyleCategory::Bold);
    assert!(bold_styles.len() >= 3);
}
