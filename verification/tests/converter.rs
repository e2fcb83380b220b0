use mdfx::converter::Converter;
use mdfx::error::Error;

#[test]
fn test_converter_new() {
    let converter = Converter::new();
    assert!(converter.is_ok());
}

#[test]
fn converter_test_list_styles() {
    let converter = Converter::new().unwrap();
    let styles = converter.list_styles();
    assert_eq!(styles.len(), 24);
}

#[test]
fn test_basic_conversion() {
    let converter = Converter::new().unwrap();
    let result = converter.convert("Test", "mathbold").unwrap();
    assert_eq!(result, "𝐓𝐞𝐬𝐭");
}

#[test]
fn test_convert_unknown_style() {
    let converter = Converter::new().unwrap();
    let result = converter.convert("TEST", "fakestyle");
    assert!(result.is_err());
    let Err(Error::UnknownStyle(name)) = result else {
        unreachable!("Expected UnknownStyle error");
    };
    assert_eq!(name, "fakestyle");
}

#[test]
fn test_convert() {
    let cases = [
        ("ABC", "mathbold", "𝐀𝐁𝐂"),
        ("abc", "mathbold", "𝐚𝐛𝐜"),
        ("123", "mathbold", "𝟏𝟐𝟑"),
        ("Hello World 123!", "mathbold", "𝐇𝐞𝐥𝐥𝐨 𝐖𝐨𝐫𝐥𝐝 𝟏𝟐𝟑!"),
        ("ABC", "fullwidth", "ＡＢＣ"),
        ("WARNING", "negative-squared", "🆆🅰🆁🅽🅸🅽🅶"),
        ("hello", "small-caps", "ʜᴇʟʟᴏ"),
        ("TEST", "mb", "𝐓𝐄𝐒𝐓"),
        ("A B  C", "mathbold", "𝐀 𝐁  𝐂"),
        ("Hello, World!", "mathbold", "𝐇𝐞𝐥𝐥𝐨, 𝐖𝐨𝐫𝐥𝐝!"),
    ];
    let converter = Converter::new().unwrap();
    for (input, style, expected) in cases {
        assert_eq!(converter.convert(input, style).unwrap(), expected);
    }
}

#[test]
fn test_strikethrough() {
    let converter = Converter::new().unwrap();
    assert_eq!(converter.convert("Hello", "strikethrough").unwrap(), "H\u{0336}e\u{0336}l\u{0336}l\u{0336}o\u{0336}");
    assert_eq!(
        converter.convert("Hi there", "strikethrough").unwrap(),
        "H\u{0336}i\u{0336} t\u{0336}h\u{0336}e\u{0336}r\u{0336}e\u{0336}"
    );
}

#[test]
fn converter_has_style() {
    let cases = [
        ("mathbold", true), ("mb", true), ("fullwidth", true), ("negative-squared", true),
        ("negative-circled", true), ("squared-latin", true), ("small-caps", true), ("monospace", true),
        ("double-struck", true), ("sans-serif-bold", true), ("italic", true), ("bold-italic", true),
        ("strike", true), ("st", true), ("crossed", true), ("fakestyle", false),
    ];
    let converter = Converter::new().unwrap();
    for (style, expected) in cases {
        assert_eq!(converter.has_style(style), expected, "{}", style);
    }
}

#[test]
fn test_spacing() {
    let cases = [
        ("HELLO", "mathbold", 0usize, "𝐇𝐄𝐋𝐋𝐎"),
        ("HELLO", "mathbold", 1, "𝐇 𝐄 𝐋 𝐋 𝐎"),
        ("ABC", "script", 2, "𝒜  ℬ  𝒞"),
        ("GO", "fraktur", 3, "𝔊   𝔒"),
        ("hello", "mathbold", 1, "𝐡 𝐞 𝐥 𝐥 𝐨"),
        ("A", "mathbold", 2, "𝐀"),
    ];
    let converter = Converter::new().unwrap();
    for (input, style, spacing, expected) in cases {
        assert_eq!(converter.convert_with_spacing(input, style, spacing).unwrap(), expected);
    }
}

#[test]
fn test_separator() {
    let cases = [
        ("HELLO", "mathbold", "·", 1usize, "𝐇·𝐄·𝐋·𝐋·𝐎"),
        ("ABC", "mathbold", "─", 1, "𝐀─𝐁─𝐂"),
        ("HI", "mathbold", "━", 1, "𝐇━𝐈"),
        ("ABC", "mathbold", "→", 1, "𝐀→𝐁→𝐂"),
        ("AB", "mathbold", "·", 3, "𝐀···𝐁"),
        ("X", "mathbold", "·", 1, "𝐗"),
    ];
    let converter = Converter::new().unwrap();
    for (input, style, sep, count, expected) in cases {
        assert_eq!(converter.convert_with_separator(input, style, sep, count).unwrap(), expected);
    }
}


#[test]
fn convert_concatenation_is_concatenated() {
    let c = Converter::new().unwrap();
    let whole = c.convert("AB12", "mathbold").unwrap();
    let parts = c.convert("AB", "mathbold").unwrap() + &c.convert("12", "mathbold").unwrap();
    assert_eq!(whole, parts);
}
