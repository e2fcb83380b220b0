use mdfx::converter::Converter;
use mdfx::parser::TemplateParser;

fn process_ok(input: &str, expected: &str) {
    let parser = TemplateParser::new().expect("Failed to create parser");
    let result = parser.process(input).expect("Processing failed");
    assert_eq!(result, expected, "Input: {}", input);
}

fn process_unchanged(input: &str) {
    let parser = TemplateParser::new().expect("Failed to create parser");
    let result = parser.process(input).expect("Processing failed");
    assert_eq!(result, input, "Expected unchanged output for: {}", input);
}

fn process_err(input: &str) {
    let parser = TemplateParser::new().expect("Failed to create parser");
    let result = parser.process(input);
    assert!(result.is_err(), "Expected error for input: {}", input);
}

fn process_cases(cases: &[(&str, &str)]) {
    let parser = TemplateParser::new().expect("Failed to create parser");
    for (input, expected) in cases {
        let result = parser.process(input).expect("Processing failed");
        assert_eq!(&result, expected, "Input: {}", input);
    }
}

fn convert_ok(style: &str, input: &str, expected: &str) {
    let converter = Converter::new().expect("Failed to create converter");
    let result = converter.convert(input, style).expect("Conversion failed");
    assert_eq!(result, expected, "Style: {}, Input: {}", style, input);
}

#[test]
fn test_macro_basic() {
    process_ok("{{mathbold}}A{{/mathbold}}", "𝐀");
}

#[test]
fn test_macro_unchanged() {
    process_unchanged("```\n{{mathbold}}CODE{{/mathbold}}\n```");
}

#[test]
fn test_macro_error() {
    // Unclosed tag causes an error
    process_err("{{mathbold}}text without closing tag");
}

#[test]
fn test_macro_cases() {
    process_cases(&[
        ("{{mathbold}}A{{/mathbold}}", "𝐀"),
        ("{{mathbold}}B{{/mathbold}}", "𝐁"),
        ("plain text", "plain text"),
    ]);
}

#[test]
fn test_convert_macro() {
    convert_ok("mathbold", "ABC", "𝐀𝐁𝐂");
}
