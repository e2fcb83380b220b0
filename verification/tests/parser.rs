use mdfx::error::Error;
use mdfx::parser::TemplateParser;

fn check(input: &str, expected: &str) {
    let parser = TemplateParser::new().expect("Failed to create parser");
    let result = parser.process(input).expect("Processing failed");
    assert_eq!(result, expected, "Input: {}", input);
}

fn check_err(input: &str) {
    let parser = TemplateParser::new().expect("Failed to create parser");
    let result = parser.process(input);
    assert!(result.is_err(), "Expected error for input: {}", input);
}

fn check_unchanged(input: &str) {
    let parser = TemplateParser::new().expect("Failed to create parser");
    let result = parser.process(input).expect("Processing failed");
    assert_eq!(result, input, "Expected unchanged output for: {}", input);
}

fn check_contains(input: &str, expected: &[&str]) {
    let parser = TemplateParser::new().expect("Failed to create parser");
    let result = parser.process(input).expect("Processing failed");
    for e in expected {
        assert!(result.contains(e), "Expected {:?} in {:?}", e, result);
    }
}

fn check_bookends(input: &str, starts: &str, ends: &str, contains: &[&str]) {
    let parser = TemplateParser::new().expect("Failed to create parser");
    let result = parser.process(input).expect("Processing failed");
    assert!(result.starts_with(starts), "Expected start {:?} in {:?}", starts, result);
    assert!(result.ends_with(ends), "Expected end {:?} in {:?}", ends, result);
    for c in contains {
        assert!(result.contains(c), "Expected {:?} in {:?}", c, result);
    }
}

#[test]
fn test_parser_new() {
    let parser = TemplateParser::new();
    assert!(parser.is_ok());
}

#[test]
fn test_simple_template() {
    check("{{mathbold}}HELLO{{/mathbold}}", "𝐇𝐄𝐋𝐋𝐎");
}

#[test]
fn test_template_in_heading() {
    check("# {{mathbold}}TITLE{{/mathbold}}", "# 𝐓𝐈𝐓𝐋𝐄");
}

#[test]
fn test_multiple_templates() {
    check("{{mathbold}}BOLD{{/mathbold}} and {{italic}}italic{{/italic}}", "𝐁𝐎𝐋𝐃 and 𝑖𝑡𝑎𝑙𝑖𝑐");
}

#[test]
fn test_preserves_code_blocks() {
    check_unchanged("```\n{{mathbold}}CODE{{/mathbold}}\n```");
}

#[test]
fn test_preserves_code_blocks_with_language() {
    check_unchanged("```markdown\n{{ui:test:arg/}}\nMore {{/ui}} content\n```");
}

#[test]
fn test_preserves_inline_code() {
    check_unchanged("Text `{{mathbold}}code{{/mathbold}}` more text");
}

#[test]
fn test_multiline_template() {
    check("Line 1\n{{mathbold}}TITLE{{/mathbold}}\nLine 3", "Line 1\n𝐓𝐈𝐓𝐋𝐄\nLine 3");
}

#[test]
fn test_unknown_style_error() {
    check_err("{{fakestyle}}TEXT{{/fakestyle}}");
}

#[test]
fn parser_test_style_alias() {
    check("{{mb}}TEST{{/mb}}", "𝐓𝐄𝐒𝐓");
}

#[test]
fn test_template_with_spaces() {
    check("{{mathbold}}HELLO WORLD{{/mathbold}}", "𝐇𝐄𝐋𝐋𝐎 𝐖𝐎𝐑𝐋𝐃");
}

#[test]
fn test_template_with_punctuation() {
    check("{{mathbold}}Hello, World!{{/mathbold}}", "𝐇𝐞𝐥𝐥𝐨, 𝐖𝐨𝐫𝐥𝐝!");
}

#[test]
fn test_mismatched_tags() {
    check_err("{{mathbold}}TEXT{{/italic}}");
}

#[test]
fn test_complex_markdown() {
    check_contains(r#"# {{mathbold}}TITLE{{/mathbold}}

This is a {{negative-squared}}WARNING{{/negative-squared}} message.

```rust
let code = "{{mathbold}}not processed{{/mathbold}}";
```

And `{{mathbold}}inline code{{/mathbold}}` is also preserved."#, &[
            "𝐓𝐈𝐓𝐋𝐄",
            "🆆🅰🆁🅽🅸🅽🅶",
            "{{mathbold}}not processed{{/mathbold}}",
            "`{{mathbold}}inline code{{/mathbold}}`"
        ]);
}

#[test]
fn test_hyphenated_style_names() {
    check("{{negative-squared}}TEST{{/negative-squared}}", "🆃🅴🆂🆃");
}

#[test]
fn test_empty_content() {
    check("{{mathbold}}{{/mathbold}}", "");
}

#[test]
fn test_adjacent_templates() {
    check("{{mathbold}}A{{/mathbold}}{{italic}}B{{/italic}}", "𝐀𝐵");
}

#[test]
fn test_template_with_spacing() {
    check("{{mathbold:spacing=1}}HELLO{{/mathbold}}", "𝐇 𝐄 𝐋 𝐋 𝐎");
}

#[test]
fn test_template_with_spacing_two() {
    check("{{script:spacing=2}}ABC{{/script}}", "𝒜  ℬ  𝒞");
}

#[test]
fn test_template_mixed_spacing() {
    check("{{mathbold}}no spacing{{/mathbold}} {{mathbold:spacing=1}}with spacing{{/mathbold}}", "𝐧𝐨 𝐬𝐩𝐚𝐜𝐢𝐧𝐠 𝐰 𝐢 𝐭 𝐡   𝐬 𝐩 𝐚 𝐜 𝐢 𝐧 𝐠");
}

#[test]
fn test_template_spacing_with_heading() {
    check("# {{mathbold:spacing=1}}HEADER{{/mathbold}}", "# 𝐇 𝐄 𝐀 𝐃 𝐄 𝐑");
}

#[test]
fn test_template_spacing_zero() {
    check("{{mathbold:spacing=0}}HELLO{{/mathbold}}", "𝐇𝐄𝐋𝐋𝐎");
}

#[test]
fn test_template_with_separator_dot() {
    check("{{mathbold:separator=dot}}HELLO{{/mathbold}}", "𝐇·𝐄·𝐋·𝐋·𝐎");
}

#[test]
fn test_template_with_separator_dash() {
    check("{{mathbold:separator=dash}}HEADER{{/mathbold}}", "𝐇─𝐄─𝐀─𝐃─𝐄─𝐑");
}

#[test]
fn test_template_with_separator_bolddash() {
    check("{{mathbold:separator=bolddash}}BOLD{{/mathbold}}", "𝐁━𝐎━𝐋━𝐃");
}

#[test]
fn test_template_with_separator_arrow() {
    check("{{mathbold:separator=arrow}}ABC{{/mathbold}}", "𝐀→𝐁→𝐂");
}

#[test]
fn test_template_with_separator_bullet() {
    check("{{mathbold:separator=bullet}}TEST{{/mathbold}}", "𝐓•𝐄•𝐒•𝐓");
}

#[test]
fn test_template_separator_in_heading() {
    check("# {{mathbold:separator=dot}}TITLE{{/mathbold}}", "# 𝐓·𝐈·𝐓·𝐋·𝐄");
}

#[test]
fn test_template_separator_with_punctuation() {
    check("{{mathbold:separator=dash}}Hello, World!{{/mathbold}}", "𝐇─𝐞─𝐥─𝐥─𝐨─,─ ─𝐖─𝐨─𝐫─𝐥─𝐝─!");
}

#[test]
fn test_template_spacing_and_separator_mutually_exclusive() {
    // When both are specified, separator takes precedence
    check("{{mathbold:spacing=2:separator=dot}}HI{{/mathbold}}", "𝐇·𝐈");
}

#[test]
fn test_template_unknown_separator_error() {
    check_err("{{mathbold:separator=invalid}}TEST{{/mathbold}}");
}

#[test]
fn test_template_mixed_with_and_without_separator() {
    check("{{mathbold}}no sep{{/mathbold}} {{mathbold:separator=dot}}with sep{{/mathbold}}", "𝐧𝐨 𝐬𝐞𝐩 𝐰·𝐢·𝐭·𝐡· ·𝐬·𝐞·𝐩");
}

#[test]
fn test_frame_template_plain_text() {
    check("{{frame:gradient}}Title{{/frame}}", "▓\u{fe0e}▒\u{fe0e}░\u{fe0e} Title ░\u{fe0e}▒\u{fe0e}▓\u{fe0e}");
}

#[test]
fn test_frame_short_close_tag() {
    check("{{frame:gradient}}Title{{/}}", "▓\u{fe0e}▒\u{fe0e}░\u{fe0e} Title ░\u{fe0e}▒\u{fe0e}▓\u{fe0e}");
}

#[test]
fn test_frame_nested_short_close() {
    check("{{frame:gradient}}{{frame:glyph:star}}NESTED{{/}}{{/}}", "▓\u{fe0e}▒\u{fe0e}░\u{fe0e} ★\u{fe0e} NESTED ★\u{fe0e} ░\u{fe0e}▒\u{fe0e}▓\u{fe0e}");
}

#[test]
fn test_frame_template_with_styled_text() {
    check("{{frame:gradient}}{{mathbold}}TITLE{{/mathbold}}{{/frame}}", "▓\u{fe0e}▒\u{fe0e}░\u{fe0e} 𝐓𝐈𝐓𝐋𝐄 ░\u{fe0e}▒\u{fe0e}▓\u{fe0e}");
}

#[test]
fn test_frame_with_separator() {
    check("{{frame:solid-left}}{{mathbold:separator=dot}}TITLE{{/mathbold}}{{/frame}}", "█\u{fe0e}▌\u{fe0e}𝐓·𝐈·𝐓·𝐋·𝐄");
}

#[test]
fn test_frame_with_spacing() {
    check("{{frame:gradient}}{{mathbold:spacing=1}}HI{{/mathbold}}{{/frame}}", "▓\u{fe0e}▒\u{fe0e}░\u{fe0e} 𝐇 𝐈 ░\u{fe0e}▒\u{fe0e}▓\u{fe0e}");
}

#[test]
fn parser_test_frame_alias() {
    check("{{frame:grad}}Test{{/frame}}", "▓\u{fe0e}▒\u{fe0e}░\u{fe0e} Test ░\u{fe0e}▒\u{fe0e}▓\u{fe0e}");
}

#[test]
fn test_frame_solid_left() {
    check("{{frame:solid-left}}Important{{/frame}}", "█\u{fe0e}▌\u{fe0e}Important");
}

#[test]
fn test_frame_line_bold() {
    check("{{frame:line-bold}}Section{{/frame}}", "━\u{fe0e}━\u{fe0e}━\u{fe0e} Section ━\u{fe0e}━\u{fe0e}━\u{fe0e}");
}

#[test]
fn test_multiple_frames_in_line() {
    check("{{frame:solid-left}}A{{/frame}} and {{frame:solid-right}}B{{/frame}}", "█\u{fe0e}▌\u{fe0e}A and B▐\u{fe0e}█\u{fe0e}");
}

#[test]
fn test_frame_in_heading() {
    check("# {{frame:gradient}}{{mathbold}}HEADER{{/mathbold}}{{/frame}}", "# ▓\u{fe0e}▒\u{fe0e}░\u{fe0e} 𝐇𝐄𝐀𝐃𝐄𝐑 ░\u{fe0e}▒\u{fe0e}▓\u{fe0e}");
}

#[test]
fn test_frame_unknown_style_error() {
    let parser = TemplateParser::new().unwrap();
    let input = "{{frame:invalid}}Text{{/frame}}";
    let result = parser.process(input);
    assert!(result.is_err());
    if let Err(Error::UnknownFrame(name)) = result {
        assert_eq!(name, "invalid");
    } else {
        panic!("Expected UnknownFrame error");
    }
}

#[test]
fn test_frame_glyph_shorthand() {
    check("{{frame:glyph:star}}Title{{/frame}}", "★\u{fe0e} Title ★\u{fe0e}");
}

#[test]
fn test_frame_glyph_shorthand_diamond() {
    check("{{frame:glyph:diamond}}Gem{{/frame}}", "◆\u{fe0e} Gem ◆\u{fe0e}");
}

#[test]
fn test_frame_glyph_shorthand_unknown_glyph() {
    // Keep verbose form - tests specific error variant
    let parser = TemplateParser::new().unwrap();
    let input = "{{frame:glyph:unknown}}Text{{/frame}}";
    let result = parser.process(input);
    assert!(result.is_err());
    if let Err(Error::UnknownGlyph(name)) = result {
        assert_eq!(name, "unknown");
    } else {
        panic!("Expected UnknownGlyph error");
    }
}

#[test]
fn test_frame_glyph_multiplier() {
    check("{{frame:glyph:star*3}}Title{{/frame}}", "★\u{fe0e}★\u{fe0e}★\u{fe0e} Title ★\u{fe0e}★\u{fe0e}★\u{fe0e}");
}

#[test]
fn test_frame_glyph_multiplier_with_tight_padding() {
    check("{{frame:glyph:star*3/pad=0}}Title{{/frame}}", "★\u{fe0e}★\u{fe0e}★\u{fe0e}Title★\u{fe0e}★\u{fe0e}★\u{fe0e}");
}

#[test]
fn test_frame_glyph_multiplier_with_spaces() {
    check("{{frame:glyph:star*2/pad=3}}Title{{/frame}}", "★\u{fe0e}★\u{fe0e}   Title   ★\u{fe0e}★\u{fe0e}");
}

#[test]
fn test_frame_glyph_custom_padding() {
    check("{{frame:glyph:diamond*2/pad=-}}Title{{/frame}}", "◆\u{fe0e}◆\u{fe0e}-Title-◆\u{fe0e}◆\u{fe0e}");
}

#[test]
fn test_frame_glyph_unicode_padding() {
    check("{{frame:glyph:star*2/pad=·}}Title{{/frame}}", "★\u{fe0e}★\u{fe0e}·Title·★\u{fe0e}★\u{fe0e}");
}

#[test]
fn test_frame_glyph_multi_char_padding() {
    check("{{frame:glyph:star/pad=--}}Title{{/frame}}", "★\u{fe0e}--Title--★\u{fe0e}");
}

#[test]
fn test_frame_glyph_with_separator() {
    check("{{frame:glyph:star*3/separator=dot}}Title{{/frame}}", "★\u{fe0e}·★\u{fe0e}·★\u{fe0e} Title ★\u{fe0e}·★\u{fe0e}·★\u{fe0e}");
}

#[test]
fn test_frame_glyph_with_separator_named() {
    check("{{frame:glyph:diamond*2/separator=dash}}Gem{{/frame}}", "◆\u{fe0e}─◆\u{fe0e} Gem ◆\u{fe0e}─◆\u{fe0e}");
}

#[test]
fn test_frame_glyph_with_separator_literal() {
    check("{{frame:glyph:bullet*4/separator=-}}X{{/frame}}", "•\u{fe0e}-•\u{fe0e}-•\u{fe0e}-•\u{fe0e} X •\u{fe0e}-•\u{fe0e}-•\u{fe0e}-•\u{fe0e}");
}

#[test]
fn test_frame_glyph_separator_and_pad() {
    // Both separator and pad modifiers
    check("{{frame:glyph:star*3/separator=·/pad=0}}Tight{{/frame}}", "★\u{fe0e}·★\u{fe0e}·★\u{fe0e}Tight★\u{fe0e}·★\u{fe0e}·★\u{fe0e}");
}

#[test]
fn test_frame_glyph_separator_single_count() {
    // With count=1, separator has no effect (nothing to separate)
    check("{{frame:glyph:star/separator=dot}}Single{{/frame}}", "★\u{fe0e} Single ★\u{fe0e}");
}

#[test]
fn test_frame_glyph_max_count() {
    // Count should be capped at 20 (20 bullets on each side + space padding)
    check("{{frame:glyph:bullet*100}}X{{/frame}}", "•\u{fe0e}•\u{fe0e}•\u{fe0e}•\u{fe0e}•\u{fe0e}•\u{fe0e}•\u{fe0e}•\u{fe0e}•\u{fe0e}•\u{fe0e}•\u{fe0e}•\u{fe0e}•\u{fe0e}•\u{fe0e}•\u{fe0e}•\u{fe0e}•\u{fe0e}•\u{fe0e}•\u{fe0e}•\u{fe0e} X •\u{fe0e}•\u{fe0e}•\u{fe0e}•\u{fe0e}•\u{fe0e}•\u{fe0e}•\u{fe0e}•\u{fe0e}•\u{fe0e}•\u{fe0e}•\u{fe0e}•\u{fe0e}•\u{fe0e}•\u{fe0e}•\u{fe0e}•\u{fe0e}•\u{fe0e}•\u{fe0e}•\u{fe0e}•\u{fe0e}");
}

#[test]
fn test_frame_fr_shorthand() {
    check("{{fr:gradient}}Title{{/}}", "▓\u{fe0e}▒\u{fe0e}░\u{fe0e} Title ░\u{fe0e}▒\u{fe0e}▓\u{fe0e}");
}

#[test]
fn test_frame_fr_shorthand_with_glyph() {
    check("{{fr:glyph:star*3}}Text{{/}}", "★\u{fe0e}★\u{fe0e}★\u{fe0e} Text ★\u{fe0e}★\u{fe0e}★\u{fe0e}");
}

#[test]
fn test_frame_pattern_with_separator() {
    // gradient pattern is ▓▒░, with separator should be ▓·▒·░
    check("{{fr:gradient/separator=dot}}Title{{/}}", "▓\u{fe0e}·▒\u{fe0e}·░\u{fe0e} Title ░\u{fe0e}·▒\u{fe0e}·▓\u{fe0e}");
}

#[test]
fn test_frame_pattern_with_separator_named() {
    check("{{frame:gradient/separator=dash}}TEXT{{/frame}}", "▓\u{fe0e}─▒\u{fe0e}─░\u{fe0e} TEXT ░\u{fe0e}─▒\u{fe0e}─▓\u{fe0e}");
}

#[test]
fn test_frame_pattern_with_separator_literal() {
    check("{{fr:line-double/separator= }}Title{{/}}", "═\u{fe0e} ═\u{fe0e} ═\u{fe0e} Title ═\u{fe0e} ═\u{fe0e} ═\u{fe0e}");
}

#[test]
fn test_frame_pattern_with_spacing() {
    // spacing=1 adds 1 space between each grapheme
    check("{{fr:gradient/spacing=1}}TITLE{{/}}", "▓\u{fe0e} ▒\u{fe0e} ░\u{fe0e} TITLE ░\u{fe0e} ▒\u{fe0e} ▓\u{fe0e}");
}

#[test]
fn test_frame_pattern_with_spacing_two() {
    // spacing=2 adds 2 spaces between each grapheme
    check("{{fr:gradient/spacing=2}}X{{/}}", "▓\u{fe0e}  ▒\u{fe0e}  ░\u{fe0e} X ░\u{fe0e}  ▒\u{fe0e}  ▓\u{fe0e}");
}

#[test]
fn test_glyph_frame_with_spacing() {
    check("{{fr:glyph:star*3/spacing=1}}Text{{/}}", "★\u{fe0e} ★\u{fe0e} ★\u{fe0e} Text ★\u{fe0e} ★\u{fe0e} ★\u{fe0e}");
}

#[test]
fn test_glyph_frame_with_spacing_two() {
    check("{{fr:glyph:diamond*2/spacing=2}}Gem{{/}}", "◆\u{fe0e}  ◆\u{fe0e} Gem ◆\u{fe0e}  ◆\u{fe0e}");
}

#[test]
fn parser_test_frame_alternate_mode() {
    // gradient-wave uses alternate mode: ▓▒░ → ▒░▓ (rotated)
    check("{{fr:gradient-wave}}TITLE{{/}}", "▓\u{fe0e}▒\u{fe0e}░\u{fe0e} TITLE ▒\u{fe0e}░\u{fe0e}▓\u{fe0e}");
}

#[test]
fn test_frame_alternate_mode_with_alias() {
    check("{{fr:wave}}TEXT{{/}}", "▓\u{fe0e}▒\u{fe0e}░\u{fe0e} TEXT ▒\u{fe0e}░\u{fe0e}▓\u{fe0e}");
}

#[test]
fn test_frame_combo() {
    // gradient+star: outer prefix + inner prefix + content + inner suffix + outer suffix
    check("{{fr:gradient+star}}TITLE{{/}}", "▓\u{fe0e}▒\u{fe0e}░\u{fe0e} ★\u{fe0e} TITLE ☆\u{fe0e} ░\u{fe0e}▒\u{fe0e}▓\u{fe0e}");
}

#[test]
fn test_frame_combo_three() {
    // gradient: ▓▒░  + star: ★  + diamond: ◆  + X + ◇  + ☆  + ░▒▓
    check("{{fr:gradient+star+diamond}}X{{/}}", "▓\u{fe0e}▒\u{fe0e}░\u{fe0e} ★\u{fe0e} ◆\u{fe0e} X ◇\u{fe0e} ☆\u{fe0e} ░\u{fe0e}▒\u{fe0e}▓\u{fe0e}");
}

#[test]
fn test_frame_combo_with_spaces() {
    check("{{fr:gradient + star}}TEXT{{/}}", "▓\u{fe0e}▒\u{fe0e}░\u{fe0e} ★\u{fe0e} TEXT ☆\u{fe0e} ░\u{fe0e}▒\u{fe0e}▓\u{fe0e}");
}

#[test]
fn test_frame_self_closing_with_separator() {
    check("{{fr:gradient/separator=·:Inline/}}", "▓\u{fe0e}·▒\u{fe0e}·░\u{fe0e} Inline ░\u{fe0e}·▒\u{fe0e}·▓\u{fe0e}");
}

#[test]
fn test_frame_reverse() {
    // Reverse gradient: swap prefix and suffix
    // Normal: ▓▒░ Title ░▒▓, Reversed: ░▒▓ Title ▓▒░
    check("{{fr:gradient/reverse}}Title{{/}}", " ░\u{fe0e}▒\u{fe0e}▓\u{fe0e}Title▓\u{fe0e}▒\u{fe0e}░\u{fe0e} ");
}

#[test]
fn test_frame_reverse_star() {
    // Reverse star: swap ★ and ☆
    // Normal: ★ VIP ☆, Reversed: ☆ VIP ★ (with spacing swap)
    check("{{fr:star/reverse}}VIP{{/}}", " ☆\u{fe0e}VIP★\u{fe0e} ");
}

#[test]
fn test_frame_count() {
    // Repeat star 3 times
    check("{{fr:star*3}}Title{{/}}", "★\u{fe0e}★\u{fe0e}★\u{fe0e} Title ☆\u{fe0e}☆\u{fe0e}☆\u{fe0e}");
}

#[test]
fn test_frame_count_gradient() {
    // Repeat gradient 2 times
    check("{{fr:gradient*2}}X{{/}}", "▓\u{fe0e}▒\u{fe0e}░\u{fe0e}▓\u{fe0e}▒\u{fe0e}░\u{fe0e} X ░\u{fe0e}▒\u{fe0e}▓\u{fe0e}░\u{fe0e}▒\u{fe0e}▓\u{fe0e}");
}

#[test]
fn test_frame_count_and_reverse() {
    // Repeat star 2 times then reverse
    // Count first: ★★ Title ☆☆, then reverse: ☆☆ Title ★★ (with spacing)
    check("{{fr:star*2/reverse}}Title{{/}}", " ☆\u{fe0e}☆\u{fe0e}Title★\u{fe0e}★\u{fe0e} ");
}

#[test]
fn test_frame_count_with_separator() {
    // ★★★ with separator between graphemes: ★·★·★
    check("{{fr:star*3/separator=·}}Title{{/}}", "★\u{fe0e}·★\u{fe0e}·★\u{fe0e} Title ☆\u{fe0e}·☆\u{fe0e}·☆\u{fe0e}");
}

#[test]
fn test_frame_fr_nested() {
    check("{{fr:gradient}}{{fr:star}}NESTED{{/}}{{/}}", "▓\u{fe0e}▒\u{fe0e}░\u{fe0e} ★\u{fe0e} NESTED ☆\u{fe0e} ░\u{fe0e}▒\u{fe0e}▓\u{fe0e}");
}

#[test]
fn test_frame_fr_mixed_with_full_frame() {
    check("{{frame:gradient}}{{fr:star}}MIXED{{/}}{{/frame}}", "▓\u{fe0e}▒\u{fe0e}░\u{fe0e} ★\u{fe0e} MIXED ☆\u{fe0e} ░\u{fe0e}▒\u{fe0e}▓\u{fe0e}");
}

#[test]
fn test_frame_close_all() {
    check("{{fr:gradient}}{{fr:star}}NESTED{{//}}", "▓\u{fe0e}▒\u{fe0e}░\u{fe0e} ★\u{fe0e} NESTED ☆\u{fe0e} ░\u{fe0e}▒\u{fe0e}▓\u{fe0e}");
}

#[test]
fn test_frame_close_all_three_levels() {
    check("{{fr:gradient}}{{fr:star}}{{fr:lenticular}}DEEP{{//}}", "▓\u{fe0e}▒\u{fe0e}░\u{fe0e} ★\u{fe0e} 【\u{fe0e}DEEP】\u{fe0e} ☆\u{fe0e} ░\u{fe0e}▒\u{fe0e}▓\u{fe0e}");
}

#[test]
fn test_frame_close_all_single_frame() {
    // {{//}} on single frame should work same as {{/}}
    check("{{fr:gradient}}Title{{//}}", "▓\u{fe0e}▒\u{fe0e}░\u{fe0e} Title ░\u{fe0e}▒\u{fe0e}▓\u{fe0e}");
}

#[test]
fn test_frame_close_all_with_content_between() {
    // The {{//}} closes both frames, leaving " end" outside
    check("{{fr:gradient}}Outer {{fr:star}}Inner{{//}} end", "▓\u{fe0e}▒\u{fe0e}░\u{fe0e} Outer ★\u{fe0e} Inner ☆\u{fe0e} ░\u{fe0e}▒\u{fe0e}▓\u{fe0e} end");
}

#[test]
fn test_expand_close_all_styles() {
    let parser = TemplateParser::new().unwrap();
    let input = "{{mathbold}}{{italic}}TEXT{{//}}";
    let expanded = parser.expand_close_all(input);
    // Should expand to close both styles in reverse order
    assert_eq!(expanded, "{{mathbold}}{{italic}}TEXT{{/italic}}{{/mathbold}}");
}

#[test]
fn test_expand_close_all_mixed() {
    let parser = TemplateParser::new().unwrap();
    let input = "{{fr:gradient}}{{mathbold}}TEXT{{//}}";
    let expanded = parser.expand_close_all(input);
    // Should expand to close style first, then frame
    assert_eq!(expanded, "{{fr:gradient}}{{mathbold}}TEXT{{/mathbold}}{{/}}");
}

#[test]
fn test_universal_close_all_frames_and_style() {
    // Frame > Frame > Style, all closed by {{//}}
    check("{{fr:gradient}}{{fr:star}}{{mathbold}}VIP{{//}}", "▓\u{fe0e}▒\u{fe0e}░\u{fe0e} ★\u{fe0e} 𝐕𝐈𝐏 ☆\u{fe0e} ░\u{fe0e}▒\u{fe0e}▓\u{fe0e}");
}

#[test]
fn test_universal_close_all_preserves_partial_closes() {
    // Style is explicitly closed, only frame left for {{//}}
    check("{{fr:gradient}}{{mathbold}}TITLE{{/mathbold}} more text{{//}}", "▓\u{fe0e}▒\u{fe0e}░\u{fe0e} 𝐓𝐈𝐓𝐋𝐄 more text ░\u{fe0e}▒\u{fe0e}▓\u{fe0e}");
}

#[test]
fn test_universal_close_all_self_closing_ignored() {
    // Self-closing tags should not be tracked - only the frame should be closed
    let parser = TemplateParser::new().unwrap();
    let input = "{{fr:gradient}}{{ui:swatch:pink/}}text{{//}}";
    let result = parser.process(input).unwrap();
    assert!(result.contains("▓\u{fe0e}▒\u{fe0e}░\u{fe0e}"));
    assert!(result.contains("░\u{fe0e}▒\u{fe0e}▓\u{fe0e}"));
}

#[test]
fn test_frame_self_closing_basic() {
    check("{{fr:gradient:Title/}}", "▓\u{fe0e}▒\u{fe0e}░\u{fe0e} Title ░\u{fe0e}▒\u{fe0e}▓\u{fe0e}");
}

#[test]
fn test_frame_self_closing_star() {
    check("{{fr:star:VIP/}}", "★\u{fe0e} VIP ☆\u{fe0e}");
}

#[test]
fn test_frame_self_closing_glyph() {
    check("{{fr:glyph:diamond*2:Gem/}}", "◆\u{fe0e}◆\u{fe0e} Gem ◆\u{fe0e}◆\u{fe0e}");
}

#[test]
fn test_frame_self_closing_glyph_with_padding() {
    check("{{fr:glyph:star*3/pad=0:Tight/}}", "★\u{fe0e}★\u{fe0e}★\u{fe0e}Tight★\u{fe0e}★\u{fe0e}★\u{fe0e}");
}

#[test]
fn test_frame_self_closing_full_syntax() {
    check("{{frame:solid-left:Note/}}", "█\u{fe0e}▌\u{fe0e}Note");
}

#[test]
fn test_frame_self_closing_in_sentence() {
    check("Check this {{fr:star:TIP/}} out!", "Check this ★\u{fe0e} TIP ☆\u{fe0e} out!");
}

#[test]
fn test_frame_preserves_code_blocks() {
    check_unchanged("```\n{{frame:gradient}}CODE{{/frame}}\n```");
}

#[test]
fn test_frame_preserves_inline_code() {
    check_unchanged("Text `{{frame:gradient}}code{{/frame}}` more");
}

#[test]
fn test_composition_frame_style_separator() {
    check("{{frame:gradient}}{{mathbold:separator=dash}}STYLED{{/mathbold}}{{/frame}}", "▓\u{fe0e}▒\u{fe0e}░\u{fe0e} 𝐒─𝐓─𝐘─𝐋─𝐄─𝐃 ░\u{fe0e}▒\u{fe0e}▓\u{fe0e}");
}

#[test]
fn test_composition_multiple_styles_in_frame() {
    check("{{frame:solid-both}}{{mathbold}}A{{/mathbold}} and {{italic}}B{{/italic}}{{/frame}}", "█\u{fe0e}▌\u{fe0e}𝐀 and 𝐵▐\u{fe0e}█\u{fe0e}");
}

#[test]
fn test_complex_composition() {
    check_contains(r#"# {{frame:gradient}}{{mathbold:separator=dot}}TITLE{{/mathbold}}{{/frame}}

{{frame:solid-left}}{{italic}}Important note{{/italic}}{{/frame}}

Regular text with {{mathbold:spacing=1}}spacing{{/mathbold}}"#, &[
            "▓\u{fe0e}▒\u{fe0e}░\u{fe0e} 𝐓·𝐈·𝐓·𝐋·𝐄 ░\u{fe0e}▒\u{fe0e}▓\u{fe0e}",
            "█\u{fe0e}▌\u{fe0e}𝐼𝑚𝑝𝑜𝑟𝑡𝑎𝑛𝑡 𝑛𝑜𝑡𝑒",
            "𝐬 𝐩 𝐚 𝐜 𝐢 𝐧 𝐠"
        ]);
}

#[test]
fn test_ui_swatch() {
    // Should expand to shields:block with pink color resolved
    check_contains("{{ui:swatch:pink/}}", &["![](", "F41C80"]);
}

#[test]
fn test_ui_tech() {
    // Should expand to shields:icon with logo
    check_contains("{{ui:tech:rust/}}", &["![](", "logo=rust"]);
}

#[test]
fn test_ui_multiple_inline() {
    // Should have two shields with different logos
    check_contains("{{ui:tech:rust/}} {{ui:tech:python/}}", &["logo=rust", "logo=python"]);
}

#[test]
fn test_ui_in_markdown() {
    check_contains("# Header\n\n{{ui:swatch:pink/}}\n\n## Section", &["# Header", "![](", "## Section"]);
}

#[test]
fn test_ui_unknown_component() {
    // Keep verbose - tests specific error message content
    let parser = TemplateParser::new().unwrap();
    let result = parser.process("{{ui:nonexistent/}}");
    assert!(result.is_err());
    assert!(result.unwrap_err().to_string().contains("Unknown component"));
}

#[test]
fn test_ui_unclosed() {
    check_err("{{ui:row}}TITLE");
}

#[test]
fn test_frame_multiline() {
    check_bookends("{{frame:gradient}}\nLine 1\nLine 2\n{{/frame}}", "▓\u{fe0e}▒\u{fe0e}░\u{fe0e}", "░\u{fe0e}▒\u{fe0e}▓\u{fe0e}", &["Line 1", "Line 2"]);
}

#[test]
fn test_frame_multiline_with_styles() {
    check_contains("{{frame:solid-left}}\n### {{mathbold}}Title{{/mathbold}}\nContent\n{{/frame}}", &["█\u{fe0e}▌\u{fe0e}", "𝐓𝐢𝐭𝐥𝐞", "Content"]);
}

#[test]
fn test_shields_primitive_block() {
    // Should render shields directly (cobalt is in shields.json palette)
    check_contains("{{shields:block:color=cobalt:style=flat-square/}}", &["![](", "2B6CB0"]);
}

#[test]
fn test_shields_primitive_bar() {
    // Should render 3 inline badges - keep verbose for count check
    let parser = TemplateParser::new().unwrap();
    let result = parser.process("{{shields:bar:colors=success,warning,error:style=flat-square/}}").unwrap();
    assert_eq!(result.matches("![](").count(), 3);
}

#[test]
fn test_shields_bar_with_separator() {
    // Should render 2 badges with space between them
    check_contains("{{shields:bar:colors=success,warning:style=flat-square:separator= /}}", &[") ![]("]);
}

#[test]
fn test_shields_bar_with_named_separator() {
    // Should render 2 badges with · separator
    check_contains("{{shields:bar:colors=pink,success:style=flat-square:separator=dot/}}", &[")·![]("]);
}

#[test]
fn test_preserves_blank_lines_around_components() {
    let parser = TemplateParser::new().unwrap();

    // Test with self-closing component (swatch)
    let input = "Paragraph 1\n\n{{ui:swatch:pink/}}\n\nParagraph 2";
    let result = parser.process(input).unwrap();

    // Should preserve blank lines before and after component
    assert!(result.contains("Paragraph 1\n\n"));
    assert!(result.contains("![]("));
    assert!(result.contains("\n\nParagraph 2"));

    // Count newlines: should maintain document structure
    let input_newlines = input.matches('\n').count();
    let result_newlines = result.matches('\n').count();
    assert_eq!(
        input_newlines, result_newlines,
        "Newline count changed: input={}, result={}",
        input_newlines, result_newlines
    );
}

#[test]
fn test_preserves_blank_lines_around_block_components() {
    let parser = TemplateParser::new().unwrap();

    // Test with block component (frame)
    let input = "Intro text\n\n{{frame:gradient}}TITLE{{/frame}}\n\nFollowing text";
    let result = parser.process(input).unwrap();

    // Should preserve structure
    assert!(result.contains("Intro text\n\n"));
    assert!(result.contains("\n\nFollowing text"));

    // Component should expand inline (not add extra blank lines)
    assert!(
        !result.contains("\n\n\n\n"),
        "Component added extra blank lines"
    );
}

#[test]
fn test_component_expansion_in_lists() {
    let parser = TemplateParser::new().unwrap();

    // Components inside list items
    let input = "- Item 1\n- {{mathbold}}BOLD{{/mathbold}} item\n- Item 3";
    let result = parser.process(input).unwrap();

    // Should preserve list structure
    assert!(result.starts_with("- Item 1\n"));
    assert!(result.contains("- 𝐁𝐎𝐋𝐃 item\n"));
    assert!(result.ends_with("- Item 3"));

    // Should maintain same number of lines
    assert_eq!(input.lines().count(), result.lines().count());
}

#[test]
fn test_component_expansion_with_indentation() {
    // Should preserve indentation in nested lists
    check_contains("- Outer\n  - {{italic}}Nested{{/italic}} item\n  - Another nested", &["  - 𝑁𝑒𝑠𝑡𝑒𝑑 item\n", "  - Another nested"]);
}

#[test]
fn test_multiline_component_content_preserves_structure() {
    // Content should be processed but structure preserved
    check_contains("{{frame:gradient}}Multi\nLine\nTitle{{/frame}}", &["▓\u{fe0e}▒\u{fe0e}░\u{fe0e}"]);
}

#[test]
fn test_adjacent_components_no_extra_whitespace() {
    // Should preserve single newline (not add extra)
    check("{{mathbold}}FIRST{{/mathbold}}\n{{mathbold}}SECOND{{/mathbold}}", "𝐅𝐈𝐑𝐒𝐓\n𝐒𝐄𝐂𝐎𝐍𝐃");
}

#[test]
fn test_component_in_blockquote_preserves_prefix() {
    // Should preserve the "> " prefix
    check_bookends("> Quote with {{mathbold}}BOLD{{/mathbold}} text", "> ", "text", &["𝐁𝐎𝐋𝐃"]);
}

#[test]
fn test_component_with_trailing_newline() {
    // Should preserve trailing newline - keep verbose for ends_with check
    let parser = TemplateParser::new().unwrap();
    let result = parser.process("Text before\n{{ui:swatch:pink/}}\n").unwrap();
    assert!(result.ends_with('\n'), "Trailing newline was lost");
}

#[test]
fn test_component_without_trailing_newline() {
    // Should NOT add trailing newline - keep verbose for ends_with check
    let parser = TemplateParser::new().unwrap();
    let result = parser.process("Text before\n{{ui:swatch:pink/}}").unwrap();
    assert!(!result.ends_with('\n'), "Unexpected trailing newline added");
}

#[test]
fn test_component_expansion_preserves_empty_lines_in_content() {
    // Empty line in content should be preserved
    check_contains("{{frame:solid-left}}Line 1\n\nLine 3{{/frame}}", &["█\u{fe0e}▌\u{fe0e}"]);
}

#[test]
fn test_swatch_with_flat_style() {
    // Note: style=flat should NOT contain style=flat-square (keep verbose)
    let parser = TemplateParser::new().unwrap();
    let output = parser.process("{{ui:swatch:F41C80:style=flat/}}").unwrap();
    assert!(output.contains("style=flat"));
    assert!(!output.contains("style=flat-square"));
}

#[test]
fn test_swatch_with_flat_square_style() {
    check_contains("{{ui:swatch:F41C80:style=flat-square/}}", &["style=flat-square"]);
}

#[test]
fn test_swatch_with_for_the_badge_style() {
    check_contains("{{ui:swatch:F41C80:style=for-the-badge/}}", &["style=for-the-badge"]);
}

#[test]
fn test_swatch_with_plastic_style() {
    check_contains("{{ui:swatch:F41C80:style=plastic/}}", &["style=plastic"]);
}

#[test]
fn test_swatch_with_social_style() {
    check_contains("{{ui:swatch:F41C80:style=social/}}", &["style=social"]);
}

#[test]
fn test_swatch_default_style() {
    // Should default to flat-square
    check_contains("{{ui:swatch:F41C80/}}", &["style=flat-square"]);
}

#[test]
fn test_tech_with_style() {
    check_contains("{{ui:tech:rust:style=plastic/}}", &["style=plastic", "logo=rust"]);
}

#[test]
fn test_multiple_components_different_styles() {
    check_contains("{{ui:swatch:FF0000:style=flat/}} {{ui:swatch:00FF00:style=for-the-badge/}}", &["style=flat", "style=for-the-badge"]);
}

#[test]
fn test_style_with_palette_color() {
    // Should resolve pink color
    check_contains("{{ui:swatch:pink:style=plastic/}}", &["style=plastic", "F41C80"]);
}

#[test]
fn test_partial_with_content() {
    let mut parser = TemplateParser::new().unwrap();
    // Use explicit closers in template to avoid ambiguity
    parser.add_partial(
        "hero",
        "{{frame:gradient}}{{mathbold}}$1{{/mathbold}}{{/frame}}",
    );

    let input = "{{partial:hero}}HELLO{{/partial}}";
    let result = parser.process(input).unwrap();

    // Should expand to gradient frame with mathbold text
    assert!(result.contains("▓\u{fe0e}▒\u{fe0e}░\u{fe0e}"));
    assert!(result.contains("𝐇𝐄𝐋𝐋𝐎"));
}

#[test]
fn test_partial_self_closing() {
    let mut parser = TemplateParser::new().unwrap();
    parser.add_partial("techstack", "{{ui:tech:rust/}} {{ui:tech:typescript/}}");

    let input = "{{partial:techstack/}}";
    let result = parser.process(input).unwrap();

    // Should expand to tech badges
    assert!(result.contains("rust"));
    assert!(result.contains("typescript"));
}

#[test]
fn test_partial_with_universal_closer() {
    let mut parser = TemplateParser::new().unwrap();
    parser.add_partial("simple", "PREFIX $1 SUFFIX");

    // Use explicit {{/partial}} to avoid ambiguity
    let input = "{{partial:simple}}CONTENT{{/partial}}";
    let result = parser.process(input).unwrap();

    assert_eq!(result, "PREFIX CONTENT SUFFIX");
}

#[test]
fn test_partial_content_substitution() {
    let mut parser = TemplateParser::new().unwrap();
    parser.add_partial("wrapper", "[ $content ]");

    let input = "{{partial:wrapper}}TEXT{{/partial}}";
    let result = parser.process(input).unwrap();

    assert_eq!(result, "[ TEXT ]");
}

#[test]
fn test_partial_nested_templates() {
    let mut parser = TemplateParser::new().unwrap();
    // Use explicit closer in template
    parser.add_partial("styled", "{{frame:star}}$1{{/frame}}");

    let input = "{{partial:styled}}VIP{{/partial}}";
    let result = parser.process(input).unwrap();

    assert!(result.contains("★"));
    assert!(result.contains("VIP"));
    assert!(result.contains("☆"));
}

#[test]
fn test_partial_not_found_passthrough() {
    let parser = TemplateParser::new().unwrap();
    // Without registering a partial, the tag should pass through
    let input = "{{partial:nonexistent}}CONTENT{{/partial}}";
    let result = parser.process(input).unwrap();

    // The parser should not crash, but the partial tag will remain
    // (since it couldn't find a matching partial, it falls through)
    assert!(result.contains("partial"));
}

#[test]
fn test_has_partial() {
    let mut parser = TemplateParser::new().unwrap();
    assert!(!parser.has_partial("test"));

    parser.add_partial("test", "template");
    assert!(parser.has_partial("test"));
}

#[test]
fn test_partial_with_hyphen_underscore_name() {
    let mut parser = TemplateParser::new().unwrap();
    parser.add_partial("my-partial_name", "[$1]");

    let input = "{{partial:my-partial_name}}X{{/partial}}";
    let result = parser.process(input).unwrap();

    assert_eq!(result, "[X]");
}

#[test]
fn test_partial_simple_text_replacement() {
    let mut parser = TemplateParser::new().unwrap();
    parser.add_partial("greeting", "Hello, $1!");

    let input = "{{partial:greeting}}World{{/partial}}";
    let result = parser.process(input).unwrap();

    assert_eq!(result, "Hello, World!");
}


#[test]
fn load_config_palette_overrides_builtin_color() {
    let mut parser = TemplateParser::new().unwrap();
    let mut config = mdfx::config::MdfxConfig::new();
    config.palette.insert("accent".to_string(), "00FF00".to_string());
    parser.load_config(&config);
    let out = parser.process("{{ui:swatch:accent/}}").unwrap();
    assert!(out.contains("00FF00"));
    assert!(!out.contains("F41C80"));
}

#[test]
fn plain_text_without_templates_is_processed() {
    let parser = TemplateParser::new().unwrap();
    let md = "# Title\n\nSome `code` and text.\n";
    assert_eq!(parser.process(md).unwrap(), md);
}

#[test]
fn validate_and_process_agree_on_a_line() {
    let parser = TemplateParser::new().unwrap();
    let good = "{{mathbold}}AB{{/mathbold}} text";
    assert!(parser.validate(good).is_ok());
    assert!(parser.process(good).is_ok());
    let bad = "{{mathbold}}AB text";
    assert!(parser.validate(bad).is_err());
    assert!(parser.process(bad).is_err());
}

#[test]
fn validate_and_process_agree_on_several_lines() {
    let parser = TemplateParser::new().unwrap();
    let good = "# {{mathbold}}T{{/mathbold}}\n\nSome text";
    assert!(parser.validate(good).is_ok());
    assert!(parser.process(good).is_ok());
    let bad = "first line\n{{mathbold}}never closed";
    assert!(parser.validate(bad).is_err());
    assert!(parser.process(bad).is_err());
}

#[test]
fn shields_tech_badge_is_determined() {
    let parser = TemplateParser::new().unwrap();
    let out = parser.process("{{ui:tech:rust/}}").unwrap();
    assert_eq!(
        out,
        "![](https://img.shields.io/badge/-%20-292A2D?style=flat-square&logo=rust&logoColor=FFFFFF&label=&labelColor=292A2D)"
    );
    assert!(parser.validate("{{ui:tech:rust/}}").is_ok());
}

#[test]
fn shields_text_badges_are_determined() {
    let parser = TemplateParser::new().unwrap();
    let out = parser.process("{{ui:version:1.0.0:bg=success/}}").unwrap();
    assert_eq!(out, "![](https://img.shields.io/badge/v1.0.0-v1.0.0-22C55E?style=flat-square)");
    assert!(parser.validate("{{ui:version:1.0.0:bg=success/}}").is_ok());
    // A rating has no shields.io badge: processing and validation both fail.
    assert!(parser.process("{{ui:rating:4.5/}}").is_err());
    assert!(parser.validate("{{ui:rating:4.5/}}").is_err());
}

#[test]
fn shields_backend_brings_no_files() {
    let parser = TemplateParser::new().unwrap();
    let result = parser
        .process_with_assets("{{ui:swatch:pink/}} {{ui:tech:rust/}}\n{{frame:gradient}}{{ui:progress:50/}}{{/frame}}")
        .unwrap();
    assert!(result.assets.is_empty());
    assert!(result.markdown.contains("logo=rust"));
}
