use serde_intermediate::text::TextSerializer;
use serde_intermediate::{TextConfig, TextConfigStyle};

#[test]
fn compact_primitives() {
    let mut w = TextSerializer::new(String::new(), TextConfig::default());
    w.write_raw("[");
    w.push_level();
    w.write_new_line_indent();
    w.write_raw("1");
    w.write_separator();
    w.write_whitespace();
    w.write_from_string("42", "u8");
    w.pop_level();
    w.write_raw("]");
    assert_eq!(w.into_inner(), "[1,42_u8]");
}

#[test]
fn pretty_primitives() {
    let config = TextConfig::default().with_style(TextConfigStyle::default_pretty());
    assert!(config.style.is_pretty());
    assert!(!TextConfigStyle::default().is_pretty());
    let mut w = TextSerializer::new("x".to_owned(), config);
    w.push_level();
    w.push_level();
    w.write_new_line_indent();
    w.write_raw("a:");
    w.write_whitespace();
    w.write_separator();
    w.pop_level();
    w.pop_level();
    w.pop_level();
    w.write_new_line_indent();
    assert_eq!(w.into_inner(), "x\n    a: ,\n");

    let config = TextConfig::default()
        .with_style(TextConfigStyle::pretty(None))
        .with_numbers_with_type(false);
    assert!(!config.numbers_with_type);
    let mut w = TextSerializer::new(String::new(), config);
    w.write_separator();
    w.write_new_line_indent();
    assert_eq!(w.into_inner(), ", ");
}

#[test]
fn quoted_text_and_bytes() {
    let mut w = TextSerializer::new(String::new(), TextConfig::default());
    w.write_str("a\"b\n");
    w.write_bytes(&[0x0e, 0xff, 0x10]);
    assert_eq!(w.into_inner(), "\"a\\\"b\\n\"0x0eff10");
}
