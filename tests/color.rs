use multi_logger::color::Color;
use multi_logger::level::Level;

#[test]
fn parses_spaced_triple() {
    let c = Color::parse("10, 20, 30");
    assert_eq!((c.r, c.g, c.b), (10, 20, 30));
}

#[test]
fn empty_middle_field_is_zero() {
    let c = Color::parse("10,,30");
    assert_eq!((c.r, c.g, c.b), (10, 0, 30));
}

#[test]
fn malformed_fields_are_zero() {
    let c = Color::parse("300, x, 5");
    assert_eq!((c.r, c.g, c.b), (0, 0, 5));
    let c = Color::parse("");
    assert_eq!((c.r, c.g, c.b), (0, 0, 0));
    let c = Color::parse("7");
    assert_eq!((c.r, c.g, c.b), (7, 0, 0));
}

#[test]
fn plus_sign_and_extra_fields() {
    let c = Color::parse("+1,002,3,4");
    assert_eq!((c.r, c.g, c.b), (1, 2, 3));
}

#[test]
fn from_string_parses() {
    let c = Color::from(String::from(" 255 ,128,\t0 "));
    assert_eq!(c, Color::from_rgb(255, 128, 0));
}

#[test]
fn from_tuple() {
    assert_eq!(Color::from((1, 2, 3)), Color::from_rgb(1, 2, 3));
}

#[test]
fn default_palette() {
    assert_eq!(Color::from(Level::Error), Color::from_rgb(255, 55, 55));
    assert_eq!(Color::of_level(Level::Warn), Color::cl_warn());
    assert_eq!(Color::of_level(Level::Info), Color::from_rgb(62, 255, 55));
    assert_eq!(Color::of_level(Level::Debug), Color::from_rgb(48, 166, 255));
    assert_eq!(Color::of_level(Level::Trace), Color::from_rgb(255, 55, 255));
}

#[test]
fn color_text() {
    assert_eq!(Color::from_rgb(10, 0, 255).to_text(), "10, 0, 255");
    assert_eq!(Color::gray().to_text(), "128, 128, 128");
}

#[test]
fn parse_byte_values() {
    assert_eq!(multi_logger::color::parse_u8("255"), Some(255));
    assert_eq!(multi_logger::color::parse_u8("256"), None);
    assert_eq!(multi_logger::color::parse_u8("+"), None);
    assert_eq!(multi_logger::color::parse_u8("-1"), None);
    assert_eq!(multi_logger::color::parse_u8("0009"), Some(9));
}
