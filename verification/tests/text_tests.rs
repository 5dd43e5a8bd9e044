use iridium::text::parse_hex;
use iridium::text::str_eq;
use iridium::text::str_to_chars;

#[test]
fn test_parse_hex_bytes() {
    assert_eq!(parse_hex("00 01 03 E8"), Some(vec![0, 1, 3, 232]));
    assert_eq!(parse_hex("ff"), Some(vec![255]));
    assert_eq!(parse_hex("00f"), Some(vec![15]));
}

#[test]
fn test_parse_hex_rejects_bad_input() {
    assert_eq!(parse_hex(""), None);
    assert_eq!(parse_hex("zz"), None);
    assert_eq!(parse_hex("1FF"), None);
    assert_eq!(parse_hex("01  02"), None);
    assert_eq!(parse_hex("01 "), None);
}

#[test]
fn test_str_eq() {
    assert!(str_eq("load", "load"));
    assert!(!str_eq("load", "loa"));
    assert!(!str_eq("load", "lold"));
}

#[test]
fn test_str_to_chars() {
    let v = str_to_chars("ab\u{e9}");
    assert_eq!(v, vec!['a', 'b', '\u{e9}']);
}
