use vm_curator::chars::{parse_u16, str_contains, trim, utf8_shorter_than};

#[test]
fn parse_u16_accepts_what_str_parse_accepts() {
    assert_eq!(parse_u16("0"), Some(0));
    assert_eq!(parse_u16("22"), Some(22));
    assert_eq!(parse_u16("+8080"), Some(8080));
    assert_eq!(parse_u16("00065535"), Some(65535));
    assert_eq!(parse_u16("65536"), None);
    assert_eq!(parse_u16(""), None);
    assert_eq!(parse_u16("+"), None);
    assert_eq!(parse_u16("-1"), None);
    assert_eq!(parse_u16(" 1"), None);
    assert_eq!(parse_u16("1a"), None);
    for s in ["0", "1", "80", "443", "65535", "+7", "99999", "x", ""] {
        assert_eq!(parse_u16(s), s.parse::<u16>().ok(), "{s}");
    }
}

#[test]
fn trim_strips_whitespace_at_both_ends() {
    assert_eq!(trim("  a b \t\n"), "a b");
    assert_eq!(trim("\u{a0}x\u{2003}"), "x");
    assert_eq!(trim("   "), "");
    assert_eq!(trim(""), "");
    for s in ["  a ", "b", " \t ", "\u{3000}c d\u{85}"] {
        assert_eq!(trim(s), s.trim());
    }
}

#[test]
fn contains_and_length_checks() {
    assert!(str_contains("virtio-vga-gl", "-gl"));
    assert!(!str_contains("virtio-vga", "-gl"));
    assert!(str_contains("abc", ""));
    assert!(utf8_shorter_than("abc", 4));
    assert!(!utf8_shorter_than("abcd", 4));
    assert!(utf8_shorter_than("ééé", 7));
    assert!(!utf8_shorter_than("ééé", 6));
}
