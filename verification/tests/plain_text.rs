use pdftui::number::{to_decimal, to_hex16, to_signed_decimal};
use pdftui::text::{same, split_once, strip_prefix_all, trim};

#[test]
fn numbers_in_base_ten() {
    for n in [0, 9, 10, 101, u64::MAX] {
        assert_eq!(to_decimal(n), n.to_string());
    }
    for n in [0, -1, 7, -10, i64::MAX, i64::MIN + 1, i64::MIN] {
        assert_eq!(to_signed_decimal(n), n.to_string());
    }
}

#[test]
fn numbers_in_base_sixteen() {
    for n in [0, 15, 16, 0xabcdef, u64::MAX] {
        assert_eq!(to_hex16(n), format!("{n:016x}"));
    }
}

#[test]
fn trimming() {
    for text in ["", " ", "a", " a b\t\r\n", "\u{3000}a\u{85}", "\u{200b}a\u{feff}"] {
        assert_eq!(trim(text), text.trim());
    }
    for code in 0..=0x10ffff {
        if let Some(c) = char::from_u32(code) {
            let text = c.to_string();
            assert_eq!(trim(&text), text.trim());
        }
    }
}

#[test]
fn splitting() {
    for text in ["", ":", "a:b", "a:b:c", "äö:ü", "none"] {
        assert_eq!(split_once(text, ':'), text.split_once(':'));
    }
}

#[test]
fn stripping() {
    assert_eq!(strip_prefix_all("ababac", "ab"), "ac");
    assert_eq!(strip_prefix_all("", "ab"), "");
    assert_eq!(strip_prefix_all(";;1", ";"), "1");
}

#[test]
fn comparing() {
    assert!(same("", ""));
    assert!(same("äb", "äb"));
    assert!(!same("ab", "a"));
    assert!(!same("ab", "ac"));
}
