use macroeng::keys::key_to_string;
use macroeng::text::{
    chars_of, contains_chars, matches_at, parse_digits, push_decimal, split_chars, string_of, trim,
};

fn contains(hay: &str, needle: &str) -> bool {
    contains_chars(&chars_of(hay), &chars_of(needle))
}

fn starts_with(s: &str, prefix: &str) -> bool {
    matches_at(&chars_of(s), 0, &chars_of(prefix))
}

fn parse_usize(s: &str) -> Option<usize> {
    parse_digits(&chars_of(s), 0)
}

fn decimal_string(n: u64) -> String {
    let mut s = String::from("n=");
    push_decimal(&mut s, n);
    s.split_off(2)
}

#[test]
fn named_keys() {
    assert_eq!(key_to_string(1), "ESC");
    assert_eq!(key_to_string(14), "BACKSPACE");
    assert_eq!(key_to_string(15), "TAB");
    assert_eq!(key_to_string(28), "ENTER");
    assert_eq!(key_to_string(96), "ENTER");
    assert_eq!(key_to_string(29), "CTRL");
    assert_eq!(key_to_string(97), "CTRL");
    assert_eq!(key_to_string(42), "LSHIFT");
    assert_eq!(key_to_string(54), "RSHIFT");
    assert_eq!(key_to_string(56), "ALT");
    assert_eq!(key_to_string(100), "ALT");
    assert_eq!(key_to_string(57), "SPACE");
    assert_eq!(key_to_string(58), "CAPSLOCK");
    assert_eq!(key_to_string(99), "PrtSc");
    assert_eq!(key_to_string(125), "WIN");
    assert_eq!(key_to_string(272), "MOUSE-LEFT");
    assert_eq!(key_to_string(273), "MOUSE-RIGHT");
    assert_eq!(key_to_string(274), "MOUSE-MIDDLE");
}

#[test]
fn digit_keys() {
    assert_eq!(key_to_string(2), "1");
    assert_eq!(key_to_string(10), "9");
    assert_eq!(key_to_string(11), "10");
    assert_eq!(key_to_string(12), "0");
    assert_eq!(key_to_string(13), "-");
}

#[test]
fn letter_keys() {
    assert_eq!(key_to_string(16), "Q");
    assert_eq!(key_to_string(25), "P");
    assert_eq!(key_to_string(30), "A");
    assert_eq!(key_to_string(38), "L");
    assert_eq!(key_to_string(44), "Z");
    assert_eq!(key_to_string(51), ",");
    assert_eq!(key_to_string(52), ".");
    assert_eq!(key_to_string(53), "/");
    assert_eq!(key_to_string(26), "[");
    assert_eq!(key_to_string(27), "]");
    assert_eq!(key_to_string(39), ";");
    assert_eq!(key_to_string(40), "'");
    assert_eq!(key_to_string(41), "`");
    assert_eq!(key_to_string(43), "\\");
}

#[test]
fn function_keys() {
    assert_eq!(key_to_string(59), "F1");
    assert_eq!(key_to_string(67), "F9");
    assert_eq!(key_to_string(68), "F10");
    assert_eq!(key_to_string(87), "F11");
    assert_eq!(key_to_string(88), "F12");
}

#[test]
fn navigation_keys() {
    assert_eq!(key_to_string(55), "NUM*");
    assert_eq!(key_to_string(98), "NUM/");
    assert_eq!(key_to_string(102), "HOME");
    assert_eq!(key_to_string(103), "UP");
    assert_eq!(key_to_string(104), "PGUP");
    assert_eq!(key_to_string(105), "LEFT");
    assert_eq!(key_to_string(106), "RIGHT");
    assert_eq!(key_to_string(107), "END");
    assert_eq!(key_to_string(108), "DOWN");
    assert_eq!(key_to_string(109), "PGDOWN");
    assert_eq!(key_to_string(110), "INS");
    assert_eq!(key_to_string(111), "DEL");
}

#[test]
fn unknown_keys_fall_back_to_their_code() {
    assert_eq!(key_to_string(0), "KEY_0");
    assert_eq!(key_to_string(69), "KEY_69");
    assert_eq!(key_to_string(86), "KEY_86");
    assert_eq!(key_to_string(101), "KEY_101");
    assert_eq!(key_to_string(275), "KEY_275");
    assert_eq!(key_to_string(65535), "KEY_65535");
}

#[test]
fn every_code_has_a_name() {
    let mut code: u16 = 0;
    loop {
        assert!(!key_to_string(code).is_empty());
        if code == u16::MAX {
            break;
        }
        code += 1;
    }
}

#[test]
fn characters_round_trip() {
    let v: Vec<char> = chars_of("héllo wörld");
    assert_eq!(v.len(), 11);
    assert_eq!(string_of(&v), "héllo wörld");
    assert_eq!(string_of(&chars_of("")), "");
}

#[test]
fn substring_search() {
    assert!(contains("pci-0000:00:14.0-usb-0:2:1.0", "usb"));
    assert!(contains("usb", "usb"));
    assert!(contains("anything", ""));
    assert!(contains("", ""));
    assert!(!contains("", "usb"));
    assert!(!contains("us b", "usb"));
    assert!(!contains("ub", "usb"));
    assert!(contains("xxusb", "usb"));
}

#[test]
fn prefix_test() {
    assert!(starts_with("event12", "event"));
    assert!(starts_with("event", "event"));
    assert!(starts_with("event", ""));
    assert!(!starts_with("even", "event"));
    assert!(!starts_with("xevent", "event"));
}

#[test]
fn trimming() {
    assert_eq!(trim("  Logitech K120\n"), "Logitech K120");
    assert_eq!(trim("\t\r\n x \u{00A0}\u{3000}"), "x");
    assert_eq!(trim("   "), "");
    assert_eq!(trim(""), "");
    assert_eq!(trim("a b"), "a b");
    assert_eq!(trim("\u{200B}x"), "\u{200B}x");
}

#[test]
fn trimming_matches_the_standard_library() {
    let mut n: u32 = 0;
    while n <= 0x3100 {
        if let Some(c) = char::from_u32(n) {
            let s: String = format!("{}x{}", c, c);
            assert_eq!(trim(&s), s.trim());
        }
        n += 1;
    }
}

#[test]
fn numbers_are_parsed() {
    assert_eq!(parse_usize("0"), Some(0));
    assert_eq!(parse_usize("7"), Some(7));
    assert_eq!(parse_usize("007"), Some(7));
    assert_eq!(parse_usize("+5"), Some(5));
    assert_eq!(parse_usize("12345"), Some(12345));
    assert_eq!(parse_usize(&usize::MAX.to_string()), Some(usize::MAX));
}

#[test]
fn bad_numbers_are_refused() {
    assert_eq!(parse_usize(""), None);
    assert_eq!(parse_usize("+"), None);
    assert_eq!(parse_usize("++5"), None);
    assert_eq!(parse_usize("-1"), None);
    assert_eq!(parse_usize("1 "), None);
    assert_eq!(parse_usize(" 1"), None);
    assert_eq!(parse_usize("1x"), None);
    assert_eq!(parse_usize("٣"), None);
    assert_eq!(parse_usize("99999999999999999999999999"), None);
    let over: String = format!("{}0", usize::MAX);
    assert_eq!(parse_usize(&over), None);
}

#[test]
fn decimal_numerals() {
    assert_eq!(decimal_string(0), "0");
    assert_eq!(decimal_string(9), "9");
    assert_eq!(decimal_string(10), "10");
    assert_eq!(decimal_string(30000), "30000");
    assert_eq!(decimal_string(u64::MAX), "18446744073709551615");
}

#[test]
fn splitting() {
    let parts: Vec<String> =
        split_chars(&chars_of("a/b//c/"), '/').iter().map(string_of).collect();
    assert_eq!(parts, vec!["a", "b", "", "c", ""]);
    let single: Vec<Vec<char>> = split_chars(&chars_of(""), '/');
    assert_eq!(single.len(), 1);
    assert!(single[0].is_empty());
    let none: Vec<String> = split_chars(&chars_of("abc"), '/').iter().map(string_of).collect();
    assert_eq!(none, vec!["abc"]);
}
