use omarchy_updater::json::{firmware_names_from, get_member, JsonValue};
use omarchy_updater::text::{
    chars_of, is_whitespace, push_decimal, push_signed_decimal, split_lines, split_words, trim_chars,
};

fn lines(s: &str) -> Vec<String> {
    split_lines(&chars_of(s)).into_iter().map(|l| l.into_iter().collect()).collect()
}

fn words(s: &str) -> Vec<String> {
    split_words(&chars_of(s)).into_iter().map(|l| l.into_iter().collect()).collect()
}

#[test]
fn lines_match_std() {
    for s in ["", "a", "a\n", "a\nb", "a\r\nb\r\n", "\n", "\n\n", "foo\nbar\n\r\nbaz\r", "x\r\r\n", "\r"] {
        let expected: Vec<String> = s.lines().map(|l| l.to_string()).collect();
        assert_eq!(lines(s), expected, "lines of {:?}", s);
    }
}

#[test]
fn words_match_std() {
    for s in ["", "  ", "a b", " a\tb \n c ", "x\u{85}y\u{2028}z", "a\u{200b}b", "\u{3000}q\u{202f}"] {
        let expected: Vec<String> = s.split_whitespace().map(|w| w.to_string()).collect();
        assert_eq!(words(s), expected, "words of {:?}", s);
    }
}

#[test]
fn trim_matches_std() {
    for s in ["", " a ", "\t\n a b \r\n", "\u{a0}x\u{1680}", "abc"] {
        let t: String = trim_chars(&chars_of(s)).into_iter().collect();
        assert_eq!(t, s.trim(), "trim of {:?}", s);
    }
}

#[test]
fn whitespace_matches_std() {
    for u in 0u32..0x3100 {
        if let Some(c) = char::from_u32(u) {
            assert_eq!(is_whitespace(c), c.is_whitespace(), "char {:x}", u);
        }
    }
}

#[test]
fn decimals_match_std() {
    for n in [0u64, 7, 10, 99, 100, 12345, u64::MAX] {
        let mut s = String::from("x");
        push_decimal(&mut s, n);
        assert_eq!(s, format!("x{}", n));
    }
    for n in [0i32, -1, 42, i32::MIN, i32::MAX] {
        let mut s = String::new();
        push_signed_decimal(&mut s, n);
        assert_eq!(s, n.to_string());
    }
}

#[test]
fn member_lookup_and_device_names() {
    let dev = |name: JsonValue| JsonValue::Object(vec![("Name".to_string(), name)]);
    let doc = JsonValue::Object(vec![
        ("Other".to_string(), JsonValue::Null),
        (
            "Devices".to_string(),
            JsonValue::Array(vec![
                dev(JsonValue::Str("A".to_string())),
                dev(JsonValue::Number("3".to_string())),
                JsonValue::Bool(true),
                dev(JsonValue::Str("B".to_string())),
            ]),
        ),
    ]);
    assert!(get_member(&doc, "Missing").is_none());
    assert!(get_member(&JsonValue::Null, "Devices").is_none());
    assert!(matches!(get_member(&doc, "Other"), Some(JsonValue::Null)));
    assert_eq!(firmware_names_from(&Some(doc)), vec!["A".to_string(), "B".to_string()]);
    assert!(firmware_names_from(&None).is_empty());
}
