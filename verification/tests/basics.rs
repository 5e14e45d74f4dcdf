use watchcat::json::{optional_text, text_value, unsigned_value, Json, Number};
use watchcat::text;
use watchcat::textmap::{less, TextMap};
use watchcat::time::{is_not_after, later_of, Timestamp, FIRST_SECOND, LAST_SECOND};

#[test]
fn texts_are_searched() {
    assert!(text::same("äb", "äb"));
    assert!(!text::same("ab", "a"));
    assert!(text::starts_with("watchcat", "watch"));
    assert!(!text::starts_with("watch", "watchcat"));
    assert!(text::ends_with("watchcat", "cat"));
    assert!(text::contains("no active turn", "active"));
    assert!(text::contains("x", ""));
    assert!(!text::contains("active", "no active"));
    assert!(text::contains_char("a:b", ':'));
    assert_eq!(
        text::split_once("a::b::c", "::"),
        Some(("a".to_owned(), "b::c".to_owned()))
    );
    assert_eq!(text::split_once("abc", "::"), None);
    assert_eq!(text::before("network.timeout", '.'), "network");
    assert_eq!(text::before("plain", '.'), "plain");
    assert!(text::same_option(&Some("a".into()), &Some("a".into())));
    assert!(!text::same_option(&Some("a".into()), &None));
}

#[test]
fn texts_are_changed() {
    assert_eq!(text::replace("aXbXX", "X", "--"), "a--b----");
    assert_eq!(text::replace("aaa", "aa", "b"), "ba");
    assert_eq!(text::trim(" \u{3000}a b\t\n"), "a b");
    assert_eq!(text::trim(" "), "");
    assert!(text::is_blank("\u{a0}\u{2003}"));
    assert!(!text::is_blank("\u{200b}"));
    assert_eq!(text::trim_end_char("a...", '.'), "a");
    assert_eq!(text::to_ascii_lowercase("AÄz"), "aÄz");
    assert_eq!(text::take_chars("äöü", 2), "äö");
    assert_eq!(text::take_chars("ä", 5), "ä");
    assert_eq!(text::char_count("äöü"), 3);
    assert!(text::has_control("a\u{85}"));
    assert!(!text::has_control("a b"));
    assert_eq!(text::join(&vec!["a".into(), "b".into()], ", "), "a, b");
    assert_eq!(text::join(&Vec::new(), ", "), "");
    assert_eq!(text::complete_lines("a\nb\r\nc"), ["a\n", "b\r\n"]);
    assert_eq!(text::from_chars(&text::chars_of("äb")), "äb");
}

#[test]
fn every_character_is_space_as_in_the_standard_library() {
    for c in ('\u{0}'..='\u{3100}').chain(['\u{feff}', '\u{10ffff}']) {
        assert_eq!(text::is_whitespace(c), c.is_whitespace(), "{c:?}");
    }
    for c in '\u{0}'..='\u{200}' {
        assert_eq!(text::has_control(&c.to_string()), c.is_control(), "{c:?}");
    }
}

#[test]
fn numbers_are_read_and_written() {
    assert_eq!(text::decimal(0), "0");
    assert_eq!(text::decimal(u64::MAX), "18446744073709551615");
    assert_eq!(text::signed_decimal(-32_601), "-32601");
    assert_eq!(text::signed_decimal(i64::MIN), "-9223372036854775808");
    assert_eq!(text::parse_unsigned("007", 9), Some(7));
    assert_eq!(text::parse_unsigned("10", 9), None);
    assert_eq!(text::parse_unsigned("", 9), None);
    assert_eq!(text::parse_unsigned(" 7", 9), None);
}

#[test]
fn maps_are_ordered_by_their_keys() {
    let mut map: TextMap<u32> = TextMap::new();
    assert!(map.is_empty());
    assert_eq!(map.insert("b".into(), 2), None);
    assert_eq!(map.insert("a".into(), 1), None);
    assert_eq!(map.insert("ä".into(), 3), None);
    assert_eq!(map.insert("b".into(), 4), Some(2));
    assert_eq!(map.len(), 3);
    let keys: Vec<&String> = (0..map.len()).map(|at| map.key_at(at)).collect();
    assert_eq!(keys, ["a", "b", "ä"]);
    assert_eq!(*map.value_at(1), 4);
    assert_eq!(map.get("ä"), Some(&3));
    assert!(!map.contains_key("c"));
    assert_eq!(map.remove("a"), Some(1));
    assert_eq!(map.remove("a"), None);
    map.retain(&vec![false, true]);
    assert_eq!(map.remove_at(0), ("ä".to_owned(), 3));
    assert!(map.is_empty());
}

#[test]
fn texts_are_ordered_as_in_the_standard_library() {
    let texts = ["", "a", "ab", "b", "ä", "\u{ffff}", "\u{10000}", "A"];
    for a in texts {
        for b in texts {
            assert_eq!(less(a, b), a < b, "{a:?} {b:?}");
        }
    }
}

#[test]
fn times_are_compared() {
    let early = Timestamp { seconds: 5, nanos: 1 };
    let late = Timestamp { seconds: 5, nanos: 2 };
    assert!(late.not_before(early, 0));
    assert!(!early.not_before(late, 0));
    assert!(early.not_before(late, -1));
    assert_eq!(later_of(Some(early), Some(late)), Some(late));
    assert_eq!(later_of(None, Some(early)), Some(early));
    assert!(is_not_after(None, Some(early)));
    assert!(!is_not_after(Some(early), None));
    assert!(Timestamp { seconds: LAST_SECOND, nanos: 999_999_999 }.is_writable());
    assert!(!Timestamp { seconds: LAST_SECOND + 1, nanos: 0 }.is_writable());
    assert!(Timestamp { seconds: FIRST_SECOND, nanos: 0 }.is_writable());
    assert!(!Timestamp { seconds: FIRST_SECOND - 1, nanos: 0 }.is_writable());
    assert!(!Timestamp { seconds: 0, nanos: 1_000_000_000 }.is_writable());
}

#[test]
fn values_are_read_and_written() {
    let bytes = r#"{"b":[1,-2,1.5,null],"a":{"c":"ä"},"d":true}"#.as_bytes().to_vec();
    let value = Json::from_bytes(&bytes).unwrap();
    assert_eq!(
        value.to_bytes(),
        r#"{"a":{"c":"ä"},"b":[1,-2,1.5,null],"d":true}"#.as_bytes()
    );
    let items = value.get("b").unwrap().as_array().unwrap();
    assert_eq!(items[0].as_u64(), Some(1));
    assert_eq!(items[1].as_i64(), Some(-2));
    assert_eq!(items[1].as_u64(), None);
    assert!(matches!(&items[2], Json::Number(Number::Other(s)) if s == "1.5"));
    assert_eq!(value.pointer(&vec!["a", "c"]).and_then(Json::as_str), Some("ä"));
    assert!(value.pointer(&vec!["a", "x"]).is_none());
    assert!(value.is_true("d"));
    assert!(Json::from_bytes(&b"{".to_vec()).is_none());
    assert!(Json::from_bytes(&b"1 2".to_vec()).is_none());
}

#[test]
fn values_are_put_together() {
    let value = Json::object()
        .with("n", unsigned_value(7))
        .with("t", text_value("x"))
        .with("o", optional_text(&None))
        .with("l", Json::array(vec![Json::Bool(false)]))
        .with("t", text_value("y"))
        .build();
    assert_eq!(value.to_bytes(), br#"{"l":[false],"n":7,"o":null,"t":"y"}"#);
    assert_eq!(value.clone().to_bytes(), value.to_bytes());
}
