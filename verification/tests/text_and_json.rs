//! Texts and JSON documents.
use attini::curl::find_error_message;
use attini::json::{quote_or_null, write_array, write_string_array, JsonDoc, JsonKind};
use attini::sansio::permissions::{components, path_lies_under};
use attini::sansio::sse::SseDecoder;
use attini::text::{
    chars_of, comes_before, contains_str, debug_list_of, decimal_of, find_char, find_str,
    insert_ordered, is_white_space, join, list_contains, parse_unsigned, same_list,
    signed_decimal_of, split_lines, stands_at, string_of, tail_of, trim, trim_end, trim_end_of,
    IntError,
};
use attini::time::Duration;

fn list(items: &[&str]) -> Vec<String> {
    items.iter().map(|s| s.to_string()).collect()
}

#[test]
fn texts_are_trimmed() {
    assert_eq!(trim("\u{3000} a b\t\n"), "a b");
    assert_eq!(trim(" \n"), "");
    assert_eq!(trim_end(" a \u{85}"), " a");
    assert_eq!(trim_end_of("a//", '/'), "a");
    for c in (0..=0x3100u32).filter_map(char::from_u32) {
        assert_eq!(is_white_space(c), c.is_whitespace(), "{:x}", c as u32);
    }
}

#[test]
fn texts_are_searched() {
    let v = chars_of("aéab");
    assert_eq!(find_char(&v, 'a', 1), 2);
    assert_eq!(find_char(&v, 'x', 0), v.len());
    assert_eq!(find_str(&v, &chars_of("ab"), 0), Some(2));
    assert_eq!(find_str(&v, &chars_of("ba"), 0), None);
    assert!(stands_at(&v, 1, &chars_of("éa")));
    assert!(contains_str("hello", "ell"));
    assert!(!contains_str("hello", "elo"));
    assert_eq!(string_of(&v, 1, 3), "éa");
    assert_eq!(tail_of("héllo", 3), "llo");
    assert_eq!(tail_of("hi", 3), "hi");
    assert_eq!(split_lines("a\n\nb"), vec!["a\n", "\n", "b"]);
    assert_eq!(split_lines(""), Vec::<String>::new());
}

#[test]
fn lists_are_compared_and_ordered() {
    assert_eq!(join(&list(&["a", "b"]), ", "), "a, b");
    assert!(same_list(&list(&["a", "b"]), &list(&["a", "b"])));
    assert!(!same_list(&list(&["a"]), &list(&["a", "b"])));
    assert!(list_contains(&list(&["a", "b"]), "b"));
    assert!(!list_contains(&list(&["a", "b"]), "c"));
    assert!(comes_before("a", "ab") && comes_before("Z", "a") && !comes_before("a", "a"));
    let mut sorted = Vec::new();
    for s in ["b", "a", "b", "\u{e9}", "ab"] {
        insert_ordered(&mut sorted, s);
    }
    let mut expected = list(&["b", "a", "b", "\u{e9}", "ab"]);
    expected.sort();
    expected.dedup();
    assert_eq!(sorted, expected);
    let odd = list(&["a\"b", "\u{1}", "é\n"]);
    assert_eq!(debug_list_of(&odd), format!("{odd:?}"));
}

#[test]
fn numbers_are_written_and_read() {
    for n in [0, 9, 10, 12345, u64::MAX] {
        assert_eq!(decimal_of(n), n.to_string());
        assert_eq!(parse_unsigned(&n.to_string(), u64::MAX), Ok(n));
    }
    for n in [0, -1, i64::MIN, i64::MAX] {
        assert_eq!(signed_decimal_of(n), n.to_string());
    }
    assert_eq!(parse_unsigned("+7", 9), Ok(7));
    for text in ["", "+", "-1", "1x", " 1", "18446744073709551616"] {
        let ours = parse_unsigned(text, u64::MAX).unwrap_err();
        assert_eq!(ours.text(), text.parse::<u64>().unwrap_err().to_string(), "{text:?}");
    }
    assert!(matches!(parse_unsigned("10", 9), Err(IntError::Overflow)));
    assert_eq!(Duration::from_millis(61_500).as_secs(), 61);
}

#[test]
fn documents_hold_what_is_written() {
    let doc = JsonDoc::parse(r#" {"a":[1,-2,0.5,"x\u00e9\n"],"b":null,"c":true,"a":7} "#).unwrap();
    assert_eq!(doc.nodes[0].kind, JsonKind::Object);
    let at = doc.required(0, "a").unwrap();
    let elements = doc.elements(at).unwrap().clone();
    assert_eq!(elements.len(), 4);
    assert_eq!(doc.unsigned(elements[0], 255), Ok(1));
    assert!(doc.unsigned(elements[1], 255).is_err());
    assert_eq!(doc.nodes[elements[2]].kind, JsonKind::Float);
    assert_eq!(doc.string(elements[3]), Ok("x\u{e9}\n".to_string()));
    assert_eq!(doc.nodes[elements[3]].raw, r#""x\u00e9\n""#);
    let b = doc.required(0, "b").unwrap();
    assert_eq!(doc.nullable_string(b), Ok(None));
    assert_eq!(doc.nullable_string(elements[3]), Ok(Some("x\u{e9}\n".to_string())));
    let c = doc.required(0, "c").unwrap();
    assert_eq!(doc.boolean(c), Ok(true));
    assert!(doc.boolean(b).is_err());
    assert_eq!(doc.member(0, "missing"), Ok(None));
    assert!(doc.required(0, "missing").is_err());
    assert!(doc.member(at, "a").is_err());
    assert!(doc.elements(0).is_err());
    for text in ["", "{", "[1,]", "nul", "\"\u{1}\"", "01", "1 2"] {
        assert!(JsonDoc::parse(text).is_err(), "{text:?}");
    }
}

#[test]
fn nesting_is_bounded() {
    let nested = |n: usize| format!("{}{}", "[".repeat(n), "]".repeat(n));
    assert!(JsonDoc::parse(&nested(128)).is_ok());
    assert!(JsonDoc::parse(&nested(129)).is_err());
}

#[test]
fn written_strings_read_back() {
    let odd = list(&["", "a\"\\/b", "\n\r\t\u{8}\u{c}\u{1f}\u{7f}", "\u{10ffff}\u{2028}é"]);
    let text = write_string_array(&odd);
    let doc = JsonDoc::parse(&text).unwrap();
    let back: Vec<String> = doc
        .elements(0)
        .unwrap()
        .iter()
        .map(|i| doc.string(*i).unwrap())
        .collect();
    assert_eq!(back, odd);
    assert_eq!(write_array(&list(&["1", "[]"])), "[1,[]]");
    assert_eq!(quote_or_null(&None), "null");
    assert_eq!(quote_or_null(&Some("\u{1}".to_string())), "\"\\u0001\"");
}

#[test]
fn error_messages_are_found() {
    let doc = JsonDoc::parse(r#"{"error":{"message":"bad key"}}"#).unwrap();
    assert_eq!(find_error_message(&doc).as_deref(), Some("bad key"));
    let doc = JsonDoc::parse(r#"{"error":"bad"}"#).unwrap();
    assert_eq!(find_error_message(&doc), None);
}

#[test]
fn paths_are_taken_apart() {
    assert_eq!(components("/a//b/./c"), vec!["/", "a", "b", "c"]);
    assert_eq!(components("./a"), vec![".", "a"]);
    assert!(path_lies_under("/a/b", "/a"));
    assert!(!path_lies_under("/ab", "/a"));
    assert!(path_lies_under("a/./b", "a/b"));
}

#[test]
fn decoders_know_their_limit() {
    assert_eq!(SseDecoder::with_max_line_bytes(7).max_line_bytes(), 7);
}
