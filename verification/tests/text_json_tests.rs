use sticker_relay::json::{find_deep_number, find_deep_string, to_compact_text, JsonNumber, JsonValue};
use sticker_relay::text::{
    chars_find, chars_of, collapse_whitespace, i64_to_decimal, join_texts, parse_i64, parse_u64,
    prefix_chars, replace_str, split_lines, split_words, string_from, to_ascii_lowercase,
    trim_str, u64_to_decimal,
};

fn text(s: &str) -> JsonValue {
    JsonValue::Text(s.to_string())
}

fn object(members: Vec<(&str, JsonValue)>) -> JsonValue {
    JsonValue::Object(members.into_iter().map(|(k, v)| (k.to_string(), v)).collect())
}

fn strings(lines: Vec<Vec<char>>) -> Vec<String> {
    lines.into_iter().map(|l| l.into_iter().collect()).collect()
}

#[test]
fn deep_strings_skip_empty_values_and_search_children_in_order() {
    let value = object(vec![
        ("a", object(vec![("id", text(""))])),
        ("b", JsonValue::Array(vec![JsonValue::Null, object(vec![("ID", text("x")), ("id", text("y"))])])),
        ("id", text("")),
    ]);
    assert_eq!(find_deep_string(Some(&value), &["id"]).as_deref(), Some("y"));
    assert_eq!(find_deep_string(Some(&value), &["ID", "id"]).as_deref(), Some("x"));
    assert_eq!(find_deep_string(Some(&value), &["none"]), None);
    assert_eq!(find_deep_string(None, &["id"]), None);
}

#[test]
fn deep_numbers_accept_unsigned_numbers_and_numeric_text() {
    let negative = JsonValue::Number(JsonNumber { as_u64: None, as_i64: Some(-5), text: "-5".to_string() });
    let value = object(vec![("n", negative), ("inner", object(vec![("n", text("600"))]))]);
    assert_eq!(find_deep_number(Some(&value), &["n"]), Some(600));
    let direct = object(vec![("expires_in", text("12x")), ("expiresIn", text("30"))]);
    assert_eq!(find_deep_number(Some(&direct), &["expires_in", "expiresIn"]), Some(30));
}

#[test]
fn compact_json_escapes_like_serde_json() {
    let value = object(vec![
        ("s", text("a\"b\\c\n\u{1}é")),
        ("list", JsonValue::Array(vec![JsonValue::Bool(true), JsonValue::Null])),
        ("n", JsonValue::Number(JsonNumber { as_u64: Some(7), as_i64: Some(7), text: "7".to_string() })),
        ("o", object(vec![])),
    ]);
    assert_eq!(
        to_compact_text(&value),
        "{\"s\":\"a\\\"b\\\\c\\n\\u0001é\",\"list\":[true,null],\"n\":7,\"o\":{}}"
    );
}

#[test]
fn decimal_numbers_round_trip() {
    assert_eq!(u64_to_decimal(0), "0");
    assert_eq!(u64_to_decimal(u64::MAX), "18446744073709551615");
    assert_eq!(i64_to_decimal(i64::MIN), "-9223372036854775808");
    assert_eq!(parse_u64("18446744073709551615"), Some(u64::MAX));
    assert_eq!(parse_u64("18446744073709551616"), None);
    assert_eq!(parse_u64("+7"), Some(7));
    assert_eq!(parse_u64(""), None);
    assert_eq!(parse_u64("1 "), None);
    assert_eq!(parse_i64("-9223372036854775808"), Some(i64::MIN));
    assert_eq!(parse_i64("9223372036854775808"), None);
    assert_eq!(parse_i64("-"), None);
}

#[test]
fn text_is_split_trimmed_and_joined() {
    assert_eq!(strings(split_words(&chars_of(" a\tb \n c "))), vec!["a", "b", "c"]);
    assert_eq!(strings(split_lines(&chars_of("a\r\nb\n\nc"))), vec!["a", "b", "", "c"]);
    assert_eq!(strings(split_lines(&chars_of("a\n"))), vec!["a"]);
    assert_eq!(collapse_whitespace("  x \n y  "), "x y");
    assert_eq!(trim_str("\u{3000} x \t"), "x");
    assert_eq!(prefix_chars("表情递", 2), "表情");
    assert_eq!(replace_str("a\\b\\c", "\\", "/"), "a/b/c");
    assert_eq!(replace_str("aaa", "aa", "b"), "ba");
    assert_eq!(to_ascii_lowercase("ÀBc"), "Àbc");
    assert_eq!(chars_find(&chars_of("abcabc"), &chars_of("ca")), Some(2));
    assert_eq!(string_from(&['x', 'y']), "xy");
    assert_eq!(join_texts(&vec!["a".to_string(), "b".to_string()], "；"), "a；b");
}
