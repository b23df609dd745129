use drone::json::{JsonNumber, JsonValue};
use drone::tables::{StringMap, StringSet};
use drone::text::{ends_with_text, parse_hex_u32, same_text, split_on_dots};

fn obj(members: Vec<(&str, JsonValue)>) -> JsonValue {
    JsonValue::Object(members.into_iter().map(|(k, v)| (k.to_string(), v)).collect())
}

#[test]
fn split_keeps_empty_pieces() {
    assert_eq!(split_on_dots("a.b..c"), vec!["a", "b", "", "c"]);
    assert_eq!(split_on_dots(""), vec![""]);
    assert_eq!(split_on_dots("."), vec!["", ""]);
    assert_eq!(split_on_dots("condenser_api.get_block"), vec!["condenser_api", "get_block"]);
    assert_eq!(split_on_dots("é.ü"), vec!["é", "ü"]);
}

#[test]
fn split_then_join_gives_the_name_back() {
    for name in ["a.b.c", "", "x", "..", "hived.database_api.get_block"] {
        assert_eq!(split_on_dots(name).join("."), name);
    }
}

#[test]
fn hex_parsing() {
    assert_eq!(parse_hex_u32("ff"), Some(255));
    assert_eq!(parse_hex_u32("FF"), Some(255));
    assert_eq!(parse_hex_u32("+1a"), Some(26));
    assert_eq!(parse_hex_u32("ffffffff"), Some(u32::MAX));
    assert_eq!(parse_hex_u32("100000000"), None);
    assert_eq!(parse_hex_u32(""), None);
    assert_eq!(parse_hex_u32("+"), None);
    assert_eq!(parse_hex_u32("-1"), None);
    assert_eq!(parse_hex_u32("0g"), None);
    assert_eq!(parse_hex_u32(" 1"), None);
}

#[test]
fn text_comparisons() {
    assert!(same_text("abc", "abc"));
    assert!(!same_text("abc", "abd"));
    assert!(!same_text("abc", "ab"));
    assert!(ends_with_text("condenser_api", "_api"));
    assert!(!ends_with_text("api", "_api"));
    assert!(ends_with_text("x", ""));
}

#[test]
fn json_accessors() {
    let big = JsonValue::Number(JsonNumber::PosInt(u64::MAX));
    assert_eq!(big.as_i64(), None);
    assert_eq!(big.as_u64(), Some(u64::MAX));
    let neg = JsonValue::Number(JsonNumber::NegInt(-3));
    assert_eq!(neg.as_i64(), Some(-3));
    assert_eq!(neg.as_u64(), None);
    let f = JsonValue::Number(JsonNumber::Float("1.5".to_string()));
    assert_eq!((f.as_i64(), f.as_u64()), (None, None));
    let o = obj(vec![("a", JsonValue::Bool(true)), ("b", JsonValue::Str("x".to_string()))]);
    assert!(o.is_object());
    assert_eq!(o.get("b").unwrap().as_str(), Some("x"));
    assert!(o.get("c").is_none());
    assert!(JsonValue::Array(vec![]).is_empty_array());
    assert!(!JsonValue::Array(vec![JsonValue::Null]).is_empty_array());
    assert!(JsonValue::Null.is_null());
    assert_eq!(o.copy_value(), o);
}

#[test]
fn string_tables() {
    let mut m = StringMap::new();
    assert!(m.get("a").is_none());
    m.insert("a".to_string(), "1".to_string());
    m.insert("b".to_string(), "2".to_string());
    m.insert("a".to_string(), "3".to_string());
    assert_eq!(m.get("a").unwrap(), "3");
    assert_eq!(m.get("b").unwrap(), "2");
    let mut s = StringSet::new();
    s.insert("hived".to_string());
    assert!(s.contains("hived"));
    assert!(!s.contains("appbase"));
}
