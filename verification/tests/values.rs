use zino_orm::strutil::{
    contains_char, ends_with, format_u64, join_char, parse_bool, parse_i64, parse_u64,
    parse_usize, split_char, starts_with, str_eq, trim_pair,
};
use zino_orm::value::{JsonValue, Record};

#[test]
fn parses_decimal_literals_exactly() {
    assert_eq!(parse_i64("42"), Some(42));
    assert_eq!(parse_i64("+7"), Some(7));
    assert_eq!(parse_i64("-13"), Some(-13));
    assert_eq!(parse_i64("007"), Some(7));
    assert_eq!(parse_i64("-9223372036854775808"), Some(i64::MIN));
    assert_eq!(parse_i64("9223372036854775807"), Some(i64::MAX));
    assert_eq!(parse_i64("9223372036854775808"), None);
    assert_eq!(parse_i64(""), None);
    assert_eq!(parse_i64("12x"), None);
    assert_eq!(parse_i64(" 12"), None);
    assert_eq!(parse_i64("-"), None);
}

#[test]
fn parses_unsigned_literals_exactly() {
    assert_eq!(parse_u64("18446744073709551615"), Some(u64::MAX));
    assert_eq!(parse_u64("18446744073709551616"), None);
    assert_eq!(parse_u64("-1"), None);
    assert_eq!(parse_usize("0"), Some(0));
    assert_eq!(parse_usize("+32"), Some(32));
    assert_eq!(parse_bool("true"), Some(true));
    assert_eq!(parse_bool("false"), Some(false));
    assert_eq!(parse_bool("True"), None);
}

#[test]
fn formats_unsigned_decimals() {
    assert_eq!(format_u64(0), "0");
    assert_eq!(format_u64(9), "9");
    assert_eq!(format_u64(10), "10");
    assert_eq!(format_u64(1234567890), "1234567890");
    assert_eq!(format_u64(u64::MAX), "18446744073709551615");
}

#[test]
fn string_helpers_behave_like_their_contracts() {
    assert!(str_eq("abc", "abc"));
    assert!(!str_eq("abc", "abd"));
    assert!(contains_char("uuid()", '('));
    assert!(!contains_char("now", '('));
    assert!(starts_with("Vec<Uuid>", "Vec<"));
    assert!(ends_with("Vec<Uuid>", ">"));
    assert_eq!(trim_pair("(a, b)", '(', ')'), "a, b");
    assert_eq!(trim_pair("  x ", ' ', ' '), "x");
    let pieces = split_char("a,b,,c", ',');
    assert_eq!(pieces, vec!["a", "b", "", "c"]);
    let joined = join_char(&vec!["a".to_string(), "b".to_string()], '_', "_");
    assert_eq!(joined, "a_b");
}

#[test]
fn record_upsert_replaces_in_place_and_keeps_order() {
    let mut record = Record { entries: vec![] };
    record.push("a".to_string(), JsonValue::Int(1));
    record.push("b".to_string(), JsonValue::Int(2));
    record.upsert("a".to_string(), JsonValue::Int(9));
    record.upsert("c".to_string(), JsonValue::Bool(true));
    assert_eq!(record.entries.len(), 3);
    assert_eq!(record.entries[0], ("a".to_string(), JsonValue::Int(9)));
    assert_eq!(record.entries[1], ("b".to_string(), JsonValue::Int(2)));
    assert_eq!(record.entries[2], ("c".to_string(), JsonValue::Bool(true)));
    assert_eq!(record.get("a"), Some(&JsonValue::Int(9)));
    assert_eq!(record.get("missing"), None);
}

#[test]
fn record_getters_coerce_and_narrow() {
    let record = Record {
        entries: vec![
            ("n".to_string(), JsonValue::Int(70000)),
            ("b".to_string(), JsonValue::Bool(true)),
            ("s".to_string(), JsonValue::Text("hi".to_string())),
        ],
    };
    assert_eq!(record.get_i64("n"), Some(70000));
    assert_eq!(record.get_u32("n"), Some(70000));
    assert_eq!(record.get_u16("n"), None);
    assert_eq!(record.get_bool("b"), Some(true));
    assert_eq!(record.get_bool("n"), None);
    assert_eq!(record.get_str("s"), Some("hi".to_string()));
    assert_eq!(record.get_str("b"), None);
}
