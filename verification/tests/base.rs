use tracedecay::decimal::{i64_text, parse_i64, u64_text};
use tracedecay::json::{Json, JsonMap};
use tracedecay::json_io::{parse_json, write_json};
use tracedecay::order::{is_text_before, sort_by_key, sort_texts};
use tracedecay::text::{lines_of, split_at_char, split_first, text_contains, to_lower_ascii, trimmed, with_char_replaced};

fn words(list: &[&str]) -> Vec<String> {
    list.iter().map(|s| s.to_string()).collect()
}

#[test]
fn numbers_as_texts() {
    for n in [0, 7, -7, 1234567890, i64::MIN, i64::MAX] {
        assert_eq!(i64_text(n), n.to_string());
        assert_eq!(parse_i64(&i64_text(n)), Some(n));
    }
    assert_eq!(u64_text(u64::MAX), u64::MAX.to_string());
    for text in ["", "-", "+", "1a", " 1", "9223372036854775808", "1.0", "--1"] {
        assert_eq!(parse_i64(text), text.parse::<i64>().ok());
    }
    assert_eq!(parse_i64("+5"), Some(5));
    assert_eq!(parse_i64("007"), Some(7));
    assert_eq!(parse_i64("-0"), Some(0));
}

#[test]
fn objects_keep_their_keys_in_order() {
    let mut m = JsonMap::new();
    m.insert("b".to_string(), Json::Bool(true));
    m.insert("a".to_string(), Json::Null);
    m.insert("b".to_string(), Json::Text("x".to_string()));
    assert_eq!(m.len(), 2);
    assert_eq!(write_json(&Json::Object(m)), r#"{"a":null,"b":"x"}"#);
    let mut m = JsonMap::new();
    m.insert("k".to_string(), Json::Null);
    assert!(m.remove("k").is_some());
    assert!(m.remove("k").is_none());
    assert!(m.is_empty());
}

#[test]
fn json_is_read_and_written() {
    for text in [
        "null",
        "true",
        "-5",
        "18446744073709551615",
        "1.5",
        r#""a\"b\n""#,
        r#"[1,[],{"x":[null]}]"#,
        r#"{"a":1,"b":{"c":"d"}}"#,
    ] {
        assert_eq!(write_json(&parse_json(text).ok().unwrap()), text);
    }
    assert!(parse_json("{").is_err());
    assert_eq!(write_json(&parse_json(r#"{"b":1,"a":2,"b":3}"#).ok().unwrap()), r#"{"a":2,"b":3}"#);
    let v = parse_json(r#"{"n":5,"s":"t","l":[1]}"#).ok().unwrap();
    assert_eq!(v.i64_at("n"), Some(5));
    assert_eq!(v.str_at("s"), Some("t"));
    assert_eq!(v.array_at("l").map(|l| l.len()), Some(1));
    assert!(v.same(&v.duplicate()));
    assert!(!v.same(&Json::Null));
    assert!(!parse_json("1").ok().unwrap().same(&parse_json("1.0").ok().unwrap()));
    assert!(parse_json("0.0").ok().unwrap().same(&parse_json("-0.0").ok().unwrap()));
}

#[test]
fn texts_are_cut_and_compared() {
    assert_eq!(trimmed(" \u{3000}a b\t\n"), "a b");
    assert_eq!(split_at_char("a,,b,", ','), vec!["a", "", "b", ""]);
    assert_eq!(split_at_char("", ','), vec![""]);
    assert_eq!(split_first("k=v=w", '='), Some(("k".to_string(), "v=w".to_string())));
    assert_eq!(split_first("k", '='), None);
    assert_eq!(lines_of("a\r\nb\n\nc"), vec!["a", "b", "", "c"]);
    assert_eq!(lines_of("a\n"), vec!["a"]);
    assert!(lines_of("").is_empty());
    assert!(text_contains("abcabd", "abd"));
    assert!(text_contains("x", ""));
    assert!(!text_contains("ab", "abc"));
    assert_eq!(to_lower_ascii("ÄBc"), "Äbc");
    assert_eq!(with_char_replaced("a-b-", '-', '_'), "a_b_");
    assert!(is_text_before("a", "ab"));
    assert!(!is_text_before("ab", "ab"));
    assert!(is_text_before("Z", "a"));
}

#[test]
fn sorting_is_stable() {
    assert_eq!(sort_texts(words(&["b", "a", "c", "a"])), vec!["a", "a", "b", "c"]);
    let pairs = vec![
        ("b".to_string(), "1".to_string()),
        ("a".to_string(), "2".to_string()),
        ("b".to_string(), "0".to_string()),
    ];
    let sorted: Vec<String> = sort_by_key(pairs).into_iter().map(|p| p.1).collect();
    assert_eq!(sorted, vec!["2", "1", "0"]);
}
