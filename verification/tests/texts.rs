use nba_agent::json::{bare, put_pair, Json};
use nba_agent::text;

#[test]
fn texts_are_searched_and_split() {
    assert!(text::has("abcabc", "bc") && text::has("", "") && !text::has("ab", "abc"));
    assert!(text::starts_with("abc", "ab") && !text::starts_with("abc", "b"));
    assert!(text::ends_with("abc", "bc") && !text::ends_with("abc", "b"));
    assert_eq!(text::strip_prefix("Bearer x", "Bearer ").as_deref(), Some("x"));
    assert_eq!(text::strip_prefix("x", "Bearer "), None);
    assert_eq!(text::split_on("a,,b", ','), vec!["a", "", "b"]);
    assert_eq!(text::split_on("", ','), vec![""]);
    assert_eq!(text::join_with(&text::split_on(",x,", ','), ","), ",x,");
    assert_eq!(text::trim_white(" \t\u{a0}\u{3000}a b\n\u{2003}"), "a b");
    assert_eq!(text::trim_matches("\"\"a\"b\"", '"'), "a\"b");
    assert_eq!(text::trim_end_matches("x_code_code", "_code"), "x");
    assert_eq!(text::replace_char("a'b'", '\'', "''"), "a''b''");
    assert!(text::eq_ignoring_case("ABC", "abc") && !text::eq_ignoring_case("É", "é"));
    assert!(text::same("x", "x") && !text::same("x", "y"));
}

#[test]
fn numbers_are_written_and_read() {
    assert_eq!(text::nat_text(0), "0");
    assert_eq!(text::nat_text(u128::MAX), "340282366920938463463374607431768211455");
    assert_eq!(text::int_text(-7), "-7");
    assert_eq!(text::int_text(i128::MIN), "-170141183460469231731687303715884105728");
    assert_eq!(text::parse_number("18446744073709551615", u64::MAX), Some(u64::MAX));
    assert_eq!(text::parse_number("18446744073709551616", u64::MAX), None);
    assert_eq!(text::parse_number("007", 10), Some(7));
    assert_eq!(text::parse_number("11", 10), None);
    assert_eq!(text::parse_number("+", 10), None);
    assert_eq!(text::parse_number("1 ", 10), None);
    assert_eq!(text::parse_number("++1", 10), None);
}

#[test]
fn json_is_written_and_read() {
    let j = Json::from_text("{\"b\": [1, -2, 18446744073709551615, 1.50, \"x\\n\", null, true], \"a\": {}}").unwrap();
    assert_eq!(j.to_text(), "{\"a\":{},\"b\":[1,-2,18446744073709551615,1.5,\"x\\n\",null,true]}");
    assert_eq!(Json::Array(vec![]).to_pretty(), "[]");
    assert_eq!(Json::Array(vec![Json::Int(1)]).to_pretty(), "[\n  1\n]");
    assert!(Json::from_text("{").is_none());
    assert!(Json::rows_from_text("{}").is_none());
    assert_eq!(Json::rows_from_text("[{}, 1]").unwrap().len(), 2);
    assert_eq!(j.clone().to_text(), j.to_text());
    assert_eq!(bare(&Json::Str("a\"b".to_string())), "a\\\"b");
    assert_eq!(bare(&Json::Str("x".to_string())), "x");
    assert_eq!(bare(&Json::Int(-1)), "-1");
}

#[test]
fn json_values_are_read() {
    let j = Json::from_text("{\"a\": 5, \"u\": 9223372036854775808, \"s\": \"t\", \"f\": 2500.0}").unwrap();
    assert_eq!(j.get("a").unwrap().as_int(), Some(5));
    assert_eq!(j.at("u").as_int(), None);
    assert_eq!(j.at("u").as_uint(), Some(9223372036854775808));
    assert_eq!(Json::Int(-1).as_uint(), None);
    assert_eq!(j.text_or("s", "x"), "t");
    assert_eq!(j.text_or("a", "x"), "x");
    assert_eq!(j.at("f").float_display().as_deref(), Some("2500"));
    assert_eq!(j.at("a").float_display().as_deref(), Some("5"));
    assert_eq!(Json::Int(9007199254740993).float_display().as_deref(), Some("9007199254740992"));
    assert_eq!(j.at("s").float_display(), None);
    assert_eq!(j.keys(), vec!["a", "f", "s", "u"]);
    assert!(j.get("zz").is_none() && Json::Null.get("a").is_none());
    assert_eq!(Json::Array(vec![Json::Bool(true)]).nth(0).to_text(), "true");
    assert_eq!(Json::Array(vec![]).nth(0).to_text(), "null");
}

#[test]
fn pairs_are_kept_in_order() {
    let mut p = Vec::new();
    put_pair(&mut p, "b".to_string(), Json::Int(1));
    put_pair(&mut p, "a".to_string(), Json::Int(2));
    put_pair(&mut p, "ab".to_string(), Json::Int(3));
    put_pair(&mut p, "b".to_string(), Json::Int(4));
    let keys: Vec<&str> = p.iter().map(|kv| kv.0.as_str()).collect();
    assert_eq!(keys, vec!["a", "ab", "b"]);
    assert_eq!(p[2].1.as_int(), Some(4));
}
