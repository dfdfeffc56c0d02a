use meet123::json::{get, json_u32, prop_str, Json};
use meet123::text::{chars_of, format_u32, parse_u32_chars};

fn s(t: &str) -> String {
    t.to_string()
}

fn obj(fields: Vec<(&str, Json)>) -> Json {
    Json::Object(fields.into_iter().map(|(k, v)| (s(k), v)).collect())
}

#[test]
fn decimal_numbers_are_written_shortest() {
    assert_eq!(format_u32(0), "0");
    assert_eq!(format_u32(7), "7");
    assert_eq!(format_u32(1234), "1234");
    assert_eq!(format_u32(u32::MAX), "4294967295");
}

#[test]
fn decimal_numbers_read_back() {
    for n in [0u32, 9, 10, 99, 100, 65535, 123456789, u32::MAX] {
        let text = format_u32(n);
        assert_eq!(parse_u32_chars(&chars_of(&text)), Some(n));
    }
}

#[test]
fn parsing_follows_str_parse() {
    for t in ["", "+", "-1", "+12", "12", "007", "4294967295", "4294967296", "12a", " 1", "１"] {
        assert_eq!(parse_u32_chars(&chars_of(t)), t.parse::<u32>().ok(), "input {t:?}");
    }
}

#[test]
fn member_lookup_takes_the_first_match() {
    let o = obj(vec![("a", Json::Bool(true)), ("b", Json::Str(s("x"))), ("b", Json::Null)]);
    assert!(matches!(get(&o, "a"), Some(Json::Bool(true))));
    assert!(matches!(get(&o, "b"), Some(Json::Str(_))));
    assert!(get(&o, "c").is_none());
    assert!(get(&Json::Array(vec![]), "a").is_none());
}

#[test]
fn numbers_are_read_from_numbers_and_strings() {
    assert_eq!(json_u32(Some(&Json::Number(Some(42)))), Some(42));
    assert_eq!(json_u32(Some(&Json::Number(Some((1u64 << 32) + 5)))), Some(5));
    assert_eq!(json_u32(Some(&Json::Number(None))), None);
    assert_eq!(json_u32(Some(&Json::Str(s("17")))), Some(17));
    assert_eq!(json_u32(Some(&Json::Str(s("x17")))), None);
    assert_eq!(json_u32(Some(&Json::Bool(true))), None);
    assert_eq!(json_u32(None), None);
}

#[test]
fn property_texts_default_to_empty() {
    let props = obj(vec![("application.name", Json::Str(s("Firefox"))), ("media.name", Json::Number(Some(3)))]);
    assert_eq!(prop_str(&props, "application.name"), "Firefox");
    assert_eq!(prop_str(&props, "media.name"), "");
    assert_eq!(prop_str(&props, "missing"), "");
    assert_eq!(prop_str(&Json::Null, "application.name"), "");
}
