use oci_free_tier_arm::json::{
    get, get_bool, get_str, get_str_or_empty, into_items, json_integer, json_number, json_text,
    parse_json, take_items, to_bytes, Fields, Json,
};

fn bytes(j: Json) -> String {
    String::from_utf8(to_bytes(j)).unwrap()
}

#[test]
fn values_are_read_and_written_back() {
    for text in [
        "null",
        "true",
        "[]",
        "{}",
        "\"a\\nb\"",
        "[1,-2,3.5,\"x\",{\"k\":[false]}]",
        "{\"a\":{\"b\":1},\"c\":[]}",
        "1.0",
        "18446744073709551615",
    ] {
        assert_eq!(bytes(parse_json(text).unwrap()), text);
    }
    assert!(parse_json("{").is_err());
    assert_eq!(bytes(parse_json(" { \"b\" : 1 , \"a\" : 2 } ").unwrap()), "{\"a\":2,\"b\":1}");
}

#[test]
fn later_values_for_a_key_win() {
    let j = Fields::new().with("k", json_integer(1)).with("k", json_text("two")).object();
    assert_eq!(get_str(&j, "k"), Some("two".to_string()));
    assert_eq!(bytes(j), "{\"k\":\"two\"}");
}

#[test]
fn fields_are_found_by_their_kind() {
    let j = parse_json("{\"t\":\"x\",\"b\":true,\"n\":1,\"l\":[1,2]}").unwrap();
    assert_eq!(get_str(&j, "t"), Some("x".to_string()));
    assert_eq!(get_str(&j, "n"), None);
    assert_eq!(get_str(&j, "missing"), None);
    assert_eq!(get_str_or_empty(&j, "b"), "");
    assert_eq!(get_bool(&j, "b"), Some(true));
    assert_eq!(get_bool(&j, "t"), None);
    assert!(get(&j, "l").is_some());
    assert!(get(&Json::Null, "l").is_none());
    assert_eq!(take_items(j, "l"), vec![json_integer(1), json_integer(2)]);
    assert_eq!(into_items(json_text("x")), vec![]);
}

#[test]
fn numbers_are_written_in_decimal() {
    assert_eq!(bytes(json_integer(i64::MIN)), "-9223372036854775808");
    assert_eq!(bytes(json_integer(0)), "0");
    assert_eq!(bytes(json_number(&None)), "null");
    assert_eq!(bytes(json_number(&serde_json::Number::from_f64(12.0))), "12.0");
    assert_eq!(bytes(json_number(&serde_json::Number::from_f64(0.5))), "0.5");
}
