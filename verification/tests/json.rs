use ai_semantic_cache::json::{object2, parse_json, single, unsigned, Json, JsonNumber};
use ai_semantic_cache::ieee::Single;

#[test]
fn documents_are_parsed() {
    let j = parse_json(br#"{"a":[1,-2,0.5,true,null,"x"],"b":{"c":"d"}}"#).unwrap();
    let items = j.items_field("a").unwrap();
    assert_eq!(items[0].as_u64(), Some(1));
    assert_eq!(items[0].as_double_bits(), Some(1f64.to_bits()));
    assert_eq!(items[1].as_u64(), None);
    assert_eq!(items[1].as_double_bits(), Some((-2f64).to_bits()));
    assert_eq!(items[2].as_double_bits(), Some(0.5f64.to_bits()));
    assert_eq!(items[3].as_bool(), Some(true));
    assert_eq!(items[4], Json::Null);
    assert_eq!(items[5].as_str(), Some("x"));
    assert_eq!(j.get("b").unwrap().text_field("c"), Some("d"));
    assert!(j.get("z").is_none());
    assert!(items[5].get("a").is_none());
    assert!(items[5].as_array().is_none());
}

#[test]
fn parse_errors_have_the_message_of_the_parser() {
    for bytes in [&b""[..], b"not json", b"{", b"[1,]", b"\"\xff\"", b"1 2"] {
        let want = serde_json::from_slice::<serde_json::Value>(bytes).unwrap_err().to_string();
        assert_eq!(parse_json(bytes).unwrap_err(), want);
    }
}

#[test]
fn a_repeated_field_has_its_last_value() {
    let j = parse_json(br#"{"a":1,"a":2}"#).unwrap();
    assert_eq!(j.get("a").unwrap().as_u64(), Some(2));
}

#[test]
fn large_numbers_are_read() {
    let j = parse_json(b"[18446744073709551615,1e400]");
    assert!(j.is_err());
    let j = parse_json(b"[18446744073709551615,18446744073709551616]").unwrap();
    let items = j.as_array().unwrap();
    assert_eq!(items[0].as_u64(), Some(u64::MAX));
    assert_eq!(items[1].as_u64(), None);
    assert_eq!(items[1].as_double_bits(), Some(18446744073709551616f64.to_bits()));
}

#[test]
fn numbers_are_built_as_the_parser_reads_them() {
    assert_eq!(unsigned(5), parse_json(b"5").unwrap());
    assert_eq!(
        single(Single { bits: 0.5f32.to_bits() }),
        parse_json(b"0.5").unwrap()
    );
    assert_eq!(single(Single { bits: f32::NAN.to_bits() }), Json::Null);
    assert_eq!(
        single(Single { bits: 0.1f32.to_bits() }),
        Json::Number(JsonNumber { unsigned: None, double_bits: Some((0.1f32 as f64).to_bits()) })
    );
}

#[test]
fn objects_are_built() {
    let j = object2("a", Json::Bool(true), "b", Json::text("x"));
    assert_eq!(j, parse_json(br#"{"a":true,"b":"x"}"#).unwrap());
}
