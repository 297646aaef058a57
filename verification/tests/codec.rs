use zenlog::codec::{decode, encode};
use zenlog::json::Json;

#[test]
fn decode_reads_every_variant() {
    let record = decode(b"{\"n\":null,\"b\":true,\"i\":-4,\"u\":18446744073709551615,\"f\":1.5,\"s\":\"x\",\"a\":[1,2],\"o\":{\"k\":0}}")
        .ok()
        .unwrap();
    assert_eq!(record.lookup("n"), Some(&Json::Null));
    assert_eq!(record.lookup("b"), Some(&Json::Bool(true)));
    assert_eq!(record.lookup("i"), Some(&Json::Int(-4)));
    assert_eq!(record.lookup("u"), Some(&Json::UInt(u64::MAX)));
    assert_eq!(
        record.lookup("f"),
        Some(&Json::Float(serde_json::Number::from_f64(1.5).unwrap()))
    );
    assert_eq!(record.lookup("s"), Some(&Json::Str("x".to_string())));
    assert_eq!(
        record.lookup("a"),
        Some(&Json::Array(vec![Json::Int(1), Json::Int(2)]))
    );
    assert_eq!(record.lookup("o"), Some(&Json::object("k", Json::Int(0))));
}

#[test]
fn decode_keeps_the_order_of_the_fields() {
    let record = decode(b"{\"z\":1,\"a\":2}").ok().unwrap();
    assert_eq!(
        record,
        Json::Object(vec![
            ("z".to_string(), Json::Int(1)),
            ("a".to_string(), Json::Int(2)),
        ])
    );
}

#[test]
fn decode_refuses_what_is_no_json() {
    let error = decode(b"{\"message\":").err().unwrap();
    assert!(!error.message.is_empty());
    assert!(decode(b"").is_err());
    assert!(decode(b"{} {}").is_err());
}

#[test]
fn encode_writes_fields_in_their_order() {
    let record = Json::Object(vec![
        ("z".to_string(), Json::Int(-1)),
        ("a".to_string(), Json::Array(vec![Json::Null, Json::Bool(false), Json::UInt(7)])),
        ("m".to_string(), Json::Str("hi".to_string())),
    ]);
    assert_eq!(
        encode(&record).ok().unwrap(),
        "{\"z\":-1,\"a\":[null,false,7],\"m\":\"hi\"}"
    );
}

#[test]
fn encode_and_decode_round_trip() {
    let record = Json::Object(vec![
        ("message".to_string(), Json::Str("le message".to_string())),
        ("pid".to_string(), Json::Int(93111)),
        ("ratio".to_string(), Json::Float(serde_json::Number::from_f64(0.25).unwrap())),
    ]);
    let text = encode(&record).ok().unwrap();
    assert_eq!(decode(text.as_bytes()).ok().unwrap(), record);
}

#[test]
fn decode_keeps_each_key_once() {
    let record = decode(b"{\"a\":1,\"b\":{\"c\":1,\"c\":2},\"a\":3}").ok().unwrap();
    assert_eq!(
        record,
        Json::Object(vec![
            ("a".to_string(), Json::Int(3)),
            ("b".to_string(), Json::object("c", Json::Int(2))),
        ])
    );
}
