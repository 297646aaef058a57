use zenlog::json::Json;

fn text(value: &str) -> Json {
    Json::Str(value.to_string())
}

fn sample() -> Json {
    Json::Object(vec![
        ("source".to_string(), text("api")),
        ("message".to_string(), text("hi")),
        ("nested".to_string(), Json::object("inner", Json::Int(-3))),
    ])
}

#[test]
fn lookup_finds_the_child_of_a_mapping() {
    let record = sample();
    assert_eq!(record.lookup("message"), Some(&text("hi")));
    assert_eq!(record.lookup("source"), Some(&text("api")));
    assert_eq!(record.lookup("absent"), None);
}

#[test]
fn lookup_is_absent_for_every_other_variant() {
    assert_eq!(Json::Null.lookup("message"), None);
    assert_eq!(Json::Bool(true).lookup("message"), None);
    assert_eq!(Json::Int(1).lookup("message"), None);
    assert_eq!(text("message").lookup("message"), None);
    assert_eq!(Json::Array(vec![sample()]).lookup("message"), None);
}

#[test]
fn lookup_takes_the_first_of_two_fields_with_one_key() {
    let record = Json::Object(vec![
        ("k".to_string(), Json::Int(1)),
        ("k".to_string(), Json::Int(2)),
    ]);
    assert_eq!(record.lookup("k"), Some(&Json::Int(1)));
}

#[test]
fn projections_give_what_the_variant_holds() {
    assert_eq!(Json::Bool(true).as_bool(), Some(true));
    assert_eq!(Json::Int(-5).as_i64(), Some(-5));
    assert_eq!(Json::Int(-5).as_u64(), None);
    assert_eq!(Json::Int(5).as_u64(), Some(5));
    assert_eq!(Json::UInt(7).as_i64(), Some(7));
    assert_eq!(Json::UInt(u64::MAX).as_i64(), None);
    assert_eq!(Json::UInt(u64::MAX).as_u64(), Some(u64::MAX));
    assert_eq!(text("x").as_str(), Some("x"));
    assert_eq!(text("x").as_bool(), None);
    assert_eq!(Json::Null.as_str(), None);
    let half = serde_json::Number::from_f64(0.5).unwrap();
    assert_eq!(Json::Float(half.clone()).as_float(), Some(&half));
    assert_eq!(Json::Int(1).as_float(), None);
}

#[test]
fn kinds_are_told_apart() {
    assert!(Json::Null.is_null());
    assert!(text("x").is_string());
    assert!(Json::Array(vec![]).is_array());
    assert!(sample().is_object());
    assert!(!sample().is_array());
    assert!(!Json::Null.is_object());
}

#[test]
fn insert_replaces_in_place_or_appends() {
    let mut record = sample();
    record.insert("source", text("web"));
    assert_eq!(
        record,
        Json::Object(vec![
            ("source".to_string(), text("web")),
            ("message".to_string(), text("hi")),
            ("nested".to_string(), Json::object("inner", Json::Int(-3))),
        ])
    );
    record.insert("hostname", text("box"));
    assert_eq!(record.lookup("hostname"), Some(&text("box")));
    match &record {
        Json::Object(fields) => assert_eq!(fields[3].0, "hostname"),
        _ => unreachable!(),
    }
}

#[test]
fn insert_leaves_what_is_no_mapping() {
    let mut value = Json::Int(3);
    value.insert("k", Json::Null);
    assert_eq!(value, Json::Int(3));
}

#[test]
fn clone_is_equal() {
    let record = sample();
    assert_eq!(record.clone(), record);
    let list = Json::Array(vec![sample(), Json::Null, Json::UInt(9)]);
    assert_eq!(list.clone(), list);
}
