use zenlog::codec::decode;
use zenlog::component::{get_pair, get_small_number, get_string, FactoryError};
use zenlog::json::Json;

fn value(text: &str) -> Json {
    decode(text.as_bytes()).ok().unwrap()
}

#[test]
fn file_configuration_is_read() {
    let config = zenlog::output::file::Config::read(&value(
        "{\"type\":\"file\",\"path\":\"/var/log/{source}.log\",\"pattern\":\"{message}\"}",
    ))
    .ok()
    .unwrap();
    assert_eq!(config.path, "/var/log/{source}.log");
    assert_eq!(config.pattern, "{message}");
    assert_eq!(
        zenlog::output::file::Config::read(&value("{\"path\":\"x\"}")).err(),
        Some(FactoryError::MissingField("pattern".to_string()))
    );
    assert_eq!(
        zenlog::output::file::Config::read(&value("{\"pattern\":\"x\"}")).err(),
        Some(FactoryError::MissingField("path".to_string()))
    );
    assert_eq!(
        zenlog::output::file::Config::read(&value("{\"path\":\"x\",\"pattern\":[]}")).err(),
        Some(FactoryError::InvalidField("pattern".to_string()))
    );
}

#[test]
fn tcp_configuration_is_read() {
    let config = zenlog::source::tcp::Config::read(&value("{\"endpoint\":[\"::\",10053]}"))
        .ok()
        .unwrap();
    assert_eq!(config.endpoint, ("::".to_string(), 10053));
    let config = zenlog::source::tcp::Config::read(&value("{\"endpoint\":[\"h\",65535]}"))
        .ok()
        .unwrap();
    assert_eq!(config.endpoint.1, 65535);
}

#[test]
fn random_configuration_is_read() {
    let config = zenlog::source::random::Config::read(&value("{\"rate\":0.5,\"range\":[16,8]}"))
        .ok()
        .unwrap();
    assert_eq!(config.range, (16, 8));
    assert_eq!(config.rate, Json::Float(serde_json::Number::from_f64(0.5).unwrap()));
}

#[test]
fn fields_are_fetched_by_kind() {
    let cfg = value("{\"s\":\"text\",\"n\":7,\"p\":[1,\"two\"],\"big\":65536}");
    assert_eq!(get_string(&cfg, "s").ok(), Some("text"));
    assert_eq!(
        get_string(&cfg, "n").err(),
        Some(FactoryError::InvalidField("n".to_string()))
    );
    assert_eq!(
        get_string(&cfg, "absent").err(),
        Some(FactoryError::MissingField("absent".to_string()))
    );
    assert_eq!(get_small_number(cfg.lookup("n").unwrap()), Some(7));
    assert_eq!(get_small_number(cfg.lookup("big").unwrap()), None);
    assert_eq!(get_small_number(&Json::UInt(65535)), Some(65535));
    assert_eq!(get_small_number(&Json::UInt(65536)), None);
    assert_eq!(get_small_number(&Json::Int(-1)), None);
    assert_eq!(get_small_number(cfg.lookup("s").unwrap()), None);
    assert_eq!(
        get_pair(cfg.lookup("p").unwrap()),
        Some((&Json::Int(1), &Json::Str("two".to_string())))
    );
    assert_eq!(get_pair(cfg.lookup("n").unwrap()), None);
    assert_eq!(get_pair(&Json::Array(vec![Json::Null])), None);
}
