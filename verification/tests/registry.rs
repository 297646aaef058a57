use zenlog::codec::decode;
use zenlog::component::FactoryError;
use zenlog::json::Json;
use zenlog::output::nil::Null;
use zenlog::output::stream::Stream;
use zenlog::output::{Effect, Output, OutputFactory, Sink};
use zenlog::logging::LogLevel;
use zenlog::registry::{AssemblyError, OutputKind, Registry, SourceKind};
use zenlog::source::random::{Config, Random};
use zenlog::source::stdin::StdinSource;
use zenlog::source::tcp::TcpSource;
use zenlog::source::udp::UdpSource;
use zenlog::source::{Input, SourceFactory};
use zenlog::template::ParseError;

fn cfg(text: &str) -> Json {
    decode(text.as_bytes()).ok().unwrap()
}

#[test]
fn type_has_to_be_a_string() {
    let registry = Registry::new();
    assert_eq!(registry.source(&cfg("{}")).err(), Some(AssemblyError::MissingType));
    assert_eq!(registry.source(&cfg("{\"type\":5}")).err(), Some(AssemblyError::MissingType));
    assert_eq!(registry.output(&cfg("{\"kind\":\"stream\"}")).err(), Some(AssemblyError::MissingType));
    assert_eq!(registry.output(&cfg("[\"stream\"]")).err(), Some(AssemblyError::MissingType));
    assert_eq!(Registry::ty(&cfg("{\"type\":\"udp\"}")).ok(), Some("udp"));
}

#[test]
fn type_has_to_be_registered() {
    let registry = Registry::new();
    assert_eq!(
        registry.source(&cfg("{\"type\":\"kafka\"}")).err(),
        Some(AssemblyError::UnknownType("kafka".to_string()))
    );
    assert_eq!(
        registry.output(&cfg("{\"type\":\"stdin\"}")).err(),
        Some(AssemblyError::UnknownType("stdin".to_string()))
    );
    assert_eq!(
        registry.source(&cfg("{\"type\":\"stream\"}")).err(),
        Some(AssemblyError::UnknownType("stream".to_string()))
    );
    let empty = Registry::empty();
    assert_eq!(
        empty.source(&cfg("{\"type\":\"stdin\"}")).err(),
        Some(AssemblyError::UnknownType("stdin".to_string()))
    );
}

#[test]
fn registering_makes_a_type_known() {
    let mut registry = Registry::empty();
    registry.add_source(SourceKind::Stdin);
    registry.add_output(OutputKind::Null);
    assert_eq!(
        registry.source(&cfg("{\"type\":\"stdin\"}")).ok(),
        Some(Input::Stdin(StdinSource))
    );
    assert_eq!(registry.output(&cfg("{\"type\":\"nil\"}")).ok(), Some(Sink::Null(Null)));
    assert!(registry.source(&cfg("{\"type\":\"udp\"}")).is_err());
}

#[test]
fn factory_errors_carry_the_type() {
    let registry = Registry::new();
    assert_eq!(
        registry.source(&cfg("{\"type\":\"udp\"}")).err(),
        Some(AssemblyError::FactoryFailed(
            "udp".to_string(),
            FactoryError::MissingField("endpoint".to_string())
        ))
    );
    assert_eq!(
        registry.source(&cfg("{\"type\":\"random\",\"rate\":1,\"range\":[9,8]}")).err(),
        Some(AssemblyError::FactoryFailed("random".to_string(), FactoryError::InvalidRange(9, 8)))
    );
    assert_eq!(
        registry.output(&cfg("{\"type\":\"file\",\"path\":\"{\",\"pattern\":\"x\"}")).err(),
        Some(AssemblyError::FactoryFailed(
            "file".to_string(),
            FactoryError::Path(ParseError::EofInsidePlaceholder)
        ))
    );
    assert_eq!(
        registry.output(&cfg("{\"type\":\"file\",\"path\":\"x\",\"pattern\":\"{\"}")).err(),
        Some(AssemblyError::FactoryFailed(
            "file".to_string(),
            FactoryError::Pattern(ParseError::EofInsidePlaceholder)
        ))
    );
    assert_eq!(
        registry.output(&cfg("{\"type\":\"file\",\"path\":1,\"pattern\":\"x\"}")).err(),
        Some(AssemblyError::FactoryFailed(
            "file".to_string(),
            FactoryError::InvalidField("path".to_string())
        ))
    );
}

#[test]
fn sources_are_made_from_their_fields() {
    let registry = Registry::new();
    assert_eq!(
        registry.source(&cfg("{\"type\":\"udp\",\"endpoint\":\"0.0.0.0:5000\"}")).ok(),
        Some(Input::Udp(UdpSource { endpoint: "0.0.0.0:5000".to_string() }))
    );
    assert_eq!(
        registry.source(&cfg("{\"type\":\"tcp\",\"endpoint\":[\"localhost\",10053]}")).ok(),
        Some(Input::Tcp(TcpSource { host: "localhost".to_string(), port: 10053 }))
    );
    assert_eq!(
        registry.source(&cfg("{\"type\":\"random\",\"rate\":2,\"range\":[8,16]}")).ok(),
        Random::new(Config { rate: Json::Int(2), range: (8, 16) }).ok().map(Input::Random)
    );
}

#[test]
fn source_fields_are_checked() {
    let bad_tcp = [
        "{\"type\":\"tcp\"}",
        "{\"type\":\"tcp\",\"endpoint\":\"localhost:1\"}",
        "{\"type\":\"tcp\",\"endpoint\":[\"localhost\"]}",
        "{\"type\":\"tcp\",\"endpoint\":[\"localhost\",65536]}",
        "{\"type\":\"tcp\",\"endpoint\":[\"localhost\",-1]}",
        "{\"type\":\"tcp\",\"endpoint\":[1,2]}",
    ];
    assert_eq!(
        TcpSource::run(&cfg(bad_tcp[0])).err(),
        Some(FactoryError::MissingField("endpoint".to_string()))
    );
    for text in &bad_tcp[1..] {
        assert_eq!(
            TcpSource::run(&cfg(text)).err(),
            Some(FactoryError::InvalidField("endpoint".to_string()))
        );
    }
    assert_eq!(
        UdpSource::run(&cfg("{\"endpoint\":5}")).err(),
        Some(FactoryError::InvalidField("endpoint".to_string()))
    );
    assert_eq!(
        Random::run(&cfg("{\"range\":[1,2]}")).err(),
        Some(FactoryError::MissingField("rate".to_string()))
    );
    assert_eq!(
        Random::run(&cfg("{\"rate\":\"fast\",\"range\":[1,2]}")).err(),
        Some(FactoryError::InvalidField("rate".to_string()))
    );
    assert_eq!(
        Random::run(&cfg("{\"rate\":0.0,\"range\":[1,2]}")).err(),
        Some(FactoryError::InvalidField("rate".to_string()))
    );
    assert_eq!(
        Random::run(&cfg("{\"rate\":-3,\"range\":[1,2]}")).err(),
        Some(FactoryError::InvalidField("rate".to_string()))
    );
    assert_eq!(
        Random::run(&cfg("{\"rate\":1.5}")).err(),
        Some(FactoryError::MissingField("range".to_string()))
    );
    assert_eq!(
        Random::run(&cfg("{\"rate\":1.5,\"range\":[1,2,3]}")).err(),
        Some(FactoryError::InvalidField("range".to_string()))
    );
    assert_eq!(
        Random::run(&cfg("{\"rate\":1.5,\"range\":[1,70000]}")).err(),
        Some(FactoryError::InvalidField("range".to_string()))
    );
    assert!(Random::run(&cfg("{\"rate\":1.5,\"range\":[8,8]}")).is_ok());
}

#[test]
fn names_of_the_components() {
    assert_eq!(StdinSource::ty(), "stdin");
    assert_eq!(UdpSource::ty(), "udp");
    assert_eq!(TcpSource::ty(), "tcp");
    assert_eq!(Stream::ty(), "stream");
    assert_eq!(Null::ty(), "nil");
    assert_eq!(zenlog::output::dev::Dev::ty(), "dev");
}

#[test]
fn stream_sink_writes_one_line_of_json() {
    let record = cfg("{\"message\":\"hi\",\"n\":[1,2]}");
    assert_eq!(
        Stream.handle(&record),
        vec![Effect::Write("{\"message\":\"hi\",\"n\":[1,2]}\n".to_string())]
    );
    assert!(!Stream.hup());
    let sink = <Stream as OutputFactory>::from(&Json::Null).ok().unwrap();
    assert_eq!(sink.handle(&record), Stream.handle(&record));
    assert_ne!(Stream.handle(&record), vec![Effect::Log(LogLevel::Error, String::new())]);
}

#[test]
fn null_sink_asks_for_nothing() {
    assert_eq!(Null.handle(&cfg("{\"message\":\"hi\"}")), vec![]);
    assert!(!Null.hup());
}

#[test]
fn new_registry_holds_four_sources_and_two_sinks() {
    let registry = Registry::new();
    assert_eq!(registry.source(&cfg("{\"type\":\"stdin\"}")).ok(), Some(Input::Stdin(StdinSource)));
    assert!(registry.source(&cfg("{\"type\":\"udp\",\"endpoint\":\"0.0.0.0:1\"}")).is_ok());
    assert!(registry.source(&cfg("{\"type\":\"tcp\",\"endpoint\":[\"h\",1]}")).is_ok());
    assert!(registry.source(&cfg("{\"type\":\"random\",\"rate\":1,\"range\":[1,1]}")).is_ok());
    assert_eq!(registry.output(&cfg("{\"type\":\"stream\"}")).ok(), Some(Sink::Stream(Stream)));
    assert!(registry.output(&cfg("{\"type\":\"file\",\"path\":\"p\",\"pattern\":\"q\"}")).is_ok());
    assert_eq!(
        registry.output(&cfg("{\"type\":\"nil\"}")).err(),
        Some(AssemblyError::UnknownType("nil".to_string()))
    );
    assert_eq!(
        registry.output(&cfg("{\"type\":\"dev\"}")).err(),
        Some(AssemblyError::UnknownType("dev".to_string()))
    );
}

#[test]
fn other_sinks_are_there_for_whoever_adds_them() {
    let mut registry = Registry::new();
    registry.add_output(OutputKind::Dev);
    assert_eq!(
        registry.output(&cfg("{\"type\":\"dev\"}")).ok(),
        Some(Sink::Dev(zenlog::output::dev::Dev))
    );
    assert!(registry.output(&cfg("{\"type\":\"nil\"}")).is_err());
    registry.add_output(OutputKind::Null);
    assert_eq!(registry.output(&cfg("{\"type\":\"nil\"}")).ok(), Some(Sink::Null(Null)));
    assert!(registry.output(&cfg("{\"type\":\"stream\"}")).is_ok());
}

#[test]
fn udp_endpoint_has_to_name_host_and_port() {
    for endpoint in ["localhost", "0.0.0.0:", ":5000", "0.0.0.0:65536", "0.0.0.0:http", ""] {
        let text = format!("{{\"type\":\"udp\",\"endpoint\":\"{}\"}}", endpoint);
        assert_eq!(
            UdpSource::run(&cfg(&text)).err(),
            Some(FactoryError::InvalidField("endpoint".to_string()))
        );
        assert_eq!(
            Registry::new().source(&cfg(&text)).err(),
            Some(AssemblyError::FactoryFailed(
                "udp".to_string(),
                FactoryError::InvalidField("endpoint".to_string())
            ))
        );
    }
    assert_eq!(
        UdpSource::run(&cfg("{\"endpoint\":\"[::1]:65535\"}")).ok(),
        Some(Input::Udp(UdpSource { endpoint: "[::1]:65535".to_string() }))
    );
}
