use zenlog::json::Json;
use zenlog::logging::LogLevel;
use zenlog::source::random::{
    is_positive_text, rand_string, Config, Error, Random, SleepHandler, Tick,
};
use zenlog::source::stdin::StdinSource;
use zenlog::source::stream::StreamDecoder;
use zenlog::source::tcp::{Accept, Incoming, TcpSource};
use zenlog::source::udp::{port_of, Ready, Received, UdpHandler};
use zenlog::source::{SourceFactory, Step};

fn message(text: &str) -> Json {
    Json::object("message", Json::Str(text.to_string()))
}

fn one() -> Json {
    Json::Float(serde_json::Number::from_f64(1.0).unwrap())
}

#[test]
fn ty() {
    assert_eq!("random", Random::ty());
}

#[test]
fn generates_random_string() {
    let config = Config { rate: one(), range: (8, 8) };
    let source = Random::new(config).ok().unwrap();

    let record = source.handler().record();

    assert!(record.is_object());
    assert!(record.lookup("message").is_some());
    assert!(record.lookup("message").unwrap().is_string());
    assert_eq!(8, record.lookup("message").unwrap().as_str().unwrap().len());

    drop(source);
}

#[test]
fn random_messages_stay_in_range_and_printable() {
    let handler = SleepHandler::new((3, 5));
    for _ in 0..200 {
        let record = handler.record();
        let text = record.lookup("message").unwrap().as_str().unwrap().to_string();
        assert!(text.chars().count() >= 3 && text.chars().count() <= 5);
        assert!(text.chars().all(|c| (c as u32) >= 0x20 && (c as u32) <= 0x7E));
    }
    assert_eq!(rand_string(0), "");
    assert_eq!(rand_string(300).chars().count(), 300);
    assert_eq!(rand_string(300).len(), 300);
    let long = rand_string(u16::MAX);
    assert_eq!(long.len(), 65535);
    assert!(long.bytes().all(|byte| (0x20..=0x7E).contains(&byte)));
    assert!(long.bytes().any(|byte| byte == 0x20));
    assert!(long.bytes().any(|byte| byte == 0x7E));
}

#[test]
fn random_refuses_a_range_upside_down() {
    assert_eq!(
        Random::new(Config { rate: one(), range: (9, 8) }).err(),
        Some(Error::InvalidRange((9, 8)))
    );
    assert!(Random::new(Config { rate: one(), range: (0, 65535) }).is_ok());
}

fn number(value: f64) -> Json {
    Json::Float(serde_json::Number::from_f64(value).unwrap())
}

#[test]
fn random_refuses_a_rate_that_is_not_above_zero() {
    let refused = [
        Json::Int(0),
        Json::Int(-1),
        Json::UInt(0),
        number(0.0),
        number(-0.0),
        number(-0.5),
        number(-1e-7),
        number(-2.5e20),
        Json::Str("1".to_string()),
        Json::Null,
    ];
    for rate in refused {
        assert_eq!(
            Random::new(Config { rate, range: (1, 2) }).err(),
            Some(Error::InvalidRate)
        );
    }
    let taken = [
        Json::Int(1),
        Json::UInt(u64::MAX),
        number(0.5),
        number(1e-7),
        number(0.001),
        number(2.5e20),
        number(1e300),
        number(100.0),
    ];
    for rate in taken {
        assert!(Random::new(Config { rate, range: (1, 2) }).is_ok());
    }
    assert_eq!(
        Random::new(Config { rate: Json::Int(0), range: (2, 1) }).err(),
        Some(Error::InvalidRate)
    );
}

#[test]
fn decimal_text_is_above_zero_or_not() {
    for text in ["1", "0.5", "1e-7", "0.001", "10", "2.5e20", "1E5", "0.0001e3"] {
        assert!(is_positive_text(text));
    }
    for text in ["", "0", "0.0", "-1", "-0.0", "0e10", "0.0e5", "0E1", "-1e-7", "e1"] {
        assert!(!is_positive_text(text));
    }
}

#[test]
fn random_timer_goes_on_while_all_is_well() {
    let handler = Random::new(Config { rate: one(), range: (1, 1) }).ok().unwrap().handler();
    assert_eq!(handler.timeout(true, true), Tick::Rearm);
    assert_eq!(handler.timeout(false, true), Tick::Shutdown);
    assert_eq!(handler.timeout(true, false), Tick::Shutdown);
    assert_eq!(handler.timeout(false, false), Tick::Shutdown);
}

#[test]
fn datagram_becomes_one_record() {
    let step = UdpHandler::new().datagram(b"{\"message\":\"m\",\"x\":1}\n");
    match step {
        Step::Emit(record) => {
            assert_eq!(record.lookup("x").unwrap().as_i64(), Some(1));
            assert_eq!(record.lookup("message").unwrap().as_str(), Some("m"));
        }
        _ => panic!("the datagram should have been a record"),
    }
}

#[test]
fn malformed_datagram_is_logged_and_dropped() {
    match UdpHandler::new().datagram(b"{\"message\":") {
        Step::Skip(level, words) => {
            assert_eq!(level, LogLevel::Warn);
            assert!(words.starts_with("unable to decode datagram - "));
            assert!(words.len() > "unable to decode datagram - ".len());
        }
        _ => panic!("the datagram should have been dropped"),
    }
}

fn receive(handler: &mut UdpHandler, bytes: &[u8]) -> Received {
    handler.buffer()[..bytes.len()].copy_from_slice(bytes);
    Received::Datagram(bytes.len())
}

#[test]
fn handler_owns_a_buffer_of_sixteen_kilobytes() {
    let mut handler = UdpHandler::new();
    assert_eq!(handler.buffer().len(), 16 * 1024);
    assert!(handler.buffer().iter().all(|byte| *byte == 0));
    assert_eq!(UdpHandler::buffer_size(), 16384);
    assert_eq!(handler.buffer().len(), UdpHandler::buffer_size());
}

#[test]
fn receiver_reads_until_nothing_waits() {
    let mut handler = UdpHandler::new();
    let received = receive(&mut handler, b"{\"message\":\"a\"}");
    assert_eq!(handler.ready(received), Ready::Again(Step::Emit(message("a"))));
    let received = receive(&mut handler, b"nonsense");
    assert!(matches!(
        handler.ready(received),
        Ready::Again(Step::Skip(LogLevel::Warn, _))
    ));
    assert_eq!(handler.ready(Received::WouldBlock), Ready::Wait);
    assert_eq!(
        handler.ready(Received::Failed("reset".to_string())),
        Ready::Shutdown("failed to read datagram: reset".to_string())
    );
}

#[test]
fn receiver_uses_its_buffer_again() {
    let mut handler = UdpHandler::new();
    let long = receive(&mut handler, b"{\"message\":\"a long one\"}");
    assert_eq!(handler.ready(long), Ready::Again(Step::Emit(message("a long one"))));
    let short = receive(&mut handler, b"{\"message\":\"b\"}");
    assert_eq!(handler.ready(short), Ready::Again(Step::Emit(message("b"))));
    assert_eq!(handler.buffer().len(), 16 * 1024);
}

#[test]
fn receiver_reads_no_further_than_its_buffer() {
    let mut handler = UdpHandler::new();
    for byte in handler.buffer().iter_mut() {
        *byte = b' ';
    }
    handler.buffer()[..14].copy_from_slice(b"{\"message\":\"a\"");
    handler.buffer()[16 * 1024 - 1] = b'}';
    assert_eq!(
        handler.ready(Received::Datagram(usize::MAX)),
        Ready::Again(Step::Emit(message("a")))
    );
    assert!(matches!(
        handler.ready(Received::Datagram(16 * 1024 - 1)),
        Ready::Again(Step::Skip(LogLevel::Warn, _))
    ));
}

#[test]
fn stream_gives_records_in_order() {
    let mut decoder = TcpSource::new("localhost", 1).decoder();
    let steps = decoder.feed(b"{\"message\":\"a\"}{\"message\":\"b\"}");
    assert_eq!(steps, vec![Step::Emit(message("a")), Step::Emit(message("b"))]);
    assert_eq!(decoder.finish(), vec![]);
}

#[test]
fn stream_allows_white_space_between_values() {
    let mut decoder = StdinSource::new().decoder();
    let steps = decoder.feed(b" \n{\"message\":\"a\"}\n\t {\"message\":\"b\"}\r\n");
    assert_eq!(steps, vec![Step::Emit(message("a")), Step::Emit(message("b"))]);
    assert_eq!(decoder.feed(b"   "), vec![]);
    assert_eq!(decoder.finish(), vec![]);
}

#[test]
fn stream_waits_for_the_rest_of_a_value() {
    let mut decoder = StreamDecoder::new();
    assert_eq!(decoder.feed(b"{\"mess"), vec![]);
    assert_eq!(decoder.feed(b"age\":\"a"), vec![]);
    assert_eq!(decoder.feed(b"\"}{"), vec![Step::Emit(message("a"))]);
    assert_eq!(decoder.feed(b"\"message\":\"b\"}"), vec![Step::Emit(message("b"))]);
}

#[test]
fn stream_holds_a_number_until_it_has_ended() {
    let mut decoder = StreamDecoder::new();
    assert_eq!(decoder.feed(b"12"), vec![]);
    assert_eq!(decoder.feed(b"3 "), vec![Step::Emit(Json::Int(123))]);
    assert_eq!(decoder.feed(b"45"), vec![]);
    assert_eq!(decoder.finish(), vec![Step::Emit(Json::Int(45))]);
}

#[test]
fn stream_stops_at_what_is_no_json() {
    let mut decoder = StreamDecoder::new();
    let steps = decoder.feed(b"{\"message\":\"a\"} nonsense {\"message\":\"b\"}");
    assert_eq!(steps.len(), 2);
    assert_eq!(steps[0], Step::Emit(message("a")));
    match &steps[1] {
        Step::Stop(level, words) => {
            assert_eq!(*level, LogLevel::Warn);
            assert!(words.starts_with("unable to decode payload - "));
        }
        _ => panic!("the reader should have stopped"),
    }
}

#[test]
fn stream_that_closes_inside_a_value_fails() {
    let mut decoder = StreamDecoder::new();
    assert_eq!(decoder.feed(b"{\"message\":"), vec![]);
    assert!(matches!(decoder.finish()[..], [Step::Stop(LogLevel::Warn, _)]));
}

#[test]
fn acceptor_serves_until_it_is_told_to_abort() {
    let source = TcpSource::new("localhost", 10053);
    assert_eq!(
        source.accept(false, Incoming::Connected("10.0.0.1:5".to_string())),
        Accept::Serve("10.0.0.1:5".to_string())
    );
    assert_eq!(source.accept(false, Incoming::Anonymous), Accept::Skip);
    assert_eq!(
        source.accept(false, Incoming::Failed("too many files".to_string())),
        Accept::Report("unable to accept TCP connection: too many files".to_string())
    );
    assert_eq!(source.accept(true, Incoming::Connected("10.0.0.1:5".to_string())), Accept::Stop);
    assert_eq!(source.accept(true, Incoming::Anonymous), Accept::Stop);
    assert_eq!(source.accept(true, Incoming::Failed("x".to_string())), Accept::Stop);
}

#[test]
fn port_is_the_number_behind_the_last_colon() {
    assert_eq!(port_of("0.0.0.0:5000"), Some(5000));
    assert_eq!(port_of("127.0.0.1:0"), Some(0));
    assert_eq!(port_of("127.0.0.1:65535"), Some(65535));
    assert_eq!(port_of("[::1]:10053"), Some(10053));
    assert_eq!(port_of("[::]:1"), Some(1));
    assert_eq!(port_of("host:00080"), Some(80));
    assert_eq!(port_of("h:000000000000000000000000007"), Some(7));
}

#[test]
fn endpoint_without_host_or_port_has_no_port() {
    for text in [
        "",
        ":",
        "localhost",
        "localhost:",
        ":5000",
        "127.0.0.1:65536",
        "127.0.0.1:99999999999999999999",
        "127.0.0.1:-1",
        "127.0.0.1:+1",
        "127.0.0.1: 1",
        "127.0.0.1:1 ",
        "127.0.0.1:12a",
        "127.0.0.1:0x10",
        "::1",
        "fe80::1:5000",
        "[::1]",
        "[::1:5000",
        "::1]:5000",
        "127.0.0.1:٣",
    ] {
        assert_eq!(port_of(text), None);
    }
}
