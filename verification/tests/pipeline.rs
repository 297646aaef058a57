use zenlog::codec::decode;
use zenlog::component::FactoryError;
use zenlog::config::PipeConfig;
use zenlog::json::Json;
use zenlog::logging::LogLevel;
use zenlog::output::{Effect, Sink};
use zenlog::pipeline::{Delivery, Dispatcher, Pipe, Routed, Teardown};
use zenlog::registry::{AssemblyError, OutputKind, Registry};
use zenlog::source::Input;

fn every_component() -> Registry {
    let mut registry = Registry::new();
    registry.add_output(OutputKind::Null);
    registry.add_output(OutputKind::Dev);
    registry
}

fn value(text: &str) -> Json {
    decode(text.as_bytes()).ok().unwrap()
}

fn config(sources: &[&str], outputs: &[&str]) -> PipeConfig {
    PipeConfig::new(
        sources.iter().map(|text| value(text)).collect(),
        outputs.iter().map(|text| value(text)).collect(),
    )
}

fn two_sinks() -> Pipe {
    let cfg = config(
        &["{\"type\":\"random\",\"rate\":1,\"range\":[8,8]}"],
        &[
            "{\"type\":\"stream\"}",
            "{\"type\":\"file\",\"path\":\"/tmp/{source}.log\",\"pattern\":\"{message}\"}",
        ],
    );
    Pipe::run(&cfg, &every_component()).ok().unwrap()
}

#[test]
fn assembly_makes_sources_and_sinks_in_order() {
    let cfg = config(
        &["{\"type\":\"stdin\"}", "{\"type\":\"udp\",\"endpoint\":\"127.0.0.1:1\"}"],
        &["{\"type\":\"nil\"}", "{\"type\":\"stream\"}", "{\"type\":\"dev\"}"],
    );
    let pipe = Pipe::run(&cfg, &every_component()).ok().unwrap();
    assert_eq!(pipe.sources().len(), 2);
    assert!(matches!(pipe.sources()[0], Input::Stdin(_)));
    assert!(matches!(pipe.sources()[1], Input::Udp(_)));
    assert_eq!(pipe.outputs().len(), 3);
    assert!(matches!(pipe.outputs()[0], Sink::Null(_)));
    assert!(matches!(pipe.outputs()[1], Sink::Stream(_)));
    assert!(matches!(pipe.outputs()[2], Sink::Dev(_)));
}

#[test]
fn assembly_fails_with_the_first_failing_component() {
    let registry = every_component();
    let cfg = config(
        &["{\"type\":\"stdin\"}", "{\"type\":\"nope\"}", "{}"],
        &["{\"type\":\"also-nope\"}"],
    );
    assert_eq!(
        Pipe::run(&cfg, &registry).err(),
        Some(AssemblyError::UnknownType("nope".to_string()))
    );
    let cfg = config(&["{\"type\":\"stdin\"}"], &["{\"type\":\"stream\"}", "{}", "{\"type\":\"x\"}"]);
    assert_eq!(Pipe::run(&cfg, &registry).err(), Some(AssemblyError::MissingType));
    let cfg = config(&["{}"], &["{\"type\":\"x\"}"]);
    assert_eq!(Pipe::run(&cfg, &registry).err(), Some(AssemblyError::MissingType));
}

#[test]
fn assembly_of_nothing_is_an_empty_pipeline() {
    let pipe = Pipe::run(&config(&[], &[]), &every_component()).ok().unwrap();
    assert!(pipe.sources().is_empty());
    assert!(pipe.outputs().is_empty());
    assert_eq!(pipe.hup(), Vec::<usize>::new());
    assert_eq!(pipe.teardown(), vec![Teardown::Dispatcher]);
}

#[test]
fn start_failure_is_a_factory_failure() {
    assert_eq!(
        Pipe::failed("udp", "address in use"),
        AssemblyError::FactoryFailed(
            "udp".to_string(),
            FactoryError::Start("address in use".to_string())
        )
    );
}

#[test]
fn record_without_message_reaches_no_sink() {
    let mut dispatcher = two_sinks().dispatcher();
    let dropped = Routed::Dropped(LogLevel::Error, "message field required".to_string());
    assert_eq!(dispatcher.dispatch(&value("{\"severity\":\"error\"}")), dropped);
    assert_eq!(dispatcher.dispatch(&value("{\"message\":5}")), dropped);
    assert_eq!(dispatcher.dispatch(&value("[\"message\"]")), dropped);
    assert_eq!(dispatcher.dispatch(&value("\"message\"")), dropped);
}

#[test]
fn record_with_message_reaches_every_sink_once_in_order() {
    let mut dispatcher = two_sinks().dispatcher();
    let routed = dispatcher.dispatch(&value("{\"message\":\"r1\",\"source\":\"api\"}"));
    assert_eq!(
        routed,
        Routed::Delivered(vec![
            Delivery {
                sink: 0,
                effects: vec![Effect::Write("{\"message\":\"r1\",\"source\":\"api\"}\n".to_string())],
            },
            Delivery { sink: 1, effects: vec![Effect::Enqueue] },
        ])
    );
}

#[test]
fn sinks_see_the_same_records_in_the_same_order() {
    let sinks = vec![
        Sink::Stream(zenlog::output::stream::Stream),
        Sink::Stream(zenlog::output::stream::Stream),
    ];
    let mut dispatcher = Dispatcher::new(sinks);
    let drawn = [
        "{\"message\":\"r1\"}",
        "{\"no\":\"message\"}",
        "{\"message\":\"r2\"}",
    ];
    let mut seen: Vec<Vec<String>> = vec![Vec::new(), Vec::new()];
    for text in drawn {
        if let Routed::Delivered(deliveries) = dispatcher.dispatch(&value(text)) {
            for delivery in deliveries {
                for effect in delivery.effects {
                    if let Effect::Write(line) = effect {
                        seen[delivery.sink].push(line);
                    }
                }
            }
        }
    }
    let expected = vec!["{\"message\":\"r1\"}\n".to_string(), "{\"message\":\"r2\"}\n".to_string()];
    assert_eq!(seen[0], expected);
    assert_eq!(seen[1], expected);
}

#[test]
fn hup_names_the_sinks_that_reopen() {
    assert_eq!(two_sinks().hup(), vec![1]);
    let cfg = config(
        &[],
        &[
            "{\"type\":\"file\",\"path\":\"a\",\"pattern\":\"b\"}",
            "{\"type\":\"stream\"}",
            "{\"type\":\"nil\"}",
            "{\"type\":\"file\",\"path\":\"c\",\"pattern\":\"d\"}",
        ],
    );
    assert_eq!(Pipe::run(&cfg, &every_component()).ok().unwrap().hup(), vec![0, 3]);
}

#[test]
fn teardown_drops_sources_before_sinks() {
    let cfg = config(
        &["{\"type\":\"stdin\"}", "{\"type\":\"stdin\"}"],
        &["{\"type\":\"stream\"}", "{\"type\":\"nil\"}", "{\"type\":\"dev\"}"],
    );
    let steps = Pipe::run(&cfg, &every_component()).ok().unwrap().teardown();
    assert_eq!(
        steps,
        vec![
            Teardown::Source(0),
            Teardown::Source(1),
            Teardown::Dispatcher,
            Teardown::Output(0),
            Teardown::Output(1),
            Teardown::Output(2),
        ]
    );
    let last_source = steps.iter().rposition(|step| matches!(step, Teardown::Source(_))).unwrap();
    let first_sink = steps.iter().position(|step| matches!(step, Teardown::Output(_))).unwrap();
    assert!(last_source < first_sink);
}
