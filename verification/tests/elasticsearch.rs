use zenlog::codec::decode;
use zenlog::json::Json;
use zenlog::output::elasticsearch::{
    Action, ElasticSearch, Event, DOCUMENT_TYPE, FLUSH_INTERVAL, INDEX,
};
use zenlog::output::{Effect, Output};

fn value(text: &str) -> Json {
    decode(text.as_bytes()).ok().unwrap()
}

#[test]
fn worker_knows_where_to_post() {
    let worker = ElasticSearch::new("localhost", 9200);
    assert_eq!(worker.url(), "localhost:9200");
    assert_eq!(ElasticSearch::new("es", 0).url(), "es:0");
    assert_eq!(ElasticSearch::new("es", 65535).url(), "es:65535");
    assert_eq!(INDEX, "cocaine-v0.12-2016.03.10-16");
    assert_eq!(DOCUMENT_TYPE, "cocaine");
    assert_eq!(FLUSH_INTERVAL, 3000);
}

#[test]
fn timer_without_records_does_nothing() {
    let mut worker = ElasticSearch::new("localhost", 9200);
    assert_eq!(worker.on(Event::Timeout), Action::Idle);
}

#[test]
fn queued_records_are_posted_together_and_once() {
    let mut worker = ElasticSearch::new("localhost", 9200).hostname("box");
    assert_eq!(worker.on(Event::Data(value("{\"message\":\"a\"}"))), Action::Idle);
    assert_eq!(
        worker.on(Event::Data(value("{\"hostname\":\"other\",\"message\":\"b\"}"))),
        Action::Idle
    );
    assert_eq!(
        worker.on(Event::Timeout),
        Action::Post(
            "{\"index\": {}}\n{\"message\":\"a\",\"hostname\":\"box\"}\n{\"index\": {}}\n{\"hostname\":\"box\",\"message\":\"b\"}\n"
                .to_string()
        )
    );
    assert_eq!(worker.on(Event::Timeout), Action::Idle);
}

#[test]
fn records_are_marked_with_localhost_by_default() {
    let mut worker = ElasticSearch::new("localhost", 9200);
    worker.on(Event::Data(value("{\"message\":\"a\"}")));
    assert_eq!(
        worker.on(Event::Timeout),
        Action::Post("{\"index\": {}}\n{\"message\":\"a\",\"hostname\":\"localhost\"}\n".to_string())
    );
}

#[test]
fn terminate_ends_the_worker() {
    let mut worker = ElasticSearch::new("localhost", 9200);
    worker.on(Event::Data(value("{\"message\":\"a\"}")));
    assert_eq!(worker.on(Event::Terminate), Action::Stop);
}

#[test]
fn sink_hands_records_to_its_worker() {
    let worker = ElasticSearch::new("localhost", 9200);
    assert_eq!(worker.handle(&value("{\"message\":\"a\"}")), vec![Effect::Enqueue]);
    assert!(!worker.hup());
}
