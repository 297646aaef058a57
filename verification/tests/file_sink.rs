use zenlog::codec::decode;
use zenlog::json::Json;
use zenlog::output::file::{Error, FileOutput, WriteError, Writer};
use zenlog::output::{Effect, Output, OutputFactory, Sink};
use zenlog::template::ParseError;

fn record() -> Json {
    decode(b"{\"source\":\"api\",\"message\":\"hi\",\"timestamp\":\"2020\"}").ok().unwrap()
}

#[test]
fn writer_plans_path_and_line() {
    let writer = Writer::new("/var/log/{source}.log", "{timestamp} {message}").ok().unwrap();
    let plan = writer.write(&record()).ok().unwrap();
    assert_eq!(plan.path, "/var/log/api.log");
    assert!(plan.open);
    assert_eq!(plan.line, Ok(b"2020 hi\n".to_vec()));
}

#[test]
fn writer_opens_a_file_once() {
    let mut writer = Writer::new("{source}", "{message}").ok().unwrap();
    assert!(!writer.is_open("api"));
    let plan = writer.write(&record()).ok().unwrap();
    assert!(plan.open);
    writer.opened(plan.path);
    assert!(writer.is_open("api"));
    let again = writer.write(&record()).ok().unwrap();
    assert!(!again.open);
    writer.opened("api".to_string());
    assert_eq!(writer.reopen(), vec!["api".to_string()]);
}

#[test]
fn writer_drops_a_record_without_a_path() {
    let writer = Writer::new("{absent}", "{message}").ok().unwrap();
    assert_eq!(
        writer.write(&record()).err(),
        Some(WriteError::Format(zenlog::template::Error::KeyNotFound("absent".to_string())))
    );
}

#[test]
fn writer_finds_a_failing_pattern_after_the_path() {
    let writer = Writer::new("{source}", "{absent}").ok().unwrap();
    let plan = writer.write(&record()).ok().unwrap();
    assert_eq!(plan.path, "api");
    assert!(plan.open);
    assert_eq!(
        plan.line,
        Err(zenlog::template::Error::KeyNotFound("absent".to_string()))
    );
}

#[test]
fn reopen_empties_the_cache() {
    let mut writer = Writer::new("{source}", "{message}").ok().unwrap();
    writer.opened("a".to_string());
    writer.opened("b".to_string());
    let closed = writer.reopen();
    assert_eq!(closed, vec!["a".to_string(), "b".to_string()]);
    assert!(!writer.is_open("a"));
    assert!(!writer.is_open("b"));
    assert!(writer.write(&record()).ok().unwrap().open);
    assert_eq!(writer.reopen(), Vec::<String>::new());
}

#[test]
fn writer_refuses_bad_templates() {
    assert_eq!(
        Writer::new("{open", "{message}").err(),
        Some(Error::Path(ParseError::EofInsidePlaceholder))
    );
    assert_eq!(
        Writer::new("{source}", "{open").err(),
        Some(Error::Pattern(ParseError::EofInsidePlaceholder))
    );
    assert_eq!(
        Writer::new("{a", "{b").err(),
        Some(Error::Path(ParseError::EofInsidePlaceholder))
    );
}

#[test]
fn file_output_hands_records_to_its_writer() {
    let output = FileOutput::new("{source}".to_string(), "{message}".to_string()).ok().unwrap();
    assert_eq!(output.handle(&record()), vec![Effect::Enqueue]);
    assert!(output.hup());
    let writer = output.writer();
    assert_eq!(writer.write(&record()).ok().unwrap().path, "api");
    assert_eq!(
        FileOutput::new("{".to_string(), "x".to_string()).err(),
        Some(Error::Path(ParseError::EofInsidePlaceholder))
    );
}

#[test]
fn file_factory_reads_path_and_pattern() {
    let cfg = decode(b"{\"type\":\"file\",\"path\":\"/tmp/{source}\",\"pattern\":\"{message}\"}")
        .ok()
        .unwrap();
    assert_eq!(FileOutput::ty(), "file");
    let made = <FileOutput as OutputFactory>::from(&cfg).ok().unwrap();
    match made {
        Sink::File(output) => {
            assert_eq!(output.writer().write(&record()).ok().unwrap().path, "/tmp/api");
        }
        _ => unreachable!(),
    }
}
