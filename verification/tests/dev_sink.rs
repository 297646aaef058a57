use zenlog::codec::decode;
use zenlog::json::Json;
use zenlog::logging::LogLevel;
use zenlog::output::dev::{color_from_severity, Dev};
use zenlog::output::{Effect, Output};

const GREY: &str = "\x1b[38;5;102m";
const WHITE: &str = "\x1b[38;5;7m";

fn value(text: &str) -> Json {
    decode(text.as_bytes()).ok().unwrap()
}

#[test]
fn colours_of_the_severities() {
    assert_eq!(color_from_severity('E'), "\x1b[38;5;88m");
    assert_eq!(color_from_severity('W'), "\x1b[38;5;178m");
    assert_eq!(color_from_severity('I'), "\x1b[38;5;25m");
    assert_eq!(color_from_severity('D'), GREY);
    assert_eq!(color_from_severity('e'), GREY);
}

#[test]
fn full_record_is_laid_out() {
    let record = value(
        "{\"timestamp\":1469183191579457000,\"levelname\":\"ERROR\",\"pid\":93111,\"tid\":2,\"module\":\"core\",\"lineno\":42,\"trace_id\":1,\"span_id\":2748,\"parent_id\":16777215,\"message\":\"le message\"}",
    );
    let expected = format!(
        "{}{}{} {} {:6.6}/{:#014.14x} {:>14.14}:{:3} [{:6.6}:{:6.6}:{:6.6}] - {}{}\r\n",
        GREY,
        "2016-07-22 10:26:31.579457 UTC",
        "\x1b[38;5;88m",
        'E',
        93111u64,
        2u64,
        "core",
        42u64,
        format!("{:#06.6x}", 1u64),
        format!("{:#06.6x}", 2748u64),
        format!("{:#06.6x}", 16777215u64),
        WHITE,
        "le message"
    );
    assert_eq!(Dev::new().handle(&record), vec![Effect::Write(expected)]);
}

#[test]
fn bare_record_is_laid_out() {
    let expected = format!("{} [{:6}:{:6}:{:6}] - {}{}\r\n", GREY, ' ', ' ', ' ', WHITE, "hi");
    assert_eq!(
        Dev.handle(&value("{\"message\":\"hi\"}")),
        vec![Effect::Write(expected)]
    );
    let nothing = format!("{} [{:6}:{:6}:{:6}]\r\n", GREY, ' ', ' ', ' ');
    assert_eq!(Dev.handle(&value("{}")), vec![Effect::Write(nothing)]);
}

#[test]
fn partial_fields_are_laid_out() {
    let record = value(
        "{\"timestamp\":\"yesterday\",\"levelname\":\"\",\"pid\":7,\"module\":\"a-very-long-module-name\",\"lineno\":1234,\"trace_id\":255,\"message\":\"m\"}",
    );
    let expected = format!(
        "{}yesterday {:6.6} {:>14.14}:{:3} [{:6.6}:{:6}:{:6}] - {}m\r\n",
        GREY,
        7u64,
        "a-very-long-module-name",
        1234u64,
        format!("{:#0x}", 255u64),
        ' ',
        ' ',
        WHITE
    );
    assert_eq!(Dev.handle(&record), vec![Effect::Write(expected)]);
    let only_tid = value("{\"tid\":7,\"module\":\"m\",\"span_id\":1,\"parent_id\":2}");
    let expected = format!("{} [{:6}:{:6}:{:6}]\r\n", GREY, ' ', ' ', ' ');
    assert_eq!(Dev.handle(&only_tid), vec![Effect::Write(expected)]);
}

#[test]
fn moment_before_the_epoch_is_laid_out_when_whole() {
    let expected = format!(
        "{}1969-12-31 23:59:58.000000 UTC [{:6}:{:6}:{:6}]\r\n",
        GREY, ' ', ' ', ' '
    );
    assert_eq!(
        Dev.handle(&value("{\"timestamp\":-2000000000}")),
        vec![Effect::Write(expected)]
    );
    let expected = format!(
        "{}1970-01-01 00:00:00.000000 UTC [{:6}:{:6}:{:6}]\r\n",
        GREY, ' ', ' ', ' '
    );
    assert_eq!(Dev.handle(&value("{\"timestamp\":0}")), vec![Effect::Write(expected)]);
}

#[test]
fn timestamp_that_is_no_moment_ends_the_line() {
    assert_eq!(
        Dev.handle(&value("{\"timestamp\":-1,\"message\":\"m\"}")),
        vec![
            Effect::Write(GREY.to_string()),
            Effect::Log(
                LogLevel::Warn,
                "failed to convert -1 value into datetime".to_string()
            ),
        ]
    );
    assert_eq!(
        Dev.handle(&value("{\"timestamp\":-9223372036854775808}")),
        vec![
            Effect::Write(GREY.to_string()),
            Effect::Log(
                LogLevel::Warn,
                "failed to convert -9223372036854775808 value into datetime".to_string()
            ),
        ]
    );
}

#[test]
fn timestamp_of_another_kind_is_an_error() {
    assert_eq!(
        Dev.handle(&value("{\"timestamp\":[1],\"message\":\"m\"}")),
        vec![
            Effect::Write(GREY.to_string()),
            Effect::Log(
                LogLevel::Error,
                "timestamp is neither a number nor a string".to_string()
            ),
        ]
    );
    assert!(!Dev.hup());
}
