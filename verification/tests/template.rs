use zenlog::codec::decode;
use zenlog::json::Json;
use zenlog::template::{Error, Generator, ParseError, Parser, Token};

fn record() -> Json {
    decode(b"{\"source\":\"api\",\"message\":\"hi\",\"timestamp\":\"2020\",\"a\":{\"b\":{\"c\":7}},\"ok\":true,\"none\":null,\"big\":18446744073709551615,\"neg\":-12,\"ratio\":1.5,\"list\":[1]}")
        .ok()
        .unwrap()
}

fn tokens(template: &str) -> Vec<Result<Token, ParseError>> {
    let mut parser = Parser::new(template);
    let mut found = Vec::new();
    while let Some(item) = parser.next() {
        let failed = item.is_err();
        found.push(item);
        if failed {
            break;
        }
    }
    found
}

fn names(path: &[&str]) -> Token {
    Token::Placeholder(path.iter().map(|name| name.to_string()).collect())
}

fn literal(text: &str) -> Token {
    Token::Literal(text.to_string())
}

#[test]
fn path_template_gives_the_path() {
    let generator = Generator::new("/var/log/{source}.log").ok().unwrap();
    assert_eq!(generator.consume(&record()).ok().unwrap(), "/var/log/api.log");
}

#[test]
fn pattern_template_gives_the_line() {
    let generator = Generator::new("{timestamp} {message}").ok().unwrap();
    assert_eq!(generator.consume(&record()).ok().unwrap(), "2020 hi");
}

#[test]
fn parser_hands_out_literals_and_placeholders() {
    assert_eq!(
        tokens("/var/log/{source}.log"),
        vec![Ok(literal("/var/log/")), Ok(names(&["source"])), Ok(literal(".log"))]
    );
    assert_eq!(
        tokens("{a.b.c}{d}"),
        vec![Ok(names(&["a", "b", "c"])), Ok(names(&["d"]))]
    );
    assert_eq!(tokens(""), vec![]);
    assert_eq!(tokens("plain"), vec![Ok(literal("plain"))]);
}

#[test]
fn parser_takes_a_closing_brace_outside_as_text() {
    assert_eq!(tokens("a}b"), vec![Ok(literal("a}b"))]);
    assert_eq!(tokens("{x}}"), vec![Ok(names(&["x"])), Ok(literal("}"))]);
}

#[test]
fn parser_keeps_empty_names() {
    assert_eq!(tokens("{}"), vec![Ok(names(&[""]))]);
    assert_eq!(tokens("{a..b}"), vec![Ok(names(&["a", "", "b"]))]);
    assert_eq!(tokens("{.}"), vec![Ok(names(&["", ""]))]);
}

#[test]
fn parser_reads_non_ascii_text() {
    assert_eq!(
        tokens("päth/{ключ}/ü"),
        vec![Ok(literal("päth/")), Ok(names(&["ключ"])), Ok(literal("/ü"))]
    );
}

#[test]
fn parser_fails_at_the_end_inside_a_placeholder() {
    assert_eq!(
        tokens("abc{x"),
        vec![Ok(literal("abc")), Err(ParseError::EofInsidePlaceholder)]
    );
    assert_eq!(Generator::new("abc{x").err(), Some(ParseError::EofInsidePlaceholder));
    assert_eq!(Generator::new("{").err(), Some(ParseError::EofInsidePlaceholder));
}

#[test]
fn parser_failure_is_sticky() {
    let mut parser = Parser::new("{unclosed");
    for _ in 0..5 {
        assert_eq!(parser.next(), Some(Err(ParseError::EofInsidePlaceholder)));
    }
}

#[test]
fn parser_stays_at_the_end() {
    let mut parser = Parser::new("x");
    assert_eq!(parser.next(), Some(Ok(literal("x"))));
    assert_eq!(parser.next(), None);
    assert_eq!(parser.next(), None);
}

#[test]
fn parsing_twice_gives_equal_generators() {
    let first = Generator::new("{a.b} and {c}").ok().unwrap();
    let second = Generator::new("{a.b} and {c}").ok().unwrap();
    assert_eq!(first, second);
}

#[test]
fn evaluating_twice_gives_identical_bytes() {
    let generator = Generator::new("{source}: {a.b.c}").ok().unwrap();
    let mut first = Vec::new();
    let mut second = Vec::new();
    generator.feed(&mut first, &record()).ok().unwrap();
    generator.feed(&mut second, &record()).ok().unwrap();
    assert_eq!(first, second);
    assert_eq!(first, b"api: 7".to_vec());
}

#[test]
fn literal_template_evaluates_to_itself() {
    let generator = Generator::new("no braces here }").ok().unwrap();
    assert_eq!(generator.consume(&record()).ok().unwrap(), "no braces here }");
    assert_eq!(generator.consume(&Json::Null).ok().unwrap(), "no braces here }");
    let empty = Generator::new("").ok().unwrap();
    assert_eq!(empty.consume(&Json::Null).ok().unwrap(), "");
}

#[test]
fn placeholders_walk_nested_mappings() {
    let generator = Generator::new("{a.b.c}").ok().unwrap();
    assert_eq!(generator.consume(&record()).ok().unwrap(), "7");
}

#[test]
fn values_have_their_natural_text() {
    let generator = Generator::new("{ok} {none} {big} {neg} {ratio} {message}").ok().unwrap();
    assert_eq!(
        generator.consume(&record()).ok().unwrap(),
        "true null 18446744073709551615 -12 1.5 hi"
    );
    let least = Json::object("n", Json::Int(i64::MIN));
    let generator = Generator::new("{n}").ok().unwrap();
    assert_eq!(generator.consume(&least).ok().unwrap(), "-9223372036854775808");
    let zero = Json::object("n", Json::UInt(0));
    assert_eq!(generator.consume(&zero).ok().unwrap(), "0");
    let no = Json::object("n", Json::Bool(false));
    assert_eq!(generator.consume(&no).ok().unwrap(), "false");
}

#[test]
fn missing_key_is_reported_by_name() {
    let generator = Generator::new("{a.x.c}").ok().unwrap();
    assert_eq!(
        generator.consume(&record()).err(),
        Some(Error::KeyNotFound("x".to_string()))
    );
    let generator = Generator::new("{absent}").ok().unwrap();
    assert_eq!(
        generator.consume(&record()).err(),
        Some(Error::KeyNotFound("absent".to_string()))
    );
    let generator = Generator::new("{source.deeper}").ok().unwrap();
    assert_eq!(
        generator.consume(&record()).err(),
        Some(Error::KeyNotFound("deeper".to_string()))
    );
}

#[test]
fn sequences_and_mappings_have_no_text() {
    let generator = Generator::new("{a}").ok().unwrap();
    assert_eq!(generator.consume(&record()).err(), Some(Error::TypeMismatch));
    let generator = Generator::new("{list}").ok().unwrap();
    assert_eq!(generator.consume(&record()).err(), Some(Error::TypeMismatch));
}

#[test]
fn first_failing_token_decides() {
    let generator = Generator::new("{absent}{a}").ok().unwrap();
    assert_eq!(
        generator.consume(&record()).err(),
        Some(Error::KeyNotFound("absent".to_string()))
    );
    let generator = Generator::new("{a}{absent}").ok().unwrap();
    assert_eq!(generator.consume(&record()).err(), Some(Error::TypeMismatch));
}

#[test]
fn feed_appends_and_leaves_the_buffer_on_failure() {
    let generator = Generator::new("{message}").ok().unwrap();
    let mut buf = b"> ".to_vec();
    generator.feed(&mut buf, &record()).ok().unwrap();
    assert_eq!(buf, b"> hi".to_vec());
    let failing = Generator::new("x{absent}").ok().unwrap();
    assert!(failing.feed(&mut buf, &record()).is_err());
    assert_eq!(buf, b"> hi".to_vec());
}
