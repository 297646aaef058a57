use zenlog::logging::{
    color, init, level_as_str, level_as_usize, AsLogLevel, AsUsize, Entry, InitError, LogLevel,
    Logger,
};

const LEVELS: [LogLevel; 5] =
    [LogLevel::Error, LogLevel::Warn, LogLevel::Info, LogLevel::Debug, LogLevel::Trace];

#[test]
fn levels_have_numbers_and_names() {
    let names = ["ERROR", "WARN", "INFO", "DEBUG", "TRACE"];
    for (number, level) in LEVELS.iter().enumerate() {
        assert_eq!(level_as_usize(*level), number);
        assert_eq!(level.as_usize(), number);
        assert_eq!(level_as_str(*level), names[number]);
        assert_eq!(number.as_level(), Some(*level));
        assert_eq!(names[number].as_level(), Some(*level));
    }
}

#[test]
fn numbers_from_four_on_are_trace() {
    assert_eq!(4usize.as_level(), Some(LogLevel::Trace));
    assert_eq!(5usize.as_level(), Some(LogLevel::Trace));
    assert_eq!(usize::MAX.as_level(), Some(LogLevel::Trace));
}

#[test]
fn other_names_are_no_level() {
    assert_eq!("error".as_level(), None);
    assert_eq!("".as_level(), None);
    assert_eq!("WARNING".as_level(), None);
}

#[test]
fn init_gives_the_logger_for_the_severity() {
    assert_eq!(init(&2usize), Ok(Logger { level: 2 }));
    assert_eq!(init(&9usize), Ok(Logger { level: 4 }));
    assert_eq!(init("DEBUG"), Ok(Logger { level: 3 }));
    assert_eq!(init("ERROR"), Ok(Logger::new(0)));
    assert_eq!(init("loud"), Err(InitError::InvalidSeverity));
}

#[test]
fn logger_lets_through_what_is_grave_enough_and_its_own() {
    let logger = Logger::new(2);
    assert!(logger.enabled(LogLevel::Error, "zenlog"));
    assert!(logger.enabled(LogLevel::Info, "zenlog::runtime"));
    assert!(!logger.enabled(LogLevel::Debug, "zenlog::runtime"));
    assert!(!logger.enabled(LogLevel::Error, "mio::poll"));
    assert!(!logger.enabled(LogLevel::Trace, "other"));
}

#[test]
fn colours_of_the_levels() {
    assert_eq!(color(LogLevel::Trace), "\x1b[38;5;102m");
    assert_eq!(color(LogLevel::Debug), "\x1b[38;5;102m");
    assert_eq!(color(LogLevel::Info), "\x1b[38;5;25m");
    assert_eq!(color(LogLevel::Warn), "\x1b[38;5;178m");
    assert_eq!(color(LogLevel::Error), "\x1b[38;5;88m");
}

#[test]
fn log_line_is_laid_out() {
    let entry = Entry {
        level: LogLevel::Warn,
        target: "zenlog::pipeline",
        module: "zenlog::pipeline",
        line: 42,
        message: "drop it",
    };
    let line = Logger::line("2016-07-22 10:26:31.579457 UTC", 93111, &entry);
    let expected = format!(
        "{} {} {}{} {}/{}:{:<4}{} - {}{}{}\n",
        "\x1b[38;5;102m",
        "2016-07-22 10:26:31.579457 UTC",
        "\x1b[38;5;178m",
        'W',
        93111,
        "zenlog::pipeline",
        42,
        "\x1b[38;5;102m",
        "\x1b[38;5;7m",
        "drop it",
        "\x1b[39m"
    );
    assert_eq!(line, expected);
}

#[test]
fn log_writes_only_what_is_let_through() {
    let logger = Logger::new(1);
    let mut entry = Entry {
        level: LogLevel::Error,
        target: "zenlog",
        module: "zenlog",
        line: 12345,
        message: "m",
    };
    let line = logger.log(1, &entry).unwrap();
    assert!(line.starts_with("\x1b[38;5;102m "));
    assert!(line.ends_with(" \x1b[38;5;88mE 1/zenlog:12345\x1b[38;5;102m - \x1b[38;5;7mm\x1b[39m\n"));
    entry.level = LogLevel::Info;
    assert_eq!(logger.log(1, &entry), None);
    entry.level = LogLevel::Error;
    entry.target = "hyper";
    assert_eq!(logger.log(1, &entry), None);
}
