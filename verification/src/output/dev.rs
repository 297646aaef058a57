//! The sink that prints records for a developer's eyes.

use vstd::prelude::*;
use crate::color::{ansi_color, ansi_fg, ansi_white, white_fg};
use crate::component::{FactoryError, FactoryErrorView};
use crate::json::{Json, JsonView};
use crate::logging::LogLevel;
use crate::output::{effects_view, Effect, EffectView, Output, OutputFactory, Sink, SinkView};
use crate::text::{
    cut, decimal, decimal_string, filled_left, filled_right, prefixed_hex, prefixed_hexadecimal,
    push_left_aligned, push_right_aligned, push_signed_decimal, signed_decimal, truncated,
};

verus! {

/// Eye-candy output that is used mainly both for demonstrating features and
/// for developing applications.
///
/// This output should be only used for developing reasons.
#[derive(Clone, Copy, Debug, PartialEq, Eq, Structural)]
pub struct Dev;

/// What `chrono` writes, in the layout `layout`, for the moment that lies
/// `secs` seconds and `nanos` nanoseconds after the start of 1970, in UTC;
/// nothing where it knows no such moment, or cannot follow the layout.
pub uninterp spec fn timestamp_text(secs: i64, nanos: u32, layout: Seq<char>) -> Option<Seq<char>>;

/// Calls `DateTime::from_timestamp` of `chrono`, then `format` with
/// `layout` on what it gives, and `write_to` on that. The contract names
/// what comes back and claims only that the same numbers and the same
/// layout always give the same text.
#[verifier::external_body]
fn timestamp_to_string(secs: i64, nanos: u32, layout: &str) -> (text: Option<String>)
    ensures
        match text {
            Some(text) => timestamp_text(secs, nanos, layout@) == Some(text@),
            None => timestamp_text(secs, nanos, layout@).is_none(),
        },
{
    let moment = chrono::DateTime::from_timestamp(secs, nanos)?;
    let mut text = String::new();
    moment.format(layout).write_to(&mut text).ok().map(|()| text)
}

/// How the sink writes a moment: year, month, day, hour, minute, second,
/// microseconds and the name of the time zone.
pub const TIME_LAYOUT: &'static str = "%Y-%m-%d %H:%M:%S%.6f %Z";

/// How the sink writes a moment.
pub open spec fn time_layout() -> Seq<char> {
    "%Y-%m-%d %H:%M:%S%.6f %Z"@
}

/// The number of nanoseconds in a second.
pub const NANOSECONDS_IN_SECOND: i64 = 1000000000;

/// What stands for the time in a line.
pub enum Stamp {
    /// This text.
    Text(Seq<char>),
    /// The timestamp is this number, and no moment.
    Invalid(i64),
    /// The timestamp is neither a number nor a string.
    Unsupported,
}

/// The text of a moment given in nanoseconds, in the sink's layout. A
/// moment before 1970 has one only where it is a whole number of seconds.
pub open spec fn moment_text(nanoseconds: i64) -> Option<Seq<char>> {
    if nanoseconds < 0 && nanoseconds % 1000000000 != 0 {
        None
    } else {
        timestamp_text(
            (nanoseconds / 1000000000) as i64,
            (nanoseconds % 1000000000) as u32,
            time_layout(),
        )
    }
}

/// What stands for the time of `record`: nothing where it has no
/// `timestamp`, the moment where that is a number, the text where it is a
/// string.
pub open spec fn stamp_of(record: JsonView) -> Stamp {
    match record.lookup("timestamp"@) {
        None => Stamp::Text(seq![]),
        Some(value) => match value.as_i64() {
            Some(nanoseconds) => match moment_text(nanoseconds) {
                Some(text) => Stamp::Text(text),
                None => Stamp::Invalid(nanoseconds),
            },
            None => match value.as_str() {
                Some(text) => Stamp::Text(text),
                None => Stamp::Unsupported,
            },
        },
    }
}

/// The colour of a severity, by its first letter.
pub open spec fn severity_color(sev: char) -> Seq<char> {
    if sev == 'E' {
        ansi_color(2, 0, 0)
    } else if sev == 'W' {
        ansi_color(4, 3, 0)
    } else if sev == 'I' {
        ansi_color(0, 1, 3)
    } else {
        ansi_color(2, 2, 2)
    }
}

/// The text under `key`, if it is a string.
pub open spec fn text_under(record: JsonView, key: Seq<char>) -> Option<Seq<char>> {
    match record.lookup(key) {
        Some(value) => value.as_str(),
        None => None,
    }
}

/// The number under `key`, if it is a whole number that is not negative.
pub open spec fn number_under(record: JsonView, key: Seq<char>) -> Option<u64> {
    match record.lookup(key) {
        Some(value) => value.as_u64(),
        None => None,
    }
}

/// The severity: a space and the first letter of `levelname`, in its
/// colour.
pub open spec fn severity_part(record: JsonView) -> Seq<char> {
    match text_under(record, "levelname"@) {
        Some(name) => if name.len() > 0 {
            severity_color(name[0]) + " "@ + seq![name[0]]
        } else {
            seq![]
        },
        None => seq![],
    }
}

/// The process: `pid` in six columns and, where there is one, `tid` in
/// hexadecimal in fourteen.
pub open spec fn process_part(record: JsonView) -> Seq<char> {
    match (number_under(record, "pid"@), number_under(record, "tid"@)) {
        (Some(pid), Some(tid)) => " "@ + filled_left(decimal(pid as nat), 6, ' ') + "/"@
            + prefixed_hexadecimal(tid as nat, 14),
        (Some(pid), None) => " "@ + filled_left(decimal(pid as nat), 6, ' '),
        _ => seq![],
    }
}

/// The place in the source: `module` in fourteen columns and `lineno` in
/// three, where both are there.
pub open spec fn place_part(record: JsonView) -> Seq<char> {
    match (text_under(record, "module"@), number_under(record, "lineno"@)) {
        (Some(module), Some(line)) => " "@ + filled_left(cut(module, 14), 14, ' ') + ":"@
            + filled_left(decimal(line as nat), 3, ' '),
        _ => seq![],
    }
}

/// `text` in exactly six columns.
pub open spec fn six(text: Seq<char>) -> Seq<char> {
    filled_right(cut(text, 6), 6)
}

/// The trace: `trace_id`, `span_id` and `parent_id` in hexadecimal, six
/// columns each; blanks for what is missing.
pub open spec fn trace_part(record: JsonView) -> Seq<char> {
    let trace = number_under(record, "trace_id"@);
    let span = number_under(record, "span_id"@);
    let parent = number_under(record, "parent_id"@);
    match (trace, span, parent) {
        (Some(trace), Some(span), Some(parent)) => " ["@ + six(
            prefixed_hexadecimal(trace as nat, 6),
        ) + ":"@ + six(prefixed_hexadecimal(span as nat, 6)) + ":"@ + six(
            prefixed_hexadecimal(parent as nat, 6),
        ) + "]"@,
        (Some(trace), _, _) => " ["@ + six(prefixed_hexadecimal(trace as nat, 0)) + ":"@ + six(
            " "@,
        ) + ":"@ + six(" "@) + "]"@,
        _ => " ["@ + six(" "@) + ":"@ + six(" "@) + ":"@ + six(" "@) + "]"@,
    }
}

/// The message, in white behind a dash, where it is a string.
pub open spec fn message_part(record: JsonView) -> Seq<char> {
    match text_under(record, "message"@) {
        Some(message) => " - "@ + ansi_white() + message,
        None => seq![],
    }
}

/// The line for `record` behind the time.
pub open spec fn line_after(record: JsonView) -> Seq<char> {
    severity_part(record) + process_part(record) + place_part(record) + trace_part(record)
        + message_part(record) + "\r\n"@
}

/// What the sink asks for `record`: one line, in grey up to the message.
/// Where the timestamp is no moment the line ends before it, and a warning
/// is logged; where it is nothing that the sink can print, an error.
pub open spec fn dev_effects(record: JsonView) -> Seq<EffectView> {
    match stamp_of(record) {
        Stamp::Text(time) => seq![
            EffectView::Write(ansi_color(2, 2, 2) + time + line_after(record)),
        ],
        Stamp::Invalid(nanoseconds) => seq![
            EffectView::Write(ansi_color(2, 2, 2)),
            EffectView::Log(
                LogLevel::Warn,
                "failed to convert "@ + signed_decimal(nanoseconds as int)
                    + " value into datetime"@,
            ),
        ],
        Stamp::Unsupported => seq![
            EffectView::Write(ansi_color(2, 2, 2)),
            EffectView::Log(LogLevel::Error, "timestamp is neither a number nor a string"@),
        ],
    }
}

/// The text under `key`, if it is a string.
fn get_text<'r>(record: &'r Json, key: &str) -> (text: Option<&'r str>)
    ensures
        match text {
            Some(text) => text_under(record@, key@) == Some(text@),
            None => text_under(record@, key@).is_none(),
        },
{
    match record.lookup(key) {
        Some(value) => value.as_str(),
        None => None,
    }
}

/// The number under `key`, if it is a whole number that is not negative.
fn get_number(record: &Json, key: &str) -> (number: Option<u64>)
    ensures
        number == number_under(record@, key@),
{
    match record.lookup(key) {
        Some(value) => value.as_u64(),
        None => None,
    }
}

/// The colour of a severity, by its first letter.
pub fn color_from_severity(sev: char) -> (color: String)
    ensures
        color@ == severity_color(sev),
{
    if sev == 'E' {
        ansi_fg(2, 0, 0)
    } else if sev == 'W' {
        ansi_fg(4, 3, 0)
    } else if sev == 'I' {
        ansi_fg(0, 1, 3)
    } else {
        ansi_fg(2, 2, 2)
    }
}

/// Appends `text` to `out` in exactly six columns.
fn push_six(out: &mut String, text: &str)
    ensures
        final(out)@ == old(out)@ + six(text@),
{
    push_left_aligned(out, truncated(text, 6), 6);
}

/// The text of a moment given in nanoseconds.
fn moment(nanoseconds: i64) -> (text: Option<String>)
    ensures
        match text {
            Some(text) => moment_text(nanoseconds) == Some(text@),
            None => moment_text(nanoseconds).is_none(),
        },
{
    if nanoseconds < 0 {
        // Rounding toward zero leaves a negative rest, which is no count of
        // nanoseconds; only whole seconds have a moment.
        let ahead: i64 = -(nanoseconds + 1);
        let rest: i64 = ahead % NANOSECONDS_IN_SECOND;
        if rest != NANOSECONDS_IN_SECOND - 1 {
            return None;
        }
        let secs: i64 = -(ahead / NANOSECONDS_IN_SECOND) - 1;
        timestamp_to_string(secs, 0, TIME_LAYOUT)
    } else {
        timestamp_to_string(
            nanoseconds / NANOSECONDS_IN_SECOND,
            (nanoseconds % NANOSECONDS_IN_SECOND) as u32,
            TIME_LAYOUT,
        )
    }
}

/// Appends the severity of `record` to `out`.
fn push_severity(out: &mut String, record: &Json)
    ensures
        final(out)@ == old(out)@ + severity_part(record@),
{
    if let Some(name) = get_text(record, "levelname") {
        if name.unicode_len() > 0 {
            let letter = name.get_char(0);
            out.append(color_from_severity(letter).as_str());
            out.append(" ");
            out.append(name.substring_char(0, 1));
            assert(name@.subrange(0, 1) =~= seq![name@[0]]);
        }
    }
    assert(out@ =~= old(out)@ + severity_part(record@));
}

/// Appends the process of `record` to `out`.
fn push_process(out: &mut String, record: &Json)
    ensures
        final(out)@ == old(out)@ + process_part(record@),
{
    match (get_number(record, "pid"), get_number(record, "tid")) {
        (Some(pid), Some(tid)) => {
            out.append(" ");
            push_right_aligned(out, decimal_string(pid).as_str(), 6);
            out.append("/");
            out.append(prefixed_hex(tid, 14).as_str());
        },
        (Some(pid), None) => {
            out.append(" ");
            push_right_aligned(out, decimal_string(pid).as_str(), 6);
        },
        _ => {},
    }
    assert(out@ =~= old(out)@ + process_part(record@));
}

/// Appends the place in the source of `record` to `out`.
fn push_place(out: &mut String, record: &Json)
    ensures
        final(out)@ == old(out)@ + place_part(record@),
{
    match (get_text(record, "module"), get_number(record, "lineno")) {
        (Some(module), Some(line)) => {
            out.append(" ");
            push_right_aligned(out, truncated(module, 14), 14);
            out.append(":");
            push_right_aligned(out, decimal_string(line).as_str(), 3);
        },
        _ => {},
    }
    assert(out@ =~= old(out)@ + place_part(record@));
}

/// Appends the trace of `record` to `out`.
fn push_trace(out: &mut String, record: &Json)
    ensures
        final(out)@ == old(out)@ + trace_part(record@),
{
    let trace = get_number(record, "trace_id");
    let span = get_number(record, "span_id");
    let parent = get_number(record, "parent_id");
    out.append(" [");
    match (trace, span, parent) {
        (Some(trace), Some(span), Some(parent)) => {
            push_six(out, prefixed_hex(trace, 6).as_str());
            out.append(":");
            push_six(out, prefixed_hex(span, 6).as_str());
            out.append(":");
            push_six(out, prefixed_hex(parent, 6).as_str());
        },
        (Some(trace), _, _) => {
            push_six(out, prefixed_hex(trace, 0).as_str());
            out.append(":");
            push_six(out, " ");
            out.append(":");
            push_six(out, " ");
        },
        _ => {
            push_six(out, " ");
            out.append(":");
            push_six(out, " ");
            out.append(":");
            push_six(out, " ");
        },
    }
    out.append("]");
    assert(out@ =~= old(out)@ + trace_part(record@));
}

/// Appends the message of `record` to `out`.
fn push_message(out: &mut String, record: &Json)
    ensures
        final(out)@ == old(out)@ + message_part(record@),
{
    if let Some(message) = get_text(record, "message") {
        out.append(" - ");
        out.append(white_fg());
        out.append(message);
    }
    assert(out@ =~= old(out)@ + message_part(record@));
}

impl Dev {
    pub fn new() -> (dev: Dev) {
        Dev
    }

    /// The line for `record` behind the time.
    fn line(record: &Json) -> (line: String)
        ensures
            line@ == line_after(record@),
    {
        let mut out = String::new();
        push_severity(&mut out, record);
        push_process(&mut out, record);
        push_place(&mut out, record);
        push_trace(&mut out, record);
        push_message(&mut out, record);
        out.append("\r\n");
        assert(out@ =~= line_after(record@));
        out
    }
}

impl Output for Dev {
    open spec fn effects(&self, record: JsonView) -> Seq<EffectView> {
        dev_effects(record)
    }

    open spec fn reopens(&self) -> bool {
        false
    }

    fn handle(&self, record: &Json) -> (effects: Vec<Effect>) {
        let mut effects: Vec<Effect> = Vec::new();
        let mut out = ansi_fg(2, 2, 2);
        if let Some(value) = record.lookup("timestamp") {
            if let Some(nanoseconds) = value.as_i64() {
                match moment(nanoseconds) {
                    Some(time) => {
                        out.append(time.as_str());
                    },
                    None => {
                        let mut words = "failed to convert ".to_owned();
                        push_signed_decimal(&mut words, nanoseconds);
                        words.append(" value into datetime");
                        effects.push(Effect::Write(out));
                        effects.push(Effect::Log(LogLevel::Warn, words));
                        assert(effects_view(effects@) =~= dev_effects(record@));
                        return effects;
                    },
                }
            } else if let Some(text) = value.as_str() {
                out.append(text);
            } else {
                effects.push(Effect::Write(out));
                effects.push(
                    Effect::Log(
                        LogLevel::Error,
                        "timestamp is neither a number nor a string".to_owned(),
                    ),
                );
                assert(effects_view(effects@) =~= dev_effects(record@));
                return effects;
            }
        }
        out.append(Dev::line(record).as_str());
        effects.push(Effect::Write(out));
        assert(effects_view(effects@) =~= dev_effects(record@)) by {
            let time = stamp_of(record@)->Text_0;
            assert(out@ =~= ansi_color(2, 2, 2) + time + line_after(record@));
        }
        effects
    }

    fn hup(&self) -> (wanted: bool) {
        false
    }
}

impl OutputFactory for Dev {
    open spec fn name() -> Seq<char> {
        "dev"@
    }

    open spec fn made_from(cfg: JsonView) -> Result<SinkView, FactoryErrorView> {
        Ok(SinkView::Dev)
    }

    fn ty() -> (name: &'static str) {
        "dev"
    }

    fn from(_cfg: &Json) -> (made: Result<Sink, FactoryError>) {
        Ok(Sink::Dev(Dev::new()))
    }
}

} // verus!
