//! The source that makes records up.

use vstd::prelude::*;
use rand::Rng;
use crate::component::{
    get_pair, get_small_number, pair, small_number, FactoryError, FactoryErrorView,
};
use crate::codec::{number_text, number_to_string};
use crate::json::{Json, JsonView};
use crate::source::{Input, InputView, Source, SourceFactory};
use crate::text::{find_char, find_in};

verus! {

/// Calls `gen_range` of `rand` on the thread's generator, with the range
/// from `low` to `high`, both included. The number that comes back lies in
/// that range; which one it is depends on chance.
#[verifier::external_body]
fn random_between(low: u16, high: u16) -> (number: u16)
    requires
        low <= high,
    ensures
        low <= number <= high,
{
    rand::thread_rng().gen_range(low..=high)
}

/// Calls `String::push`, which appends `c` to `text`.
#[verifier::external_body]
fn push_char(text: &mut String, c: char)
    ensures
        final(text)@ == old(text)@.push(c),
{
    text.push(c)
}

/// Whether `c` is a printable character of ASCII: one of the 95 from the
/// space to the tilde.
pub open spec fn is_printable(c: char) -> bool {
    ' ' <= c <= '~'
}

/// A string of `len` characters, each of them a printable character of
/// ASCII, picked by chance. It has as many bytes as characters.
pub fn rand_string(len: u16) -> (text: String)
    ensures
        text@.len() == len,
        forall|i: int| 0 <= i < len ==> is_printable(#[trigger] text@[i]),
        vstd::utf8::encode_utf8(text@).len() == len,
{
    let mut text = String::new();
    let mut i: u16 = 0;
    while i < len
        invariant
            i <= len,
            text@.len() == i,
            forall|k: int| 0 <= k < i ==> is_printable(#[trigger] text@[k]),
        decreases len - i,
    {
        let offset = random_between(0, 94);
        let c = (0x20u8 + offset as u8) as char;
        push_char(&mut text, c);
        i += 1;
    }
    proof {
        assert(vstd::utf8::is_ascii_chars(text@)) by {
            assert forall|k: int| 0 <= k < text@.len() implies '\0' <= #[trigger] text@[k]
                <= '\u{7f}' by {
                assert(is_printable(text@[k]));
            }
        }
        vstd::utf8::is_ascii_chars_encode_utf8(text@);
    }
    text
}

/// Configuration.
#[derive(Debug, PartialEq)]
pub struct Config {
    /// Rate in number of events per second, as the configuration gives it.
    pub rate: Json,
    /// Minimum and maximum length range of a generated string.
    pub range: (u16, u16),
}

/// Why a random source could not be made.
#[derive(Clone, Copy, Debug, PartialEq, Eq)]
pub enum Error {
    /// The rate is not above zero.
    InvalidRate,
    /// The least length is above the greatest.
    InvalidRange((u16, u16)),
}

/// Whether `c` is a digit other than 0.
pub open spec fn is_nonzero_digit(c: char) -> bool {
    c == '1' || c == '2' || c == '3' || c == '4' || c == '5' || c == '6' || c == '7' || c == '8'
        || c == '9'
}

/// Where the digits of a number in decimal end: at its exponent, if it has
/// one.
pub open spec fn digits_end(text: Seq<char>) -> int {
    let small = find_in(text, 'e', 0, text.len() as int);
    let capital = find_in(text, 'E', 0, text.len() as int);
    if small <= capital {
        small
    } else {
        capital
    }
}

/// Whether a number written in decimal is above zero: it has no minus sign
/// in front, and a digit other than 0 among its digits.
pub open spec fn names_a_positive(text: Seq<char>) -> bool {
    text.len() > 0 && text[0] != '-' && exists|k: int|
        0 <= k < digits_end(text) && is_nonzero_digit(#[trigger] text[k])
}

/// Whether a rate is one: a number above zero.
pub open spec fn rate_is_positive(rate: JsonView) -> bool {
    match rate {
        JsonView::Int(i) => i > 0,
        JsonView::UInt(u) => u > 0,
        JsonView::Float(n) => names_a_positive(number_text(n)),
        _ => false,
    }
}

/// Whether a number written in decimal is above zero.
pub fn is_positive_text(text: &str) -> (yes: bool)
    ensures
        yes == names_a_positive(text@),
{
    let len = text.unicode_len();
    if len == 0 {
        return false;
    }
    if text.get_char(0) == '-' {
        return false;
    }
    let small = find_char(text, 'e', 0, len);
    let capital = find_char(text, 'E', 0, len);
    let end = if small <= capital {
        small
    } else {
        capital
    };
    let mut k: usize = 0;
    while k < end
        invariant
            k <= end <= len == text@.len(),
            len > 0,
            text@[0] != '-',
            end == digits_end(text@),
            forall|j: int| 0 <= j < k ==> !is_nonzero_digit(#[trigger] text@[j]),
        decreases end - k,
    {
        let c = text.get_char(k);
        if c == '1' || c == '2' || c == '3' || c == '4' || c == '5' || c == '6' || c == '7' || c
            == '8' || c == '9' {
            assert(is_nonzero_digit(text@[k as int]));
            return true;
        }
        k += 1;
    }
    false
}

/// Whether a rate is one.
pub fn is_positive(rate: &Json) -> (yes: bool)
    ensures
        yes == rate_is_positive(rate@),
{
    match rate {
        Json::Int(i) => *i > 0,
        Json::UInt(u) => *u > 0,
        Json::Float(n) => is_positive_text(number_to_string(n).as_str()),
        _ => false,
    }
}

/// Emits records with a message made up by chance, at a steady rate.
#[derive(Debug, PartialEq)]
pub struct Random {
    rate: Json,
    range: (u16, u16),
}

impl View for Random {
    type V = (JsonView, (u16, u16));

    /// The rate, and the least and the greatest length of a message.
    closed spec fn view(&self) -> (JsonView, (u16, u16)) {
        (self.rate@, self.range)
    }
}

/// What the owner of the timer does after a record was handed to the
/// pipeline.
#[derive(Clone, Copy, Debug, PartialEq, Eq, Structural)]
pub enum Tick {
    /// Set the timer again for the next record.
    Rearm,
    /// Shut the loop down.
    Shutdown,
}

/// After a record went out the timer is set again. If the pipeline is gone,
/// or the timer cannot be set, the loop shuts down.
pub open spec fn tick(sent: bool, armed: bool) -> Tick {
    if sent && armed {
        Tick::Rearm
    } else {
        Tick::Shutdown
    }
}

/// The source with this configuration, if the rate is one and the range is
/// one.
pub open spec fn random_with(rate: JsonView, range: (u16, u16)) -> Result<InputView, Error> {
    if !rate_is_positive(rate) {
        Err(Error::InvalidRate)
    } else if range.0 > range.1 {
        Err(Error::InvalidRange(range))
    } else {
        Ok(InputView::Random(rate, range.0, range.1))
    }
}

impl Random {
    #[verifier::type_invariant]
    spec fn can_run(&self) -> bool {
        rate_is_positive(self.rate@) && self.range.0 <= self.range.1
    }

    /// A source with this configuration.
    pub fn new(config: Config) -> (made: Result<Random, Error>)
        ensures
            match made {
                Ok(source) => random_with(config.rate@, config.range) == Ok::<InputView, Error>(
                    InputView::Random(source@.0, source@.1.0, source@.1.1),
                ),
                Err(error) => random_with(config.rate@, config.range) == Err::<InputView, Error>(
                    error,
                ),
            },
    {
        if !is_positive(&config.rate) {
            return Err(Error::InvalidRate);
        }
        let (min, max) = config.range;
        if min > max {
            return Err(Error::InvalidRange((min, max)));
        }
        Ok(Random { rate: config.rate, range: config.range })
    }

    /// Rate in number of events per second, as the configuration gives it:
    /// a number above zero.
    pub fn rate(&self) -> (rate: &Json)
        ensures
            rate@ == self@.0,
            rate_is_positive(rate@),
    {
        proof {
            use_type_invariant(self);
        }
        &self.rate
    }

    /// Minimum and maximum length range of a generated string.
    pub fn range(&self) -> (range: (u16, u16))
        ensures
            range == self@.1,
            range.0 <= range.1,
    {
        proof {
            use_type_invariant(self);
        }
        self.range
    }

    /// The owner of the timer for this source.
    pub fn handler(&self) -> (handler: SleepHandler)
        ensures
            handler@ == self@.1,
    {
        proof {
            use_type_invariant(self);
        }
        SleepHandler::new(self.range)
    }
}

/// The owner of the timer: it makes a record up each time the timer fires.
pub struct SleepHandler {
    range: (u16, u16),
}

impl View for SleepHandler {
    type V = (u16, u16);

    /// The least and the greatest length of a message.
    closed spec fn view(&self) -> (u16, u16) {
        self.range
    }
}

impl SleepHandler {
    #[verifier::type_invariant]
    spec fn range_holds_a_length(&self) -> bool {
        self.range.0 <= self.range.1
    }

    /// A handler for messages of a length in `range`, the least first.
    pub fn new(range: (u16, u16)) -> (handler: SleepHandler)
        requires
            range.0 <= range.1,
        ensures
            handler@ == range,
    {
        SleepHandler { range }
    }

    /// The next record: a mapping with one field, `message`, whose value is
    /// a string made up by chance, of a length within the range.
    pub fn record(&self) -> (record: Json)
        ensures
            record@ matches JsonView::Object(fields) && fields.len() == 1 && fields[0].0
                == "message"@ && (fields[0].1 matches JsonView::Str(message) && self@.0
                <= message.len() <= self@.1 && forall|i: int|
                0 <= i < message.len() ==> is_printable(#[trigger] message[i])),
            crate::json::unique_keys(record@),
    {
        proof {
            use_type_invariant(self);
        }
        let len = random_between(self.range.0, self.range.1);
        let message = rand_string(len);
        let value = Json::Str(message);
        assert(crate::json::unique_keys(value@));
        Json::object("message", value)
    }

    /// What to do when the timer has fired and a record was handed to the
    /// pipeline: `sent` says whether the pipeline took it, `armed` whether
    /// the timer could be set again.
    pub fn timeout(&self, sent: bool, armed: bool) -> (next: Tick)
        ensures
            next == tick(sent, armed),
    {
        if sent && armed {
            Tick::Rearm
        } else {
            Tick::Shutdown
        }
    }
}

impl Source for Random {

}

/// The configuration that `cfg` spells: `rate` has to be a number, and
/// `range` two lengths.
pub open spec fn random_config_of(cfg: JsonView) -> Result<(JsonView, (u16, u16)), FactoryErrorView> {
    match cfg.lookup("rate"@) {
        None => Err(FactoryErrorView::MissingField("rate"@)),
        Some(rate) => if !(rate is Int || rate is UInt || rate is Float) {
            Err(FactoryErrorView::InvalidField("rate"@))
        } else {
            match cfg.lookup("range"@) {
                None => Err(FactoryErrorView::MissingField("range"@)),
                Some(range) => match pair(range) {
                    Some((min, max)) => match (small_number(min), small_number(max)) {
                        (Some(min), Some(max)) => Ok((rate, (min, max))),
                        _ => Err(FactoryErrorView::InvalidField("range"@)),
                    },
                    None => Err(FactoryErrorView::InvalidField("range"@)),
                },
            }
        },
    }
}

/// The random source that `cfg` describes: its configuration, with a rate
/// above zero and the least length first.
pub open spec fn random_source_of(cfg: JsonView) -> Result<InputView, FactoryErrorView> {
    match random_config_of(cfg) {
        Err(error) => Err(error),
        Ok((rate, range)) => match random_with(rate, range) {
            Ok(source) => Ok(source),
            Err(Error::InvalidRate) => Err(FactoryErrorView::InvalidField("rate"@)),
            Err(Error::InvalidRange(range)) => Err(FactoryErrorView::InvalidRange(range.0, range.1)),
        },
    }
}

impl Config {
    /// The configuration that `cfg` spells.
    pub fn read(cfg: &Json) -> (config: Result<Config, FactoryError>)
        ensures
            match config {
                Ok(config) => random_config_of(cfg@) == Ok::<
                    (JsonView, (u16, u16)),
                    FactoryErrorView,
                >((config.rate@, config.range)),
                Err(error) => random_config_of(cfg@) == Err::<
                    (JsonView, (u16, u16)),
                    FactoryErrorView,
                >(error@),
            },
    {
        let rate = match cfg.lookup("rate") {
            None => {
                return Err(FactoryError::MissingField("rate".to_owned()));
            },
            Some(rate) => match rate {
                Json::Int(_) | Json::UInt(_) | Json::Float(_) => rate.clone(),
                _ => {
                    return Err(FactoryError::InvalidField("rate".to_owned()));
                },
            },
        };
        let range = match cfg.lookup("range") {
            None => {
                return Err(FactoryError::MissingField("range".to_owned()));
            },
            Some(range) => match get_pair(range) {
                Some((min, max)) => match (get_small_number(min), get_small_number(max)) {
                    (Some(min), Some(max)) => (min, max),
                    _ => {
                        return Err(FactoryError::InvalidField("range".to_owned()));
                    },
                },
                None => {
                    return Err(FactoryError::InvalidField("range".to_owned()));
                },
            },
        };
        Ok(Config { rate, range })
    }
}

impl SourceFactory for Random {
    open spec fn name() -> Seq<char> {
        "random"@
    }

    open spec fn made_from(cfg: JsonView) -> Result<InputView, FactoryErrorView> {
        random_source_of(cfg)
    }

    fn ty() -> (name: &'static str) {
        "random"
    }

    fn run(cfg: &Json) -> (made: Result<Input, FactoryError>) {
        let config = match Config::read(cfg) {
            Ok(config) => config,
            Err(error) => {
                return Err(error);
            },
        };
        match Random::new(config) {
            Ok(source) => Ok(Input::Random(source)),
            Err(Error::InvalidRate) => Err(FactoryError::InvalidField("rate".to_owned())),
            Err(Error::InvalidRange(range)) => Err(FactoryError::InvalidRange(range.0, range.1)),
        }
    }
}

} // verus!
