//! The source that takes one record from each UDP datagram.

use vstd::prelude::*;
use vstd::slice::slice_subrange;
use crate::codec::{decode, json_decoding};
use crate::component::{get_string, string_field, FactoryError, FactoryErrorView};
use crate::json::{Json, JsonView};
use crate::logging::LogLevel;
use crate::source::{Input, InputView, Source, SourceFactory, Step, StepView};
use crate::text::{
    all_digits, digit_of, digit_value, find_char, find_in, lemma_number_grows, number_of,
};

verus! {

/// Listens on a UDP endpoint.
#[derive(Debug, PartialEq)]
pub struct UdpSource {
    /// Where to listen, as `host:port`.
    pub endpoint: String,
}

/// What came of one attempt to receive.
#[derive(Debug, PartialEq)]
pub enum Received {
    /// A datagram of so many bytes, which stand at the start of the
    /// handler's buffer.
    Datagram(usize),
    /// Nothing is waiting.
    WouldBlock,
    /// The socket failed; these are its words.
    Failed(String),
}

/// What the receiver does after one attempt to receive.
#[derive(Debug, PartialEq)]
pub enum Ready {
    /// Do this, then try to receive again.
    Again(Step),
    /// Wait until the socket is readable again.
    Wait,
    /// Log these words as an error and shut the loop down.
    Shutdown(String),
}

/// What [`Ready`] is, with strings as character sequences.
pub enum ReadyView {
    Again(StepView),
    Wait,
    Shutdown(Seq<char>),
}

impl View for Ready {
    type V = ReadyView;

    open spec fn view(&self) -> ReadyView {
        match self {
            Ready::Again(step) => ReadyView::Again(step@),
            Ready::Wait => ReadyView::Wait,
            Ready::Shutdown(words) => ReadyView::Shutdown(words@),
        }
    }
}

/// What a datagram with these bytes leads to: the record that they spell
/// is sent on; bytes that spell none are logged and dropped.
pub open spec fn datagram_step(bytes: Seq<u8>) -> StepView {
    match json_decoding(bytes) {
        Ok(record) => StepView::Emit(record),
        Err(words) => StepView::Skip(LogLevel::Warn, "unable to decode datagram - "@ + words),
    }
}

/// The first `count` bytes of `buffer`; all of it where it has no more.
pub open spec fn received_bytes(buffer: Seq<u8>, count: usize) -> Seq<u8> {
    if count <= buffer.len() {
        buffer.take(count as int)
    } else {
        buffer
    }
}

/// What the receiver does after one attempt to receive into `buffer`. It
/// reads until nothing is waiting, because the socket reports readiness
/// once.
pub open spec fn ready_step(buffer: Seq<u8>, received: Received) -> ReadyView {
    match received {
        Received::Datagram(count) => ReadyView::Again(
            datagram_step(received_bytes(buffer, count)),
        ),
        Received::WouldBlock => ReadyView::Wait,
        Received::Failed(words) => ReadyView::Shutdown("failed to read datagram: "@ + words@),
    }
}

/// The receiving side of a [`UdpSource`]. It owns the buffer that
/// datagrams are received into, one after another.
#[derive(Debug, PartialEq)]
pub struct UdpHandler {
    buf: Vec<u8>,
}

impl View for UdpHandler {
    type V = Seq<u8>;

    /// What the buffer holds.
    closed spec fn view(&self) -> Seq<u8> {
        self.buf@
    }
}

impl UdpHandler {
    /// A handler with a buffer of 16 KiB, all zeros.
    pub fn new() -> (handler: UdpHandler)
        ensures
            handler@ == Seq::new(16 * 1024, |i: int| 0u8),
    {
        let buf: Vec<u8> = vec![0u8; 16 * 1024];
        assert(buf@ =~= Seq::new(16 * 1024, |i: int| 0u8));
        UdpHandler { buf }
    }

    /// The size of the buffer that datagrams are received into.
    pub fn buffer_size() -> (size: usize)
        ensures
            size == 16 * 1024,
    {
        16 * 1024
    }

    /// The buffer, to receive the next datagram into.
    pub fn buffer(&mut self) -> (buffer: &mut [u8])
        ensures
            buffer@ == old(self)@,
            final(self)@ == final(buffer)@,
    {
        self.buf.as_mut_slice()
    }

    /// What to do with one datagram.
    pub fn datagram(&self, bytes: &[u8]) -> (step: Step)
        ensures
            step@ == datagram_step(bytes@),
    {
        match decode(bytes) {
            Ok(record) => Step::Emit(record),
            Err(error) => Step::Skip(
                LogLevel::Warn,
                "unable to decode datagram - ".to_owned().concat(error.message.as_str()),
            ),
        }
    }

    /// What to do after one attempt to receive into the buffer.
    pub fn ready(&self, received: Received) -> (next: Ready)
        ensures
            next@ == ready_step(self@, received),
    {
        match received {
            Received::Datagram(count) => {
                let end = if count <= self.buf.len() {
                    count
                } else {
                    self.buf.len()
                };
                let bytes = slice_subrange(self.buf.as_slice(), 0, end);
                assert(bytes@ =~= received_bytes(self@, count));
                Ready::Again(self.datagram(bytes))
            },
            Received::WouldBlock => Ready::Wait,
            Received::Failed(words) => Ready::Shutdown(
                "failed to read datagram: ".to_owned().concat(words.as_str()),
            ),
        }
    }
}

impl UdpSource {
    /// A source that listens on `endpoint`.
    pub fn new(endpoint: &str) -> (source: UdpSource)
        ensures
            source.endpoint@ == endpoint@,
    {
        UdpSource { endpoint: endpoint.to_owned() }
    }
}

impl Source for UdpSource {

}

/// The place of the last colon among the first `upto` characters of
/// `text`; -1 where there is none.
pub open spec fn last_colon(text: Seq<char>, upto: int) -> int
    decreases upto,
{
    if upto <= 0 {
        -1
    } else if text[upto - 1] == ':' {
        upto - 1
    } else {
        last_colon(text, upto - 1)
    }
}

/// Whether a host stands in front of the colon at `colon`: at least one
/// character, and no colon among them unless they stand in square brackets,
/// as an address of IPv6 does.
pub open spec fn host_before(text: Seq<char>, colon: int) -> bool {
    1 <= colon <= text.len() && (find_in(text, ':', 0, colon) == colon || (text[0] == '['
        && text[colon - 1] == ']'))
}

/// The port of an endpoint written as `host:port`: the number behind the
/// last colon. There has to be a host in front of the colon, and behind it
/// decimal digits, at least one, that write a number up to 65535.
pub open spec fn endpoint_port(text: Seq<char>) -> Option<u16> {
    let colon = last_colon(text, text.len() as int);
    let digits = text.subrange(colon + 1, text.len() as int);
    if !host_before(text, colon) || digits.len() == 0 || !all_digits(digits) || number_of(
        digits,
        digits.len() as int,
    ) > u16::MAX {
        None
    } else {
        Some(number_of(digits, digits.len() as int) as u16)
    }
}

/// The UDP source that `cfg` describes: its `endpoint` has to be there, a
/// string, and written as `host:port`.
pub open spec fn udp_source_of(cfg: JsonView) -> Result<InputView, FactoryErrorView> {
    match string_field(cfg, "endpoint"@) {
        Ok(endpoint) => if endpoint_port(endpoint) is Some {
            Ok(InputView::Udp(endpoint))
        } else {
            Err(FactoryErrorView::InvalidField("endpoint"@))
        },
        Err(error) => Err(error),
    }
}

/// The place of the last colon in `text`, if there is one.
fn find_last_colon(text: &str, len: usize) -> (colon: Option<usize>)
    requires
        len == text@.len(),
    ensures
        match colon {
            Some(at) => at < len && last_colon(text@, len as int) == at,
            None => last_colon(text@, len as int) == -1,
        },
{
    let mut upto: usize = len;
    while upto > 0
        invariant
            upto <= len == text@.len(),
            last_colon(text@, len as int) == last_colon(text@, upto as int),
        decreases upto,
    {
        if text.get_char(upto - 1) == ':' {
            return Some(upto - 1);
        }
        upto -= 1;
    }
    None
}

/// The port of an endpoint written as `host:port`.
pub fn port_of(endpoint: &str) -> (port: Option<u16>)
    ensures
        port == endpoint_port(endpoint@),
{
    let len = endpoint.unicode_len();
    let colon = match find_last_colon(endpoint, len) {
        Some(colon) => colon,
        None => {
            return None;
        },
    };
    if colon < 1 || colon + 1 >= len {
        return None;
    }
    let bare = find_char(endpoint, ':', 0, colon) == colon;
    let bracketed = endpoint.get_char(0) == '[' && endpoint.get_char(colon - 1) == ']';
    if !bare && !bracketed {
        return None;
    }
    let ghost digits = endpoint@.subrange(colon + 1, len as int);
    let count = len - colon - 1;
    let mut value: u32 = 0;
    let mut k: usize = 0;
    while k < count
        invariant
            k <= count,
            count == len - colon - 1,
            host_before(endpoint@, colon as int),
            len == endpoint@.len(),
            last_colon(endpoint@, len as int) == colon,
            digits == endpoint@.subrange(colon + 1, len as int),
            value == number_of(digits, k as int),
            value <= u16::MAX,
            forall|i: int| 0 <= i < k ==> digit_value(#[trigger] digits[i]) is Some,
        decreases count - k,
    {
        let c = endpoint.get_char(colon + 1 + k);
        assert(digits[k as int] == c);
        match digit_of(c) {
            None => {
                assert(!all_digits(digits));
                return None;
            },
            Some(digit) => {
                let more = value * 10 + digit;
                if more > 65535 {
                    proof {
                        assert(number_of(digits, k as int + 1) == more);
                        lemma_number_grows(digits, k as int + 1, digits.len() as int);
                    }
                    return None;
                }
                value = more;
            },
        }
        k += 1;
    }
    Some(value as u16)
}

impl SourceFactory for UdpSource {
    open spec fn name() -> Seq<char> {
        "udp"@
    }

    open spec fn made_from(cfg: JsonView) -> Result<InputView, FactoryErrorView> {
        udp_source_of(cfg)
    }

    fn ty() -> (name: &'static str) {
        "udp"
    }

    fn run(cfg: &Json) -> (made: Result<Input, FactoryError>) {
        match get_string(cfg, "endpoint") {
            Ok(endpoint) => match port_of(endpoint) {
                Some(_) => Ok(Input::Udp(UdpSource::new(endpoint))),
                None => Err(FactoryError::InvalidField("endpoint".to_owned())),
            },
            Err(error) => Err(error),
        }
    }
}

} // verus!
