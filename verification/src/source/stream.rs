//! Records from a stream of bytes.
//!
//! A stream carries one JSON value after another, with or without white
//! space between them, and comes in pieces that end anywhere. The framer
//! keeps what a piece leaves unfinished and hands out every value as soon as
//! its end is certain.

use vstd::prelude::*;
use vstd::slice::slice_subrange;
use crate::codec::{json_first, read_first, First, FirstView};
use crate::json::{Json, JsonView};
use crate::logging::LogLevel;
use crate::source::{Step, StepView};

verus! {

/// Whether a value shows its own end: a string, a sequence and a mapping
/// do, with their closing mark. A number or a word may go on in the next
/// piece.
pub open spec fn ends_itself(value: JsonView) -> bool {
    value is Str || value is Array || value is Object
}

/// What reading makes of the bytes that are there.
pub struct Framed {
    /// What to do, in order: a record to send on for every value, and at
    /// the end, where the bytes are no JSON, the order to stop.
    pub steps: Seq<StepView>,
    /// The bytes that are kept for the next piece.
    pub rest: Seq<u8>,
}

/// The words with which a reader gives up.
pub open spec fn giving_up(words: Seq<char>) -> StepView {
    StepView::Stop(LogLevel::Warn, "unable to decode payload - "@ + words)
}

/// What reading makes of `bytes`, behind the steps already in `steps`.
/// While the stream is `open`, a value that ends with the bytes and does not
/// show its own end is kept; once the stream has closed it is taken, and a
/// value that the bytes end in the middle of is a failure.
pub open spec fn frame(bytes: Seq<u8>, open: bool, steps: Seq<StepView>) -> Framed
    decreases bytes.len(),
{
    match json_first(bytes) {
        FirstView::Nothing => Framed { steps, rest: seq![] },
        FirstView::Value(value, used) => if 0 < used <= bytes.len() {
            if open && used == bytes.len() && !ends_itself(value) {
                Framed { steps, rest: bytes }
            } else {
                frame(bytes.skip(used as int), open, steps.push(StepView::Emit(value)))
            }
        } else {
            Framed { steps, rest: bytes }
        },
        FirstView::Incomplete(words) => if open {
            Framed { steps, rest: bytes }
        } else {
            Framed { steps: steps.push(giving_up(words)), rest: bytes }
        },
        FirstView::Invalid(words) => Framed { steps: steps.push(giving_up(words)), rest: bytes },
    }
}

/// The views of `steps`, in order.
pub open spec fn steps_view(steps: Seq<Step>) -> Seq<StepView> {
    steps.map_values(|step: Step| step@)
}

/// The framer of one stream.
pub struct StreamDecoder {
    pending: Vec<u8>,
}

impl View for StreamDecoder {
    type V = Seq<u8>;

    /// The bytes that were read and belong to no value yet.
    closed spec fn view(&self) -> Seq<u8> {
        self.pending@
    }
}

impl StreamDecoder {
    /// A framer that has read nothing.
    pub fn new() -> (decoder: StreamDecoder)
        ensures
            decoder@ == Seq::<u8>::empty(),
    {
        StreamDecoder { pending: Vec::new() }
    }

    /// Reads on through what is pending.
    fn drain(&mut self, open: bool) -> (steps: Vec<Step>)
        ensures
            steps_view(steps@) == frame(old(self)@, open, seq![]).steps,
            final(self)@ == frame(old(self)@, open, seq![]).rest,
    {
        let mut steps: Vec<Step> = Vec::new();
        let mut at: usize = 0;
        let len = self.pending.len();
        let mut cleared = false;
        assert(steps_view(steps@) =~= seq![]);
        assert(self.pending@.skip(0) =~= self.pending@);
        loop
            invariant_except_break
                !cleared,
                frame(old(self)@, open, seq![]) == frame(
                    self.pending@.skip(at as int),
                    open,
                    steps_view(steps@),
                ),
            invariant
                at <= len == self.pending.len(),
                self.pending == old(self).pending,
            ensures
                at <= len == self.pending.len(),
                self.pending == old(self).pending,
                steps_view(steps@) == frame(old(self)@, open, seq![]).steps,
                frame(old(self)@, open, seq![]).rest == if cleared {
                    Seq::<u8>::empty()
                } else {
                    self.pending@.skip(at as int)
                },
            decreases len - at,
        {
            let bytes = slice_subrange(self.pending.as_slice(), at, len);
            assert(bytes@ =~= self.pending@.skip(at as int));
            let ghost before = steps@;
            match read_first(bytes) {
                First::Nothing => {
                    cleared = true;
                    break ;
                },
                First::Value(value, used) => {
                    let held = open && used == len - at && !(match value {
                        Json::Str(_) => true,
                        Json::Array(_) => true,
                        Json::Object(_) => true,
                        _ => false,
                    });
                    if held {
                        break ;
                    }
                    steps.push(Step::Emit(value));
                    assert(steps_view(steps@) =~= steps_view(before).push(StepView::Emit(value@)));
                    assert(self.pending@.skip(at as int).skip(used as int) =~= self.pending@.skip(
                        at + used,
                    ));
                    at += used;
                },
                First::Incomplete(words) => {
                    if !open {
                        let step = Step::Stop(
                            LogLevel::Warn,
                            "unable to decode payload - ".to_owned().concat(words.as_str()),
                        );
                        steps.push(step);
                        assert(steps_view(steps@) =~= steps_view(before).push(giving_up(words@)));
                    }
                    break ;
                },
                First::Invalid(words) => {
                    let step = Step::Stop(
                        LogLevel::Warn,
                        "unable to decode payload - ".to_owned().concat(words.as_str()),
                    );
                    steps.push(step);
                    assert(steps_view(steps@) =~= steps_view(before).push(giving_up(words@)));
                    break ;
                },
            }
        }
        if cleared {
            self.pending.clear();
        } else {
            let rest = self.pending.split_off(at);
            self.pending = rest;
        }
        steps
    }

    /// Takes the next piece of the stream and says what to do: a record to
    /// send on for every value that is complete, in order, and at the end,
    /// where the bytes are no JSON, the order to stop.
    pub fn feed(&mut self, piece: &[u8]) -> (steps: Vec<Step>)
        ensures
            steps_view(steps@) == frame(old(self)@ + piece@, true, seq![]).steps,
            final(self)@ == frame(old(self)@ + piece@, true, seq![]).rest,
    {
        self.pending.extend_from_slice(piece);
        assert(self@ =~= old(self)@ + piece@);
        self.drain(true)
    }

    /// Takes note that the stream has closed and says what to do with what
    /// was kept.
    pub fn finish(&mut self) -> (steps: Vec<Step>)
        ensures
            steps_view(steps@) == frame(old(self)@, false, seq![]).steps,
            final(self)@ == frame(old(self)@, false, seq![]).rest,
    {
        self.drain(false)
    }
}

} // verus!
