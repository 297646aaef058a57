//! The sink that prints records to standard output.

use vstd::prelude::*;
use crate::codec::{encode, json_encoding};
use crate::component::{FactoryError, FactoryErrorView};
use crate::json::{Json, JsonView};
use crate::logging::LogLevel;
use crate::output::{effects_view, Effect, EffectView, Output, OutputFactory, Sink, SinkView};

verus! {

/// Output that prints all records to the Standard Output, one line of JSON
/// for each.
///
/// # Warning
///
/// Quite slow. Use only for debugging purposes.
#[derive(Clone, Copy, Debug, PartialEq, Eq, Structural)]
pub struct Stream;

impl Output for Stream {
    /// The record's JSON text and a line feed, to be written; or, where the
    /// record has no JSON text, a complaint to be logged.
    open spec fn effects(&self, record: JsonView) -> Seq<EffectView> {
        match json_encoding(record) {
            Ok(text) => seq![EffectView::Write(text + "\n"@)],
            Err(words) => seq![
                EffectView::Log(LogLevel::Error, "failed to stringify the record: "@ + words),
            ],
        }
    }

    open spec fn reopens(&self) -> bool {
        false
    }

    fn handle(&self, record: &Json) -> (effects: Vec<Effect>) {
        let effect = match encode(record) {
            Ok(text) => Effect::Write(text.concat("\n")),
            Err(error) => Effect::Log(
                LogLevel::Error,
                "failed to stringify the record: ".to_owned().concat(error.message.as_str()),
            ),
        };
        let mut effects: Vec<Effect> = Vec::new();
        effects.push(effect);
        assert(effects_view(effects@) =~= seq![effect@]);
        effects
    }

    fn hup(&self) -> (wanted: bool) {
        false
    }
}

impl OutputFactory for Stream {
    open spec fn name() -> Seq<char> {
        "stream"@
    }

    open spec fn made_from(cfg: JsonView) -> Result<SinkView, FactoryErrorView> {
        Ok(SinkView::Stream)
    }

    fn ty() -> (name: &'static str) {
        "stream"
    }

    fn from(_cfg: &Json) -> (made: Result<Sink, FactoryError>) {
        Ok(Sink::Stream(Stream))
    }
}

} // verus!
