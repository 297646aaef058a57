//! The source that reads records from standard input.

use vstd::prelude::*;
use crate::component::{FactoryError, FactoryErrorView};
use crate::json::{Json, JsonView};
use crate::source::stream::StreamDecoder;
use crate::source::{Input, InputView, Source, SourceFactory};

verus! {

/// Reads a stream of JSON values from standard input, one record for each.
#[derive(Clone, Copy, Debug, PartialEq, Eq, Structural)]
pub struct StdinSource;

impl StdinSource {
    pub fn new() -> (source: StdinSource) {
        StdinSource
    }

    /// The framer for what comes from standard input. The reader sends on
    /// every record that it hands out, and ends at the first thing that is
    /// no JSON.
    pub fn decoder(&self) -> (decoder: StreamDecoder)
        ensures
            decoder@ == Seq::<u8>::empty(),
    {
        StreamDecoder::new()
    }
}

impl Source for StdinSource {

}

impl SourceFactory for StdinSource {
    open spec fn name() -> Seq<char> {
        "stdin"@
    }

    open spec fn made_from(cfg: JsonView) -> Result<InputView, FactoryErrorView> {
        Ok(InputView::Stdin)
    }

    fn ty() -> (name: &'static str) {
        "stdin"
    }

    fn run(_cfg: &Json) -> (made: Result<Input, FactoryError>) {
        Ok(Input::Stdin(StdinSource::new()))
    }
}

} // verus!
