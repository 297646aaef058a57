//! Sources: where records enter a pipeline.
//!
//! A source here is what the source was told to be, and what it decides.
//! The daemon reads from the socket or the terminal and asks, read by read,
//! what to do with what came.

pub mod random;
pub mod stdin;
pub mod stream;
pub mod tcp;
pub mod udp;

use vstd::prelude::*;
use crate::component::{FactoryError, FactoryErrorView};
use crate::json::{Json, JsonView};
use crate::logging::LogLevel;
use crate::source::random::Random;
use crate::source::stdin::StdinSource;
use crate::source::tcp::TcpSource;
use crate::source::udp::UdpSource;

verus! {

/// A source. It has no call of its own: while it lives it emits, and to
/// stop it is to drop it.
pub trait Source {

}

/// Any of the sources.
#[derive(Debug, PartialEq)]
pub enum Input {
    Stdin(StdinSource),
    Udp(UdpSource),
    Tcp(TcpSource),
    Random(Random),
}

/// What an [`Input`] is: its kind, and what it was configured with.
pub enum InputView {
    Stdin,
    /// The endpoint, as `host:port`.
    Udp(Seq<char>),
    /// The host and the port.
    Tcp(Seq<char>, u16),
    /// The rate, and the least and the greatest length of a message.
    Random(JsonView, u16, u16),
}

impl View for Input {
    type V = InputView;

    open spec fn view(&self) -> InputView {
        match self {
            Input::Stdin(_) => InputView::Stdin,
            Input::Udp(source) => InputView::Udp(source.endpoint@),
            Input::Tcp(source) => InputView::Tcp(source.host@, source.port),
            Input::Random(source) => InputView::Random(source@.0, source@.1.0, source@.1.1),
        }
    }
}

impl Source for Input {

}

/// The name under which configurations ask for a source of this view.
pub open spec fn input_name(source: InputView) -> Seq<char> {
    match source {
        InputView::Stdin => StdinSource::name(),
        InputView::Udp(_) => UdpSource::name(),
        InputView::Tcp(_, _) => TcpSource::name(),
        InputView::Random(_, _, _) => Random::name(),
    }
}

impl Input {
    /// The name under which configurations ask for this source.
    pub fn ty(&self) -> (name: &'static str)
        ensures
            name@ == input_name(self@),
    {
        match self {
            Input::Stdin(_) => StdinSource::ty(),
            Input::Udp(_) => UdpSource::ty(),
            Input::Tcp(_) => TcpSource::ty(),
            Input::Random(_) => Random::ty(),
        }
    }
}

/// What a source does after one attempt to read a record.
#[derive(Debug, PartialEq)]
pub enum Step {
    /// Send this record into the pipeline and go on.
    Emit(Json),
    /// Log these words and go on with the next read.
    Skip(LogLevel, String),
    /// Log these words and read no more.
    Stop(LogLevel, String),
}

/// What a [`Step`] is, with strings as character sequences.
pub enum StepView {
    Emit(JsonView),
    Skip(LogLevel, Seq<char>),
    Stop(LogLevel, Seq<char>),
}

impl View for Step {
    type V = StepView;

    open spec fn view(&self) -> StepView {
        match self {
            Step::Emit(record) => StepView::Emit(record@),
            Step::Skip(level, words) => StepView::Skip(*level, words@),
            Step::Stop(level, words) => StepView::Stop(*level, words@),
        }
    }
}

/// What makes a source from its configuration.
pub trait SourceFactory {
    /// The name under which configurations ask for this source.
    spec fn name() -> Seq<char>;

    /// The source that `cfg` describes, or the reason why it describes none.
    spec fn made_from(cfg: JsonView) -> Result<InputView, FactoryErrorView>;

    /// Returns type as a string that is used mainly for concrete component
    /// identification.
    fn ty() -> (name: &'static str)
        ensures
            name@ == Self::name(),
    ;

    /// Constructs a new source by configuring it with the given config.
    fn run(cfg: &Json) -> (made: Result<Input, FactoryError>)
        ensures
            match made {
                Ok(source) => Self::made_from(cfg@) == Ok::<InputView, FactoryErrorView>(source@),
                Err(error) => Self::made_from(cfg@) == Err::<InputView, FactoryErrorView>(error@),
            },
    ;
}

} // verus!
