//! Sinks: where records leave a pipeline.
//!
//! A sink here is what the sink decides. Handling a record gives the list
//! of things for the daemon to do with it: write a line, hand the record to
//! the sink's own worker, log a complaint. The dispatcher must not block, so
//! a sink that waits for a disk or a network asks for the hand-over and does
//! its work on a thread of its own.

pub mod dev;
pub mod elasticsearch;
pub mod file;
pub mod nil;
pub mod stream;

use vstd::prelude::*;
use crate::component::{FactoryError, FactoryErrorView};
use crate::json::{Json, JsonView};
use crate::logging::LogLevel;
use crate::output::dev::Dev;
use crate::output::file::FileOutput;
use crate::output::nil::Null;
use crate::output::stream::Stream;

verus! {

/// One thing that a sink asks of the daemon for one record.
#[derive(Debug, PartialEq)]
pub enum Effect {
    /// Write this text to standard output, as it is.
    Write(String),
    /// Hand the record to the sink's own worker.
    Enqueue,
    /// Log these words at this level.
    Log(LogLevel, String),
}

/// What an [`Effect`] is, with strings as character sequences.
pub enum EffectView {
    Write(Seq<char>),
    Enqueue,
    Log(LogLevel, Seq<char>),
}

impl View for Effect {
    type V = EffectView;

    open spec fn view(&self) -> EffectView {
        match self {
            Effect::Write(text) => EffectView::Write(text@),
            Effect::Enqueue => EffectView::Enqueue,
            Effect::Log(level, words) => EffectView::Log(*level, words@),
        }
    }
}

/// The views of `effects`, in order.
pub open spec fn effects_view(effects: Seq<Effect>) -> Seq<EffectView> {
    effects.map_values(|effect: Effect| effect@)
}

/// A sink.
pub trait Output {
    /// What handling `record` asks of the daemon.
    spec fn effects(&self, record: JsonView) -> Seq<EffectView>;

    /// Whether the sink keeps something open that a reopen renews.
    spec fn reopens(&self) -> bool;

    /// Takes one record. Called by the dispatcher, for every record that it
    /// lets through, once.
    fn handle(&self, record: &Json) -> (effects: Vec<Effect>)
        ensures
            effects_view(effects@) == self.effects(record@),
    ;

    /// Whether the sink wants to be told when it is time to reopen what it
    /// keeps open, as after a log rotation.
    fn hup(&self) -> (wanted: bool)
        ensures
            wanted == self.reopens(),
    ;
}

/// Any of the sinks.
#[derive(Debug, PartialEq)]
pub enum Sink {
    Stream(Stream),
    File(FileOutput),
    Null(Null),
    Dev(Dev),
}

/// What a [`Sink`] is: its kind, and for a file sink the texts of its two
/// templates.
pub enum SinkView {
    Stream,
    File(Seq<char>, Seq<char>),
    Null,
    Dev,
}

impl View for Sink {
    type V = SinkView;

    open spec fn view(&self) -> SinkView {
        match self {
            Sink::Stream(_) => SinkView::Stream,
            Sink::File(file) => SinkView::File(file@.0, file@.1),
            Sink::Null(_) => SinkView::Null,
            Sink::Dev(_) => SinkView::Dev,
        }
    }
}

/// The name under which configurations ask for a sink of this view.
pub open spec fn sink_name(sink: SinkView) -> Seq<char> {
    match sink {
        SinkView::Stream => Stream::name(),
        SinkView::File(_, _) => FileOutput::name(),
        SinkView::Null => Null::name(),
        SinkView::Dev => Dev::name(),
    }
}

impl Sink {
    /// The name under which configurations ask for this sink.
    pub fn ty(&self) -> (name: &'static str)
        ensures
            name@ == sink_name(self@),
    {
        match self {
            Sink::Stream(_) => Stream::ty(),
            Sink::File(_) => FileOutput::ty(),
            Sink::Null(_) => Null::ty(),
            Sink::Dev(_) => Dev::ty(),
        }
    }
}

impl Clone for Sink {
    /// A copy with the same view.
    fn clone(&self) -> (copy: Sink)
        ensures
            copy@ == self@,
    {
        match self {
            Sink::Stream(sink) => Sink::Stream(*sink),
            Sink::File(sink) => Sink::File(sink.clone()),
            Sink::Null(sink) => Sink::Null(*sink),
            Sink::Dev(sink) => Sink::Dev(*sink),
        }
    }
}

impl Output for Sink {
    open spec fn effects(&self, record: JsonView) -> Seq<EffectView> {
        match self {
            Sink::Stream(sink) => sink.effects(record),
            Sink::File(sink) => sink.effects(record),
            Sink::Null(sink) => sink.effects(record),
            Sink::Dev(sink) => sink.effects(record),
        }
    }

    open spec fn reopens(&self) -> bool {
        match self {
            Sink::Stream(sink) => sink.reopens(),
            Sink::File(sink) => sink.reopens(),
            Sink::Null(sink) => sink.reopens(),
            Sink::Dev(sink) => sink.reopens(),
        }
    }

    fn handle(&self, record: &Json) -> (effects: Vec<Effect>) {
        match self {
            Sink::Stream(sink) => sink.handle(record),
            Sink::File(sink) => sink.handle(record),
            Sink::Null(sink) => sink.handle(record),
            Sink::Dev(sink) => sink.handle(record),
        }
    }

    fn hup(&self) -> (wanted: bool) {
        match self {
            Sink::Stream(sink) => sink.hup(),
            Sink::File(sink) => sink.hup(),
            Sink::Null(sink) => sink.hup(),
            Sink::Dev(sink) => sink.hup(),
        }
    }
}

/// What makes a sink from its configuration.
pub trait OutputFactory {
    /// The name under which configurations ask for this sink.
    spec fn name() -> Seq<char>;

    /// The sink that `cfg` describes, or the reason why it describes none.
    spec fn made_from(cfg: JsonView) -> Result<SinkView, FactoryErrorView>;

    /// Returns type as a string that is used mainly for concrete factory
    /// identification.
    fn ty() -> (name: &'static str)
        ensures
            name@ == Self::name(),
    ;

    /// Constructs the output by configuring it with the given config.
    fn from(cfg: &Json) -> (made: Result<Sink, FactoryError>)
        ensures
            match made {
                Ok(sink) => Self::made_from(cfg@) == Ok::<SinkView, FactoryErrorView>(sink@),
                Err(error) => Self::made_from(cfg@) == Err::<SinkView, FactoryErrorView>(error@),
            },
    ;
}

} // verus!
