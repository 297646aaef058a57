//! The supervisor: the pipelines that live, and what control events do to
//! them.
//!
//! A reload never leaves the daemon with half a configuration. The
//! replacement is put together and started while the old pipelines run on,
//! and they are replaced only when all of it stands. If anything fails, the
//! old pipelines stay as they are.

use vstd::prelude::*;
use crate::config::{pipelines_view, PipeConfig, PipeConfigView};
use crate::pipeline::{assemble, reopen_targets, teardown_order, Pipe, PipeView, Teardown};
use crate::registry::{AssemblyError, AssemblyErrorView, Registry, RegistryView};

verus! {

/// What the operator may ask of the running daemon.
#[derive(Debug, PartialEq)]
pub enum Control {
    /// Run these pipelines in place of those that run now.
    Reload(Vec<PipeConfig>),
    /// Tell every sink that keeps files open to open them afresh.
    ReopenOutputs,
    /// Stop.
    Shutdown,
}

/// What the daemon is to do about a control event.
pub enum Reaction {
    /// The replacement was put together. It is to be started, and
    /// [`Runtime::reload`] told how that went.
    Assembled(Vec<Pipe>),
    /// The replacement could not be put together: the error is to be
    /// logged, and the pipelines that run stay.
    Kept(AssemblyError),
    /// For each pipeline, in order, the places of the sinks to tell that it
    /// is time to reopen.
    Reopen(Vec<Vec<usize>>),
    /// The control loop ends.
    Stop,
}

/// The views of `pipes`, in order.
pub open spec fn pipes_view(pipes: Seq<Pipe>) -> Seq<PipeView> {
    pipes.map_values(|pipe: Pipe| pipe@)
}

/// The pipelines that the first `count` of `cfgs` put together, or the
/// error of the first that fails.
pub open spec fn assemble_all(registry: RegistryView, cfgs: Seq<PipeConfigView>, count: int) -> Result<
    Seq<PipeView>,
    AssemblyErrorView,
>
    decreases count,
{
    if count <= 0 {
        Ok(seq![])
    } else {
        match assemble_all(registry, cfgs, count - 1) {
            Err(error) => Err(error),
            Ok(pipes) => match assemble(registry, cfgs[count - 1]) {
                Ok((sources, outputs)) => Ok(pipes.push(PipeView { sources, outputs })),
                Err(error) => Err(error),
            },
        }
    }
}

/// For each of `pipes`, in order, the places of its sinks that reopen.
pub open spec fn all_reopen_targets(pipes: Seq<PipeView>) -> Seq<Seq<usize>> {
    Seq::new(pipes.len(), |i: int| reopen_targets(pipes[i].outputs, pipes[i].outputs.len() as int))
}

/// For each of `pipes`, in order, the steps that take it down.
pub open spec fn all_teardown_orders(pipes: Seq<PipeView>) -> Seq<Seq<Teardown>> {
    Seq::new(pipes.len(), |i: int| teardown_order(pipes[i].sources.len(), pipes[i].outputs.len()))
}

/// The places from `built - 1` down to 0.
pub open spec fn reverse_order(built: nat) -> Seq<usize> {
    Seq::new(built, |i: int| (built - 1 - i) as usize)
}

/// The supervisor.
pub struct Runtime {
    pipelines: Vec<Pipe>,
    running: bool,
}

/// What a [`Runtime`] is.
pub struct RuntimeView {
    /// The pipelines that live.
    pub pipelines: Seq<PipeView>,
    /// Whether the control loop still runs.
    pub running: bool,
}

impl View for Runtime {
    type V = RuntimeView;

    closed spec fn view(&self) -> RuntimeView {
        RuntimeView { pipelines: pipes_view(self.pipelines@), running: self.running }
    }
}

/// What a reaction says, in views.
pub open spec fn reaction_matches(
    reaction: Reaction,
    runtime: RuntimeView,
    event: Control,
    registry: RegistryView,
) -> bool {
    if !runtime.running {
        reaction is Stop
    } else {
        match event {
            Control::Reload(cfgs) => match assemble_all(
                registry,
                pipelines_view(cfgs@),
                cfgs.len() as int,
            ) {
                Ok(pipes) => reaction matches Reaction::Assembled(made) && pipes_view(made@)
                    == pipes,
                Err(error) => reaction matches Reaction::Kept(kept) && kept@ == error,
            },
            Control::ReopenOutputs => reaction matches Reaction::Reopen(targets) && targets.len()
                == runtime.pipelines.len() && forall|i: int|
                0 <= i < targets.len() ==> (#[trigger] targets[i])@ == all_reopen_targets(
                    runtime.pipelines,
                )[i],
            Control::Shutdown => reaction is Stop,
        }
    }
}

impl Runtime {
    /// Puts every pipeline of `config` together, in order. The first that
    /// fails ends it.
    pub fn init(config: &Vec<PipeConfig>, registry: &Registry) -> (made: Result<
        Vec<Pipe>,
        AssemblyError,
    >)
        ensures
            match made {
                Ok(pipes) => assemble_all(registry@, pipelines_view(config@), config.len() as int)
                    == Ok::<Seq<PipeView>, AssemblyErrorView>(pipes_view(pipes@)),
                Err(error) => assemble_all(registry@, pipelines_view(config@), config.len() as int)
                    == Err::<Seq<PipeView>, AssemblyErrorView>(error@),
            },
    {
        let mut pipelines: Vec<Pipe> = Vec::new();
        let mut i: usize = 0;
        assert(pipes_view(pipelines@) =~= seq![]);
        while i < config.len()
            invariant
                i <= config.len(),
                assemble_all(registry@, pipelines_view(config@), i as int) == Ok::<
                    Seq<PipeView>,
                    AssemblyErrorView,
                >(pipes_view(pipelines@)),
            decreases config.len() - i,
        {
            assert(pipelines_view(config@)[i as int] == config[i as int]@);
            match Pipe::run(&config[i], registry) {
                Ok(pipe) => {
                    let ghost before = pipelines@;
                    pipelines.push(pipe);
                    assert(pipes_view(pipelines@) =~= pipes_view(before).push(pipe@));
                },
                Err(error) => {
                    proof {
                        lemma_first_failed_pipeline_stays(
                            registry@,
                            pipelines_view(config@),
                            i as int + 1,
                            config.len() as int,
                        );
                    }
                    return Err(error);
                },
            }
            i += 1;
        }
        Ok(pipelines)
    }

    /// Constructs the runtime by putting together all pipelines listed in
    /// the given config.
    pub fn new(config: &Vec<PipeConfig>, registry: &Registry) -> (made: Result<
        Runtime,
        AssemblyError,
    >)
        ensures
            match made {
                Ok(runtime) => runtime@.running && assemble_all(
                    registry@,
                    pipelines_view(config@),
                    config.len() as int,
                ) == Ok::<Seq<PipeView>, AssemblyErrorView>(runtime@.pipelines),
                Err(error) => assemble_all(registry@, pipelines_view(config@), config.len() as int)
                    == Err::<Seq<PipeView>, AssemblyErrorView>(error@),
            },
    {
        match Runtime::init(config, registry) {
            Ok(pipelines) => Ok(Runtime { pipelines, running: true }),
            Err(error) => Err(error),
        }
    }

    /// The pipelines that live, in order.
    pub fn pipelines(&self) -> (pipelines: &Vec<Pipe>)
        ensures
            pipes_view(pipelines@) == self@.pipelines,
    {
        &self.pipelines
    }

    /// The order in which to take down the pipelines that were started
    /// before one failed to: the last started first.
    pub fn unwind(built: usize) -> (order: Vec<usize>)
        ensures
            order@ == reverse_order(built as nat),
    {
        let mut order: Vec<usize> = Vec::new();
        let mut left: usize = built;
        while left > 0
            invariant
                left <= built,
                order.len() == built - left,
                forall|i: int| 0 <= i < order.len() ==> order[i] == built - 1 - i,
            decreases left,
        {
            left -= 1;
            order.push(left);
        }
        assert(order@ =~= reverse_order(built as nat));
        order
    }

    /// One turn of the control loop. The pipelines that live are the same
    /// after it as before: only [`Runtime::reload`] replaces them.
    pub fn run(&mut self, event: Control, registry: &Registry) -> (reaction: Reaction)
        ensures
            final(self)@.pipelines == old(self)@.pipelines,
            final(self)@.running == (old(self)@.running && !(event is Shutdown)),
            reaction_matches(reaction, old(self)@, event, registry@),
    {
        if !self.running {
            return Reaction::Stop;
        }
        match event {
            Control::Reload(cfgs) => match Runtime::init(&cfgs, registry) {
                Ok(pipes) => Reaction::Assembled(pipes),
                Err(error) => Reaction::Kept(error),
            },
            Control::ReopenOutputs => Reaction::Reopen(self.hup()),
            Control::Shutdown => {
                self.running = false;
                Reaction::Stop
            },
        }
    }

    /// Ends a reload. Where the replacement stands, it takes the place of
    /// the pipelines that lived, and those are handed back to be taken down.
    /// Where it failed, nothing changes and the error is handed back to be
    /// logged.
    pub fn reload(&mut self, started: Result<Vec<Pipe>, AssemblyError>) -> (replaced: Result<
        Vec<Pipe>,
        AssemblyError,
    >)
        ensures
            final(self)@.running == old(self)@.running,
            match started {
                Ok(pipes) => final(self)@.pipelines == pipes_view(pipes@) && (replaced matches Ok(
                    gone,
                ) && pipes_view(gone@) == old(self)@.pipelines),
                Err(error) => final(self)@.pipelines == old(self)@.pipelines && (
                replaced matches Err(same) && same == error),
            },
    {
        match started {
            Ok(pipes) => {
                let mut gone = pipes;
                std::mem::swap(&mut self.pipelines, &mut gone);
                Ok(gone)
            },
            Err(error) => Err(error),
        }
    }

    /// For each pipeline, in order, the places of the sinks to tell that it
    /// is time to reopen.
    pub fn hup(&self) -> (targets: Vec<Vec<usize>>)
        ensures
            targets.len() == self@.pipelines.len(),
            forall|i: int|
                0 <= i < targets.len() ==> (#[trigger] targets[i])@ == all_reopen_targets(
                    self@.pipelines,
                )[i],
    {
        let mut targets: Vec<Vec<usize>> = Vec::new();
        let mut i: usize = 0;
        while i < self.pipelines.len()
            invariant
                i <= self.pipelines.len(),
                targets.len() == i,
                forall|k: int|
                    0 <= k < i ==> (#[trigger] targets[k])@ == all_reopen_targets(
                        self@.pipelines,
                    )[k],
            decreases self.pipelines.len() - i,
        {
            assert(self@.pipelines[i as int] == self.pipelines[i as int]@);
            targets.push(self.pipelines[i].hup());
            i += 1;
        }
        targets
    }

    /// For each pipeline, in order, the steps that take it down. This is
    /// what dropping the supervisor does.
    pub fn teardown(&self) -> (steps: Vec<Vec<Teardown>>)
        ensures
            steps.len() == self@.pipelines.len(),
            forall|i: int|
                0 <= i < steps.len() ==> (#[trigger] steps[i])@ == all_teardown_orders(
                    self@.pipelines,
                )[i],
    {
        let mut steps: Vec<Vec<Teardown>> = Vec::new();
        let mut i: usize = 0;
        while i < self.pipelines.len()
            invariant
                i <= self.pipelines.len(),
                steps.len() == i,
                forall|k: int|
                    0 <= k < i ==> (#[trigger] steps[k])@ == all_teardown_orders(
                        self@.pipelines,
                    )[k],
            decreases self.pipelines.len() - i,
        {
            assert(self@.pipelines[i as int] == self.pipelines[i as int]@);
            steps.push(self.pipelines[i].teardown());
            i += 1;
        }
        steps
    }
}

/// Once a pipeline among the first `count` fails, looking at more of them
/// reports the same failure.
proof fn lemma_first_failed_pipeline_stays(
    registry: RegistryView,
    cfgs: Seq<PipeConfigView>,
    count: int,
    more: int,
)
    requires
        0 <= count <= more,
        assemble_all(registry, cfgs, count).is_err(),
    ensures
        assemble_all(registry, cfgs, more) == assemble_all(registry, cfgs, count),
    decreases more - count,
{
    if count < more {
        lemma_first_failed_pipeline_stays(registry, cfgs, count, more - 1);
    }
}

} // verus!
