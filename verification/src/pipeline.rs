//! One pipeline: its sources, its sinks, and the dispatcher between them.
//!
//! The dispatcher draws one record at a time. A record without a message is
//! dropped. Every other record goes to every sink, in the order in which the
//! sinks were configured, before the next record is drawn. So every sink
//! sees the same records in the same order.
//!
//! A pipeline comes down in a fixed order: first the sources, which lets the
//! channel run dry; then the dispatcher, which ends when it has; and the
//! sinks last, when nothing can reach them any more.

use vstd::prelude::*;
use crate::component::{FactoryError, FactoryErrorView};
use crate::config::{PipeConfig, PipeConfigView};
use crate::json::{Json, JsonView};
use crate::logging::LogLevel;
use crate::output::{effects_view, Effect, EffectView, Output, Sink, SinkView};
use crate::registry::{
    resolve_output, resolve_source, AssemblyError, AssemblyErrorView, Registry, RegistryView,
};
use crate::source::{Input, InputView};

verus! {

/// Whether a record may pass: it has a `message`, and the message is a
/// string.
pub open spec fn has_message(record: JsonView) -> bool {
    record.lookup("message"@) matches Some(JsonView::Str(_))
}

/// The records among `drawn` that pass, in the order in which they were
/// drawn.
pub open spec fn accepted(drawn: Seq<JsonView>) -> Seq<JsonView>
    decreases drawn.len(),
{
    if drawn.len() == 0 {
        seq![]
    } else if has_message(drawn.last()) {
        accepted(drawn.drop_last()).push(drawn.last())
    } else {
        accepted(drawn.drop_last())
    }
}

/// How many of the first `count` records of `drawn` pass.
pub open spec fn passed_before(drawn: Seq<JsonView>, count: int) -> int {
    accepted(drawn.take(count)).len() as int
}

/// What passed among the first `count` records stays where it is when more
/// records are drawn, and a record that passes comes right behind what
/// passed before it.
proof fn lemma_accepted_grows(drawn: Seq<JsonView>, count: int, more: int)
    requires
        0 <= count <= more <= drawn.len(),
    ensures
        passed_before(drawn, count) <= passed_before(drawn, more),
        forall|at: int|
            0 <= at < passed_before(drawn, count) ==> accepted(drawn.take(more))[at] == accepted(
                drawn.take(count),
            )[at],
        count < more && has_message(drawn[count]) ==> passed_before(drawn, count) < passed_before(
            drawn,
            more,
        ) && accepted(drawn.take(more))[passed_before(drawn, count)] == drawn[count],
    decreases more - count,
{
    if count < more {
        lemma_accepted_grows(drawn, count, more - 1);
        assert(drawn.take(more).drop_last() =~= drawn.take(more - 1));
        assert(drawn.take(more).last() == drawn[more - 1]);
    }
}

/// Fan-out keeps the order and loses nothing: of two records that pass, the
/// one drawn first stands first among what every sink is handed, each at
/// the place that is the number of records that passed before it.
pub proof fn lemma_fan_out_in_order(drawn: Seq<JsonView>, first: int, second: int)
    requires
        0 <= first < second < drawn.len(),
        has_message(drawn[first]),
        has_message(drawn[second]),
    ensures
        0 <= passed_before(drawn, first) < passed_before(drawn, second) < accepted(drawn).len(),
        accepted(drawn)[passed_before(drawn, first)] == drawn[first],
        accepted(drawn)[passed_before(drawn, second)] == drawn[second],
{
    let len = drawn.len() as int;
    assert(drawn.take(len) =~= drawn);
    lemma_accepted_grows(drawn, first, second);
    lemma_accepted_grows(drawn, second, len);
    lemma_accepted_grows(drawn, first, len);
    assert(drawn.take(second)[first] == drawn[first]);
}

/// Two sinks of one dispatcher have been handed the same records in the
/// same order.
pub proof fn lemma_sinks_see_the_same(dispatcher: DispatcherView, one: int, other: int)
    requires
        dispatcher.fanned_out(),
        0 <= one < dispatcher.outputs.len(),
        0 <= other < dispatcher.outputs.len(),
    ensures
        dispatcher.handled[one] == dispatcher.handled[other],
        dispatcher.handled[one] == accepted(dispatcher.drawn),
{
}

/// The sources that the first `count` of `cfgs` describe, or the error of
/// the first that describes none.
pub open spec fn resolve_sources(registry: RegistryView, cfgs: Seq<JsonView>, count: int) -> Result<
    Seq<InputView>,
    AssemblyErrorView,
>
    decreases count,
{
    if count <= 0 {
        Ok(seq![])
    } else {
        match resolve_sources(registry, cfgs, count - 1) {
            Err(error) => Err(error),
            Ok(sources) => match resolve_source(registry, cfgs[count - 1]) {
                Ok(source) => Ok(sources.push(source)),
                Err(error) => Err(error),
            },
        }
    }
}

/// The sinks that the first `count` of `cfgs` describe, or the error of the
/// first that describes none.
pub open spec fn resolve_outputs(registry: RegistryView, cfgs: Seq<JsonView>, count: int) -> Result<
    Seq<SinkView>,
    AssemblyErrorView,
>
    decreases count,
{
    if count <= 0 {
        Ok(seq![])
    } else {
        match resolve_outputs(registry, cfgs, count - 1) {
            Err(error) => Err(error),
            Ok(outputs) => match resolve_output(registry, cfgs[count - 1]) {
                Ok(output) => Ok(outputs.push(output)),
                Err(error) => Err(error),
            },
        }
    }
}

/// What `cfg` puts together: its sources first and then its sinks, each in
/// the order of the configuration; or the error of the first component that
/// fails.
pub open spec fn assemble(registry: RegistryView, cfg: PipeConfigView) -> Result<
    (Seq<InputView>, Seq<SinkView>),
    AssemblyErrorView,
> {
    match resolve_sources(registry, cfg.sources, cfg.sources.len() as int) {
        Err(error) => Err(error),
        Ok(sources) => match resolve_outputs(registry, cfg.outputs, cfg.outputs.len() as int) {
            Err(error) => Err(error),
            Ok(outputs) => Ok((sources, outputs)),
        },
    }
}

/// The places, among the first `count` sinks, of those that want to be told
/// of a reopen, in ascending order.
pub open spec fn reopen_targets(outputs: Seq<SinkView>, count: int) -> Seq<usize>
    decreases count,
{
    if count <= 0 {
        seq![]
    } else if outputs[count - 1] is File {
        reopen_targets(outputs, count - 1).push((count - 1) as usize)
    } else {
        reopen_targets(outputs, count - 1)
    }
}

/// One step in taking a pipeline down.
#[derive(Clone, Copy, Debug, PartialEq, Eq, Structural)]
pub enum Teardown {
    /// Drop the source at this place: it stops, lets go of its end of the
    /// channel, and its workers are joined.
    Source(usize),
    /// Join the dispatcher, which ends once the channel has run dry.
    Dispatcher,
    /// Drop the sink at this place: it flushes, and its worker is joined.
    Output(usize),
}

/// The steps that take down a pipeline of this many sources and sinks.
pub open spec fn teardown_order(sources: nat, outputs: nat) -> Seq<Teardown> {
    Seq::new(
        sources + 1 + outputs,
        |i: int|
            if i < sources {
                Teardown::Source(i as usize)
            } else if i == sources {
                Teardown::Dispatcher
            } else {
                Teardown::Output((i - sources - 1) as usize)
            },
    )
}

/// In the order of teardown every source is dropped, and every drop of a
/// source comes before the dispatcher is joined, and that before any drop of
/// a sink.
pub proof fn lemma_sources_go_first(sources: nat, outputs: nat, source: int, output: int)
    requires
        0 <= source < sources <= usize::MAX,
        0 <= output < outputs <= usize::MAX,
    ensures
        teardown_order(sources, outputs)[source] == Teardown::Source(source as usize),
        teardown_order(sources, outputs)[sources as int] == Teardown::Dispatcher,
        teardown_order(sources, outputs)[sources + 1 + output] == Teardown::Output(
            output as usize,
        ),
        source < sources < sources + 1 + output < teardown_order(sources, outputs).len(),
        forall|i: int, j: int|
            #![trigger teardown_order(sources, outputs)[i], teardown_order(sources, outputs)[j]]
            0 <= i < teardown_order(sources, outputs).len() && 0 <= j < teardown_order(
                sources,
                outputs,
            ).len() && teardown_order(sources, outputs)[i] is Source && teardown_order(
                sources,
                outputs,
            )[j] is Output ==> i < j,
{
}

/// What a sink is to do with one record.
#[derive(Debug, PartialEq)]
pub struct Delivery {
    /// The place of the sink among the pipeline's sinks.
    pub sink: usize,
    /// What the sink asks for, in order.
    pub effects: Vec<Effect>,
}

/// What became of one record.
#[derive(Debug, PartialEq)]
pub enum Routed {
    /// The record has no message: no sink sees it, and the loss is logged at
    /// this level with these words.
    Dropped(LogLevel, String),
    /// The record went to every sink. The deliveries stand in the order of
    /// the sinks and are to be carried out in that order.
    Delivered(Vec<Delivery>),
}

/// The dispatcher of one pipeline: the sinks, and the rule by which records
/// reach them. It lives on a thread of its own.
pub struct Dispatcher {
    outputs: Vec<Sink>,
    history: Ghost<History>,
}

/// What a dispatcher has done so far.
pub struct History {
    /// Every record that it has drawn, in order.
    pub drawn: Seq<JsonView>,
    /// For each sink, every record that the sink was handed, in order.
    pub handled: Seq<Seq<JsonView>>,
}

/// What a [`Dispatcher`] is.
pub struct DispatcherView {
    /// The sinks, in the order of the configuration.
    pub outputs: Seq<SinkView>,
    /// Every record that the dispatcher has drawn, in order.
    pub drawn: Seq<JsonView>,
    /// For each sink, every record that it was handed, in order.
    pub handled: Seq<Seq<JsonView>>,
}

/// One pipeline, as its owner holds it.
pub struct Pipe {
    sources: Vec<Input>,
    outputs: Vec<Sink>,
    hups: Vec<usize>,
}

/// What a [`Pipe`] is.
pub struct PipeView {
    /// The sources, in the order of the configuration.
    pub sources: Seq<InputView>,
    /// The sinks, in the order of the configuration.
    pub outputs: Seq<SinkView>,
}

/// The views of `sources`, in order.
pub open spec fn inputs_view(sources: Seq<Input>) -> Seq<InputView> {
    sources.map_values(|source: Input| source@)
}

/// The views of `outputs`, in order.
pub open spec fn sinks_view(outputs: Seq<Sink>) -> Seq<SinkView> {
    outputs.map_values(|output: Sink| output@)
}

impl View for Dispatcher {
    type V = DispatcherView;

    closed spec fn view(&self) -> DispatcherView {
        DispatcherView {
            outputs: sinks_view(self.outputs@),
            drawn: self.history@.drawn,
            handled: self.history@.handled,
        }
    }
}

impl View for Pipe {
    type V = PipeView;

    closed spec fn view(&self) -> PipeView {
        PipeView { sources: inputs_view(self.sources@), outputs: sinks_view(self.outputs@) }
    }
}

impl DispatcherView {
    /// Every sink was handed exactly the records that passed, each once, in
    /// the order in which they were drawn.
    pub open spec fn fanned_out(self) -> bool {
        &&& self.handled.len() == self.outputs.len()
        &&& forall|sink: int|
            0 <= sink < self.outputs.len() ==> #[trigger] self.handled[sink] == accepted(self.drawn)
    }
}

impl Dispatcher {
    /// Every sink has been handed exactly the records that passed, each
    /// once, in the order in which they were drawn.
    #[verifier::type_invariant]
    spec fn has_fanned_out(&self) -> bool {
        self@.fanned_out()
    }

    /// A dispatcher in front of `outputs` that has drawn nothing yet.
    pub fn new(outputs: Vec<Sink>) -> (dispatcher: Dispatcher)
        ensures
            dispatcher@.outputs == sinks_view(outputs@),
            dispatcher@.drawn == Seq::<JsonView>::empty(),
            dispatcher@.fanned_out(),
    {
        let ghost handled = Seq::new(outputs.len() as nat, |sink: int| Seq::<JsonView>::empty());
        Dispatcher { outputs, history: Ghost(History { drawn: Seq::empty(), handled }) }
    }

    /// Takes the record that the dispatcher drew and says what becomes of
    /// it. Before and after, every sink has seen exactly what passed.
    pub fn dispatch(&mut self, record: &Json) -> (routed: Routed)
        ensures
            old(self)@.fanned_out(),
            final(self)@.fanned_out(),
            final(self)@.outputs == old(self)@.outputs,
            final(self)@.drawn == old(self)@.drawn.push(record@),
            match routed {
                Routed::Dropped(level, words) => !has_message(record@) && level
                    == LogLevel::Error && words@ == "message field required"@,
                Routed::Delivered(deliveries) => {
                    &&& has_message(record@)
                    &&& deliveries.len() == final(self)@.outputs.len()
                    &&& forall|i: int|
                        0 <= i < deliveries.len() ==> (#[trigger] deliveries[i]).sink == i
                            && effects_view(deliveries[i].effects@) == sink_effects(
                            final(self)@.outputs[i],
                            record@,
                        )
                },
            },
    {
        proof {
            use_type_invariant(&*self);
        }
        let passes = match record.lookup("message") {
            Some(Json::Str(_)) => true,
            _ => false,
        };
        let ghost before = self.history@;
        let ghost drawn = before.drawn.push(record@);
        assert(drawn.drop_last() =~= before.drawn);
        if !passes {
            self.history = Ghost(History { drawn, handled: before.handled });
            return Routed::Dropped(LogLevel::Error, "message field required".to_owned());
        }
        // What each sink has been handed, as the record goes round.
        let ghost mut handled = before.handled;
        let mut deliveries: Vec<Delivery> = Vec::new();
        let mut i: usize = 0;
        while i < self.outputs.len()
            invariant
                i <= self.outputs.len(),
                i == deliveries.len(),
                self.outputs == old(self).outputs,
                drawn == before.drawn.push(record@),
                accepted(drawn) == accepted(before.drawn).push(record@),
                handled.len() == self.outputs.len(),
                forall|sink: int| 0 <= sink < i ==> #[trigger] handled[sink] == accepted(drawn),
                forall|sink: int|
                    i <= sink < self.outputs.len() ==> #[trigger] handled[sink] == accepted(
                        before.drawn,
                    ),
                forall|k: int|
                    0 <= k < i ==> (#[trigger] deliveries[k]).sink == k && effects_view(
                        deliveries[k].effects@,
                    ) == sink_effects(self.outputs[k]@, record@),
            decreases self.outputs.len() - i,
        {
            let effects = self.outputs[i].handle(record);
            proof {
                lemma_sink_effects(self.outputs[i as int], record@);
                handled = handled.update(i as int, handled[i as int].push(record@));
            }
            deliveries.push(Delivery { sink: i, effects });
            i += 1;
        }
        self.history = Ghost(History { drawn, handled });
        Routed::Delivered(deliveries)
    }
}

impl Pipe {
    /// The pipeline knows the sinks that reopen.
    #[verifier::type_invariant]
    spec fn knows_what_reopens(&self) -> bool {
        self.hups@ == reopen_targets(sinks_view(self.outputs@), self.outputs.len() as int)
    }

    /// Puts a pipeline together: every source of `cfg` and then every sink,
    /// each made by its factory from `registry`. The first that fails ends
    /// it, and what was made before it is dropped.
    pub fn run(cfg: &PipeConfig, registry: &Registry) -> (made: Result<Pipe, AssemblyError>)
        ensures
            match made {
                Ok(pipe) => assemble(registry@, cfg@) == Ok::<
                    (Seq<InputView>, Seq<SinkView>),
                    AssemblyErrorView,
                >((pipe@.sources, pipe@.outputs)),
                Err(error) => assemble(registry@, cfg@) == Err::<
                    (Seq<InputView>, Seq<SinkView>),
                    AssemblyErrorView,
                >(error@),
            },
    {
        let source_cfgs = cfg.sources();
        let mut sources: Vec<Input> = Vec::new();
        let mut i: usize = 0;
        assert(inputs_view(sources@) =~= seq![]);
        while i < source_cfgs.len()
            invariant
                i <= source_cfgs.len(),
                crate::json::values_view(source_cfgs@) == cfg@.sources,
                resolve_sources(registry@, cfg@.sources, i as int) == Ok::<
                    Seq<InputView>,
                    AssemblyErrorView,
                >(inputs_view(sources@)),
            decreases source_cfgs.len() - i,
        {
            assert(cfg@.sources[i as int] == source_cfgs[i as int]@);
            match registry.source(&source_cfgs[i]) {
                Ok(source) => {
                    let ghost before = sources@;
                    sources.push(source);
                    assert(inputs_view(sources@) =~= inputs_view(before).push(source@));
                },
                Err(error) => {
                    proof {
                        lemma_first_failed_source_stays(
                            registry@,
                            cfg@.sources,
                            i as int + 1,
                            source_cfgs.len() as int,
                        );
                    }
                    return Err(error);
                },
            }
            i += 1;
        }
        let output_cfgs = cfg.outputs();
        let mut outputs: Vec<Sink> = Vec::new();
        let mut hups: Vec<usize> = Vec::new();
        let mut j: usize = 0;
        assert(sinks_view(outputs@) =~= seq![]);
        while j < output_cfgs.len()
            invariant
                j <= output_cfgs.len(),
                j == outputs.len(),
                crate::json::values_view(output_cfgs@) == cfg@.outputs,
                crate::json::values_view(source_cfgs@) == cfg@.sources,
                resolve_sources(registry@, cfg@.sources, source_cfgs.len() as int) == Ok::<
                    Seq<InputView>,
                    AssemblyErrorView,
                >(inputs_view(sources@)),
                resolve_outputs(registry@, cfg@.outputs, j as int) == Ok::<
                    Seq<SinkView>,
                    AssemblyErrorView,
                >(sinks_view(outputs@)),
                hups@ == reopen_targets(sinks_view(outputs@), j as int),
            decreases output_cfgs.len() - j,
        {
            assert(cfg@.outputs[j as int] == output_cfgs[j as int]@);
            match registry.output(&output_cfgs[j]) {
                Ok(output) => {
                    let ghost before = outputs@;
                    let wanted = output.hup();
                    outputs.push(output);
                    assert(sinks_view(outputs@) =~= sinks_view(before).push(output@));
                    proof {
                        lemma_reopen_targets_of_prefix(
                            sinks_view(before),
                            sinks_view(outputs@),
                            j as int,
                        );
                    }
                    if wanted {
                        hups.push(j);
                    }
                },
                Err(error) => {
                    proof {
                        lemma_first_failed_output_stays(
                            registry@,
                            cfg@.outputs,
                            j as int + 1,
                            output_cfgs.len() as int,
                        );
                    }
                    return Err(error);
                },
            }
            j += 1;
        }
        Ok(Pipe { sources, outputs, hups })
    }

    /// The error for a component that its factory made and that then could
    /// not start: `name` is its type, `words` say what stopped it.
    pub fn failed(name: &str, words: &str) -> (error: AssemblyError)
        ensures
            error@ == AssemblyErrorView::FactoryFailed(name@, FactoryErrorView::Start(words@)),
    {
        AssemblyError::FactoryFailed(name.to_owned(), FactoryError::Start(words.to_owned()))
    }

    /// The sources, in the order of the configuration.
    pub fn sources(&self) -> (sources: &Vec<Input>)
        ensures
            inputs_view(sources@) == self@.sources,
    {
        &self.sources
    }

    /// The sinks, in the order of the configuration.
    pub fn outputs(&self) -> (outputs: &Vec<Sink>)
        ensures
            sinks_view(outputs@) == self@.outputs,
    {
        &self.outputs
    }

    /// A dispatcher in front of copies of this pipeline's sinks, that has
    /// drawn nothing yet.
    pub fn dispatcher(&self) -> (dispatcher: Dispatcher)
        ensures
            dispatcher@.outputs == self@.outputs,
            dispatcher@.drawn == Seq::<JsonView>::empty(),
            dispatcher@.fanned_out(),
    {
        let mut outputs: Vec<Sink> = Vec::new();
        let mut i: usize = 0;
        while i < self.outputs.len()
            invariant
                i <= self.outputs.len(),
                outputs.len() == i,
                forall|k: int| 0 <= k < i ==> outputs[k]@ == self.outputs[k]@,
            decreases self.outputs.len() - i,
        {
            outputs.push(self.outputs[i].clone());
            i += 1;
        }
        assert(sinks_view(outputs@) =~= sinks_view(self.outputs@));
        Dispatcher::new(outputs)
    }

    /// The sinks to tell that it is time to reopen, by their places, in
    /// ascending order. Each is told on its own, so that one that has died
    /// costs the others nothing.
    pub fn hup(&self) -> (targets: Vec<usize>)
        ensures
            targets@ == reopen_targets(self@.outputs, self@.outputs.len() as int),
    {
        proof {
            use_type_invariant(self);
        }
        self.hups.clone()
    }

    /// The steps that take this pipeline down, in order.
    pub fn teardown(&self) -> (steps: Vec<Teardown>)
        ensures
            steps@ == teardown_order(self@.sources.len(), self@.outputs.len()),
    {
        let ghost order = teardown_order(self@.sources.len(), self@.outputs.len());
        let mut steps: Vec<Teardown> = Vec::new();
        let mut i: usize = 0;
        while i < self.sources.len()
            invariant
                i <= self.sources.len(),
                steps.len() == i,
                order == teardown_order(self.sources.len() as nat, self.outputs.len() as nat),
                forall|k: int| 0 <= k < steps.len() ==> steps[k] == order[k],
            decreases self.sources.len() - i,
        {
            steps.push(Teardown::Source(i));
            i += 1;
        }
        steps.push(Teardown::Dispatcher);
        let mut j: usize = 0;
        while j < self.outputs.len()
            invariant
                j <= self.outputs.len(),
                steps.len() == self.sources.len() + 1 + j,
                order == teardown_order(self.sources.len() as nat, self.outputs.len() as nat),
                forall|k: int| 0 <= k < steps.len() ==> steps[k] == order[k],
            decreases self.outputs.len() - j,
        {
            steps.push(Teardown::Output(j));
            j += 1;
        }
        assert(steps@ =~= order);
        steps
    }
}

/// What a sink of this view asks for `record`.
pub open spec fn sink_effects(sink: SinkView, record: JsonView) -> Seq<EffectView> {
    match sink {
        SinkView::Stream => crate::output::stream::Stream.effects(record),
        SinkView::File(_, _) => seq![EffectView::Enqueue],
        SinkView::Null => seq![],
        SinkView::Dev => crate::output::dev::dev_effects(record),
    }
}

/// What a sink asks for depends on its view alone.
pub proof fn lemma_sink_effects(sink: Sink, record: JsonView)
    ensures
        sink.effects(record) == sink_effects(sink@, record),
{
}

/// Once a source among the first `count` fails, looking at more of them
/// reports the same failure.
proof fn lemma_first_failed_source_stays(
    registry: RegistryView,
    cfgs: Seq<JsonView>,
    count: int,
    more: int,
)
    requires
        0 <= count <= more,
        resolve_sources(registry, cfgs, count).is_err(),
    ensures
        resolve_sources(registry, cfgs, more) == resolve_sources(registry, cfgs, count),
    decreases more - count,
{
    if count < more {
        lemma_first_failed_source_stays(registry, cfgs, count, more - 1);
    }
}

/// Once a sink among the first `count` fails, looking at more of them
/// reports the same failure.
proof fn lemma_first_failed_output_stays(
    registry: RegistryView,
    cfgs: Seq<JsonView>,
    count: int,
    more: int,
)
    requires
        0 <= count <= more,
        resolve_outputs(registry, cfgs, count).is_err(),
    ensures
        resolve_outputs(registry, cfgs, more) == resolve_outputs(registry, cfgs, count),
    decreases more - count,
{
    if count < more {
        lemma_first_failed_output_stays(registry, cfgs, count, more - 1);
    }
}

/// The reopen targets among the first `count` sinks are the same in any
/// longer sequence that starts with the same sinks.
proof fn lemma_reopen_targets_of_prefix(short: Seq<SinkView>, long: Seq<SinkView>, count: int)
    requires
        0 <= count <= short.len() <= long.len(),
        forall|i: int| 0 <= i < short.len() ==> short[i] == long[i],
    ensures
        reopen_targets(short, count) == reopen_targets(long, count),
    decreases count,
{
    if count > 0 {
        lemma_reopen_targets_of_prefix(short, long, count - 1);
    }
}

} // verus!
