//! The components that configurations may ask for, by name.

use vstd::prelude::*;
use crate::component::{FactoryError, FactoryErrorView};
use crate::json::{Json, JsonView};
use crate::output::dev::Dev;
use crate::output::file::FileOutput;
use crate::output::nil::Null;
use crate::output::stream::Stream;
use crate::output::{OutputFactory, Sink, SinkView};
use crate::source::random::Random;
use crate::source::stdin::StdinSource;
use crate::source::tcp::TcpSource;
use crate::source::udp::UdpSource;
use crate::source::{Input, InputView, SourceFactory};
use crate::text::str_eq;

verus! {

/// The kinds of source that there are.
#[derive(Clone, Copy, Debug, PartialEq, Eq, Structural)]
pub enum SourceKind {
    Stdin,
    Udp,
    Tcp,
    Random,
}

/// The kinds of sink that there are.
#[derive(Clone, Copy, Debug, PartialEq, Eq, Structural)]
pub enum OutputKind {
    Stream,
    File,
    Null,
    Dev,
}

/// The name under which configurations ask for a kind of source.
pub open spec fn source_name(kind: SourceKind) -> Seq<char> {
    match kind {
        SourceKind::Stdin => StdinSource::name(),
        SourceKind::Udp => UdpSource::name(),
        SourceKind::Tcp => TcpSource::name(),
        SourceKind::Random => Random::name(),
    }
}

/// The name under which configurations ask for a kind of sink.
pub open spec fn output_name(kind: OutputKind) -> Seq<char> {
    match kind {
        OutputKind::Stream => Stream::name(),
        OutputKind::File => FileOutput::name(),
        OutputKind::Null => Null::name(),
        OutputKind::Dev => Dev::name(),
    }
}

/// No two kinds of source share a name.
pub proof fn lemma_source_names_differ(one: SourceKind, other: SourceKind)
    ensures
        one != other ==> source_name(one) != source_name(other),
{
    reveal_strlit("stdin");
    reveal_strlit("udp");
    reveal_strlit("tcp");
    reveal_strlit("random");
    assert("stdin"@.len() == 5 && "udp"@.len() == 3 && "tcp"@.len() == 3 && "random"@.len() == 6);
    assert("udp"@[0] != "tcp"@[0]);
}

/// No two kinds of sink share a name.
pub proof fn lemma_output_names_differ(one: OutputKind, other: OutputKind)
    ensures
        one != other ==> output_name(one) != output_name(other),
{
    reveal_strlit("stream");
    reveal_strlit("file");
    reveal_strlit("nil");
    reveal_strlit("dev");
    assert("stream"@.len() == 6 && "file"@.len() == 4 && "nil"@.len() == 3 && "dev"@.len() == 3);
    assert("nil"@[0] != "dev"@[0]);
}

/// What the factory of a kind of source makes of `cfg`.
pub open spec fn source_made(kind: SourceKind, cfg: JsonView) -> Result<
    InputView,
    FactoryErrorView,
> {
    match kind {
        SourceKind::Stdin => StdinSource::made_from(cfg),
        SourceKind::Udp => UdpSource::made_from(cfg),
        SourceKind::Tcp => TcpSource::made_from(cfg),
        SourceKind::Random => Random::made_from(cfg),
    }
}

/// What the factory of a kind of sink makes of `cfg`.
pub open spec fn output_made(kind: OutputKind, cfg: JsonView) -> Result<SinkView, FactoryErrorView> {
    match kind {
        OutputKind::Stream => Stream::made_from(cfg),
        OutputKind::File => FileOutput::made_from(cfg),
        OutputKind::Null => Null::made_from(cfg),
        OutputKind::Dev => Dev::made_from(cfg),
    }
}

/// Why a pipeline could not be put together.
#[derive(Debug, PartialEq)]
pub enum AssemblyError {
    /// A component's configuration has no `type`, or one that is no string.
    MissingType,
    /// No component is registered under this name.
    UnknownType(String),
    /// The component of this name refused its configuration, or could not
    /// start.
    FactoryFailed(String, FactoryError),
}

/// What an [`AssemblyError`] is, with strings as character sequences.
pub enum AssemblyErrorView {
    MissingType,
    UnknownType(Seq<char>),
    FactoryFailed(Seq<char>, FactoryErrorView),
}

impl View for AssemblyError {
    type V = AssemblyErrorView;

    open spec fn view(&self) -> AssemblyErrorView {
        match self {
            AssemblyError::MissingType => AssemblyErrorView::MissingType,
            AssemblyError::UnknownType(name) => AssemblyErrorView::UnknownType(name@),
            AssemblyError::FactoryFailed(name, cause) => AssemblyErrorView::FactoryFailed(
                name@,
                cause@,
            ),
        }
    }
}

/// The mapping that `entries` spell: each name leads to the kind that was
/// entered under it last.
pub open spec fn entries_map<K>(entries: Seq<(String, K)>) -> Map<Seq<char>, K>
    decreases entries.len(),
{
    if entries.len() == 0 {
        Map::empty()
    } else {
        entries_map(entries.drop_last()).insert(entries.last().0@, entries.last().1)
    }
}

/// The kind entered under `name`.
fn find<K: Copy>(entries: &Vec<(String, K)>, name: &str) -> (found: Option<K>)
    ensures
        match found {
            Some(kind) => entries_map(entries@).contains_key(name@) && entries_map(entries@)[name@]
                == kind,
            None => !entries_map(entries@).contains_key(name@),
        },
{
    let mut found: Option<K> = None;
    let mut i: usize = 0;
    while i < entries.len()
        invariant
            i <= entries.len(),
            match found {
                Some(kind) => entries_map(entries@.take(i as int)).contains_key(name@)
                    && entries_map(entries@.take(i as int))[name@] == kind,
                None => !entries_map(entries@.take(i as int)).contains_key(name@),
            },
        decreases entries.len() - i,
    {
        assert(entries@.take(i + 1).drop_last() =~= entries@.take(i as int));
        if str_eq(entries[i].0.as_str(), name) {
            found = Some(entries[i].1);
        }
        i += 1;
    }
    assert(entries@.take(i as int) =~= entries@);
    found
}

/// The sources and the sinks that configurations may ask for. It is filled
/// when the daemon starts, and pipelines only read it.
pub struct Registry {
    sources: Vec<(String, SourceKind)>,
    outputs: Vec<(String, OutputKind)>,
}

/// What a [`Registry`] is: two mappings from names to kinds.
pub struct RegistryView {
    pub sources: Map<Seq<char>, SourceKind>,
    pub outputs: Map<Seq<char>, OutputKind>,
}

impl View for Registry {
    type V = RegistryView;

    closed spec fn view(&self) -> RegistryView {
        RegistryView { sources: entries_map(self.sources@), outputs: entries_map(self.outputs@) }
    }
}

/// The name of the component that `cfg` asks for.
pub open spec fn type_of(cfg: JsonView) -> Option<Seq<char>> {
    match cfg.lookup("type"@) {
        Some(JsonView::Str(name)) => Some(name),
        _ => None,
    }
}

/// The source that `cfg` gets from `registry`: its `type` is read, the name
/// is looked up, and the factory found there is asked.
pub open spec fn resolve_source(registry: RegistryView, cfg: JsonView) -> Result<
    InputView,
    AssemblyErrorView,
> {
    match type_of(cfg) {
        None => Err(AssemblyErrorView::MissingType),
        Some(name) => if !registry.sources.contains_key(name) {
            Err(AssemblyErrorView::UnknownType(name))
        } else {
            match source_made(registry.sources[name], cfg) {
                Ok(source) => Ok(source),
                Err(cause) => Err(AssemblyErrorView::FactoryFailed(name, cause)),
            }
        },
    }
}

/// The sink that `cfg` gets from `registry`, found as a source is.
pub open spec fn resolve_output(registry: RegistryView, cfg: JsonView) -> Result<
    SinkView,
    AssemblyErrorView,
> {
    match type_of(cfg) {
        None => Err(AssemblyErrorView::MissingType),
        Some(name) => if !registry.outputs.contains_key(name) {
            Err(AssemblyErrorView::UnknownType(name))
        } else {
            match output_made(registry.outputs[name], cfg) {
                Ok(sink) => Ok(sink),
                Err(cause) => Err(AssemblyErrorView::FactoryFailed(name, cause)),
            }
        },
    }
}

/// The name under which configurations ask for a kind of source.
pub fn source_ty(kind: SourceKind) -> (name: &'static str)
    ensures
        name@ == source_name(kind),
{
    match kind {
        SourceKind::Stdin => StdinSource::ty(),
        SourceKind::Udp => UdpSource::ty(),
        SourceKind::Tcp => TcpSource::ty(),
        SourceKind::Random => Random::ty(),
    }
}

/// The name under which configurations ask for a kind of sink.
pub fn output_ty(kind: OutputKind) -> (name: &'static str)
    ensures
        name@ == output_name(kind),
{
    match kind {
        OutputKind::Stream => Stream::ty(),
        OutputKind::File => FileOutput::ty(),
        OutputKind::Null => Null::ty(),
        OutputKind::Dev => Dev::ty(),
    }
}

impl Registry {
    /// A registry with nothing in it.
    pub fn empty() -> (registry: Registry)
        ensures
            registry@.sources == Map::<Seq<char>, SourceKind>::empty(),
            registry@.outputs == Map::<Seq<char>, OutputKind>::empty(),
    {
        Registry { sources: Vec::new(), outputs: Vec::new() }
    }

    /// The registry that the daemon starts with: the sources `stdin`, `udp`,
    /// `tcp` and `random`, and the sinks `stream` and `file`, each under its
    /// own name, and nothing else. The other sinks are there for whoever
    /// adds them.
    pub fn new() -> (registry: Registry)
        ensures
            registry@.sources == Map::<Seq<char>, SourceKind>::empty().insert(
                source_name(SourceKind::Stdin),
                SourceKind::Stdin,
            ).insert(source_name(SourceKind::Udp), SourceKind::Udp).insert(
                source_name(SourceKind::Tcp),
                SourceKind::Tcp,
            ).insert(source_name(SourceKind::Random), SourceKind::Random),
            registry@.outputs == Map::<Seq<char>, OutputKind>::empty().insert(
                output_name(OutputKind::Stream),
                OutputKind::Stream,
            ).insert(output_name(OutputKind::File), OutputKind::File),
            forall|kind: SourceKind| #[trigger]
                registry@.sources.contains_key(source_name(kind)) && registry@.sources[source_name(
                    kind,
                )] == kind,
            forall|kind: OutputKind| #[trigger]
                registry@.outputs.contains_key(output_name(kind)) <==> kind == OutputKind::Stream
                    || kind == OutputKind::File,
            forall|kind: OutputKind| #[trigger]
                registry@.outputs.contains_key(output_name(kind)) ==> registry@.outputs[output_name(
                    kind,
                )] == kind,
    {
        let mut registry = Registry::empty();
        registry.add_source(SourceKind::Stdin);
        registry.add_source(SourceKind::Udp);
        registry.add_source(SourceKind::Tcp);
        registry.add_source(SourceKind::Random);
        registry.add_output(OutputKind::Stream);
        registry.add_output(OutputKind::File);
        proof {
            assert forall|kind: SourceKind| #[trigger]
                registry@.sources.contains_key(source_name(kind)) && registry@.sources[source_name(
                    kind,
                )] == kind by {
                lemma_source_names_differ(kind, SourceKind::Stdin);
                lemma_source_names_differ(kind, SourceKind::Udp);
                lemma_source_names_differ(kind, SourceKind::Tcp);
                lemma_source_names_differ(kind, SourceKind::Random);
            }
            assert forall|kind: OutputKind|
                (#[trigger] registry@.outputs.contains_key(output_name(kind)) <==> kind
                    == OutputKind::Stream || kind == OutputKind::File) && (
                registry@.outputs.contains_key(output_name(kind)) ==> registry@.outputs[output_name(
                    kind,
                )] == kind) by {
                lemma_output_names_differ(kind, OutputKind::Stream);
                lemma_output_names_differ(kind, OutputKind::File);
            }
        }
        registry
    }

    /// Registers a kind of source under its name.
    pub fn add_source(&mut self, kind: SourceKind)
        ensures
            final(self)@.sources == old(self)@.sources.insert(source_name(kind), kind),
            final(self)@.outputs == old(self)@.outputs,
    {
        self.sources.push((source_ty(kind).to_owned(), kind));
        assert(self.sources@.drop_last() =~= old(self).sources@);
    }

    /// Registers a kind of sink under its name.
    pub fn add_output(&mut self, kind: OutputKind)
        ensures
            final(self)@.outputs == old(self)@.outputs.insert(output_name(kind), kind),
            final(self)@.sources == old(self)@.sources,
    {
        self.outputs.push((output_ty(kind).to_owned(), kind));
        assert(self.outputs@.drop_last() =~= old(self).outputs@);
    }

    /// The name of the component that `cfg` asks for.
    pub fn ty(cfg: &Json) -> (name: Result<&str, AssemblyError>)
        ensures
            match name {
                Ok(name) => type_of(cfg@) == Some(name@),
                Err(error) => type_of(cfg@).is_none() && error@ == AssemblyErrorView::MissingType,
            },
    {
        match cfg.lookup("type") {
            Some(Json::Str(name)) => Ok(name.as_str()),
            _ => Err(AssemblyError::MissingType),
        }
    }

    /// The source that `cfg` describes.
    pub fn source(&self, cfg: &Json) -> (made: Result<Input, AssemblyError>)
        ensures
            match made {
                Ok(source) => resolve_source(self@, cfg@) == Ok::<InputView, AssemblyErrorView>(
                    source@,
                ),
                Err(error) => resolve_source(self@, cfg@) == Err::<InputView, AssemblyErrorView>(
                    error@,
                ),
            },
    {
        let name = match Registry::ty(cfg) {
            Ok(name) => name,
            Err(error) => {
                return Err(error);
            },
        };
        let kind = match find(&self.sources, name) {
            Some(kind) => kind,
            None => {
                return Err(AssemblyError::UnknownType(name.to_owned()));
            },
        };
        let made = match kind {
            SourceKind::Stdin => StdinSource::run(cfg),
            SourceKind::Udp => UdpSource::run(cfg),
            SourceKind::Tcp => TcpSource::run(cfg),
            SourceKind::Random => Random::run(cfg),
        };
        match made {
            Ok(source) => Ok(source),
            Err(cause) => Err(AssemblyError::FactoryFailed(name.to_owned(), cause)),
        }
    }

    /// The sink that `cfg` describes.
    pub fn output(&self, cfg: &Json) -> (made: Result<Sink, AssemblyError>)
        ensures
            match made {
                Ok(sink) => resolve_output(self@, cfg@) == Ok::<SinkView, AssemblyErrorView>(sink@),
                Err(error) => resolve_output(self@, cfg@) == Err::<SinkView, AssemblyErrorView>(
                    error@,
                ),
            },
    {
        let name = match Registry::ty(cfg) {
            Ok(name) => name,
            Err(error) => {
                return Err(error);
            },
        };
        let kind = match find(&self.outputs, name) {
            Some(kind) => kind,
            None => {
                return Err(AssemblyError::UnknownType(name.to_owned()));
            },
        };
        let made = match kind {
            OutputKind::Stream => <Stream as OutputFactory>::from(cfg),
            OutputKind::File => <FileOutput as OutputFactory>::from(cfg),
            OutputKind::Null => <Null as OutputFactory>::from(cfg),
            OutputKind::Dev => <Dev as OutputFactory>::from(cfg),
        };
        match made {
            Ok(sink) => Ok(sink),
            Err(cause) => Err(AssemblyError::FactoryFailed(name.to_owned(), cause)),
        }
    }
}

} // verus!
