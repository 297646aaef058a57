//! What the daemon is told to run.

use vstd::prelude::*;
use crate::json::{clone_values, values_view, Json, JsonView};

verus! {

/// One pipeline: the configurations of its sources and of its outputs. Each
/// is a mapping with a `type`, and whatever else that type reads.
#[derive(Debug, PartialEq)]
pub struct PipeConfig {
    sources: Vec<Json>,
    outputs: Vec<Json>,
}

/// What a [`PipeConfig`] is.
pub struct PipeConfigView {
    pub sources: Seq<JsonView>,
    pub outputs: Seq<JsonView>,
}

impl View for PipeConfig {
    type V = PipeConfigView;

    closed spec fn view(&self) -> PipeConfigView {
        PipeConfigView { sources: values_view(self.sources@), outputs: values_view(self.outputs@) }
    }
}

impl PipeConfig {
    pub fn new(sources: Vec<Json>, outputs: Vec<Json>) -> (config: PipeConfig)
        ensures
            config@.sources == values_view(sources@),
            config@.outputs == values_view(outputs@),
    {
        PipeConfig { sources, outputs }
    }

    pub fn sources(&self) -> (sources: &Vec<Json>)
        ensures
            values_view(sources@) == self@.sources,
    {
        &self.sources
    }

    pub fn outputs(&self) -> (outputs: &Vec<Json>)
        ensures
            values_view(outputs@) == self@.outputs,
    {
        &self.outputs
    }
}

/// The whole configuration: how much the daemon logs of itself, and its
/// pipelines.
#[derive(Debug, PartialEq)]
pub struct RuntimeConfig {
    /// Logging severity.
    severity: usize,
    /// Generic pipelines config.
    pipelines: Vec<PipeConfig>,
}

/// What a [`RuntimeConfig`] is.
pub struct RuntimeConfigView {
    pub severity: usize,
    pub pipelines: Seq<PipeConfigView>,
}

/// The views of `pipelines`, in order.
pub open spec fn pipelines_view(pipelines: Seq<PipeConfig>) -> Seq<PipeConfigView> {
    pipelines.map_values(|pipeline: PipeConfig| pipeline@)
}

impl View for RuntimeConfig {
    type V = RuntimeConfigView;

    closed spec fn view(&self) -> RuntimeConfigView {
        RuntimeConfigView { severity: self.severity, pipelines: pipelines_view(self.pipelines@) }
    }
}

/// Why a value is no configuration.
#[derive(Clone, Copy, Debug, PartialEq, Eq, Structural)]
pub enum ConfigError {
    /// `severity` is missing, or no number that a `usize` holds.
    Severity,
    /// `pipelines` is missing, or no sequence.
    Pipelines,
    /// The pipeline at this place lacks `sources` or `outputs`, or one of
    /// them is no sequence.
    Pipeline(usize),
}

/// The sequence under `name` in `value`.
pub open spec fn sequence_field(value: JsonView, name: Seq<char>) -> Option<Seq<JsonView>> {
    match value.lookup(name) {
        Some(JsonView::Array(items)) => Some(items),
        _ => None,
    }
}

/// The pipeline that `value` describes: its `sources` and its `outputs`
/// have to be sequences.
pub open spec fn pipe_config_of(value: JsonView) -> Option<PipeConfigView> {
    match (sequence_field(value, "sources"@), sequence_field(value, "outputs"@)) {
        (Some(sources), Some(outputs)) => Some(PipeConfigView { sources, outputs }),
        _ => None,
    }
}

/// The severity that `value` sets.
pub open spec fn severity_of(value: JsonView) -> Option<usize> {
    match value.lookup("severity"@) {
        Some(JsonView::Int(i)) => if 0 <= i <= usize::MAX {
            Some(i as usize)
        } else {
            None
        },
        Some(JsonView::UInt(u)) => if u <= usize::MAX {
            Some(u as usize)
        } else {
            None
        },
        _ => None,
    }
}

/// The pipelines that the first `count` of `items` describe, or the place
/// of the first that describes none.
pub open spec fn pipe_configs_of(items: Seq<JsonView>, count: int) -> Result<
    Seq<PipeConfigView>,
    ConfigError,
>
    decreases count,
{
    if count <= 0 {
        Ok(seq![])
    } else {
        match pipe_configs_of(items, count - 1) {
            Err(error) => Err(error),
            Ok(pipelines) => match pipe_config_of(items[count - 1]) {
                Some(pipeline) => Ok(pipelines.push(pipeline)),
                None => Err(ConfigError::Pipeline((count - 1) as usize)),
            },
        }
    }
}

/// The configuration that `value` describes: a mapping with a `severity`
/// and `pipelines`.
pub open spec fn runtime_config_of(value: JsonView) -> Result<RuntimeConfigView, ConfigError> {
    match severity_of(value) {
        None => Err(ConfigError::Severity),
        Some(severity) => match sequence_field(value, "pipelines"@) {
            None => Err(ConfigError::Pipelines),
            Some(items) => match pipe_configs_of(items, items.len() as int) {
                Err(error) => Err(error),
                Ok(pipelines) => Ok(RuntimeConfigView { severity, pipelines }),
            },
        },
    }
}

/// The sequence under `name` in `value`, copied.
fn get_sequence(value: &Json, name: &str) -> (items: Option<Vec<Json>>)
    ensures
        match items {
            Some(items) => sequence_field(value@, name@) == Some(values_view(items@)),
            None => sequence_field(value@, name@).is_none(),
        },
{
    match value.lookup(name) {
        Some(Json::Array(items)) => {
            let copy = clone_values(items);
            assert(values_view(items@) =~= value@.lookup(name@)->0->Array_0);
            Some(copy)
        },
        _ => None,
    }
}

impl PipeConfig {
    /// The pipeline that `value` describes.
    pub fn from_value(value: &Json) -> (config: Option<PipeConfig>)
        ensures
            match config {
                Some(config) => pipe_config_of(value@) == Some(config@),
                None => pipe_config_of(value@).is_none(),
            },
    {
        let sources = match get_sequence(value, "sources") {
            Some(sources) => sources,
            None => {
                return None;
            },
        };
        let outputs = match get_sequence(value, "outputs") {
            Some(outputs) => outputs,
            None => {
                return None;
            },
        };
        Some(PipeConfig::new(sources, outputs))
    }
}

impl RuntimeConfig {
    pub fn new(severity: usize, pipelines: Vec<PipeConfig>) -> (config: RuntimeConfig)
        ensures
            config@.severity == severity,
            config@.pipelines == pipelines_view(pipelines@),
    {
        RuntimeConfig { severity, pipelines }
    }

    /// The configuration that `value` describes.
    pub fn from_value(value: &Json) -> (config: Result<RuntimeConfig, ConfigError>)
        ensures
            match config {
                Ok(config) => runtime_config_of(value@) == Ok::<RuntimeConfigView, ConfigError>(
                    config@,
                ),
                Err(error) => runtime_config_of(value@) == Err::<RuntimeConfigView, ConfigError>(
                    error,
                ),
            },
    {
        let severity: usize = match value.lookup("severity") {
            Some(Json::Int(i)) => if 0 <= *i && *i as u64 <= usize::MAX as u64 {
                *i as usize
            } else {
                return Err(ConfigError::Severity);
            },
            Some(Json::UInt(u)) => if *u <= usize::MAX as u64 {
                *u as usize
            } else {
                return Err(ConfigError::Severity);
            },
            _ => {
                return Err(ConfigError::Severity);
            },
        };
        let items = match value.lookup("pipelines") {
            Some(Json::Array(items)) => items,
            _ => {
                return Err(ConfigError::Pipelines);
            },
        };
        let ghost views = value@.lookup("pipelines"@)->0->Array_0;
        assert(views =~= values_view(items@));
        let mut pipelines: Vec<PipeConfig> = Vec::new();
        let mut i: usize = 0;
        assert(pipelines_view(pipelines@) =~= seq![]);
        while i < items.len()
            invariant
                i <= items.len(),
                views == values_view(items@),
                severity_of(value@) == Some(severity),
                sequence_field(value@, "pipelines"@) == Some(views),
                pipe_configs_of(views, i as int) == Ok::<Seq<PipeConfigView>, ConfigError>(
                    pipelines_view(pipelines@),
                ),
            decreases items.len() - i,
        {
            match PipeConfig::from_value(&items[i]) {
                Some(pipeline) => {
                    let ghost before = pipelines@;
                    pipelines.push(pipeline);
                    assert(pipelines_view(pipelines@) =~= pipelines_view(before).push(pipeline@));
                },
                None => {
                    proof {
                        assert(views[i as int] == items[i as int]@);
                        assert(pipe_configs_of(views, i as int + 1).is_err());
                        lemma_first_bad_pipeline_stays(views, i as int + 1, items.len() as int);
                    }
                    return Err(ConfigError::Pipeline(i));
                },
            }
            i += 1;
        }
        Ok(RuntimeConfig::new(severity, pipelines))
    }

    /// The pipelines, handed over.
    pub fn into_pipelines(self) -> (pipelines: Vec<PipeConfig>)
        ensures
            pipelines_view(pipelines@) == self@.pipelines,
    {
        self.pipelines
    }

    pub fn severity(&self) -> (severity: usize)
        ensures
            severity == self@.severity,
    {
        self.severity
    }

    pub fn pipelines(&self) -> (pipelines: &Vec<PipeConfig>)
        ensures
            pipelines_view(pipelines@) == self@.pipelines,
    {
        &self.pipelines
    }
}

/// Once a pipeline among the first `count` describes none, looking at more
/// of them reports the same one.
proof fn lemma_first_bad_pipeline_stays(items: Seq<JsonView>, count: int, more: int)
    requires
        0 <= count <= more,
        pipe_configs_of(items, count).is_err(),
    ensures
        pipe_configs_of(items, more) == pipe_configs_of(items, count),
    decreases more - count,
{
    if count < more {
        lemma_first_bad_pipeline_stays(items, count, more - 1);
    }
}

} // verus!
