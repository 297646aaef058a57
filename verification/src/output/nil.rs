//! The sink that drops everything.

use vstd::prelude::*;
use crate::component::{FactoryError, FactoryErrorView};
use crate::json::{Json, JsonView};
use crate::output::{Effect, EffectView, Output, OutputFactory, Sink, SinkView};

verus! {

/// Takes every record and does nothing with it.
#[derive(Clone, Copy, Debug, PartialEq, Eq, Structural)]
pub struct Null;

impl Output for Null {
    open spec fn effects(&self, record: JsonView) -> Seq<EffectView> {
        seq![]
    }

    open spec fn reopens(&self) -> bool {
        false
    }

    fn handle(&self, _record: &Json) -> (effects: Vec<Effect>) {
        let effects: Vec<Effect> = Vec::new();
        assert(crate::output::effects_view(effects@) =~= seq![]);
        effects
    }

    fn hup(&self) -> (wanted: bool) {
        false
    }
}

impl OutputFactory for Null {
    open spec fn name() -> Seq<char> {
        "nil"@
    }

    open spec fn made_from(cfg: JsonView) -> Result<SinkView, FactoryErrorView> {
        Ok(SinkView::Null)
    }

    fn ty() -> (name: &'static str) {
        "nil"
    }

    fn from(_cfg: &Json) -> (made: Result<Sink, FactoryError>) {
        Ok(Sink::Null(Null))
    }
}

} // verus!
