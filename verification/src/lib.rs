//! Zenlog: the rules of a log-and-event routing daemon.
//!
//! Everything here is a decision: what a record holds, what a template
//! renders, which component a configuration names, which sinks a record
//! reaches and in what order, what a reload keeps. The daemon around this
//! library reads, sleeps, binds and writes; it asks the library what to do
//! next and performs the answer.

pub mod codec;
pub mod color;
pub mod component;
pub mod config;
pub mod json;
pub mod logging;
pub mod output;
pub mod pipeline;
pub mod record;
pub mod registry;
pub mod runtime;
pub mod source;
pub mod template;
pub mod text;

pub use crate::config::RuntimeConfig;
pub use crate::registry::Registry;
pub use crate::runtime::Runtime;

use vstd::prelude::*;

verus! {

/// One routed event.
pub type Record = crate::json::Json;

/// What one component is configured with: a mapping with a `type`.
pub type Config = crate::json::Json;

} // verus!
