//! Durable, replayable execution of long-running workflows.
//!
//! A run's history is an append-only event log kept by a [`Backend`](backends::Backend).
//! Operations handed to the host are tracked by the correlation bridge
//! ([`Host`](host::Host)); the pure transformations that wait for their
//! results are kept by the continuation [`Registry`](promise::Registry).

pub mod backends;
pub mod correlation;
pub mod error;
pub mod host;
pub mod json;
pub mod promise;
pub mod protocol;
pub mod replay;
pub mod table;
pub mod transform;
pub mod utils;
pub mod value;

use vstd::prelude::*;

verus! {

/// The guest: the type on which the entry points of the engine stand.
pub struct Substantial;

} // verus!
