//! Orchestration core of a training session: per-artifact checkpoint
//! retention, ordered background hand-off of saves and callback events, a
//! metric dashboard, and the builder that wires them into a session.

use vstd::prelude::*;

pub mod checkpoint;
pub mod ordered;
pub mod async_checkpoint;
pub mod dashboard;
pub mod async_callback;
pub mod learner;
pub mod builder;

verus! {

} // verus!
