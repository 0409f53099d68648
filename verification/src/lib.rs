//! Structured communication, state hand-off and shared memory for
//! cooperating agents.
use vstd::prelude::*;

pub mod audit;
pub mod bench;
pub mod evaluator;
pub mod memory;
pub mod observe;
pub mod platform;
pub mod protocol;
pub mod runtime;
pub mod sandbox;
pub mod state;
pub mod text;
pub mod transport;
pub mod words;

verus! {
} // verus!
