//! Verified core of an NNUE chess evaluator and its search heuristics.
use vstd::prelude::*;

pub mod accumulator;
pub mod arith;
pub mod board;
pub mod chess;
pub mod constants;
pub mod context;
pub mod eval;
pub mod evaluate;
pub mod features;
pub mod finny;
pub mod layers;
pub mod layout;
pub mod loader;
pub mod network;
pub mod pipeline;
pub mod refresh;
pub mod transform;
pub mod update;
pub mod search;

verus! {

} // verus!
