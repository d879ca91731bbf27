//! Search-side rules: limits and deadlines, score encoding, pruning and
//! reduction heuristics, and their tuned parameters.
pub mod alphabeta;
pub mod control;
pub mod driver;
pub mod limits;
pub mod node;
pub mod picker;
pub mod qnode;
pub mod qsearch;
pub mod root;
pub mod selectivity;
pub mod telemetry;
pub mod tune;
pub mod types;
