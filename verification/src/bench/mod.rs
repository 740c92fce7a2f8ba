//! The correctness and throughput benches of the pipeline.
use vstd::prelude::*;

pub mod artifacts;
pub mod calendar;
pub mod checks;
pub mod clickhouse_fixture;
pub mod fixtures;
pub mod json_tree;
pub mod matrix;
pub mod options;
pub mod output;
pub mod protocol;
pub mod real_ch;
pub mod real_sink;
pub mod scenarios;
pub mod scripted_sink;
pub mod stage;
pub mod stage_latencies;
pub mod statistics;
pub mod workload;

verus! {

} // verus!
