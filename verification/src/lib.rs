//! OTLP log ingestion into ClickHouse.
use vstd::prelude::*;

pub mod adapter;
pub mod attributes;
pub mod bench;
pub mod commit_group;
pub mod digest;
pub mod envelope;
pub mod error;
pub mod logs;
pub mod logs_adapter;
pub mod metrics;
pub mod otlp;
pub mod runtime;
pub mod serializer;
pub mod signal;
pub mod sink;
pub mod source;
pub mod text;
pub mod time;
pub mod writer;

verus! {

} // verus!
