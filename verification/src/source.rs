//! Batches as they come off the buffer, before any decoding.
use vstd::prelude::*;

verus! {

/// One producer entry of a batch: an opaque payload, the metadata header that
/// describes it, and the time at which it was taken in.
#[derive(Debug)]
pub struct SourceEntry {
    pub entry_index: u32,
    pub raw_bytes: Vec<u8>,
    pub raw_metadata: Vec<u8>,
    pub ingestion_time_ms: i64,
}

/// An entry of a [`RawBufferBatch`].
pub type RawEntry = SourceEntry;

/// A batch of entries read under one buffer sequence.
#[derive(Debug)]
pub struct RawBufferBatch {
    pub sequence: u64,
    pub manifest_path: String,
    pub data_object_path: String,
    pub entries: Vec<RawEntry>,
}

/// A batch together with the name of the source that produced it.
#[derive(Debug)]
pub struct SourceBatch {
    pub source: String,
    pub sequence: u64,
    pub manifest_path: String,
    pub data_object_path: String,
    pub entries: Vec<SourceEntry>,
}

} // verus!
