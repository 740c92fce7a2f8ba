//! What passes between the pipeline stages: decoded batches on their way to a
//! sink, the identity under which they are committed, and what a sink answers.
use vstd::prelude::*;

use crate::envelope::MetadataEnvelope;
use crate::logs::{OtelDecodeError, TypedDecodedLogs};
use crate::source::SourceBatch;
use crate::text::owned;

verus! {

/// Why a pipeline stage failed.
#[derive(Debug)]
pub enum RuntimeError {
    Decoder(OtelDecodeError),
}

/// Version of a record schema.
#[derive(Debug, Clone, Copy, PartialEq, Eq, Structural)]
pub struct SchemaVersion(pub u32);

/// Name and version of a record schema.
#[derive(Debug)]
pub struct TypedSchema {
    pub name: String,
    pub version: SchemaVersion,
}

/// The source coordinates of the rows of a batch, column by column.
#[derive(Debug)]
pub struct SourceCoordinateColumns {
    pub manifest_path: String,
    pub data_path: String,
    pub sequences: Vec<u64>,
    pub entry_indices: Vec<u32>,
    pub record_indices: Vec<u32>,
    pub ingestion_time_ms: Vec<i64>,
}

/// Sizes of a batch.
#[derive(Debug, Clone, Copy, PartialEq, Eq, Structural)]
pub struct BatchStats {
    pub source_byte_count: u64,
    pub decoded_byte_estimate: u64,
}

/// Records of which only the schema and the size are known.
#[derive(Debug)]
pub struct ForeignRecords {
    pub schema: TypedSchema,
    pub record_count: usize,
    pub estimated_bytes: usize,
}

/// The records of a batch: log records, or those of another decoder.
#[derive(Debug)]
pub enum DecodedRecords {
    Logs(TypedDecodedLogs),
    Foreign(ForeignRecords),
}

/// The decoded records of a range of source sequences.
#[derive(Debug)]
pub struct DecodedBatch {
    pub source: String,
    pub low_sequence: u64,
    pub high_sequence: u64,
    pub source_entry_count: u32,
    pub records: DecodedRecords,
    pub source_columns: SourceCoordinateColumns,
    pub stats: BatchStats,
    pub schema_version: SchemaVersion,
}

/// Turns source batches into decoded batches.
pub trait Decoder {
    /// Whether the decoder takes payloads under an envelope.
    fn accepts(&self, envelope: &MetadataEnvelope) -> bool;

    fn decode(&self, batch: SourceBatch) -> Result<Vec<DecodedBatch>, RuntimeError>;
}

/// An inclusive range of source sequences.
#[derive(Debug, Clone, Copy, PartialEq, Eq, Structural)]
pub struct SequenceRange {
    pub low: u64,
    pub high: u64,
}

impl SequenceRange {
    pub fn new(low: u64, high: u64) -> (r: Self)
        ensures
            r.low == low,
            r.high == high,
    {
        SequenceRange { low, high }
    }
}

/// What a commit is known by across retries.
#[derive(Debug)]
pub struct CommitIdentity {
    pub source: String,
    pub sink: String,
    pub range: SequenceRange,
    pub schema_version: SchemaVersion,
}

/// The values of an identity.
pub struct IdentityView {
    pub source: Seq<char>,
    pub sink: Seq<char>,
    pub range: SequenceRange,
    pub schema_version: SchemaVersion,
}

impl View for CommitIdentity {
    type V = IdentityView;

    open spec fn view(&self) -> IdentityView {
        IdentityView {
            source: self.source@,
            sink: self.sink@,
            range: self.range,
            schema_version: self.schema_version,
        }
    }
}

impl Clone for CommitIdentity {
    fn clone(&self) -> (r: Self)
        ensures
            r@ == self@,
    {
        CommitIdentity {
            source: owned(self.source.as_str()),
            sink: owned(self.sink.as_str()),
            range: self.range,
            schema_version: self.schema_version,
        }
    }
}

/// One unit of work for a sink.
#[derive(Debug)]
pub struct SinkCommit {
    pub identity: CommitIdentity,
    pub batch: DecodedBatch,
}

/// What a sink wrote.
#[derive(Debug, Clone, Copy, PartialEq, Eq, Structural)]
pub struct SinkCommitResult {
    /// How much was written. Despite the name, the ClickHouse sink counts the
    /// cells of the rows here, not their bytes.
    pub bytes_written: u64,
    pub rows_written: u64,
}

/// Why a sink did not report success. After `NotCommitted` nothing was written,
/// after `MaybeCommitted` something may have been, and `Fatal` is not to be
/// tried again.
#[derive(Debug)]
pub enum SinkCommitFailure {
    NotCommitted(String),
    MaybeCommitted(String),
    Fatal(String),
}

/// Whether a commit is known to have reached the sink.
#[derive(Debug, Clone, Copy, PartialEq, Eq, Structural)]
pub enum CommitStatus {
    Committed,
    NotCommitted,
    Unknown,
}

} // verus!
