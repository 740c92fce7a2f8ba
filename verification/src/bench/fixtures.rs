//! Decoders and payloads of the in-memory scenarios.
use vstd::prelude::*;

use crate::envelope::MetadataEnvelope;
use crate::runtime::{
    BatchStats, DecodedBatch, DecodedRecords, Decoder, ForeignRecords, RuntimeError, SchemaVersion,
    SourceCoordinateColumns, TypedSchema,
};
use crate::source::SourceBatch;
use crate::text;
use crate::text::{owned, push_decimal};

verus! {

/// The header of a payload of logs in OTLP protobuf.
pub fn logs_envelope() -> (r: Vec<u8>)
    ensures
        r@ == seq![1u8, 2u8, 1u8, 0u8],
{
    let mut r: Vec<u8> = Vec::new();
    r.push(1);
    r.push(2);
    r.push(1);
    r.push(0);
    assert(r@ =~= seq![1u8, 2u8, 1u8, 0u8]);
    r
}

/// The payload of the `index`th batch of a scenario.
pub fn payload_text(index: u64) -> (r: String)
    ensures
        r@ == "payload-"@ + text::decimal(index as nat),
{
    let mut out = owned("payload-");
    push_decimal(&mut out, index);
    out
}

/// The schema of a batch of a scenario.
pub open spec fn is_schema(schema: TypedSchema, name: &'static str) -> bool {
    schema.name@ == name@ && schema.version == SchemaVersion(1)
}

/// What records of 16 bytes each take up, as far as it can be counted.
pub open spec fn fake_bytes(count: nat) -> nat {
    if count * 16 <= usize::MAX {
        count * 16
    } else {
        usize::MAX as nat
    }
}

/// Records without contents, of 16 bytes each.
#[derive(Debug)]
pub struct FakeRecords {
    schema: TypedSchema,
    count: usize,
}

impl FakeRecords {
    /// How many records there are.
    pub closed spec fn count(&self) -> usize {
        self.count
    }

    pub closed spec fn wf(&self) -> bool {
        is_schema(self.schema, "bench.fake.v1")
    }

    pub fn new(count: usize) -> (r: Self)
        ensures
            r.wf(),
            r.count() == count,
    {
        FakeRecords {
            schema: TypedSchema { name: owned("bench.fake.v1"), version: SchemaVersion(1) },
            count,
        }
    }

    pub fn record_count(&self) -> (r: usize)
        ensures
            r == self.count(),
    {
        self.count
    }

    pub fn estimated_bytes(&self) -> (r: usize)
        ensures
            r == fake_bytes(self.count() as nat),
    {
        if self.count <= usize::MAX / 16 {
            self.count * 16
        } else {
            usize::MAX
        }
    }

    pub fn schema(&self) -> (r: &TypedSchema)
        requires
            self.wf(),
        ensures
            is_schema(*r, "bench.fake.v1"),
    {
        &self.schema
    }

    /// The records as any sink knows them.
    pub fn into_foreign(self) -> (r: ForeignRecords)
        requires
            self.wf(),
        ensures
            is_schema(r.schema, "bench.fake.v1"),
            r.record_count == self.count(),
            r.estimated_bytes == fake_bytes(self.count() as nat),
    {
        let estimated_bytes: usize = self.estimated_bytes();
        ForeignRecords { schema: self.schema, record_count: self.count, estimated_bytes }
    }
}

/// Records without contents that claim a given size.
#[derive(Debug)]
pub struct LargeRecords {
    schema: TypedSchema,
    count: usize,
    bytes: usize,
}

impl LargeRecords {
    /// How many records there are.
    pub closed spec fn count(&self) -> usize {
        self.count
    }

    /// The size that they claim.
    pub closed spec fn bytes(&self) -> usize {
        self.bytes
    }

    pub closed spec fn wf(&self) -> bool {
        is_schema(self.schema, "bench.large.v1")
    }

    pub fn new(count: usize, bytes: usize) -> (r: Self)
        ensures
            r.wf(),
            r.count() == count,
            r.bytes() == bytes,
    {
        LargeRecords {
            schema: TypedSchema { name: owned("bench.large.v1"), version: SchemaVersion(1) },
            count,
            bytes,
        }
    }

    pub fn record_count(&self) -> (r: usize)
        ensures
            r == self.count(),
    {
        self.count
    }

    pub fn estimated_bytes(&self) -> (r: usize)
        ensures
            r == self.bytes(),
    {
        self.bytes
    }

    pub fn schema(&self) -> (r: &TypedSchema)
        requires
            self.wf(),
        ensures
            is_schema(*r, "bench.large.v1"),
    {
        &self.schema
    }

    /// The records as any sink knows them.
    pub fn into_foreign(self) -> (r: ForeignRecords)
        requires
            self.wf(),
        ensures
            is_schema(r.schema, "bench.large.v1"),
            r.record_count == self.count(),
            r.estimated_bytes == self.bytes(),
    {
        ForeignRecords {
            schema: self.schema,
            record_count: self.count,
            estimated_bytes: self.bytes,
        }
    }
}

/// Whether the columns hold one row per entry. Entries are numbered in 32 bits.
pub open spec fn one_row_per_entry(batch: SourceBatch, columns: SourceCoordinateColumns) -> bool {
    let n = batch.entries@.len();
    &&& columns.manifest_path@ == batch.manifest_path@
    &&& columns.data_path@ == batch.data_object_path@
    &&& columns.sequences@ == Seq::new(n, |i: int| batch.sequence)
    &&& columns.entry_indices@ == Seq::new((n as u32) as nat, |i: int| i as u32)
    &&& columns.record_indices@ == Seq::new(n, |i: int| 0u32)
    &&& columns.ingestion_time_ms@ == Seq::new(n, |i: int| batch.entries@[i].ingestion_time_ms)
}

fn entry_columns(batch: &SourceBatch) -> (r: SourceCoordinateColumns)
    ensures
        one_row_per_entry(*batch, r),
{
    let n: usize = batch.entries.len();
    let mut sequences: Vec<u64> = Vec::new();
    let mut record_indices: Vec<u32> = Vec::new();
    let mut ingestion_time_ms: Vec<i64> = Vec::new();
    let mut i: usize = 0;
    while i < n
        invariant
            i <= n == batch.entries@.len(),
            sequences@ == Seq::new(i as nat, |j: int| batch.sequence),
            record_indices@ == Seq::new(i as nat, |j: int| 0u32),
            ingestion_time_ms@ == Seq::new(
                i as nat,
                |j: int| batch.entries@[j].ingestion_time_ms,
            ),
        decreases n - i,
    {
        sequences.push(batch.sequence);
        record_indices.push(0);
        ingestion_time_ms.push(batch.entries[i].ingestion_time_ms);
        i = i + 1;
        assert(sequences@ =~= Seq::new(i as nat, |j: int| batch.sequence));
        assert(record_indices@ =~= Seq::new(i as nat, |j: int| 0u32));
        assert(ingestion_time_ms@ =~= Seq::new(
            i as nat,
            |j: int| batch.entries@[j].ingestion_time_ms,
        ));
    }
    let count: u32 = #[verifier::truncate]
    (n as u32);
    let mut entry_indices: Vec<u32> = Vec::new();
    let mut k: u32 = 0;
    while k < count
        invariant
            k <= count,
            entry_indices@ == Seq::new(k as nat, |j: int| j as u32),
        decreases count - k,
    {
        entry_indices.push(k);
        k = k + 1;
        assert(entry_indices@ =~= Seq::new(k as nat, |j: int| j as u32));
    }
    SourceCoordinateColumns {
        manifest_path: owned(batch.manifest_path.as_str()),
        data_path: owned(batch.data_object_path.as_str()),
        sequences,
        entry_indices,
        record_indices,
        ingestion_time_ms,
    }
}

/// Whether a decoded batch is that of a source batch, under a schema and a size.
pub open spec fn stands_for(
    batch: SourceBatch,
    schema: &'static str,
    bytes: nat,
    d: DecodedBatch,
) -> bool {
    &&& d.source@ == batch.source@
    &&& d.low_sequence == batch.sequence
    &&& d.high_sequence == batch.sequence
    &&& d.source_entry_count == batch.entries@.len() as u32
    &&& d.records matches DecodedRecords::Foreign(records) && is_schema(records.schema, schema)
        && records.record_count == batch.entries@.len() && records.estimated_bytes == bytes
    &&& one_row_per_entry(batch, d.source_columns)
    &&& d.stats == BatchStats { source_byte_count: 0, decoded_byte_estimate: bytes as u64 }
    &&& d.schema_version == SchemaVersion(1)
}

fn decoded(batch: SourceBatch, records: ForeignRecords) -> (r: DecodedBatch)
    requires
        records.record_count == batch.entries@.len(),
    ensures
        forall|name: &'static str|
            is_schema(records.schema, name) ==> #[trigger] stands_for(
                batch,
                name,
                records.estimated_bytes as nat,
                r,
            ),
{
    let source_columns = entry_columns(&batch);
    let source_entry_count: u32 = #[verifier::truncate]
    (batch.entries.len() as u32);
    let decoded_byte_estimate: u64 = records.estimated_bytes as u64;
    DecodedBatch {
        source: batch.source,
        low_sequence: batch.sequence,
        high_sequence: batch.sequence,
        source_entry_count,
        records: DecodedRecords::Foreign(records),
        source_columns,
        stats: BatchStats { source_byte_count: 0, decoded_byte_estimate },
        schema_version: SchemaVersion(1),
    }
}

/// Turns every source batch into one batch of the size that it is told.
#[derive(Debug)]
pub struct LargeDecoder {
    pub bytes_per_batch: usize,
}

impl Decoder for LargeDecoder {
    fn accepts(&self, envelope: &MetadataEnvelope) -> (r: bool)
        ensures
            r,
    {
        true
    }

    fn decode(&self, batch: SourceBatch) -> (r: Result<Vec<DecodedBatch>, RuntimeError>)
        ensures
            r is Ok,
            r->Ok_0@.len() == 1,
            stands_for(batch, "bench.large.v1", self.bytes_per_batch as nat, r->Ok_0@[0]),
    {
        let records = LargeRecords::new(batch.entries.len(), self.bytes_per_batch).into_foreign();
        let mut out: Vec<DecodedBatch> = Vec::new();
        out.push(decoded(batch, records));
        Ok(out)
    }
}

/// Turns every source batch into one batch, whatever it holds.
#[derive(Debug)]
pub struct FakeDecoder;

impl Decoder for FakeDecoder {
    fn accepts(&self, envelope: &MetadataEnvelope) -> (r: bool)
        ensures
            r,
    {
        true
    }

    fn decode(&self, batch: SourceBatch) -> (r: Result<Vec<DecodedBatch>, RuntimeError>)
        ensures
            r is Ok,
            r->Ok_0@.len() == 1,
            stands_for(batch, "bench.fake.v1", fake_bytes(batch.entries@.len()), r->Ok_0@[0]),
    {
        let records = FakeRecords::new(batch.entries.len()).into_foreign();
        let mut out: Vec<DecodedBatch> = Vec::new();
        out.push(decoded(batch, records));
        Ok(out)
    }
}

/// A batch of a scenario stands for the sequence and the entries that it was made of:
/// one record each, under the coordinates of its entry.
pub proof fn law_batch_stands_for_its_entries(
    batch: SourceBatch,
    schema: &'static str,
    bytes: nat,
    d: DecodedBatch,
    i: int,
)
    requires
        stands_for(batch, schema, bytes, d),
        0 <= i < batch.entries@.len() <= u32::MAX,
    ensures
        d.source@ == batch.source@,
        d.low_sequence == batch.sequence,
        d.high_sequence == batch.sequence,
        d.source_entry_count == batch.entries@.len(),
        d.source_columns.manifest_path@ == batch.manifest_path@,
        d.source_columns.data_path@ == batch.data_object_path@,
        d.source_columns.sequences@.len() == batch.entries@.len(),
        d.source_columns.sequences@[i] == batch.sequence,
        d.source_columns.entry_indices@.len() == batch.entries@.len(),
        d.source_columns.entry_indices@[i] == i,
        d.source_columns.record_indices@.len() == batch.entries@.len(),
        d.source_columns.record_indices@[i] == 0,
        d.source_columns.ingestion_time_ms@.len() == batch.entries@.len(),
        d.source_columns.ingestion_time_ms@[i] == batch.entries@[i].ingestion_time_ms,
        d.records is Foreign,
        d.records->Foreign_0.record_count == batch.entries@.len(),
        d.records->Foreign_0.estimated_bytes == bytes,
        d.records->Foreign_0.schema.name@ == schema@,
{
}

/// A record without contents counts 16 bytes, as long as that can be counted.
pub proof fn law_sizes_add_up(count: nat)
    ensures
        fake_bytes(0) == 0,
        fake_bytes(count + 1) <= usize::MAX,
        fake_bytes(count + 1) < usize::MAX ==> fake_bytes(count + 1) == fake_bytes(count) + 16,
        16 * count <= usize::MAX ==> fake_bytes(count) == 16 * count,
{
}

} // verus!
