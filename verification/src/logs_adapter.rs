//! Planner of log inserts.
//!
//! The records of a commit are put in the order of their coordinates, cut into
//! chunks, and turned into rows. Each chunk carries a deduplication token that
//! is made from the commit's range, the target, the version, a fingerprint of
//! how chunks are cut, and the number of the chunk: the same commit under the
//! same configuration always has the same tokens.
use vstd::prelude::*;
use vstd::utf8::*;

use crate::adapter;
use crate::adapter::{
    Adapter, AdapterError, AdapterResult, ClickHouseAdapterBatch, ClickHouseSettings, InsertChunk,
    RowValue,
};
use crate::attributes;
use crate::digest;
use crate::digest::{hex_text, sha256_digest};
use crate::logs::DecodedLogRecord;
use crate::otlp;
use crate::runtime::SequenceRange;
use crate::text;
use crate::text::{owned, parse_u64, push_decimal, same_text};

verus! {

/// Configuration of the planner.
#[derive(Debug)]
pub struct LogsAdapterConfig {
    pub database: String,
    pub table: String,
    pub adapter_version: u32,
    pub max_chunk_rows: usize,
    pub max_chunk_bytes: usize,
    pub insert_quorum: Option<String>,
    pub apply_deduplication_token: bool,
}

impl Default for LogsAdapterConfig {
    fn default() -> (c: Self)
        ensures
            c.database@ == "responsive"@,
            c.table@ == "logs"@,
            c.adapter_version == 1,
            c.max_chunk_rows == 100_000,
            c.max_chunk_bytes == 32 * 1024 * 1024,
            otlp::option_view(c.insert_quorum) == Some("auto"@),
            c.apply_deduplication_token,
    {
        LogsAdapterConfig {
            database: owned("responsive"),
            table: owned("logs"),
            adapter_version: 1,
            max_chunk_rows: 100_000,
            max_chunk_bytes: 32 * 1024 * 1024,
            insert_quorum: Some(owned("auto")),
            apply_deduplication_token: true,
        }
    }
}

/// What the configuration holds.
#[verifier::ext_equal]
pub struct ConfigView {
    pub database: Seq<char>,
    pub table: Seq<char>,
    pub adapter_version: u32,
    pub max_chunk_rows: usize,
    pub max_chunk_bytes: usize,
    pub insert_quorum: Option<Seq<char>>,
    pub apply_deduplication_token: bool,
}

impl View for LogsAdapterConfig {
    type V = ConfigView;

    open spec fn view(&self) -> ConfigView {
        ConfigView {
            database: self.database@,
            table: self.table@,
            adapter_version: self.adapter_version,
            max_chunk_rows: self.max_chunk_rows,
            max_chunk_bytes: self.max_chunk_bytes,
            insert_quorum: otlp::option_view(self.insert_quorum),
            apply_deduplication_token: self.apply_deduplication_token,
        }
    }
}

impl Clone for LogsAdapterConfig {
    fn clone(&self) -> (c: Self)
        ensures
            c@ == self@,
    {
        LogsAdapterConfig {
            database: owned(self.database.as_str()),
            table: owned(self.table.as_str()),
            adapter_version: self.adapter_version,
            max_chunk_rows: self.max_chunk_rows,
            max_chunk_bytes: self.max_chunk_bytes,
            insert_quorum: match &self.insert_quorum {
                Some(q) => Some(owned(q.as_str())),
                None => None,
            },
            apply_deduplication_token: self.apply_deduplication_token,
        }
    }
}

/// The resource attribute that holds the time of receipt at the gateway. It has
/// a column of its own.
pub const GATEWAY_RECEIVED_AT: &'static str = "_odb_gateway_received_at";

/// The columns of the logs table that an insert fills, in the order of the
/// cells.
pub open spec fn column_names() -> Seq<&'static str> {
    seq![
        "Timestamp",
        "ObservedTimestamp",
        "SeverityText",
        "SeverityNumber",
        "ServiceName",
        "Body",
        "ResourceAttributes",
        "LogAttributes",
        "TraceId",
        "SpanId",
        "_odb_sequence",
        "_odb_entry_index",
        "_odb_record_index",
        "_odb_manifest_path",
        "_odb_data_path",
        "_odb_ingestion_time_ms",
        "_adapter_version",
        "_odb_gateway_received_at",
    ]
}

pub fn log_columns() -> (v: Vec<&'static str>)
    ensures
        v@ == column_names(),
{
    let mut v: Vec<&'static str> = Vec::new();
    v.push("Timestamp");
    v.push("ObservedTimestamp");
    v.push("SeverityText");
    v.push("SeverityNumber");
    v.push("ServiceName");
    v.push("Body");
    v.push("ResourceAttributes");
    v.push("LogAttributes");
    v.push("TraceId");
    v.push("SpanId");
    v.push("_odb_sequence");
    v.push("_odb_entry_index");
    v.push("_odb_record_index");
    v.push("_odb_manifest_path");
    v.push("_odb_data_path");
    v.push("_odb_ingestion_time_ms");
    v.push("_adapter_version");
    v.push("_odb_gateway_received_at");
    assert(v@ =~= column_names());
    v
}

/// The time of receipt at the gateway, where the resource carries it as a
/// number.
pub open spec fn gateway_stamp(resource: Map<Seq<char>, Seq<char>>) -> Option<u64> {
    match crate::logs::lookup(resource, GATEWAY_RECEIVED_AT@) {
        Some(s) => text::parsed_u64(s),
        None => None,
    }
}

/// The resource attributes that go into their column: all but a time of receipt
/// that was read.
pub open spec fn stored_resource(resource: Map<Seq<char>, Seq<char>>) -> Map<
    Seq<char>,
    Seq<char>,
> {
    if gateway_stamp(resource) is Some {
        resource.remove(GATEWAY_RECEIVED_AT@)
    } else {
        resource
    }
}

/// A severity as an unsigned byte, stopped at the ends of its range.
pub open spec fn severity_byte(n: i32) -> u8 {
    if n < 0 {
        0
    } else if n > 255 {
        255
    } else {
        n as u8
    }
}

/// The cells of a record, in the order of the columns.
pub open spec fn row_cells(
    r: crate::logs::RecordView,
    adapter_version: u32,
) -> Seq<adapter::CellView> {
    seq![
        adapter::CellView::DateTime64Nanos(r.timestamp_unix_nano),
        adapter::CellView::DateTime64Nanos(r.observed_timestamp_unix_nano),
        adapter::CellView::LowCardinalityString(r.severity_text),
        adapter::CellView::UInt8(severity_byte(r.severity_number)),
        adapter::CellView::LowCardinalityString(
            match r.service_name {
                Some(s) => s,
                None => Seq::empty(),
            },
        ),
        adapter::CellView::String(r.body),
        adapter::CellView::StringMap(
            attributes::sorted_pairs(stored_resource(r.resource_attributes)),
        ),
        adapter::CellView::StringMap(attributes::sorted_pairs(r.log_attributes)),
        adapter::CellView::String(r.trace_id_hex),
        adapter::CellView::String(r.span_id_hex),
        adapter::CellView::UInt64(r.source.buffer_sequence),
        adapter::CellView::UInt32(r.source.entry_index),
        adapter::CellView::UInt32(r.source.record_index),
        adapter::CellView::LowCardinalityString(r.source.manifest_path),
        adapter::CellView::String(r.source.data_path),
        adapter::CellView::Int64(r.source.ingestion_time_ms),
        adapter::CellView::UInt32(adapter_version),
        adapter::CellView::NullableDateTime64Nanos(gateway_stamp(r.resource_attributes)),
    ]
}

/// The row of a record.
pub fn log_row(r: &DecodedLogRecord, adapter_version: u32) -> (row: Vec<RowValue>)
    ensures
        otlp::views(row@) == row_cells(r@, adapter_version),
{
    let stamp: Option<u64> = match r.resource_attributes.get(GATEWAY_RECEIVED_AT) {
        Some(s) => parse_u64(s),
        None => None,
    };
    let resource = if stamp.is_some() {
        r.resource_attributes.copy_without(GATEWAY_RECEIVED_AT)
    } else {
        r.resource_attributes.clone()
    };
    let severity: u8 = if r.severity_number < 0 {
        0
    } else if r.severity_number > 255 {
        255
    } else {
        r.severity_number as u8
    };
    let service = match &r.service_name {
        Some(s) => s.clone(),
        None => String::new(),
    };
    let mut row: Vec<RowValue> = Vec::new();
    row.push(RowValue::DateTime64Nanos(r.timestamp_unix_nano));
    row.push(RowValue::DateTime64Nanos(r.observed_timestamp_unix_nano));
    row.push(RowValue::LowCardinalityString(r.severity_text.clone()));
    row.push(RowValue::UInt8(severity));
    row.push(RowValue::LowCardinalityString(service));
    row.push(RowValue::String(r.body.clone()));
    row.push(RowValue::StringMap(resource));
    row.push(RowValue::StringMap(r.log_attributes.clone()));
    row.push(RowValue::String(r.trace_id_hex.clone()));
    row.push(RowValue::String(r.span_id_hex.clone()));
    row.push(RowValue::UInt64(r.source.buffer_sequence));
    row.push(RowValue::UInt32(r.source.entry_index));
    row.push(RowValue::UInt32(r.source.record_index));
    row.push(RowValue::LowCardinalityString(r.source.manifest_path.clone()));
    row.push(RowValue::String(r.source.data_path.clone()));
    row.push(RowValue::Int64(r.source.ingestion_time_ms));
    row.push(RowValue::UInt32(adapter_version));
    row.push(RowValue::NullableDateTime64Nanos(stamp));
    assert(otlp::views(row@) =~= row_cells(r@, adapter_version));
    row
}

/// The text whose digest is the chunking fingerprint: everything that decides
/// what goes into a chunk and where it goes.
pub open spec fn fingerprint_text(c: ConfigView) -> Seq<char> {
    "otlp-logs-clickhouse-adapter:v1\n"@ + "database="@ + c.database + "\n"@ + "table="@ + c.table
        + "\n"@ + "adapter_version="@ + text::decimal(c.adapter_version as nat) + "\n"@
        + "max_chunk_rows="@ + text::decimal(c.max_chunk_rows as nat) + "\n"@ + "max_chunk_bytes="@
        + text::decimal(c.max_chunk_bytes as nat) + "\n"@ + "insert_quorum="@ + quorum_text(c)
        + "\n"@
}

/// The quorum as it enters the fingerprint; no quorum is the empty text.
pub open spec fn quorum_text(c: ConfigView) -> Seq<char> {
    match c.insert_quorum {
        Some(q) => q,
        None => Seq::empty(),
    }
}

/// The chunking fingerprint: the first eight bytes of the digest, in
/// hexadecimal.
pub open spec fn fingerprint(c: ConfigView) -> Seq<char> {
    digest::hex_of(digest::sha256(encode_utf8(fingerprint_text(c))).take(8))
}

fn chunking_fingerprint(config: &LogsAdapterConfig) -> (s: String)
    ensures
        s@ == fingerprint(config@),
        s@.len() == 16,
{
    let mut out = String::from_str("otlp-logs-clickhouse-adapter:v1\n");
    out.append("database=");
    out.append(config.database.as_str());
    out.append("\n");
    out.append("table=");
    out.append(config.table.as_str());
    out.append("\n");
    out.append("adapter_version=");
    push_decimal(&mut out, config.adapter_version as u64);
    out.append("\n");
    out.append("max_chunk_rows=");
    push_decimal(&mut out, config.max_chunk_rows as u64);
    out.append("\n");
    out.append("max_chunk_bytes=");
    push_decimal(&mut out, config.max_chunk_bytes as u64);
    out.append("\n");
    out.append("insert_quorum=");
    match &config.insert_quorum {
        Some(q) => out.append(q.as_str()),
        None => {},
    }
    assert(config.insert_quorum is None ==> out@ + quorum_text(config@) =~= out@);
    out.append("\n");
    assert(out@ =~= fingerprint_text(config@));
    let mut digest = sha256_digest(out.as_str().as_bytes());
    digest.truncate(8);
    hex_text(digest.as_slice())
}

/// The deduplication token of a chunk.
pub open spec fn token_text(
    manifest_path: Seq<char>,
    c: ConfigView,
    fingerprint: Seq<char>,
    range: SequenceRange,
    chunk_index: u32,
) -> Seq<char> {
    manifest_path + ":"@ + c.database + "."@ + c.table + ":"@ + text::decimal(range.low as nat)
        + "-"@ + text::decimal(range.high as nat) + ":"@ + text::decimal(c.adapter_version as nat)
        + ":"@ + fingerprint + ":"@ + text::decimal(chunk_index as nat)
}

pub fn build_token(
    manifest_path: &str,
    config: &LogsAdapterConfig,
    fingerprint: &str,
    range: SequenceRange,
    chunk_index: u32,
) -> (s: String)
    ensures
        s@ == token_text(manifest_path@, config@, fingerprint@, range, chunk_index),
{
    let mut out = String::from_str(manifest_path);
    out.append(":");
    out.append(config.database.as_str());
    out.append(".");
    out.append(config.table.as_str());
    out.append(":");
    push_decimal(&mut out, range.low);
    out.append("-");
    push_decimal(&mut out, range.high);
    out.append(":");
    push_decimal(&mut out, config.adapter_version as u64);
    out.append(":");
    out.append(fingerprint);
    out.append(":");
    push_decimal(&mut out, chunk_index as u64);
    out
}

/// Whether record `i` comes before record `j`: by sequence, entry and record
/// number, and by position where those are the same.
pub open spec fn comes_before(records: Seq<crate::logs::RecordView>, i: int, j: int) -> bool {
    let a = records[i].source;
    let b = records[j].source;
    if a.buffer_sequence != b.buffer_sequence {
        a.buffer_sequence < b.buffer_sequence
    } else if a.entry_index != b.entry_index {
        a.entry_index < b.entry_index
    } else if a.record_index != b.record_index {
        a.record_index < b.record_index
    } else {
        i < j
    }
}

/// Whether positions are in the order of the records that they name.
pub open spec fn in_order(records: Seq<crate::logs::RecordView>, order: Seq<usize>) -> bool {
    forall|a: int, b: int|
        0 <= a < b < order.len() ==> comes_before(
            records,
            #[trigger] order[a] as int,
            #[trigger] order[b] as int,
        )
}

/// Whether `order` lists the positions `lo` to `hi`, each once, in the order of
/// the records that they name.
pub open spec fn sorted_positions(
    records: Seq<crate::logs::RecordView>,
    order: Seq<usize>,
    lo: int,
    hi: int,
) -> bool {
    &&& order.len() == hi - lo
    &&& in_order(records, order)
    &&& forall|a: int| 0 <= a < order.len() ==> lo <= #[trigger] order[a] < hi
    &&& forall|i: int| lo <= i < hi ==> #[trigger] order.contains(i as usize)
}

fn record_before(records: &Vec<DecodedLogRecord>, i: usize, j: usize) -> (b: bool)
    requires
        i < records@.len(),
        j < records@.len(),
    ensures
        b == comes_before(otlp::views(records@), i as int, j as int),
{
    let a = &records[i].source;
    let c = &records[j].source;
    if a.buffer_sequence != c.buffer_sequence {
        a.buffer_sequence < c.buffer_sequence
    } else if a.entry_index != c.entry_index {
        a.entry_index < c.entry_index
    } else if a.record_index != c.record_index {
        a.record_index < c.record_index
    } else {
        i < j
    }
}

fn merge_positions(
    records: &Vec<DecodedLogRecord>,
    left: &Vec<usize>,
    right: &Vec<usize>,
    lo: usize,
    mid: usize,
    hi: usize,
) -> (order: Vec<usize>)
    requires
        lo <= mid <= hi <= records@.len(),
        sorted_positions(otlp::views(records@), left@, lo as int, mid as int),
        sorted_positions(otlp::views(records@), right@, mid as int, hi as int),
    ensures
        sorted_positions(otlp::views(records@), order@, lo as int, hi as int),
{
    let ghost views = otlp::views(records@);
    let mut order: Vec<usize> = Vec::new();
    let mut i: usize = 0;
    let mut j: usize = 0;
    while i < left.len() || j < right.len()
        invariant
            lo <= mid <= hi <= records@.len(),
            views == otlp::views(records@),
            sorted_positions(views, left@, lo as int, mid as int),
            sorted_positions(views, right@, mid as int, hi as int),
            i <= left@.len(),
            j <= right@.len(),
            order@.len() == i + j,
            in_order(views, order@),
            forall|a: int| 0 <= a < order@.len() ==> lo <= #[trigger] order@[a] < hi,
            forall|a: int, b: int|
                0 <= a < order@.len() && i <= b < left@.len() ==> comes_before(
                    views,
                    #[trigger] order@[a] as int,
                    #[trigger] left@[b] as int,
                ),
            forall|a: int, b: int|
                0 <= a < order@.len() && j <= b < right@.len() ==> comes_before(
                    views,
                    #[trigger] order@[a] as int,
                    #[trigger] right@[b] as int,
                ),
            forall|a: int| 0 <= a < i ==> order@.contains(#[trigger] left@[a]),
            forall|b: int| 0 <= b < j ==> order@.contains(#[trigger] right@[b]),
        decreases left.len() - i + right.len() - j,
    {
        let take_left = if i < left.len() {
            if j < right.len() {
                record_before(records, left[i], right[j])
            } else {
                true
            }
        } else {
            false
        };
        let ghost before = order@;
        let next: usize = if take_left {
            left[i]
        } else {
            right[j]
        };
        order.push(next);
        proof {
            assert(order@ =~= before.push(next));
            assert forall|a: int, b: int| 0 <= a < b < order@.len() implies comes_before(
                views,
                #[trigger] order@[a] as int,
                #[trigger] order@[b] as int,
            ) by {
                if b < before.len() {
                    assert(order@[a] == before[a] && order@[b] == before[b]);
                } else {
                    assert(order@[a] == before[a]);
                }
            }
            assert forall|x: usize| before.contains(x) implies #[trigger] order@.contains(x) by {
                let k = choose|k: int| 0 <= k < before.len() && before[k] == x;
                assert(order@[k] == x);
            }
            assert(order@[before.len() as int] == next);
            assert(order@.contains(next));
        }
        if take_left {
            i = i + 1;
        } else {
            j = j + 1;
        }
        proof {
            assert forall|a: int, b: int|
                0 <= a < order@.len() && i <= b < left@.len() implies comes_before(
                views,
                #[trigger] order@[a] as int,
                #[trigger] left@[b] as int,
            ) by {
                if a < before.len() {
                    assert(order@[a] == before[a]);
                } else if take_left {
                    assert(comes_before(views, left@[i - 1] as int, left@[b] as int));
                } else {
                    assert(comes_before(views, right@[j - 1] as int, left@[i as int] as int));
                    if b > i {
                        assert(comes_before(views, left@[i as int] as int, left@[b] as int));
                    }
                }
            }
            assert forall|a: int, b: int|
                0 <= a < order@.len() && j <= b < right@.len() implies comes_before(
                views,
                #[trigger] order@[a] as int,
                #[trigger] right@[b] as int,
            ) by {
                if a < before.len() {
                    assert(order@[a] == before[a]);
                } else if take_left {
                    assert(comes_before(views, left@[i - 1] as int, right@[j as int] as int));
                    if b > j {
                        assert(comes_before(views, right@[j as int] as int, right@[b] as int));
                    }
                } else {
                    assert(comes_before(views, right@[j - 1] as int, right@[b] as int));
                }
            }
        }
    }
    proof {
        assert forall|x: int| lo <= x < hi implies #[trigger] order@.contains(x as usize) by {
            if x < mid {
                assert(left@.contains(x as usize));
                let a = choose|a: int| 0 <= a < left@.len() && left@[a] == x as usize;
                assert(order@.contains(left@[a]));
            } else {
                assert(right@.contains(x as usize));
                let b = choose|b: int| 0 <= b < right@.len() && right@[b] == x as usize;
                assert(order@.contains(right@[b]));
            }
        }
    }
    order
}

fn sort_positions(records: &Vec<DecodedLogRecord>, lo: usize, hi: usize) -> (order: Vec<usize>)
    requires
        lo <= hi <= records@.len(),
    ensures
        sorted_positions(otlp::views(records@), order@, lo as int, hi as int),
    decreases hi - lo,
{
    let mut order: Vec<usize> = Vec::new();
    if hi - lo == 0 {
        return order;
    }
    if hi - lo == 1 {
        order.push(lo);
        assert(order@[0] == lo);
        assert forall|i: int| lo <= i < hi implies #[trigger] order@.contains(i as usize) by {
            assert(i == lo);
        }
        return order;
    }
    let mid: usize = lo + (hi - lo) / 2;
    let left = sort_positions(records, lo, mid);
    let right = sort_positions(records, mid, hi);
    merge_positions(records, &left, &right, lo, mid, hi)
}

/// The records in the order of the positions.
pub open spec fn reordered(
    records: Seq<crate::logs::RecordView>,
    order: Seq<usize>,
) -> Seq<crate::logs::RecordView> {
    Seq::new(order.len(), |i: int| records[order[i] as int])
}

/// The sum of the sizes from `a` up to `b`.
pub open spec fn span_size(sizes: Seq<nat>, a: int, b: int) -> nat
    decreases b - a,
{
    if b <= a {
        0
    } else {
        span_size(sizes, a, b - 1) + sizes[b - 1]
    }
}

/// A limit of at least one.
pub open spec fn at_least_one(n: usize) -> nat {
    if n == 0 {
        1
    } else {
        n as nat
    }
}

/// How far cutting has come: the chunks that are closed, each as the positions
/// of its first record and of the one after its last, and where the open one
/// starts.
pub struct Cuts {
    pub closed: Seq<(int, int)>,
    pub start: int,
}

/// Whether record `i` would overfill the chunk that starts at `start`.
pub open spec fn overfills(
    sizes: Seq<nat>,
    max_rows: nat,
    max_bytes: nat,
    start: int,
    i: int,
) -> bool {
    i - start + 1 > max_rows || span_size(sizes, start, i) + sizes[i] > max_bytes
}

/// The cuts after `n` records. A chunk is closed when it holds a record and the
/// next one would overfill it, so a record that is too large has a chunk of its
/// own.
pub open spec fn cuts(sizes: Seq<nat>, max_rows: nat, max_bytes: nat, n: nat) -> Cuts
    decreases n,
{
    if n == 0 {
        Cuts { closed: Seq::empty(), start: 0 }
    } else {
        let c = cuts(sizes, max_rows, max_bytes, (n - 1) as nat);
        let i = n - 1;
        if c.start < i && overfills(sizes, max_rows, max_bytes, c.start, i) {
            Cuts { closed: c.closed.push((c.start, i)), start: i }
        } else {
            c
        }
    }
}

/// The chunks of a run of records.
pub open spec fn spans(sizes: Seq<nat>, max_rows: nat, max_bytes: nat) -> Seq<(int, int)> {
    let c = cuts(sizes, max_rows, max_bytes, sizes.len());
    if sizes.len() == 0 {
        Seq::empty()
    } else {
        c.closed.push((c.start, sizes.len() as int))
    }
}

/// The sizes of a run of records.
pub open spec fn record_sizes(records: Seq<crate::logs::RecordView>) -> Seq<nat> {
    records.map_values(|r: crate::logs::RecordView| crate::logs::record_size(r))
}

/// The chunks of records that are in order.
pub open spec fn chunk_spans(c: ConfigView, ordered: Seq<crate::logs::RecordView>) -> Seq<
    (int, int),
> {
    spans(
        record_sizes(ordered),
        at_least_one(c.max_chunk_rows),
        at_least_one(c.max_chunk_bytes),
    )
}

/// The number of chunk `i`, as the 32-bit number that it carries.
pub open spec fn chunk_number(i: int) -> u32 {
    (i % 0x1_0000_0000) as u32
}

/// The rows of the records from `span.0` up to `span.1`.
pub open spec fn span_rows(
    c: ConfigView,
    ordered: Seq<crate::logs::RecordView>,
    span: (int, int),
) -> Seq<Seq<adapter::CellView>> {
    ordered.subrange(span.0, span.1).map_values(
        |r: crate::logs::RecordView| row_cells(r, c.adapter_version),
    )
}

/// Whether `chunk` is the chunk of a span of the records.
pub open spec fn chunk_is(
    c: ConfigView,
    range: SequenceRange,
    ordered: Seq<crate::logs::RecordView>,
    span: (int, int),
    number: u32,
    chunk: InsertChunk,
) -> bool {
    let token = token_text(
        ordered[0].source.manifest_path,
        c,
        fingerprint(c),
        range,
        number,
    );
    &&& chunk.database@ == c.database
    &&& chunk.table@ == c.table
    &&& chunk.columns@ == column_names()
    &&& adapter::row_views(chunk.rows@) == span_rows(c, ordered, span)
    &&& otlp::option_view(chunk.settings.insert_quorum) == c.insert_quorum
    &&& chunk.settings.insert_deduplication_token@ == token
    &&& chunk.settings.apply_deduplication_token == c.apply_deduplication_token
    &&& chunk.idempotency_token@ == token
    &&& chunk.chunk_index == number
    &&& chunk.observability_labels@.len() == 2
    &&& chunk.observability_labels@[0].0@ == "table"@
    &&& chunk.observability_labels@[0].1@ == c.table
    &&& chunk.observability_labels@[1].0@ == "signal"@
    &&& chunk.observability_labels@[1].1@ == "logs"@
}

/// Whether `chunks` are the chunks of records that are in order.
pub open spec fn chunks_are(
    c: ConfigView,
    range: SequenceRange,
    ordered: Seq<crate::logs::RecordView>,
    chunks: Seq<InsertChunk>,
) -> bool {
    &&& chunks.len() == chunk_spans(c, ordered).len()
    &&& forall|i: int|
        0 <= i < chunks.len() ==> chunk_is(
            c,
            range,
            ordered,
            chunk_spans(c, ordered)[i],
            chunk_number(i),
            #[trigger] chunks[i],
        )
}

/// Whether all records come from the same manifest.
pub open spec fn one_manifest(records: Seq<crate::logs::RecordView>) -> bool {
    forall|i: int, j: int|
        0 <= i < records.len() && 0 <= j < records.len() ==> (
        #[trigger] records[i]).source.manifest_path == (#[trigger] records[j]).source.manifest_path
}

/// Whether record `k` is the first that is not from the manifest of the first.
pub open spec fn first_foreign(ordered: Seq<crate::logs::RecordView>, k: int) -> bool {
    &&& 0 < k < ordered.len()
    &&& ordered[k].source.manifest_path != ordered[0].source.manifest_path
    &&& forall|i: int|
        0 <= i < k ==> (#[trigger] ordered[i]).source.manifest_path
            == ordered[0].source.manifest_path
}

/// The message about records of different manifests.
pub open spec fn mixed_manifests_text(first: Seq<char>, found: Seq<char>) -> Seq<char> {
    "commit group mixes manifest paths: first="@ + first + ", found="@ + found
}

/// What planning a commit gives.
pub open spec fn plans_to(
    c: ConfigView,
    range: SequenceRange,
    records: Seq<crate::logs::RecordView>,
    order: Seq<usize>,
    r: AdapterResult<Vec<InsertChunk>>,
) -> bool {
    let ordered = reordered(records, order);
    &&& sorted_positions(records, order, 0, records.len() as int)
    &&& match r {
        Ok(chunks) => one_manifest(records) && chunks_are(c, range, ordered, chunks@),
        Err(e) => !one_manifest(records) && exists|k: int| #[trigger]
            first_foreign(ordered, k) && e.message@ == mixed_manifests_text(
                ordered[0].source.manifest_path,
                ordered[k].source.manifest_path,
            ),
    }
}

/// Planner of log inserts.
#[derive(Debug)]
pub struct OtlpLogsClickHouseAdapter {
    config: LogsAdapterConfig,
    fingerprint: String,
}

impl View for OtlpLogsClickHouseAdapter {
    type V = ConfigView;

    closed spec fn view(&self) -> ConfigView {
        self.config@
    }
}

spec fn valid_positions(order: Seq<usize>, n: nat) -> bool {
    forall|a: int| 0 <= a < order.len() ==> #[trigger] order[a] < n
}

#[verifier::opaque]
spec fn chunk_emitted(
    c: ConfigView,
    range: SequenceRange,
    ordered: Seq<crate::logs::RecordView>,
    span: (int, int),
    number: u32,
    chunk: InsertChunk,
) -> bool {
    chunk_is(c, range, ordered, span, number, chunk)
}

spec fn all_emitted(
    c: ConfigView,
    range: SequenceRange,
    ordered: Seq<crate::logs::RecordView>,
    spans: Seq<(int, int)>,
    chunks: Seq<InsertChunk>,
) -> bool {
    &&& chunks.len() == spans.len()
    &&& forall|i: int|
        0 <= i < chunks.len() ==> chunk_emitted(
            c,
            range,
            ordered,
            spans[i],
            chunk_number(i),
            #[trigger] chunks[i],
        )
}

proof fn lemma_emit_push(
    c: ConfigView,
    range: SequenceRange,
    ordered: Seq<crate::logs::RecordView>,
    spans: Seq<(int, int)>,
    chunks: Seq<InsertChunk>,
    span: (int, int),
    chunk: InsertChunk,
)
    requires
        all_emitted(c, range, ordered, spans, chunks),
        chunk_emitted(c, range, ordered, span, chunk_number(chunks.len() as int), chunk),
    ensures
        all_emitted(c, range, ordered, spans.push(span), chunks.push(chunk)),
{
    let next = chunks.push(chunk);
    assert forall|i: int| 0 <= i < next.len() implies chunk_emitted(
        c,
        range,
        ordered,
        spans.push(span)[i],
        chunk_number(i),
        #[trigger] next[i],
    ) by {
        if i < chunks.len() {
            assert(next[i] == chunks[i]);
            assert(spans.push(span)[i] == spans[i]);
        }
    }
}

proof fn lemma_emitted_chunks(
    c: ConfigView,
    range: SequenceRange,
    ordered: Seq<crate::logs::RecordView>,
    chunks: Seq<InsertChunk>,
)
    requires
        all_emitted(c, range, ordered, chunk_spans(c, ordered), chunks),
    ensures
        chunks_are(c, range, ordered, chunks),
{
    reveal(chunk_emitted);
}

proof fn lemma_order_covers(records: Seq<crate::logs::RecordView>, order: Seq<usize>)
    requires
        sorted_positions(records, order, 0, records.len() as int),
        forall|a: int|
            0 <= a < order.len() ==> (
            #[trigger] reordered(records, order)[a]).source.manifest_path == reordered(
                records,
                order,
            )[0].source.manifest_path,
        records.len() <= usize::MAX,
    ensures
        one_manifest(records),
{
    let ordered = reordered(records, order);
    assert forall|i: int| 0 <= i < records.len() implies (
    #[trigger] records[i]).source.manifest_path == ordered[0].source.manifest_path by {
        assert(order.contains(i as usize));
        let a = choose|a: int| 0 <= a < order.len() && order[a] == i as usize;
        assert(ordered[a] == records[i]);
    }
}

impl OtlpLogsClickHouseAdapter {
    #[verifier::type_invariant]
    spec fn fingerprint_follows_config(&self) -> bool {
        self.fingerprint@ == fingerprint(self.config@)
    }

    pub fn new(config: LogsAdapterConfig) -> (a: Self)
        ensures
            a@ == config@,
    {
        let fingerprint = chunking_fingerprint(&config);
        OtlpLogsClickHouseAdapter { config, fingerprint }
    }

    /// Fingerprint of how chunks are cut and where they go.
    pub fn chunking_fingerprint(&self) -> (s: &str)
        ensures
            s@ == fingerprint(self@),
    {
        proof {
            use_type_invariant(self);
        }
        self.fingerprint.as_str()
    }

    fn emit(
        &self,
        records: &Vec<DecodedLogRecord>,
        order: &Vec<usize>,
        start: usize,
        end: usize,
        range: SequenceRange,
        number: u32,
    ) -> (chunk: InsertChunk)
        requires
            valid_positions(order@, records@.len()),
            start <= end <= order@.len(),
            order@.len() > 0,
        ensures
            chunk_emitted(
                self@,
                range,
                reordered(otlp::views(records@), order@),
                (start as int, end as int),
                number,
                chunk,
            ),
    {
        proof {
            use_type_invariant(self);
            reveal(chunk_emitted);
        }
        let ghost ordered = reordered(otlp::views(records@), order@);
        let ghost want = span_rows(self@, ordered, (start as int, end as int));
        let mut rows: Vec<Vec<RowValue>> = Vec::new();
        let mut i: usize = start;
        while i < end
            invariant
                start <= i <= end <= order@.len(),
                valid_positions(order@, records@.len()),
                ordered == reordered(otlp::views(records@), order@),
                want == span_rows(self@, ordered, (start as int, end as int)),
                self@ == self.config@,
                adapter::row_views(rows@) == want.take(i - start),
            decreases end - i,
        {
            let row = log_row(&records[order[i]], self.config.adapter_version);
            proof {
                let k = i - start;
                assert(want[k] == row_cells(ordered[i as int], self@.adapter_version));
                assert(adapter::row_views(rows@.push(row)) =~= adapter::row_views(rows@).push(
                    otlp::views(row@),
                ));
                assert(want.take(k + 1) =~= want.take(k).push(want[k]));
            }
            rows.push(row);
            i = i + 1;
        }
        assert(want.take(end - start) =~= want);
        let token = build_token(
            records[order[0]].source.manifest_path.as_str(),
            &self.config,
            self.fingerprint.as_str(),
            range,
            number,
        );
        let quorum = match &self.config.insert_quorum {
            Some(q) => Some(q.clone()),
            None => None,
        };
        let mut labels: Vec<(&'static str, String)> = Vec::new();
        labels.push(("table", self.config.table.clone()));
        labels.push(("signal", owned("logs")));
        InsertChunk {
            database: self.config.database.clone(),
            table: self.config.table.clone(),
            columns: log_columns(),
            rows,
            settings: ClickHouseSettings {
                insert_quorum: quorum,
                insert_deduplication_token: token.clone(),
                apply_deduplication_token: self.config.apply_deduplication_token,
            },
            idempotency_token: token,
            chunk_index: number,
            observability_labels: labels,
        }
    }
}

proof fn lemma_cuts_start(sizes: Seq<nat>, max_rows: nat, max_bytes: nat, n: nat)
    ensures
        0 <= cuts(sizes, max_rows, max_bytes, n).start,
        n > 0 ==> cuts(sizes, max_rows, max_bytes, n).start < n,
    decreases n,
{
    if n > 0 {
        lemma_cuts_start(sizes, max_rows, max_bytes, (n - 1) as nat);
    }
}

/// The size of the record at a place of the order.
fn size_at(records: &Vec<DecodedLogRecord>, order: &Vec<usize>, i: usize) -> (size: usize)
    requires
        valid_positions(order@, records@.len()),
        i < order@.len(),
    ensures
        size == record_sizes(reordered(otlp::views(records@), order@))[i as int],
{
    records[order[i]].approx_size_bytes()
}

impl OtlpLogsClickHouseAdapter {
    #[verifier::spinoff_prover]
    #[verifier::rlimit(40)]
    fn cut(
        &self,
        records: &Vec<DecodedLogRecord>,
        order: &Vec<usize>,
        range: SequenceRange,
    ) -> (chunks:
        Vec<InsertChunk>)
        requires
            valid_positions(order@, records@.len()),
            order@.len() == records@.len(),
        ensures
            chunks_are(
                self@,
                range,
                reordered(otlp::views(records@), order@),
                chunks@,
            ),
    {
        let n: usize = records.len();
        let ghost ordered = reordered(otlp::views(records@), order@);
        let mut chunks: Vec<InsertChunk> = Vec::new();
        if n == 0 {
            return chunks;
        }
        let max_rows: usize = if self.config.max_chunk_rows == 0 {
            1
        } else {
            self.config.max_chunk_rows
        };
        let max_bytes: usize = if self.config.max_chunk_bytes == 0 {
            1
        } else {
            self.config.max_chunk_bytes
        };
        let ghost sizes = record_sizes(ordered);
        let ghost mr = max_rows as nat;
        let ghost mb = max_bytes as nat;
        let mut start: usize = 0;
        let mut bytes: usize = 0;
        let mut number: u32 = 0;
        let mut i: usize = 0;
        while i < n
            invariant
                i <= n,
                n == records@.len(),
                n == order@.len(),
                valid_positions(order@, n as nat),
                ordered == reordered(otlp::views(records@), order@),
                sizes == record_sizes(ordered),
                mr == max_rows,
                mb == max_bytes,
                start == cuts(sizes, mr, mb, i as nat).start,
                start <= i,
                bytes as nat == span_size(sizes, start as int, i as int),
                number == chunk_number(chunks@.len() as int),
                all_emitted(self@, range, ordered, cuts(sizes, mr, mb, i as nat).closed, chunks@),
            decreases n - i,
        {
            let size: usize = size_at(records, order, i);
            proof {
                lemma_cuts_start(sizes, mr, mb, i as nat);
            }
            let ghost before = cuts(sizes, mr, mb, i as nat);
            let full = i - start >= max_rows || size > max_bytes || bytes > max_bytes - size;
            assert(full == overfills(sizes, mr, mb, start as int, i as int));
            if start < i && full {
                let chunk = self.emit(records, order, start, i, range, number);
                proof {
                    lemma_emit_push(
                        self@,
                        range,
                        ordered,
                        before.closed,
                        chunks@,
                        (start as int, i as int),
                        chunk,
                    );
                }
                chunks.push(chunk);
                number = number.wrapping_add(1);
                start = i;
                bytes = 0;
                assert(span_size(sizes, i as int, i as int) == 0);
            }
            assert(span_size(sizes, start as int, i + 1) == span_size(
                sizes,
                start as int,
                i as int,
            ) + sizes[i as int]);
            bytes = bytes + size;
            i = i + 1;
        }
        proof {
            lemma_cuts_start(sizes, mr, mb, n as nat);
        }
        let ghost closed = cuts(sizes, mr, mb, n as nat).closed;
        let chunk = self.emit(records, order, start, n, range, number);
        proof {
            lemma_emit_push(
                self@,
                range,
                ordered,
                closed,
                chunks@,
                (start as int, n as int),
                chunk,
            );
        }
        chunks.push(chunk);
        proof {
            lemma_emitted_chunks(self@, range, ordered, chunks@);
        }
        chunks
    }
}

impl Adapter for OtlpLogsClickHouseAdapter {
    type Input = DecodedLogRecord;

    fn plan(&self, batch: ClickHouseAdapterBatch<DecodedLogRecord>) -> (r: AdapterResult<
        Vec<InsertChunk>,
    >)
        ensures
            exists|order: Seq<usize>| #[trigger]
                plans_to(self@, batch.identity.range, otlp::views(batch.records@), order, r),
    {
        let records = batch.records;
        let range = batch.identity.range;
        let ghost views = otlp::views(records@);
        let n: usize = records.len();
        let order = sort_positions(&records, 0, n);
        let ghost ordered = reordered(views, order@);
        let mut k: usize = 1;
        while k < n
            invariant
                1 <= k,
                n == records@.len(),
                k <= n || k == 1,
                views == otlp::views(records@),
                sorted_positions(views, order@, 0, n as int),
                ordered == reordered(views, order@),
                range == batch.identity.range,
                views == otlp::views(batch.records@),
                forall|i: int|
                    0 <= i < k && i < n ==> (#[trigger] ordered[i]).source.manifest_path
                        == ordered[0].source.manifest_path,
            decreases n - k,
        {
            let first = &records[order[0]].source.manifest_path;
            let found = &records[order[k]].source.manifest_path;
            assert(ordered[0] == records@[order@[0] as int]@);
            assert(ordered[k as int] == records@[order@[k as int] as int]@);
            if !same_text(first.as_str(), found.as_str()) {
                let mut message = String::from_str("commit group mixes manifest paths: first=");
                message.append(first.as_str());
                message.append(", found=");
                message.append(found.as_str());
                let r = Err(AdapterError { message });
                proof {
                    assert(first_foreign(ordered, k as int));
                    assert(views[order@[0] as int].source.manifest_path
                        != views[order@[k as int] as int].source.manifest_path);
                    assert(plans_to(self@, range, views, order@, r));
                }
                return r;
            }
            k = k + 1;
        }
        proof {
            lemma_order_covers(views, order@);
        }
        let chunks = self.cut(&records, &order, range);
        let r = Ok(chunks);
        assert(plans_to(self@, range, views, order@, r));
        r
    }
}

proof fn lemma_order_step(
    records: Seq<crate::logs::RecordView>,
    p: Seq<usize>,
    q: Seq<usize>,
    a: int,
)
    requires
        records.len() <= usize::MAX,
        sorted_positions(records, p, 0, records.len() as int),
        sorted_positions(records, q, 0, records.len() as int),
        0 <= a < p.len(),
        forall|b: int| 0 <= b < a ==> #[trigger] p[b] == q[b],
    ensures
        p[a] == q[a] || comes_before(records, q[a] as int, p[a] as int),
{
    let x = p[a];
    assert(q.contains((x as int) as usize));
    let b = choose|b: int| 0 <= b < q.len() && q[b] == x;
    if b < a {
        assert(p[b] == q[b]);
        assert(comes_before(records, p[b] as int, p[a] as int));
    } else if b > a {
        assert(comes_before(records, q[a] as int, q[b] as int));
    }
}

/// There is one order of the records: planning does not depend on how they were
/// sorted.
pub proof fn law_order_is_unique(
    records: Seq<crate::logs::RecordView>,
    p: Seq<usize>,
    q: Seq<usize>,
)
    requires
        records.len() <= usize::MAX,
        sorted_positions(records, p, 0, records.len() as int),
        sorted_positions(records, q, 0, records.len() as int),
    ensures
        p == q,
{
    lemma_order_prefix(records, p, q, p.len());
    assert(p =~= q);
}

proof fn lemma_order_prefix(
    records: Seq<crate::logs::RecordView>,
    p: Seq<usize>,
    q: Seq<usize>,
    n: nat,
)
    requires
        records.len() <= usize::MAX,
        sorted_positions(records, p, 0, records.len() as int),
        sorted_positions(records, q, 0, records.len() as int),
        n <= p.len(),
    ensures
        forall|b: int| 0 <= b < n ==> #[trigger] p[b] == q[b],
    decreases n,
{
    if n > 0 {
        lemma_order_prefix(records, p, q, (n - 1) as nat);
        lemma_order_step(records, p, q, n - 1);
        lemma_order_step(records, q, p, n - 1);
    }
}

/// Planning is deterministic: the same records under the same configuration and
/// range give chunks with the same rows, tokens and numbers.
pub proof fn law_plan_is_deterministic(
    c: ConfigView,
    range: SequenceRange,
    records: Seq<crate::logs::RecordView>,
    p: Seq<usize>,
    q: Seq<usize>,
    first: Vec<InsertChunk>,
    second: Vec<InsertChunk>,
)
    requires
        records.len() <= usize::MAX,
        plans_to(c, range, records, p, Ok(first)),
        plans_to(c, range, records, q, Ok(second)),
    ensures
        first@.len() == second@.len(),
        forall|i: int|
            #![trigger first@[i]]
            0 <= i < first@.len() ==> first@[i].idempotency_token@
                == second@[i].idempotency_token@ && first@[i].chunk_index == second@[i].chunk_index
                && adapter::row_views(first@[i].rows@) == adapter::row_views(second@[i].rows@),
{
    law_order_is_unique(records, p, q);
    let ordered = reordered(records, p);
    assert forall|i: int| #![trigger first@[i]] 0 <= i < first@.len() implies first@[i].idempotency_token@
        == second@[i].idempotency_token@ && first@[i].chunk_index == second@[i].chunk_index
        && adapter::row_views(first@[i].rows@) == adapter::row_views(second@[i].rows@) by {
        assert(chunk_is(c, range, ordered, chunk_spans(c, ordered)[i], chunk_number(i), first@[i]));
        assert(chunk_is(
            c,
            range,
            ordered,
            chunk_spans(c, ordered)[i],
            chunk_number(i),
            second@[i],
        ));
    }
}

/// Whether spans follow each other without a gap from zero to `end`, each with
/// at least one record.
pub open spec fn consecutive(spans: Seq<(int, int)>, end: int) -> bool {
    &&& forall|i: int| 0 <= i < spans.len() ==> (#[trigger] spans[i]).0 < spans[i].1
    &&& spans.len() > 0 ==> spans[0].0 == 0
    &&& forall|i: int, j: int|
        0 <= i && i + 1 == j && j < spans.len() ==> (#[trigger] spans[i]).1 == (
        #[trigger] spans[j]).0
    &&& end == if spans.len() == 0 {
        0
    } else {
        spans.last().1
    }
}

proof fn lemma_cuts_consecutive(sizes: Seq<nat>, max_rows: nat, max_bytes: nat, n: nat)
    ensures
        consecutive(
            cuts(sizes, max_rows, max_bytes, n).closed,
            cuts(sizes, max_rows, max_bytes, n).start,
        ),
    decreases n,
{
    if n > 0 {
        lemma_cuts_consecutive(sizes, max_rows, max_bytes, (n - 1) as nat);
    }
}

/// The chunks hold every record once, in order: they follow each other without
/// a gap from the first record to the last, and none is empty.
pub proof fn law_chunks_cover_records(sizes: Seq<nat>, max_rows: nat, max_bytes: nat)
    ensures
        consecutive(spans(sizes, max_rows, max_bytes), sizes.len() as int),
{
    lemma_cuts_consecutive(sizes, max_rows, max_bytes, sizes.len());
    lemma_cuts_start(sizes, max_rows, max_bytes, sizes.len());
}

/// Whether a span is within the limits, or is a single record that is not.
pub open spec fn within_limits(
    sizes: Seq<nat>,
    max_rows: nat,
    max_bytes: nat,
    span: (int, int),
) -> bool {
    span.1 - span.0 <= max_rows && (span_size(sizes, span.0, span.1) <= max_bytes || span.1
        == span.0 + 1)
}

proof fn lemma_cuts_within_limits(sizes: Seq<nat>, max_rows: nat, max_bytes: nat, n: nat)
    requires
        max_rows >= 1,
        n <= sizes.len(),
    ensures
        ({
            let c = cuts(sizes, max_rows, max_bytes, n);
            &&& forall|i: int|
                0 <= i < c.closed.len() ==> within_limits(
                    sizes,
                    max_rows,
                    max_bytes,
                    #[trigger] c.closed[i],
                )
            &&& n > 0 ==> within_limits(sizes, max_rows, max_bytes, (c.start, n as int))
        }),
    decreases n,
{
    if n > 0 {
        lemma_cuts_within_limits(sizes, max_rows, max_bytes, (n - 1) as nat);
        lemma_cuts_start(sizes, max_rows, max_bytes, (n - 1) as nat);
        let c = cuts(sizes, max_rows, max_bytes, n);
        assert(span_size(sizes, c.start, n as int) == span_size(sizes, c.start, n - 1) + sizes[n
            - 1]);
    }
}

/// Every chunk is within both limits, except that a record that is too large by
/// itself has a chunk of its own.
pub proof fn law_chunks_within_limits(sizes: Seq<nat>, max_rows: nat, max_bytes: nat, i: int)
    requires
        max_rows >= 1,
        0 <= i < spans(sizes, max_rows, max_bytes).len(),
    ensures
        within_limits(sizes, max_rows, max_bytes, spans(sizes, max_rows, max_bytes)[i]),
{
    lemma_cuts_within_limits(sizes, max_rows, max_bytes, sizes.len());
    let c = cuts(sizes, max_rows, max_bytes, sizes.len());
    if i < c.closed.len() {
        assert(spans(sizes, max_rows, max_bytes)[i] == c.closed[i]);
    }
}

/// The number of rows of the first `n` chunks.
pub open spec fn rows_before(spans: Seq<(int, int)>, n: nat) -> int
    decreases n,
{
    if n == 0 {
        0
    } else {
        rows_before(spans, (n - 1) as nat) + (spans[n - 1].1 - spans[n - 1].0)
    }
}

proof fn lemma_rows_before(spans: Seq<(int, int)>, end: int, n: nat)
    requires
        consecutive(spans, end),
        n <= spans.len(),
    ensures
        rows_before(spans, n) == if n == 0 {
            0
        } else {
            spans[n - 1].1
        },
    decreases n,
{
    if n > 0 {
        lemma_rows_before(spans, end, (n - 1) as nat);
        if n > 1 {
            assert(spans[n - 2].1 == spans[n - 1].0);
        }
    }
}

/// Planning drops and adds no row: the chunks together have as many rows as the
/// commit has records.
pub proof fn law_plan_keeps_row_count(sizes: Seq<nat>, max_rows: nat, max_bytes: nat)
    ensures
        rows_before(
            spans(sizes, max_rows, max_bytes),
            spans(sizes, max_rows, max_bytes).len(),
        ) == sizes.len(),
{
    law_chunks_cover_records(sizes, max_rows, max_bytes);
    let s = spans(sizes, max_rows, max_bytes);
    lemma_rows_before(s, sizes.len() as int, s.len());
}

pub(crate) proof fn lemma_span_bounds(spans: Seq<(int, int)>, end: int, i: int)
    requires
        consecutive(spans, end),
        0 <= i < spans.len(),
    ensures
        0 <= spans[i].0 < spans[i].1 <= end,
{
    lemma_span_low(spans, end, i);
    lemma_span_high(spans, end, i);
    assert(spans[i].0 < spans[i].1);
}

proof fn lemma_span_low(spans: Seq<(int, int)>, end: int, i: int)
    requires
        consecutive(spans, end),
        0 <= i < spans.len(),
    ensures
        0 <= spans[i].0,
    decreases i,
{
    if i > 0 {
        lemma_span_low(spans, end, i - 1);
        assert(spans[i - 1].1 == spans[i].0);
        assert(spans[i - 1].0 < spans[i - 1].1);
    }
}

proof fn lemma_span_high(spans: Seq<(int, int)>, end: int, i: int)
    requires
        consecutive(spans, end),
        0 <= i < spans.len(),
    ensures
        spans[i].1 <= end,
    decreases spans.len() - i,
{
    if i < spans.len() - 1 {
        lemma_span_high(spans, end, i + 1);
        assert(spans[i + 1].0 == spans[i].1);
        assert(spans[i + 1].0 < spans[i + 1].1);
    }
}

/// The rows of the first `n` chunks, one after the other.
pub open spec fn all_rows(chunks: Seq<InsertChunk>, n: nat) -> Seq<Seq<adapter::CellView>>
    decreases n,
{
    if n == 0 {
        Seq::empty()
    } else {
        all_rows(chunks, (n - 1) as nat) + adapter::row_views(chunks[n - 1].rows@)
    }
}

proof fn lemma_all_rows(
    c: ConfigView,
    range: SequenceRange,
    ordered: Seq<crate::logs::RecordView>,
    chunks: Seq<InsertChunk>,
    n: nat,
)
    requires
        chunks_are(c, range, ordered, chunks),
        n <= chunks.len(),
    ensures
        all_rows(chunks, n) == span_rows(
            c,
            ordered,
            (0, rows_before(chunk_spans(c, ordered), n)),
        ),
        0 <= rows_before(chunk_spans(c, ordered), n) <= ordered.len(),
    decreases n,
{
    let spans = chunk_spans(c, ordered);
    let sizes = record_sizes(ordered);
    law_chunks_cover_records(
        sizes,
        at_least_one(c.max_chunk_rows),
        at_least_one(c.max_chunk_bytes),
    );
    lemma_rows_before(spans, ordered.len() as int, n);
    if n > 0 {
        lemma_all_rows(c, range, ordered, chunks, (n - 1) as nat);
        lemma_rows_before(spans, ordered.len() as int, (n - 1) as nat);
        lemma_span_bounds(spans, ordered.len() as int, n - 1);
        let start = rows_before(spans, (n - 1) as nat);
        let end = rows_before(spans, n);
        if n > 1 {
            assert(spans[n - 2].1 == spans[n - 1].0);
        }
        assert(chunk_is(c, range, ordered, spans[n - 1], chunk_number(n - 1), chunks[n - 1]));
        assert(span_rows(c, ordered, (0, end)) =~= span_rows(c, ordered, (0, start)) + span_rows(
            c,
            ordered,
            (start, end),
        ));
    } else {
        assert(all_rows(chunks, n) =~= span_rows(c, ordered, (0, 0)));
    }
}

/// No record is lost and none is written twice: the rows of the chunks of a plan,
/// one after the other, are the rows of the records in their order.
pub proof fn law_plan_holds_every_record(
    c: ConfigView,
    range: SequenceRange,
    ordered: Seq<crate::logs::RecordView>,
    chunks: Seq<InsertChunk>,
)
    requires
        chunks_are(c, range, ordered, chunks),
    ensures
        all_rows(chunks, chunks.len()) == ordered.map_values(
            |r: crate::logs::RecordView| row_cells(r, c.adapter_version),
        ),
{
    lemma_all_rows(c, range, ordered, chunks, chunks.len());
    law_plan_keeps_row_count(
        record_sizes(ordered),
        at_least_one(c.max_chunk_rows),
        at_least_one(c.max_chunk_bytes),
    );
    assert(ordered.subrange(0, ordered.len() as int) =~= ordered);
}

/// The RowBinary type that holds cells of a kind.
pub open spec fn cell_type(v: adapter::CellView) -> &'static str {
    match v {
        adapter::CellView::String(_) => "String",
        adapter::CellView::LowCardinalityString(_) => "LowCardinality(String)",
        adapter::CellView::UInt8(_) => "UInt8",
        adapter::CellView::UInt32(_) => "UInt32",
        adapter::CellView::UInt64(_) => "UInt64",
        adapter::CellView::Int32(_) => "Int32",
        adapter::CellView::Int64(_) => "Int64",
        adapter::CellView::DateTime64Nanos(_) => "DateTime64(9)",
        adapter::CellView::NullableDateTime64Nanos(_) => "Nullable(DateTime64(9))",
        adapter::CellView::StringMap(_) => "Map(LowCardinality(String), String)",
    }
}

/// A row has one cell for each column.
pub proof fn law_rows_fit_columns(r: crate::logs::RecordView, adapter_version: u32)
    ensures
        row_cells(r, adapter_version).len() == column_names().len(),
{
}

/// All rows of a table have cells of the same kinds.
pub proof fn law_rows_have_one_shape(
    a: crate::logs::RecordView,
    b: crate::logs::RecordView,
    adapter_version: u32,
)
    ensures
        crate::serializer::rowbinary::same_shape(
            row_cells(a, adapter_version),
            row_cells(b, adapter_version),
        ),
{
}

/// The type table agrees with the rows: every column has a type, and it is the
/// type that holds cells of the kind that the row has there.
pub proof fn law_columns_are_typed(r: crate::logs::RecordView, adapter_version: u32, i: int)
    requires
        0 <= i < column_names().len(),
    ensures
        crate::serializer::rowbinary::column_type(column_names()[i]@) is Some,
        crate::serializer::rowbinary::column_type(column_names()[i]@)->0@ == cell_type(
            row_cells(r, adapter_version)[i],
        )@,
{
    reveal_strlit("Timestamp");
    reveal_strlit("ObservedTimestamp");
    reveal_strlit("SeverityText");
    reveal_strlit("SeverityNumber");
    reveal_strlit("ServiceName");
    reveal_strlit("Body");
    reveal_strlit("ResourceAttributes");
    reveal_strlit("LogAttributes");
    reveal_strlit("TraceId");
    reveal_strlit("SpanId");
    reveal_strlit("_odb_sequence");
    reveal_strlit("_odb_entry_index");
    reveal_strlit("_odb_record_index");
    reveal_strlit("_odb_manifest_path");
    reveal_strlit("_odb_data_path");
    reveal_strlit("_odb_ingestion_time_ms");
    reveal_strlit("_adapter_version");
    reveal_strlit("_odb_gateway_received_at");
    assert("Timestamp"@.len() == 9 && "Timestamp"@[0] == 'T' && "Timestamp"@[1] == 'i');
    assert("ObservedTimestamp"@.len() == 17);
    assert("ObservedTimestamp"@[0] == 'O' && "ObservedTimestamp"@[1] == 'b');
    assert("SeverityText"@.len() == 12 && "SeverityText"@[0] == 'S' && "SeverityText"@[1] == 'e');
    assert("SeverityNumber"@.len() == 14);
    assert("SeverityNumber"@[0] == 'S' && "SeverityNumber"@[1] == 'e');
    assert("ServiceName"@.len() == 11 && "ServiceName"@[0] == 'S' && "ServiceName"@[1] == 'e');
    assert("Body"@.len() == 4 && "Body"@[0] == 'B' && "Body"@[1] == 'o');
    assert("ResourceAttributes"@.len() == 18);
    assert("ResourceAttributes"@[0] == 'R' && "ResourceAttributes"@[1] == 'e');
    assert("LogAttributes"@.len() == 13);
    assert("LogAttributes"@[0] == 'L' && "LogAttributes"@[1] == 'o');
    assert("TraceId"@.len() == 7 && "TraceId"@[0] == 'T' && "TraceId"@[1] == 'r');
    assert("SpanId"@.len() == 6 && "SpanId"@[0] == 'S' && "SpanId"@[1] == 'p');
    assert("_odb_sequence"@.len() == 13);
    assert("_odb_sequence"@[0] == '_' && "_odb_sequence"@[1] == 'o');
    assert("_odb_entry_index"@.len() == 16);
    assert("_odb_entry_index"@[0] == '_' && "_odb_entry_index"@[1] == 'o');
    assert("_odb_record_index"@.len() == 17);
    assert("_odb_record_index"@[0] == '_' && "_odb_record_index"@[1] == 'o');
    assert("_odb_manifest_path"@.len() == 18);
    assert("_odb_manifest_path"@[0] == '_' && "_odb_manifest_path"@[1] == 'o');
    assert("_odb_data_path"@.len() == 14);
    assert("_odb_data_path"@[0] == '_' && "_odb_data_path"@[1] == 'o');
    assert("_odb_ingestion_time_ms"@.len() == 22);
    assert("_odb_ingestion_time_ms"@[0] == '_' && "_odb_ingestion_time_ms"@[1] == 'o');
    assert("_adapter_version"@.len() == 16);
    assert("_adapter_version"@[0] == '_' && "_adapter_version"@[1] == 'a');
    assert("_odb_gateway_received_at"@.len() == 24);
    assert("_odb_gateway_received_at"@[0] == '_' && "_odb_gateway_received_at"@[1] == 'o');
}

/// What the planner makes, both formats can carry: every row of a planned chunk
/// matches its columns, and every column has a type.
pub proof fn law_planned_chunk_serializes(
    c: ConfigView,
    range: SequenceRange,
    ordered: Seq<crate::logs::RecordView>,
    span: (int, int),
    number: u32,
    chunk: InsertChunk,
)
    requires
        chunk_is(c, range, ordered, span, number, chunk),
        0 <= span.0 <= span.1 <= ordered.len(),
    ensures
        crate::serializer::rows_match(chunk),
        crate::serializer::rowbinary::all_typed(chunk.columns@),
        chunk.rows@.len() == span.1 - span.0,
{
    let rows = adapter::row_views(chunk.rows@);
    let want = span_rows(c, ordered, span);
    assert(rows.len() == want.len());
    assert forall|i: int| 0 <= i < chunk.rows@.len() implies (
    #[trigger] chunk.rows@[i])@.len() == chunk.columns@.len() by {
        assert(rows[i] == otlp::views(chunk.rows@[i]@));
        assert(want[i] == row_cells(ordered[span.0 + i], c.adapter_version));
        law_rows_fit_columns(ordered[span.0 + i], c.adapter_version);
    }
    assert forall|i: int| 0 <= i < chunk.columns@.len() implies crate::serializer::rowbinary::column_type(
        (#[trigger] chunk.columns@[i])@,
    ) is Some by {
        law_columns_are_typed(ordered[0], c.adapter_version, i);
    }
}

proof fn lemma_digits_hold_no(n: nat, c: char)
    requires
        c == ':' || c == '-' || c == '\n',
    ensures
        !text::decimal(n).contains(c),
{
    text::lemma_decimal_shape(n);
    if text::decimal(n).contains(c) {
        let i = choose|i: int| 0 <= i < text::decimal(n).len() && text::decimal(n)[i] == c;
        assert('0' <= text::decimal(n)[i] <= '9');
    }
}

proof fn lemma_hex_holds_no_colon(bytes: Seq<u8>)
    ensures
        !digest::hex_of(bytes).contains(':'),
{
    let s = digest::hex_of(bytes);
    if s.contains(':') {
        let i = choose|i: int| 0 <= i < s.len() && s[i] == ':';
        let d = if i % 2 == 0 {
            (bytes[i / 2] as nat) / 16
        } else {
            (bytes[i / 2] as nat) % 16
        };
        assert(d < 16);
        assert(s[i] == digest::hex_digit(d));
        assert(digest::hex_digit(d) as int == if d < 10 {
            48 + d
        } else {
            87 + d
        });
    }
}

proof fn lemma_range_text(low: nat, high: nat)
    ensures
        !(text::decimal(low) + seq!['-'] + text::decimal(high)).contains(':'),
{
    let s = text::decimal(low) + seq!['-'] + text::decimal(high);
    lemma_digits_hold_no(low, ':');
    lemma_digits_hold_no(high, ':');
    if s.contains(':') {
        let i = choose|i: int| 0 <= i < s.len() && s[i] == ':';
        let n = text::decimal(low).len();
        if i < n {
            assert(text::decimal(low)[i] == ':');
            assert(text::decimal(low).contains(':'));
        } else if i > n {
            assert(text::decimal(high)[i - n - 1] == ':');
            assert(text::decimal(high).contains(':'));
        }
    }
}

/// A token is sensitive to each of its parts. Two tokens that are equal have the
/// same chunk number, fingerprint, version and range, and the same text before
/// those; so they have the same manifest path where the target is the same, the
/// same database where the manifest path and the table are, and the same table
/// where the manifest path and the database are.
pub proof fn law_token_is_sensitive(
    m1: Seq<char>,
    c1: ConfigView,
    r1: SequenceRange,
    i1: u32,
    m2: Seq<char>,
    c2: ConfigView,
    r2: SequenceRange,
    i2: u32,
)
    requires
        token_text(m1, c1, fingerprint(c1), r1, i1) == token_text(
            m2,
            c2,
            fingerprint(c2),
            r2,
            i2,
        ),
    ensures
        i1 == i2,
        fingerprint(c1) == fingerprint(c2),
        c1.adapter_version == c2.adapter_version,
        r1 == r2,
        m1 + ":"@ + c1.database + "."@ + c1.table == m2 + ":"@ + c2.database + "."@ + c2.table,
        c1.database == c2.database && c1.table == c2.table ==> m1 == m2,
        m1 == m2 && c1.table == c2.table ==> c1.database == c2.database,
        m1 == m2 && c1.database == c2.database ==> c1.table == c2.table,
{
    reveal_strlit(":");
    reveal_strlit(".");
    reveal_strlit("-");
    assert(":"@ =~= seq![':']);
    assert("-"@ =~= seq!['-']);
    let p1 = m1 + ":"@ + c1.database + "."@ + c1.table;
    let p2 = m2 + ":"@ + c2.database + "."@ + c2.table;
    let g1 = text::decimal(r1.low as nat) + seq!['-'] + text::decimal(r1.high as nat);
    let g2 = text::decimal(r2.low as nat) + seq!['-'] + text::decimal(r2.high as nat);
    let a1 = p1 + seq![':'] + g1;
    let a2 = p2 + seq![':'] + g2;
    let v1 = text::decimal(c1.adapter_version as nat);
    let v2 = text::decimal(c2.adapter_version as nat);
    let b1 = a1 + seq![':'] + v1;
    let b2 = a2 + seq![':'] + v2;
    let f1 = fingerprint(c1);
    let f2 = fingerprint(c2);
    let d1 = b1 + seq![':'] + f1;
    let d2 = b2 + seq![':'] + f2;
    let n1 = text::decimal(i1 as nat);
    let n2 = text::decimal(i2 as nat);
    assert(token_text(m1, c1, f1, r1, i1) =~= d1 + seq![':'] + n1);
    assert(token_text(m2, c2, f2, r2, i2) =~= d2 + seq![':'] + n2);
    lemma_digits_hold_no(i1 as nat, ':');
    lemma_digits_hold_no(i2 as nat, ':');
    text::lemma_split_last(d1, n1, d2, n2, ':');
    text::lemma_decimal_injective(i1 as nat, i2 as nat);
    lemma_hex_holds_no_colon(digest::sha256(encode_utf8(fingerprint_text(c1))).take(8));
    lemma_hex_holds_no_colon(digest::sha256(encode_utf8(fingerprint_text(c2))).take(8));
    text::lemma_split_last(b1, f1, b2, f2, ':');
    lemma_digits_hold_no(c1.adapter_version as nat, ':');
    lemma_digits_hold_no(c2.adapter_version as nat, ':');
    text::lemma_split_last(a1, v1, a2, v2, ':');
    text::lemma_decimal_injective(c1.adapter_version as nat, c2.adapter_version as nat);
    lemma_range_text(r1.low as nat, r1.high as nat);
    lemma_range_text(r2.low as nat, r2.high as nat);
    text::lemma_split_last(p1, g1, p2, g2, ':');
    lemma_digits_hold_no(r1.high as nat, '-');
    lemma_digits_hold_no(r2.high as nat, '-');
    text::lemma_split_last(
        text::decimal(r1.low as nat),
        text::decimal(r1.high as nat),
        text::decimal(r2.low as nat),
        text::decimal(r2.high as nat),
        '-',
    );
    text::lemma_decimal_injective(r1.low as nat, r2.low as nat);
    text::lemma_decimal_injective(r1.high as nat, r2.high as nat);
    if c1.database == c2.database && c1.table == c2.table {
        let t = ":"@ + c1.database + "."@ + c1.table;
        assert(p1 =~= m1 + t);
        assert(p2 =~= m2 + t);
        lemma_cancel_right(m1, m2, t);
    }
    if m1 == m2 && c1.table == c2.table {
        let h = m1 + ":"@;
        let t = "."@ + c1.table;
        assert(p1 =~= h + c1.database + t);
        assert(p2 =~= h + c2.database + t);
        lemma_cancel_around(h, c1.database, c2.database, t);
    }
    if m1 == m2 && c1.database == c2.database {
        let h = m1 + ":"@ + c1.database + "."@;
        let none = Seq::<char>::empty();
        assert(p1 =~= h + c1.table + none);
        assert(p2 =~= h + c2.table + none);
        lemma_cancel_around(h, c1.table, c2.table, none);
    }
}

proof fn lemma_cancel_right(a: Seq<char>, b: Seq<char>, tail: Seq<char>)
    requires
        a + tail == b + tail,
    ensures
        a == b,
{
    assert((a + tail).len() == a.len() + tail.len());
    assert((b + tail).len() == b.len() + tail.len());
    assert((a + tail).take(a.len() as int) =~= a);
    assert((b + tail).take(b.len() as int) =~= b);
}

proof fn lemma_cancel_around(head: Seq<char>, a: Seq<char>, b: Seq<char>, tail: Seq<char>)
    requires
        head + a + tail == head + b + tail,
    ensures
        a == b,
{
    lemma_cancel_right(head + a, head + b, tail);
    let n = head.len() as int;
    assert((head + a).skip(n) =~= a);
    assert((head + b).skip(n) =~= b);
}

/// The tokens of a plan are different, as long as its chunks can be numbered.
pub proof fn law_plan_tokens_differ(
    c: ConfigView,
    range: SequenceRange,
    ordered: Seq<crate::logs::RecordView>,
    chunks: Seq<InsertChunk>,
    i: int,
    j: int,
)
    requires
        chunks_are(c, range, ordered, chunks),
        chunks.len() <= 0x1_0000_0000,
        0 <= i < j < chunks.len(),
    ensures
        chunks[i].idempotency_token@ != chunks[j].idempotency_token@,
{
    let m = ordered[0].source.manifest_path;
    let spans = chunk_spans(c, ordered);
    assert(chunk_is(c, range, ordered, spans[i], chunk_number(i), chunks[i]));
    assert(chunk_is(c, range, ordered, spans[j], chunk_number(j), chunks[j]));
    if chunks[i].idempotency_token@ == chunks[j].idempotency_token@ {
        law_token_is_sensitive(
            m,
            c,
            range,
            chunk_number(i),
            m,
            c,
            range,
            chunk_number(j),
        );
    }
}

/// What enters the fingerprint is sensitive to each setting: configurations that
/// differ in one of the settings that it covers have different texts. No quorum
/// and an empty quorum are the same.
pub proof fn law_fingerprint_text_is_sensitive(a: ConfigView, b: ConfigView)
    requires
        fingerprint_text(a) == fingerprint_text(b),
    ensures
        a.table == b.table && a.adapter_version == b.adapter_version && a.max_chunk_rows
            == b.max_chunk_rows && a.max_chunk_bytes == b.max_chunk_bytes && quorum_text(a)
            == quorum_text(b) ==> a.database == b.database,
        a.database == b.database && a.adapter_version == b.adapter_version && a.max_chunk_rows
            == b.max_chunk_rows && a.max_chunk_bytes == b.max_chunk_bytes && quorum_text(a)
            == quorum_text(b) ==> a.table == b.table,
        a.database == b.database && a.table == b.table && a.max_chunk_rows == b.max_chunk_rows
            && a.max_chunk_bytes == b.max_chunk_bytes && quorum_text(a) == quorum_text(b)
            ==> a.adapter_version == b.adapter_version,
        a.database == b.database && a.table == b.table && a.adapter_version == b.adapter_version
            && a.max_chunk_bytes == b.max_chunk_bytes && quorum_text(a) == quorum_text(b)
            ==> a.max_chunk_rows == b.max_chunk_rows,
        a.database == b.database && a.table == b.table && a.adapter_version == b.adapter_version
            && a.max_chunk_rows == b.max_chunk_rows && quorum_text(a) == quorum_text(b)
            ==> a.max_chunk_bytes == b.max_chunk_bytes,
        a.database == b.database && a.table == b.table && a.adapter_version == b.adapter_version
            && a.max_chunk_rows == b.max_chunk_rows && a.max_chunk_bytes == b.max_chunk_bytes
            ==> quorum_text(a) == quorum_text(b),
{
    let (ha, ta) = (text_head(a), text_tail(a));
    let (hb, tb) = (text_head(b), text_tail(b));
    lemma_text_parts(a);
    lemma_text_parts(b);
    let va = text::decimal(a.adapter_version as nat);
    let vb = text::decimal(b.adapter_version as nat);
    let ra = text::decimal(a.max_chunk_rows as nat);
    let rb = text::decimal(b.max_chunk_rows as nat);
    let ya = text::decimal(a.max_chunk_bytes as nat);
    let yb = text::decimal(b.max_chunk_bytes as nat);
    if a.table == b.table && ta == tb {
        lemma_cancel_around(
            "otlp-logs-clickhouse-adapter:v1\n"@ + "database="@,
            a.database,
            b.database,
            "\n"@ + "table="@ + a.table + "\n"@ + ta,
        );
    }
    if a.database == b.database && ta == tb {
        lemma_cancel_around(
            "otlp-logs-clickhouse-adapter:v1\n"@ + "database="@ + a.database + "\n"@ + "table="@,
            a.table,
            b.table,
            "\n"@ + ta,
        );
    }
    if a.database == b.database && a.table == b.table {
        assert(ha == hb);
        lemma_cancel_left(ha, ta, tb);
        let qa = tail_after_bytes(a);
        let qb = tail_after_bytes(b);
        if a.max_chunk_rows == b.max_chunk_rows && a.max_chunk_bytes == b.max_chunk_bytes
            && quorum_text(a) == quorum_text(b) {
            let t = "\n"@ + "max_chunk_rows="@ + ra + "\n"@ + "max_chunk_bytes="@ + ya + qa;
            assert(ta =~= "adapter_version="@ + va + t);
            assert(tb =~= "adapter_version="@ + vb + t);
            lemma_cancel_around("adapter_version="@, va, vb, t);
            text::lemma_decimal_injective(a.adapter_version as nat, b.adapter_version as nat);
        }
        if a.adapter_version == b.adapter_version && a.max_chunk_bytes == b.max_chunk_bytes
            && quorum_text(a) == quorum_text(b) {
            let h = "adapter_version="@ + va + "\n"@ + "max_chunk_rows="@;
            let t = "\n"@ + "max_chunk_bytes="@ + ya + qa;
            assert(ta =~= h + ra + t);
            assert(tb =~= h + rb + t);
            lemma_cancel_around(h, ra, rb, t);
            text::lemma_decimal_injective(a.max_chunk_rows as nat, b.max_chunk_rows as nat);
        }
        if a.adapter_version == b.adapter_version && a.max_chunk_rows == b.max_chunk_rows
            && quorum_text(a) == quorum_text(b) {
            let h = "adapter_version="@ + va + "\n"@ + "max_chunk_rows="@ + ra + "\n"@
                + "max_chunk_bytes="@;
            assert(ta =~= h + ya + qa);
            assert(tb =~= h + yb + qa);
            lemma_cancel_around(h, ya, yb, qa);
            text::lemma_decimal_injective(a.max_chunk_bytes as nat, b.max_chunk_bytes as nat);
        }
        if a.adapter_version == b.adapter_version && a.max_chunk_rows == b.max_chunk_rows
            && a.max_chunk_bytes == b.max_chunk_bytes {
            let h = "adapter_version="@ + va + "\n"@ + "max_chunk_rows="@ + ra + "\n"@
                + "max_chunk_bytes="@ + ya + "\n"@ + "insert_quorum="@;
            assert(ta =~= h + quorum_text(a) + "\n"@);
            assert(tb =~= h + quorum_text(b) + "\n"@);
            lemma_cancel_around(h, quorum_text(a), quorum_text(b), "\n"@);
        }
    }
}

spec fn text_head(c: ConfigView) -> Seq<char> {
    "otlp-logs-clickhouse-adapter:v1\n"@ + "database="@ + c.database + "\n"@ + "table="@ + c.table
        + "\n"@
}

spec fn tail_after_bytes(c: ConfigView) -> Seq<char> {
    "\n"@ + "insert_quorum="@ + quorum_text(c) + "\n"@
}

spec fn text_tail(c: ConfigView) -> Seq<char> {
    "adapter_version="@ + text::decimal(c.adapter_version as nat) + "\n"@ + "max_chunk_rows="@
        + text::decimal(c.max_chunk_rows as nat) + "\n"@ + "max_chunk_bytes="@ + text::decimal(
        c.max_chunk_bytes as nat,
    ) + tail_after_bytes(c)
}

proof fn lemma_text_parts(c: ConfigView)
    ensures
        fingerprint_text(c) == text_head(c) + text_tail(c),
        fingerprint_text(c) == "otlp-logs-clickhouse-adapter:v1\n"@ + "database="@ + c.database + (
        "\n"@ + "table="@ + c.table + "\n"@ + text_tail(c)),
        fingerprint_text(c) == "otlp-logs-clickhouse-adapter:v1\n"@ + "database="@ + c.database
            + "\n"@ + "table="@ + c.table + ("\n"@ + text_tail(c)),
{
    assert(fingerprint_text(c) =~= text_head(c) + text_tail(c));
    assert(fingerprint_text(c) =~= "otlp-logs-clickhouse-adapter:v1\n"@ + "database="@ + c.database
        + ("\n"@ + "table="@ + c.table + "\n"@ + text_tail(c)));
    assert(fingerprint_text(c) =~= "otlp-logs-clickhouse-adapter:v1\n"@ + "database="@ + c.database
        + "\n"@ + "table="@ + c.table + ("\n"@ + text_tail(c)));
}

proof fn lemma_cancel_left(head: Seq<char>, a: Seq<char>, b: Seq<char>)
    requires
        head + a == head + b,
    ensures
        a == b,
{
    let n = head.len() as int;
    assert((head + a).skip(n) =~= a);
    assert((head + b).skip(n) =~= b);
}

/// The columns have different names.
pub proof fn law_column_names_differ(i: int, j: int)
    requires
        0 <= i < column_names().len(),
        0 <= j < column_names().len(),
        column_names()[i]@ == column_names()[j]@,
    ensures
        i == j,
{
    reveal_strlit("Timestamp");
    reveal_strlit("ObservedTimestamp");
    reveal_strlit("SeverityText");
    reveal_strlit("SeverityNumber");
    reveal_strlit("ServiceName");
    reveal_strlit("Body");
    reveal_strlit("ResourceAttributes");
    reveal_strlit("LogAttributes");
    reveal_strlit("TraceId");
    reveal_strlit("SpanId");
    reveal_strlit("_odb_sequence");
    reveal_strlit("_odb_entry_index");
    reveal_strlit("_odb_record_index");
    reveal_strlit("_odb_manifest_path");
    reveal_strlit("_odb_data_path");
    reveal_strlit("_odb_ingestion_time_ms");
    reveal_strlit("_adapter_version");
    reveal_strlit("_odb_gateway_received_at");
    assert("Timestamp"@.len() == 9 && "Timestamp"@[0] == 'T' && "Timestamp"@[1] == 'i');
    assert("ObservedTimestamp"@.len() == 17 && "ObservedTimestamp"@[0] == 'O' && "ObservedTimestamp"@[1] == 'b');
    assert("SeverityText"@.len() == 12 && "SeverityText"@[0] == 'S' && "SeverityText"@[1] == 'e');
    assert("SeverityNumber"@.len() == 14 && "SeverityNumber"@[0] == 'S' && "SeverityNumber"@[1] == 'e');
    assert("ServiceName"@.len() == 11 && "ServiceName"@[0] == 'S' && "ServiceName"@[1] == 'e');
    assert("Body"@.len() == 4 && "Body"@[0] == 'B' && "Body"@[1] == 'o');
    assert("ResourceAttributes"@.len() == 18 && "ResourceAttributes"@[0] == 'R' && "ResourceAttributes"@[1] == 'e');
    assert("LogAttributes"@.len() == 13 && "LogAttributes"@[0] == 'L' && "LogAttributes"@[1] == 'o');
    assert("TraceId"@.len() == 7 && "TraceId"@[0] == 'T' && "TraceId"@[1] == 'r');
    assert("SpanId"@.len() == 6 && "SpanId"@[0] == 'S' && "SpanId"@[1] == 'p');
    assert("_odb_sequence"@.len() == 13 && "_odb_sequence"@[0] == '_' && "_odb_sequence"@[1] == 'o');
    assert("_odb_entry_index"@.len() == 16 && "_odb_entry_index"@[0] == '_' && "_odb_entry_index"@[1] == 'o');
    assert("_odb_record_index"@.len() == 17 && "_odb_record_index"@[0] == '_' && "_odb_record_index"@[1] == 'o');
    assert("_odb_manifest_path"@.len() == 18 && "_odb_manifest_path"@[0] == '_' && "_odb_manifest_path"@[1] == 'o');
    assert("_odb_data_path"@.len() == 14 && "_odb_data_path"@[0] == '_' && "_odb_data_path"@[1] == 'o');
    assert("_odb_ingestion_time_ms"@.len() == 22 && "_odb_ingestion_time_ms"@[0] == '_' && "_odb_ingestion_time_ms"@[1] == 'o');
    assert("_adapter_version"@.len() == 16 && "_adapter_version"@[0] == '_' && "_adapter_version"@[1] == 'a');
    assert("_odb_gateway_received_at"@.len() == 24 && "_odb_gateway_received_at"@[0] == '_' && "_odb_gateway_received_at"@[1] == 'o');
}

/// Whether the column of the logs table with this name holds this cell of a
/// record, told by the name alone.
pub open spec fn column_holds(
    name: Seq<char>,
    r: crate::logs::RecordView,
    adapter_version: u32,
    cell: adapter::CellView,
) -> bool {
    &&& name == "Timestamp"@ ==> cell == adapter::CellView::DateTime64Nanos(r.timestamp_unix_nano)
    &&& name == "ObservedTimestamp"@ ==> cell == adapter::CellView::DateTime64Nanos(
        r.observed_timestamp_unix_nano,
    )
    &&& name == "SeverityText"@ ==> cell == adapter::CellView::LowCardinalityString(r.severity_text)
    &&& name == "SeverityNumber"@ ==> (cell matches adapter::CellView::UInt8(n) && (0
        <= r.severity_number <= 255 ==> n == r.severity_number) && (r.severity_number < 0 ==> n
        == 0) && (r.severity_number > 255 ==> n == 255))
    &&& name == "ServiceName"@ ==> (cell matches adapter::CellView::LowCardinalityString(s) && (
    r.service_name matches Some(t) ==> s == t) && (r.service_name is None ==> s.len() == 0))
    &&& name == "Body"@ ==> cell == adapter::CellView::String(r.body)
    &&& name == "ResourceAttributes"@ ==> (cell matches adapter::CellView::StringMap(pairs)
        && attributes::keys_ascend(pairs) && attributes::map_of(pairs) == (if receipt_is_read(r) {
        r.resource_attributes.remove("_odb_gateway_received_at"@)
    } else {
        r.resource_attributes
    }))
    &&& name == "LogAttributes"@ ==> (cell matches adapter::CellView::StringMap(pairs)
        && attributes::keys_ascend(pairs) && attributes::map_of(pairs) == r.log_attributes)
    &&& name == "TraceId"@ ==> cell == adapter::CellView::String(r.trace_id_hex)
    &&& name == "SpanId"@ ==> cell == adapter::CellView::String(r.span_id_hex)
    &&& name == "_odb_sequence"@ ==> cell == adapter::CellView::UInt64(r.source.buffer_sequence)
    &&& name == "_odb_entry_index"@ ==> cell == adapter::CellView::UInt32(r.source.entry_index)
    &&& name == "_odb_record_index"@ ==> cell == adapter::CellView::UInt32(r.source.record_index)
    &&& name == "_odb_manifest_path"@ ==> cell == adapter::CellView::LowCardinalityString(
        r.source.manifest_path,
    )
    &&& name == "_odb_data_path"@ ==> cell == adapter::CellView::String(r.source.data_path)
    &&& name == "_odb_ingestion_time_ms"@ ==> cell == adapter::CellView::Int64(
        r.source.ingestion_time_ms,
    )
    &&& name == "_adapter_version"@ ==> cell == adapter::CellView::UInt32(adapter_version)
    &&& name == "_odb_gateway_received_at"@ ==> (cell matches
        adapter::CellView::NullableDateTime64Nanos(time) && (time is Some <==> receipt_is_read(r))
        && (time matches Some(n) ==> text::digits_value(
        text::unsigned_digits(r.resource_attributes["_odb_gateway_received_at"@]),
    ) == n))
}

/// Whether the resource of a record carries a time of receipt that can be read: a
/// run of digits, after an optional plus sign, of a number of 64 bits.
pub open spec fn receipt_is_read(r: crate::logs::RecordView) -> bool {
    &&& r.resource_attributes.contains_key("_odb_gateway_received_at"@)
    &&& ({
        let digits = text::unsigned_digits(r.resource_attributes["_odb_gateway_received_at"@]);
        digits.len() > 0 && text::all_digits(digits) && text::digits_value(digits) <= u64::MAX
    })
}

/// Whether the attributes of a record are maps that have an order of their entries,
/// as those of every decoded record do.
pub open spec fn has_ordered_attributes(r: crate::logs::RecordView) -> bool {
    &&& exists|p: Seq<attributes::TextPair>|
        attributes::keys_ascend(p) && #[trigger] attributes::map_of(p) == r.resource_attributes
    &&& exists|p: Seq<attributes::TextPair>|
        attributes::keys_ascend(p) && #[trigger] attributes::map_of(p) == r.log_attributes
}

/// Each cell of a row is the one that the name of its column asks for, and there is
/// a column for every part of a record.
pub proof fn law_cells_follow_their_columns(
    r: crate::logs::RecordView,
    adapter_version: u32,
    i: int,
)
    requires
        has_ordered_attributes(r),
        0 <= i < column_names().len(),
    ensures
        row_cells(r, adapter_version).len() == column_names().len(),
        column_holds(column_names()[i]@, r, adapter_version, row_cells(r, adapter_version)[i]),
{
    let p = choose|p: Seq<attributes::TextPair>|
        attributes::keys_ascend(p) && #[trigger] attributes::map_of(p) == r.resource_attributes;
    let q = choose|q: Seq<attributes::TextPair>|
        attributes::keys_ascend(q) && #[trigger] attributes::map_of(q) == r.log_attributes;
    attributes::lemma_sorted_pairs(p);
    attributes::lemma_sorted_pairs(q);
    let w = attributes::lemma_ascending_without(p, "_odb_gateway_received_at"@);
    attributes::lemma_sorted_pairs(w);
    assert(gateway_stamp(r.resource_attributes) is Some <==> receipt_is_read(r));
    reveal_strlit("Timestamp");
    reveal_strlit("ObservedTimestamp");
    reveal_strlit("SeverityText");
    reveal_strlit("SeverityNumber");
    reveal_strlit("ServiceName");
    reveal_strlit("Body");
    reveal_strlit("ResourceAttributes");
    reveal_strlit("LogAttributes");
    reveal_strlit("TraceId");
    reveal_strlit("SpanId");
    reveal_strlit("_odb_sequence");
    reveal_strlit("_odb_entry_index");
    reveal_strlit("_odb_record_index");
    reveal_strlit("_odb_manifest_path");
    reveal_strlit("_odb_data_path");
    reveal_strlit("_odb_ingestion_time_ms");
    reveal_strlit("_adapter_version");
    reveal_strlit("_odb_gateway_received_at");
    assert("Timestamp"@.len() == 9 && "Timestamp"@[0] == 'T' && "Timestamp"@[1] == 'i');
    assert("ObservedTimestamp"@.len() == 17 && "ObservedTimestamp"@[0] == 'O' && "ObservedTimestamp"@[1] == 'b');
    assert("SeverityText"@.len() == 12 && "SeverityText"@[0] == 'S' && "SeverityText"@[1] == 'e');
    assert("SeverityNumber"@.len() == 14 && "SeverityNumber"@[0] == 'S' && "SeverityNumber"@[1] == 'e');
    assert("ServiceName"@.len() == 11 && "ServiceName"@[0] == 'S' && "ServiceName"@[1] == 'e');
    assert("Body"@.len() == 4 && "Body"@[0] == 'B' && "Body"@[1] == 'o');
    assert("ResourceAttributes"@.len() == 18 && "ResourceAttributes"@[0] == 'R' && "ResourceAttributes"@[1] == 'e');
    assert("LogAttributes"@.len() == 13 && "LogAttributes"@[0] == 'L' && "LogAttributes"@[1] == 'o');
    assert("TraceId"@.len() == 7 && "TraceId"@[0] == 'T' && "TraceId"@[1] == 'r');
    assert("SpanId"@.len() == 6 && "SpanId"@[0] == 'S' && "SpanId"@[1] == 'p');
    assert("_odb_sequence"@.len() == 13 && "_odb_sequence"@[0] == '_' && "_odb_sequence"@[1] == 'o');
    assert("_odb_entry_index"@.len() == 16 && "_odb_entry_index"@[0] == '_' && "_odb_entry_index"@[1] == 'o');
    assert("_odb_record_index"@.len() == 17 && "_odb_record_index"@[0] == '_' && "_odb_record_index"@[1] == 'o');
    assert("_odb_manifest_path"@.len() == 18 && "_odb_manifest_path"@[0] == '_' && "_odb_manifest_path"@[1] == 'o');
    assert("_odb_data_path"@.len() == 14 && "_odb_data_path"@[0] == '_' && "_odb_data_path"@[1] == 'o');
    assert("_odb_ingestion_time_ms"@.len() == 22 && "_odb_ingestion_time_ms"@[0] == '_' && "_odb_ingestion_time_ms"@[1] == 'o');
    assert("_adapter_version"@.len() == 16 && "_adapter_version"@[0] == '_' && "_adapter_version"@[1] == 'a');
    assert("_odb_gateway_received_at"@.len() == 24 && "_odb_gateway_received_at"@[0] == '_' && "_odb_gateway_received_at"@[1] == 'o');
    assert(column_names()[0]@ == "Timestamp"@);
    assert(column_names()[1]@ == "ObservedTimestamp"@);
    assert(column_names()[2]@ == "SeverityText"@);
    assert(column_names()[3]@ == "SeverityNumber"@);
    assert(column_names()[4]@ == "ServiceName"@);
    assert(column_names()[5]@ == "Body"@);
    assert(column_names()[6]@ == "ResourceAttributes"@);
    assert(column_names()[7]@ == "LogAttributes"@);
    assert(column_names()[8]@ == "TraceId"@);
    assert(column_names()[9]@ == "SpanId"@);
    assert(column_names()[10]@ == "_odb_sequence"@);
    assert(column_names()[11]@ == "_odb_entry_index"@);
    assert(column_names()[12]@ == "_odb_record_index"@);
    assert(column_names()[13]@ == "_odb_manifest_path"@);
    assert(column_names()[14]@ == "_odb_data_path"@);
    assert(column_names()[15]@ == "_odb_ingestion_time_ms"@);
    assert(column_names()[16]@ == "_adapter_version"@);
    assert(column_names()[17]@ == "_odb_gateway_received_at"@);
}

/// Every column of the logs table that a record fills is among those of an insert.
pub proof fn law_every_column_is_inserted()
    ensures
        column_names().map_values(|c: &'static str| c@).contains("Timestamp"@),
        column_names().map_values(|c: &'static str| c@).contains("ObservedTimestamp"@),
        column_names().map_values(|c: &'static str| c@).contains("SeverityText"@),
        column_names().map_values(|c: &'static str| c@).contains("SeverityNumber"@),
        column_names().map_values(|c: &'static str| c@).contains("ServiceName"@),
        column_names().map_values(|c: &'static str| c@).contains("Body"@),
        column_names().map_values(|c: &'static str| c@).contains("ResourceAttributes"@),
        column_names().map_values(|c: &'static str| c@).contains("LogAttributes"@),
        column_names().map_values(|c: &'static str| c@).contains("TraceId"@),
        column_names().map_values(|c: &'static str| c@).contains("SpanId"@),
        column_names().map_values(|c: &'static str| c@).contains("_odb_sequence"@),
        column_names().map_values(|c: &'static str| c@).contains("_odb_entry_index"@),
        column_names().map_values(|c: &'static str| c@).contains("_odb_record_index"@),
        column_names().map_values(|c: &'static str| c@).contains("_odb_manifest_path"@),
        column_names().map_values(|c: &'static str| c@).contains("_odb_data_path"@),
        column_names().map_values(|c: &'static str| c@).contains("_odb_ingestion_time_ms"@),
        column_names().map_values(|c: &'static str| c@).contains("_adapter_version"@),
        column_names().map_values(|c: &'static str| c@).contains("_odb_gateway_received_at"@),
        column_names().len() == 18,
{
    let names = column_names().map_values(|c: &'static str| c@);
    assert(names[0] == "Timestamp"@);
    assert(names[1] == "ObservedTimestamp"@);
    assert(names[2] == "SeverityText"@);
    assert(names[3] == "SeverityNumber"@);
    assert(names[4] == "ServiceName"@);
    assert(names[5] == "Body"@);
    assert(names[6] == "ResourceAttributes"@);
    assert(names[7] == "LogAttributes"@);
    assert(names[8] == "TraceId"@);
    assert(names[9] == "SpanId"@);
    assert(names[10] == "_odb_sequence"@);
    assert(names[11] == "_odb_entry_index"@);
    assert(names[12] == "_odb_record_index"@);
    assert(names[13] == "_odb_manifest_path"@);
    assert(names[14] == "_odb_data_path"@);
    assert(names[15] == "_odb_ingestion_time_ms"@);
    assert(names[16] == "_adapter_version"@);
    assert(names[17] == "_odb_gateway_received_at"@);
}

/// What a planned chunk inserts into a column is what the column is for: in each
/// row, which is that of a record, the cell under each column name is the one that
/// the name asks for.
pub proof fn law_planned_cells_follow_their_columns(
    c: ConfigView,
    range: SequenceRange,
    ordered: Seq<crate::logs::RecordView>,
    span: (int, int),
    number: u32,
    chunk: InsertChunk,
    row: int,
    column: int,
)
    requires
        chunk_is(c, range, ordered, span, number, chunk),
        0 <= span.0 <= span.1 <= ordered.len(),
        0 <= row < span.1 - span.0,
        0 <= column < chunk.columns@.len(),
        has_ordered_attributes(ordered[span.0 + row]),
    ensures
        chunk.rows@.len() == span.1 - span.0,
        chunk.rows@[row]@.len() == chunk.columns@.len(),
        column_holds(
            chunk.columns@[column]@,
            ordered[span.0 + row],
            c.adapter_version,
            chunk.rows@[row]@[column]@,
        ),
{
    let rows = adapter::row_views(chunk.rows@);
    let want = span_rows(c, ordered, span);
    assert(rows.len() == want.len());
    assert(rows[row] == otlp::views(chunk.rows@[row]@));
    assert(want[row] == row_cells(ordered[span.0 + row], c.adapter_version));
    law_cells_follow_their_columns(ordered[span.0 + row], c.adapter_version, column);
    assert(rows[row][column] == chunk.rows@[row]@[column]@);
}

/// The records of a plan are in the order of their coordinates: by sequence, then
/// by entry, then by record, and as they came where those are the same.
pub proof fn law_plan_is_in_coordinate_order(
    records: Seq<crate::logs::RecordView>,
    order: Seq<usize>,
    a: int,
    b: int,
)
    requires
        sorted_positions(records, order, 0, records.len() as int),
        0 <= a < b < order.len(),
    ensures
        ({
            let x = reordered(records, order)[a].source;
            let y = reordered(records, order)[b].source;
            &&& x.buffer_sequence <= y.buffer_sequence
            &&& x.buffer_sequence == y.buffer_sequence ==> x.entry_index <= y.entry_index
            &&& x.buffer_sequence == y.buffer_sequence && x.entry_index == y.entry_index
                ==> x.record_index <= y.record_index
            &&& x.buffer_sequence == y.buffer_sequence && x.entry_index == y.entry_index
                && x.record_index == y.record_index ==> order[a] < order[b]
        }),
{
    assert(comes_before(records, order[a] as int, order[b] as int));
}

/// Every record of a commit is at one place of the order of its plan.
pub proof fn law_order_is_a_permutation(
    records: Seq<crate::logs::RecordView>,
    order: Seq<usize>,
    i: int,
)
    requires
        records.len() <= usize::MAX,
        sorted_positions(records, order, 0, records.len() as int),
        0 <= i < records.len(),
    ensures
        reordered(records, order).len() == records.len(),
        exists|a: int| 0 <= a < order.len() && #[trigger] order[a] == i,
        forall|a: int, b: int|
            0 <= a < order.len() && 0 <= b < order.len() && #[trigger] order[a] == i
                && #[trigger] order[b] == i ==> a == b,
        forall|a: int|
            0 <= a < order.len() && #[trigger] order[a] == i ==> reordered(records, order)[a]
                == records[i],
{
    assert(order.contains(i as usize));
    assert forall|a: int, b: int|
        0 <= a < order.len() && 0 <= b < order.len() && #[trigger] order[a] == i
            && #[trigger] order[b] == i implies a == b by {
        if a < b {
            assert(comes_before(records, order[a] as int, order[b] as int));
        } else if b < a {
            assert(comes_before(records, order[b] as int, order[a] as int));
        }
    }
}

/// The size of a run of records is that of its records together.
pub proof fn law_span_size_is_the_sum(sizes: Seq<nat>, a: int, b: int, c: int)
    requires
        0 <= a <= b <= c <= sizes.len(),
    ensures
        span_size(sizes, a, c) == span_size(sizes, a, b) + span_size(sizes, b, c),
        span_size(sizes, a, a) == 0,
        a < sizes.len() ==> span_size(sizes, a, a + 1) == sizes[a],
    decreases c - b,
{
    reveal_with_fuel(span_size, 2);
    if b < c {
        law_span_size_is_the_sum(sizes, a, b, c - 1);
    }
}

proof fn lemma_cuts_are_full(sizes: Seq<nat>, max_rows: nat, max_bytes: nat, n: nat)
    requires
        n <= sizes.len(),
    ensures
        ({
            let closed = cuts(sizes, max_rows, max_bytes, n).closed;
            forall|i: int|
                0 <= i < closed.len() ==> is_full(
                    sizes,
                    max_rows,
                    max_bytes,
                    n as int,
                    #[trigger] closed[i],
                )
        }),
    decreases n,
{
    if n > 0 {
        lemma_cuts_are_full(sizes, max_rows, max_bytes, (n - 1) as nat);
        let before = cuts(sizes, max_rows, max_bytes, (n - 1) as nat).closed;
        let closed = cuts(sizes, max_rows, max_bytes, n).closed;
        assert forall|i: int| 0 <= i < closed.len() implies is_full(
            sizes,
            max_rows,
            max_bytes,
            n as int,
            #[trigger] closed[i],
        ) by {
            if i < before.len() {
                assert(closed[i] == before[i]);
                assert(is_full(sizes, max_rows, max_bytes, n - 1, before[i]));
            }
        }
    }
}

spec fn is_full(
    sizes: Seq<nat>,
    max_rows: nat,
    max_bytes: nat,
    end: int,
    span: (int, int),
) -> bool {
    span.1 < end && (span.1 - span.0 + 1 > max_rows || span_size(sizes, span.0, span.1)
        + sizes[span.1] > max_bytes)
}

/// A chunk is closed only when it has to be: the record that follows it would have
/// put it over one of its limits.
pub proof fn law_chunks_are_filled(sizes: Seq<nat>, max_rows: nat, max_bytes: nat, i: int)
    requires
        0 <= i,
        i + 1 < spans(sizes, max_rows, max_bytes).len(),
    ensures
        ({
            let span = spans(sizes, max_rows, max_bytes)[i];
            &&& span.1 < sizes.len()
            &&& span.1 - span.0 + 1 > max_rows || span_size(sizes, span.0, span.1) + sizes[span.1]
                > max_bytes
        }),
{
    lemma_cuts_are_full(sizes, max_rows, max_bytes, sizes.len());
    let c = cuts(sizes, max_rows, max_bytes, sizes.len());
    assert(spans(sizes, max_rows, max_bytes)[i] == c.closed[i]);
}

/// The chunks of a plan hold no more rows than configured and, unless a chunk is a
/// single record, no more bytes; a limit of zero counts as one. A chunk that is
/// followed by another could not have held one more record.
pub proof fn law_planned_chunks_keep_the_limits(
    c: ConfigView,
    range: SequenceRange,
    ordered: Seq<crate::logs::RecordView>,
    chunks: Seq<InsertChunk>,
    i: int,
)
    requires
        chunks_are(c, range, ordered, chunks),
        0 <= i < chunks.len(),
    ensures
        ({
            let span = chunk_spans(c, ordered)[i];
            let sizes = record_sizes(ordered);
            let rows: int = if c.max_chunk_rows == 0 {
                1
            } else {
                c.max_chunk_rows as int
            };
            let bytes: int = if c.max_chunk_bytes == 0 {
                1
            } else {
                c.max_chunk_bytes as int
            };
            &&& 0 <= span.0 < span.1 <= ordered.len()
            &&& chunks[i].rows@.len() == span.1 - span.0
            &&& i == 0 ==> span.0 == 0
            &&& i > 0 ==> span.0 == chunk_spans(c, ordered)[i - 1].1
            &&& i + 1 == chunks.len() ==> span.1 == ordered.len()
            &&& chunks[i].rows@.len() <= rows
            &&& chunks[i].rows@.len() == 1 || span_size(sizes, span.0, span.1) <= bytes
            &&& i + 1 < chunks.len() ==> chunks[i].rows@.len() == rows || span_size(
                sizes,
                span.0,
                span.1 + 1,
            ) > bytes
        }),
{
    let sizes = record_sizes(ordered);
    let mr = at_least_one(c.max_chunk_rows);
    let mb = at_least_one(c.max_chunk_bytes);
    let all = chunk_spans(c, ordered);
    law_chunks_cover_records(sizes, mr, mb);
    lemma_span_bounds(all, ordered.len() as int, i);
    law_chunks_within_limits(sizes, mr, mb, i);
    assert(chunk_is(c, range, ordered, all[i], chunk_number(i), chunks[i]));
    law_planned_chunk_serializes(c, range, ordered, all[i], chunk_number(i), chunks[i]);
    if i > 0 {
        assert(all[i - 1].1 == all[i].0);
    }
    if i + 1 < chunks.len() {
        law_chunks_are_filled(sizes, mr, mb, i);
        let span = all[i];
        assert(span_size(sizes, span.0, span.1 + 1) == span_size(sizes, span.0, span.1)
            + sizes[span.1]);
    }
}

/// A chunk goes where it is configured to go, under the configured settings; the
/// token that the server is given is the one by which the chunk is known, and it is
/// used exactly if deduplication is on.
pub proof fn law_chunk_carries_its_settings(
    c: ConfigView,
    range: SequenceRange,
    ordered: Seq<crate::logs::RecordView>,
    chunks: Seq<InsertChunk>,
    i: int,
)
    requires
        chunks_are(c, range, ordered, chunks),
        0 <= i < chunks.len(),
    ensures
        chunks[i].database@ == c.database,
        chunks[i].table@ == c.table,
        chunks[i].settings.insert_deduplication_token@ == chunks[i].idempotency_token@,
        chunks[i].settings.apply_deduplication_token == c.apply_deduplication_token,
        chunks[i].settings.insert_quorum is Some <==> c.insert_quorum is Some,
        chunks[i].settings.insert_quorum matches Some(q) ==> c.insert_quorum == Some(q@),
        chunks.len() <= 0x1_0000_0000 ==> chunks[i].chunk_index == i,
{
    assert(chunk_is(
        c,
        range,
        ordered,
        chunk_spans(c, ordered)[i],
        chunk_number(i),
        chunks[i],
    ));
}

/// The row of a record has one cell for each column of the table, and each cell is the
/// one that the name of its column asks for.
pub proof fn law_row_follows_the_columns(
    r: &DecodedLogRecord,
    adapter_version: u32,
    row: Vec<RowValue>,
    columns: Vec<&'static str>,
    i: int,
)
    requires
        has_ordered_attributes(r@),
        call_ensures(log_row, (r, adapter_version), row),
        call_ensures(log_columns, (), columns),
        0 <= i < columns@.len(),
    ensures
        row@.len() == columns@.len(),
        column_holds(columns@[i]@, r@, adapter_version, row@[i]@),
        columns@[i]@ == "Timestamp"@ ==> (row@[i] matches RowValue::DateTime64Nanos(n) && n
            == r.timestamp_unix_nano),
        columns@[i]@ == "ObservedTimestamp"@ ==> (row@[i] matches RowValue::DateTime64Nanos(n) && n
            == r.observed_timestamp_unix_nano),
        columns@[i]@ == "Body"@ ==> (row@[i] matches RowValue::String(s) && s@ == r.body@),
        columns@[i]@ == "SeverityText"@ ==> (row@[i] matches RowValue::LowCardinalityString(s)
            && s@ == r.severity_text@),
{
    law_cells_follow_their_columns(r@, adapter_version, i);
    let cells = otlp::views(row@);
    assert(cells.len() == row@.len());
    assert(cells[i] == row@[i]@);
}

/// The token of a chunk holds, in this order, the manifest, the table by its database,
/// both ends of the range, the version, the fingerprint and the number of the chunk.
pub proof fn law_token_holds_its_parts(
    manifest_path: &str,
    config: &LogsAdapterConfig,
    fingerprint: &str,
    range: SequenceRange,
    chunk_index: u32,
    s: String,
)
    requires
        call_ensures(
            build_token,
            (manifest_path, config, fingerprint, range, chunk_index),
            s,
        ),
    ensures
        s@ == manifest_path@ + ":"@ + config.database@ + "."@ + config.table@ + ":"@
            + text::decimal(range.low as nat) + "-"@ + text::decimal(range.high as nat) + ":"@
            + text::decimal(config.adapter_version as nat) + ":"@ + fingerprint@ + ":"@
            + text::decimal(chunk_index as nat),
{
}

/// The token of a planned chunk is that of the manifest of its records, the range of its
/// commit and its own number. Deduplication goes by the same token.
pub proof fn law_planned_chunk_has_its_token(
    c: ConfigView,
    range: SequenceRange,
    ordered: Seq<crate::logs::RecordView>,
    chunks: Seq<InsertChunk>,
    i: int,
)
    requires
        chunks_are(c, range, ordered, chunks),
        0 <= i < chunks.len(),
        chunks.len() <= 0x1_0000_0000,
    ensures
        chunks[i].idempotency_token@ == ordered[0].source.manifest_path + ":"@ + c.database + "."@
            + c.table + ":"@ + text::decimal(range.low as nat) + "-"@ + text::decimal(
            range.high as nat,
        ) + ":"@ + text::decimal(c.adapter_version as nat) + ":"@ + fingerprint(c) + ":"@
            + text::decimal(i as nat),
        chunks[i].settings.insert_deduplication_token@ == chunks[i].idempotency_token@,
        chunks[i].observability_labels@.len() == 2,
        chunks[i].observability_labels@[0].0@ == "table"@,
        chunks[i].observability_labels@[0].1@ == c.table,
        chunks[i].observability_labels@[1].0@ == "signal"@,
        chunks[i].observability_labels@[1].1@ == "logs"@,
{
    assert(chunk_is(
        c,
        range,
        ordered,
        chunk_spans(c, ordered)[i],
        chunk_number(i),
        chunks[i],
    ));
}

/// The fingerprint is the start of a digest of everything that decides how chunks are
/// cut and where they go, line by line under its name: sixteen digits for eight bytes.
pub proof fn law_fingerprint_is_of_the_settings(a: &OtlpLogsClickHouseAdapter, s: &str)
    requires
        call_ensures(OtlpLogsClickHouseAdapter::chunking_fingerprint, (a,), s),
    ensures
        ({
            let settings = "otlp-logs-clickhouse-adapter:v1\n"@ + "database="@ + a@.database + "\n"@
                + "table="@ + a@.table + "\n"@ + "adapter_version="@ + text::decimal(
                a@.adapter_version as nat,
            ) + "\n"@ + "max_chunk_rows="@ + text::decimal(a@.max_chunk_rows as nat) + "\n"@
                + "max_chunk_bytes="@ + text::decimal(a@.max_chunk_bytes as nat) + "\n"@
                + "insert_quorum="@ + (if a@.insert_quorum is Some {
                a@.insert_quorum->0
            } else {
                Seq::empty()
            }) + "\n"@;
            let bytes = digest::sha256(encode_utf8(settings)).take(8);
            s@ == digest::hex_of(bytes)
        }),
{
}

} // verus!
