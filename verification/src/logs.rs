//! OTLP logs decoder: flattens the resource, scope and record tree of export
//! requests into rows that carry their source coordinates.
use vstd::prelude::*;
use vstd::utf8::*;

use crate::attributes;
use crate::attributes::AttributeMap;
use crate::commit_group::RecordSize;
use crate::digest;
use crate::digest::hex_text;
use crate::envelope::{MetadataEnvelope, PayloadEncoding, SignalType};
use crate::otlp;
use crate::otlp::{
    decode_error_text, parse_export_request, Attribute, AttributeValue, LogEntry, ResourceBlock,
    ScopeBlock,
};
use crate::runtime::{
    BatchStats, DecodedBatch, DecodedRecords, Decoder, RuntimeError, SchemaVersion,
    SourceCoordinateColumns, TypedSchema,
};
use crate::source::{SourceBatch, SourceEntry};
use crate::text;
use crate::text::{owned, push_decimal, push_signed};

verus! {

/// Why a batch did not decode.
#[derive(Debug)]
pub enum OtelDecodeError {
    Logs { sequence: u64, entry_index: u32, source: prost::DecodeError },
}

/// The printed form of an [`OtelDecodeError`].
pub open spec fn decode_failure_text(e: OtelDecodeError) -> Seq<char> {
    match e {
        OtelDecodeError::Logs { sequence, entry_index, source } =>
        "OTLP logs decode failed for sequence="@ + text::decimal(sequence as nat)
            + " entry_index="@ + text::decimal(entry_index as nat) + ": "@
            + otlp::decode_error_display(source),
    }
}

impl OtelDecodeError {
    /// The printed form of the error.
    pub fn message(&self) -> (s: String)
        ensures
            s@ == decode_failure_text(*self),
    {
        match self {
            OtelDecodeError::Logs { sequence, entry_index, source } => {
                let mut out = String::from_str("OTLP logs decode failed for sequence=");
                push_decimal(&mut out, *sequence);
                out.append(" entry_index=");
                push_decimal(&mut out, *entry_index as u64);
                out.append(": ");
                let detail = decode_error_text(source);
                out.append(detail.as_str());
                out
            },
        }
    }
}

/// Where a row comes from. `(buffer_sequence, entry_index, record_index)` names
/// the row.
#[derive(Debug)]
pub struct RowSourceCoordinates {
    pub buffer_sequence: u64,
    pub entry_index: u32,
    pub record_index: u32,
    pub manifest_path: String,
    pub data_path: String,
    pub ingestion_time_ms: i64,
}

#[verifier::ext_equal]
pub struct CoordinatesView {
    pub buffer_sequence: u64,
    pub entry_index: u32,
    pub record_index: u32,
    pub manifest_path: Seq<char>,
    pub data_path: Seq<char>,
    pub ingestion_time_ms: i64,
}

impl View for RowSourceCoordinates {
    type V = CoordinatesView;

    open spec fn view(&self) -> CoordinatesView {
        CoordinatesView {
            buffer_sequence: self.buffer_sequence,
            entry_index: self.entry_index,
            record_index: self.record_index,
            manifest_path: self.manifest_path@,
            data_path: self.data_path@,
            ingestion_time_ms: self.ingestion_time_ms,
        }
    }
}

/// One flattened log record. The attributes of the record and of its scope are
/// merged; those of the resource are kept apart.
#[derive(Debug)]
pub struct DecodedLogRecord {
    pub source: RowSourceCoordinates,
    pub timestamp_unix_nano: u64,
    pub observed_timestamp_unix_nano: u64,
    pub severity_number: i32,
    pub severity_text: String,
    pub body: String,
    pub service_name: Option<String>,
    pub resource_attributes: AttributeMap,
    pub scope_name: Option<String>,
    pub log_attributes: AttributeMap,
    pub trace_id_hex: String,
    pub span_id_hex: String,
}

#[verifier::ext_equal]
pub struct RecordView {
    pub source: CoordinatesView,
    pub timestamp_unix_nano: u64,
    pub observed_timestamp_unix_nano: u64,
    pub severity_number: i32,
    pub severity_text: Seq<char>,
    pub body: Seq<char>,
    pub service_name: Option<Seq<char>>,
    pub resource_attributes: Map<Seq<char>, Seq<char>>,
    pub scope_name: Option<Seq<char>>,
    pub log_attributes: Map<Seq<char>, Seq<char>>,
    pub trace_id_hex: Seq<char>,
    pub span_id_hex: Seq<char>,
}

impl View for DecodedLogRecord {
    type V = RecordView;

    open spec fn view(&self) -> RecordView {
        RecordView {
            source: self.source@,
            timestamp_unix_nano: self.timestamp_unix_nano,
            observed_timestamp_unix_nano: self.observed_timestamp_unix_nano,
            severity_number: self.severity_number,
            severity_text: self.severity_text@,
            body: self.body@,
            service_name: otlp::option_view(self.service_name),
            resource_attributes: self.resource_attributes@,
            scope_name: otlp::option_view(self.scope_name),
            log_attributes: self.log_attributes@,
            trace_id_hex: self.trace_id_hex@,
            span_id_hex: self.span_id_hex@,
        }
    }
}

/// The records of a batch.
pub type DecodedLogs = Vec<DecodedLogRecord>;

/// The number of UTF-8 bytes of a text.
pub open spec fn byte_len(s: Seq<char>) -> nat {
    encode_utf8(s).len()
}

/// The number of UTF-8 bytes of an optional text.
pub open spec fn optional_byte_len(s: Option<Seq<char>>) -> nat {
    match s {
        Some(s) => byte_len(s),
        None => 0,
    }
}

/// The number of UTF-8 bytes of the keys and values of a map.
pub open spec fn map_bytes(map: Map<Seq<char>, Seq<char>>) -> nat {
    attributes::pairs_bytes(attributes::sorted_pairs(map))
}

/// The sum of the in-memory size of a record and the lengths of its strings.
pub open spec fn record_bytes(r: RecordView) -> nat {
    vstd::layout::size_of::<DecodedLogRecord>() + byte_len(r.severity_text) + byte_len(r.body)
        + optional_byte_len(r.service_name) + optional_byte_len(r.scope_name) + byte_len(
        r.trace_id_hex,
    ) + byte_len(r.span_id_hex) + map_bytes(r.resource_attributes) + map_bytes(r.log_attributes)
}

/// The approximate size that a record reports.
pub open spec fn record_size(r: RecordView) -> nat {
    capped(record_bytes(r))
}

/// A count that stops at the largest machine number.
pub open spec fn capped(n: nat) -> nat {
    if n <= usize::MAX {
        n
    } else {
        usize::MAX as nat
    }
}

fn plus_text(n: usize, s: &str, total: Ghost<nat>) -> (r: usize)
    requires
        n as nat == capped(total@),
    ensures
        r as nat == capped(total@ + byte_len(s@)),
{
    n.saturating_add(s.as_bytes().len())
}

fn plus_optional(n: usize, s: &Option<String>, total: Ghost<nat>) -> (r: usize)
    requires
        n as nat == capped(total@),
    ensures
        r as nat == capped(total@ + optional_byte_len(otlp::option_view(*s))),
{
    match s {
        Some(s) => plus_text(n, s.as_str(), total),
        None => n,
    }
}

fn plus_attributes(n: usize, map: &AttributeMap, total: Ghost<nat>) -> (r: usize)
    requires
        n as nat == capped(total@),
    ensures
        r as nat == capped(total@ + map_bytes(map@)),
{
    let mut sum: usize = n;
    let mut i: usize = 0;
    let len: usize = map.len();
    let ghost pairs = map.pairs();
    while i < len
        invariant
            pairs == map.pairs(),
            len == pairs.len(),
            i <= pairs.len(),
            sum as nat == capped(total@ + attributes::pairs_bytes(pairs.take(i as int))),
        decreases pairs.len() - i,
    {
        proof {
            assert(pairs.take(i + 1).drop_last() =~= pairs.take(i as int));
            assert(pairs.take(i + 1).last() == pairs[i as int]);
        }
        let ghost before = total@ + attributes::pairs_bytes(pairs.take(i as int));
        sum = plus_text(sum, map.key_at(i), Ghost(before));
        sum = plus_text(sum, map.value_at(i), Ghost(before + byte_len(pairs[i as int].0)));
        i = i + 1;
    }
    assert(pairs.take(i as int) =~= pairs);
    sum
}

impl DecodedLogRecord {
    /// Cheap approximate size of a record: its in-memory size and the lengths of
    /// its strings. It stops at the largest machine number, which strings that
    /// are in memory together never reach.
    pub fn approx_size_bytes(&self) -> (n: usize)
        ensures
            n as nat == record_size(self@),
    {
        let ghost base = vstd::layout::size_of::<DecodedLogRecord>();
        let n0: usize = std::mem::size_of::<DecodedLogRecord>();
        let n1: usize = plus_text(n0, self.severity_text.as_str(), Ghost(base));
        let ghost s1 = base + byte_len(self.severity_text@);
        let n2: usize = plus_text(n1, self.body.as_str(), Ghost(s1));
        let ghost s2 = s1 + byte_len(self.body@);
        let n3: usize = plus_optional(n2, &self.service_name, Ghost(s2));
        let ghost s3 = s2 + optional_byte_len(otlp::option_view(self.service_name));
        let n4: usize = plus_optional(n3, &self.scope_name, Ghost(s3));
        let ghost s4 = s3 + optional_byte_len(otlp::option_view(self.scope_name));
        let n5: usize = plus_text(n4, self.trace_id_hex.as_str(), Ghost(s4));
        let ghost s5 = s4 + byte_len(self.trace_id_hex@);
        let n6: usize = plus_text(n5, self.span_id_hex.as_str(), Ghost(s5));
        let ghost s6 = s5 + byte_len(self.span_id_hex@);
        let n7: usize = plus_attributes(n6, &self.resource_attributes, Ghost(s6));
        let ghost s7 = s6 + map_bytes(self.resource_attributes@);
        plus_attributes(n7, &self.log_attributes, Ghost(s7))
    }
}

impl RecordSize for DecodedLogRecord {
    open spec fn size(&self) -> nat {
        record_size(self@)
    }

    fn approx_size_bytes(&self) -> (n: usize) {
        self.approx_size_bytes()
    }
}

/// The approximate size of a run of records.
pub open spec fn records_bytes(records: Seq<DecodedLogRecord>) -> nat
    decreases records.len(),
{
    if records.len() == 0 {
        0
    } else {
        records_bytes(records.drop_last()) + record_size(records.last()@)
    }
}

/// The approximate size of a run of records, stopped at the largest machine
/// number.
pub fn sum_sizes(records: &Vec<DecodedLogRecord>) -> (n: usize)
    ensures
        n as nat == capped(records_bytes(records@)),
{
    let mut sum: usize = 0;
    let mut i: usize = 0;
    while i < records.len()
        invariant
            i <= records@.len(),
            sum as nat == capped(records_bytes(records@.take(i as int))),
        decreases records.len() - i,
    {
        proof {
            assert(records@.take(i + 1).drop_last() =~= records@.take(i as int));
            assert(records@.take(i + 1).last() == records@[i as int]);
        }
        sum = sum.saturating_add(records[i].approx_size_bytes());
        i = i + 1;
    }
    assert(records@.take(i as int) =~= records@);
    sum
}

/// The text of an attribute value or a body: strings as they are, booleans and
/// numbers printed, bytes in hexadecimal, and a placeholder for what is nested.
pub open spec fn value_text(v: otlp::ValueView) -> Seq<char> {
    match v {
        otlp::ValueView::Text(s) => s,
        otlp::ValueView::Flag(b) => if b {
            "true"@
        } else {
            "false"@
        },
        otlp::ValueView::Whole(i) => text::signed_decimal(i as int),
        otlp::ValueView::Real(s) => s,
        otlp::ValueView::Octets(b) => digest::hex_of(b),
        otlp::ValueView::Complex => "<complex>"@,
    }
}

/// The text of an optional value.
pub open spec fn optional_value_text(v: Option<otlp::ValueView>) -> Option<Seq<char>> {
    match v {
        Some(v) => Some(value_text(v)),
        None => None,
    }
}

/// The attributes that have a value, as text.
pub open spec fn attribute_texts(kvs: Seq<otlp::AttributeView>) -> Seq<attributes::TextPair>
    decreases kvs.len(),
{
    if kvs.len() == 0 {
        Seq::empty()
    } else {
        let front = attribute_texts(kvs.drop_last());
        match optional_value_text(kvs.last().value) {
            Some(v) => front.push((kvs.last().key, v)),
            None => front,
        }
    }
}

/// The value under a key, if there is one.
pub open spec fn lookup(map: Map<Seq<char>, Seq<char>>, key: Seq<char>) -> Option<Seq<char>> {
    if map.dom().contains(key) {
        Some(map[key])
    } else {
        None
    }
}

/// The attributes of a block's resource.
pub open spec fn resource_pairs(block: otlp::ResourceBlockView) -> Seq<attributes::TextPair> {
    match block.resource {
        Some(kvs) => attribute_texts(kvs),
        None => Seq::empty(),
    }
}

/// The attributes of a scope.
pub open spec fn scope_pairs(logs: otlp::ScopeBlockView) -> Seq<attributes::TextPair> {
    match logs.scope {
        Some(scope) => attribute_texts(scope.attributes),
        None => Seq::empty(),
    }
}

/// Where the rows of one entry come from.
pub struct EntryOrigin {
    pub sequence: u64,
    pub entry_index: u32,
    pub manifest_path: Seq<char>,
    pub data_path: Seq<char>,
    pub ingestion_time_ms: i64,
}

/// The origin of an entry of a batch.
pub open spec fn origin_of(batch: SourceBatch, entry: SourceEntry) -> EntryOrigin {
    EntryOrigin {
        sequence: batch.sequence,
        entry_index: entry.entry_index,
        manifest_path: batch.manifest_path@,
        data_path: batch.data_object_path@,
        ingestion_time_ms: entry.ingestion_time_ms,
    }
}

/// The position of a record within its entry, as the 32-bit number that a row
/// carries.
pub open spec fn record_number(position: nat) -> u32 {
    (position % 0x1_0000_0000) as u32
}

/// The row of one record. The attributes of the scope go over those of the
/// record, and the service name is the resource attribute of that name.
pub open spec fn flat_record(
    origin: EntryOrigin,
    position: nat,
    block: otlp::ResourceBlockView,
    logs: otlp::ScopeBlockView,
    log: otlp::LogView,
) -> RecordView {
    RecordView {
        source: CoordinatesView {
            buffer_sequence: origin.sequence,
            entry_index: origin.entry_index,
            record_index: record_number(position),
            manifest_path: origin.manifest_path,
            data_path: origin.data_path,
            ingestion_time_ms: origin.ingestion_time_ms,
        },
        timestamp_unix_nano: log.time_unix_nano,
        observed_timestamp_unix_nano: log.observed_time_unix_nano,
        severity_number: log.severity_number,
        severity_text: log.severity_text,
        body: match optional_value_text(log.body) {
            Some(s) => s,
            None => Seq::empty(),
        },
        service_name: lookup(attributes::map_of(resource_pairs(block)), "service.name"@),
        resource_attributes: attributes::map_of(resource_pairs(block)),
        scope_name: match logs.scope {
            Some(scope) => Some(scope.name),
            None => None,
        },
        log_attributes: attributes::map_of(attribute_texts(log.attributes) + scope_pairs(logs)),
        trace_id_hex: digest::hex_of(log.trace_id),
        span_id_hex: digest::hex_of(log.span_id),
    }
}

/// The rows of one scope, numbered from `start`.
pub open spec fn scope_rows(
    origin: EntryOrigin,
    start: nat,
    block: otlp::ResourceBlockView,
    logs: otlp::ScopeBlockView,
) -> Seq<RecordView> {
    Seq::new(
        logs.log_records.len(),
        |i: int| flat_record(origin, (start + i) as nat, block, logs, logs.log_records[i]),
    )
}

/// The rows of the first `n` scopes of a block, numbered from `start`.
pub open spec fn block_rows(
    origin: EntryOrigin,
    start: nat,
    block: otlp::ResourceBlockView,
    n: nat,
) -> Seq<RecordView>
    decreases n,
{
    if n == 0 {
        Seq::empty()
    } else {
        let front = block_rows(origin, start, block, (n - 1) as nat);
        front + scope_rows(origin, start + front.len(), block, block.scope_logs[n - 1])
    }
}

/// The rows of a request: block by block, scope by scope, record by record,
/// numbered from zero.
pub open spec fn request_rows(
    origin: EntryOrigin,
    blocks: Seq<otlp::ResourceBlockView>,
) -> Seq<RecordView>
    decreases blocks.len(),
{
    if blocks.len() == 0 {
        Seq::empty()
    } else {
        let front = request_rows(origin, blocks.drop_last());
        front + block_rows(origin, front.len(), blocks.last(), blocks.last().scope_logs.len())
    }
}

/// Whether the payload of an entry is an export request.
pub open spec fn entry_decodes(entry: SourceEntry) -> bool {
    otlp::export_request(entry.raw_bytes@) is Ok
}

/// The rows of an entry whose payload is an export request.
pub open spec fn entry_rows(batch: SourceBatch, entry: SourceEntry) -> Seq<RecordView> {
    request_rows(origin_of(batch, entry), otlp::export_request(entry.raw_bytes@)->Ok_0)
}

/// The rows of the first `n` entries of a batch, entry by entry.
pub open spec fn batch_rows(batch: SourceBatch, n: nat) -> Seq<RecordView>
    decreases n,
{
    if n == 0 {
        Seq::empty()
    } else {
        batch_rows(batch, (n - 1) as nat) + entry_rows(batch, batch.entries@[n - 1])
    }
}

/// The text of a value, if there is one.
pub fn string_value(value: &Option<AttributeValue>) -> (r: Option<String>)
    ensures
        otlp::option_view(r) == optional_value_text(otlp::option_view(*value)),
{
    match value {
        Some(AttributeValue::Text(s)) => Some(s.clone()),
        Some(AttributeValue::Flag(b)) => Some(
            if *b {
                owned("true")
            } else {
                owned("false")
            },
        ),
        Some(AttributeValue::Whole(i)) => {
            let mut out = String::new();
            push_signed(&mut out, *i);
            assert(out@ =~= text::signed_decimal(*i as int));
            Some(out)
        },
        Some(AttributeValue::Real(s)) => Some(s.clone()),
        Some(AttributeValue::Octets(b)) => Some(hex_text(b.as_slice())),
        Some(AttributeValue::Complex) => Some(owned("<complex>")),
        None => None,
    }
}

/// The text of a value, empty if there is none.
pub fn any_value_to_string(value: &Option<AttributeValue>) -> (s: String)
    ensures
        s@ == match optional_value_text(otlp::option_view(*value)) {
            Some(t) => t,
            None => Seq::<char>::empty(),
        },
{
    match string_value(value) {
        Some(s) => s,
        None => String::new(),
    }
}

proof fn lemma_texts_step(kvs: Seq<Attribute>, i: int)
    requires
        0 <= i < kvs.len(),
    ensures
        attribute_texts(otlp::views(kvs.take(i + 1))) == match optional_value_text(kvs[i]@.value) {
            Some(v) => attribute_texts(otlp::views(kvs.take(i))).push((kvs[i]@.key, v)),
            None => attribute_texts(otlp::views(kvs.take(i))),
        },
{
    let next = otlp::views(kvs.take(i + 1));
    assert(next.drop_last() =~= otlp::views(kvs.take(i)));
    assert(next.last() == kvs[i]@);
}

proof fn lemma_map_of_concat(a: Seq<attributes::TextPair>, b: Seq<attributes::TextPair>)
    ensures
        attributes::map_of(a + b) == attributes::map_of(a).union_prefer_right(
            attributes::map_of(b),
        ),
    decreases b.len(),
{
    if b.len() == 0 {
        assert(a + b =~= a);
        assert(attributes::map_of(a + b) =~= attributes::map_of(a).union_prefer_right(
            attributes::map_of(b),
        ));
    } else {
        lemma_map_of_concat(a, b.drop_last());
        assert((a + b).drop_last() =~= a + b.drop_last());
        assert(attributes::map_of(a + b) =~= attributes::map_of(a).union_prefer_right(
            attributes::map_of(b),
        ));
    }
}

/// Writes the attributes that have a value over those that are in `dst`.
pub fn merge_attributes(src: &Vec<Attribute>, dst: &mut AttributeMap)
    ensures
        final(dst)@ == old(dst)@.union_prefer_right(
            attributes::map_of(attribute_texts(otlp::views(src@))),
        ),
{
    let mut i: usize = 0;
    while i < src.len()
        invariant
            i <= src@.len(),
            dst@ == old(dst)@.union_prefer_right(
                attributes::map_of(attribute_texts(otlp::views(src@.take(i as int)))),
            ),
        decreases src.len() - i,
    {
        proof {
            lemma_texts_step(src@, i as int);
        }
        let ghost done = attribute_texts(otlp::views(src@.take(i as int)));
        if let Some(value) = string_value(&src[i].value) {
            proof {
                let pair = (src@[i as int].key@, value@);
                assert(done.push(pair).drop_last() =~= done);
            }
            dst.insert(src[i].key.clone(), value);
        }
        i = i + 1;
    }
    assert(src@.take(i as int) =~= src@);
}

fn resource_fields(block: &ResourceBlock) -> (r: (AttributeMap, Option<String>))
    ensures
        r.0@ == attributes::map_of(resource_pairs(block@)),
        otlp::option_view(r.1) == lookup(r.0@, "service.name"@),
{
    let mut map = AttributeMap::new();
    if let Some(resource) = &block.resource {
        merge_attributes(&resource.attributes, &mut map);
        assert(map@ =~= attributes::map_of(resource_pairs(block@)));
    }
    let service = match map.get("service.name") {
        Some(s) => Some(owned(s)),
        None => None,
    };
    (map, service)
}

fn log_fields(logs: &ScopeBlock, log: &LogEntry) -> (map: AttributeMap)
    ensures
        map@ == attributes::map_of(
            attribute_texts(log@.attributes) + scope_pairs(logs@),
        ),
{
    let mut map = AttributeMap::new();
    merge_attributes(&log.attributes, &mut map);
    let ghost own = attribute_texts(log@.attributes);
    assert(map@ =~= attributes::map_of(own));
    if let Some(scope) = &logs.scope {
        merge_attributes(&scope.attributes, &mut map);
        proof {
            lemma_map_of_concat(own, scope_pairs(logs@));
        }
    } else {
        assert(own + scope_pairs(logs@) =~= own);
    }
    map
}

fn flatten_log(
    batch: &SourceBatch,
    entry: &SourceEntry,
    record_index: u32,
    position: Ghost<nat>,
    block: &ResourceBlock,
    shared: &(AttributeMap, Option<String>),
    logs: &ScopeBlock,
    log: &LogEntry,
) -> (r: DecodedLogRecord)
    requires
        record_index == record_number(position@),
        shared.0@ == attributes::map_of(resource_pairs(block@)),
        otlp::option_view(shared.1) == lookup(shared.0@, "service.name"@),
    ensures
        r@ == flat_record(origin_of(*batch, *entry), position@, block@, logs@, log@),
{
    let scope_name = match &logs.scope {
        Some(scope) => Some(scope.name.clone()),
        None => None,
    };
    let service_name = match &shared.1 {
        Some(s) => Some(s.clone()),
        None => None,
    };
    DecodedLogRecord {
        source: RowSourceCoordinates {
            buffer_sequence: batch.sequence,
            entry_index: entry.entry_index,
            record_index,
            manifest_path: batch.manifest_path.clone(),
            data_path: batch.data_object_path.clone(),
            ingestion_time_ms: entry.ingestion_time_ms,
        },
        timestamp_unix_nano: log.time_unix_nano,
        observed_timestamp_unix_nano: log.observed_time_unix_nano,
        severity_number: log.severity_number,
        severity_text: log.severity_text.clone(),
        body: any_value_to_string(&log.body),
        service_name,
        resource_attributes: shared.0.clone(),
        scope_name,
        log_attributes: log_fields(logs, log),
        trace_id_hex: hex_text(log.trace_id.as_slice()),
        span_id_hex: hex_text(log.span_id.as_slice()),
    }
}

proof fn lemma_record_number_step(position: nat)
    ensures
        record_number(position + 1) == if record_number(position) == u32::MAX {
            0u32
        } else {
            (record_number(position) + 1) as u32
        },
{
}

/// Appends the rows of a parsed request to `records`.
#[verifier::rlimit(40)]
pub fn flatten_request(
    batch: &SourceBatch,
    entry: &SourceEntry,
    blocks: &Vec<ResourceBlock>,
    records: &mut Vec<DecodedLogRecord>,
)
    ensures
        otlp::views(final(records)@) == otlp::views(old(records)@) + request_rows(
            origin_of(*batch, *entry),
            otlp::views(blocks@),
        ),
{
    let ghost origin = origin_of(*batch, *entry);
    let ghost base = otlp::views(records@);
    let mut record_index: u32 = 0;
    let mut b: usize = 0;
    assert(base + request_rows(origin, otlp::views(blocks@.take(0))) =~= base);
    while b < blocks.len()
        invariant
            b <= blocks@.len(),
            origin == origin_of(*batch, *entry),
            otlp::views(records@) == base + request_rows(
                origin,
                otlp::views(blocks@.take(b as int)),
            ),
            record_index == record_number(
                request_rows(origin, otlp::views(blocks@.take(b as int))).len(),
            ),
        decreases blocks.len() - b,
    {
        let block = &blocks[b];
        let ghost front = request_rows(origin, otlp::views(blocks@.take(b as int)));
        let ghost start = front.len();
        let shared = resource_fields(block);
        let mut s: usize = 0;
        assert(base + front + block_rows(origin, start, block@, 0) =~= base + front);
        while s < block.scope_logs.len()
            invariant
                s <= block.scope_logs@.len(),
                origin == origin_of(*batch, *entry),
                start == front.len(),
                shared.0@ == attributes::map_of(resource_pairs(block@)),
                otlp::option_view(shared.1) == lookup(shared.0@, "service.name"@),
                otlp::views(records@) == base + front + block_rows(
                    origin,
                    start,
                    block@,
                    s as nat,
                ),
                record_index == record_number(
                    start + block_rows(origin, start, block@, s as nat).len(),
                ),
            decreases block.scope_logs.len() - s,
        {
            let logs = &block.scope_logs[s];
            let ghost done = block_rows(origin, start, block@, s as nat);
            let ghost from = start + done.len();
            let ghost rows = scope_rows(origin, from, block@, logs@);
            assert(block@.scope_logs[s as int] == logs@);
            let mut i: usize = 0;
            assert(base + front + done + rows.take(0) =~= base + front + done);
            while i < logs.log_records.len()
                invariant
                    i <= logs.log_records@.len(),
                    origin == origin_of(*batch, *entry),
                    rows == scope_rows(origin, from, block@, logs@),
                    shared.0@ == attributes::map_of(resource_pairs(block@)),
                    otlp::option_view(shared.1) == lookup(shared.0@, "service.name"@),
                    otlp::views(records@) == base + front + done + rows.take(i as int),
                    record_index == record_number(from + i as nat),
                decreases logs.log_records.len() - i,
            {
                let ghost position = from + i as nat;
                let record = flatten_log(
                    batch,
                    entry,
                    record_index,
                    Ghost(position),
                    block,
                    &shared,
                    logs,
                    &logs.log_records[i],
                );
                proof {
                    assert(rows[i as int] == record@);
                    assert(otlp::views(records@.push(record)) =~= otlp::views(records@).push(
                        record@,
                    ));
                    assert(rows.take(i + 1) =~= rows.take(i as int).push(rows[i as int]));
                    lemma_record_number_step(position);
                }
                records.push(record);
                record_index = record_index.wrapping_add(1);
                i = i + 1;
            }
            proof {
                assert(rows.take(i as int) =~= rows);
                assert(block_rows(origin, start, block@, (s + 1) as nat) == done + rows);
                assert(base + front + done + rows =~= base + front + (done + rows));
            }
            s = s + 1;
        }
        proof {
            let next = otlp::views(blocks@.take(b + 1));
            assert(next.drop_last() =~= otlp::views(blocks@.take(b as int)));
            assert(next.last() == block@);
            let rows = block_rows(origin, start, block@, s as nat);
            assert(request_rows(origin, next) == front + rows);
            assert(base + front + rows =~= base + (front + rows));
        }
        b = b + 1;
    }
    assert(blocks@.take(b as int) =~= blocks@);
}

/// Appends the rows of one entry to `records`. A payload that is not an export
/// request is an error that names the entry, and leaves `records` as it was.
pub fn decode_entry(
    batch: &SourceBatch,
    entry: &SourceEntry,
    records: &mut Vec<DecodedLogRecord>,
) -> (r: Result<(), OtelDecodeError>)
    ensures
        match r {
            Ok(()) => entry_decodes(*entry) && otlp::views(final(records)@) == otlp::views(
                old(records)@,
            ) + entry_rows(*batch, *entry),
            Err(OtelDecodeError::Logs { sequence, entry_index, source }) => !entry_decodes(*entry)
                && sequence == batch.sequence && entry_index == entry.entry_index
                && otlp::export_request(entry.raw_bytes@)->Err_0 == otlp::decode_error_display(
                source,
            ) && *final(records) == *old(records),
        },
{
    match parse_export_request(entry.raw_bytes.as_slice()) {
        Ok(blocks) => {
            flatten_request(batch, entry, &blocks, records);
            Ok(())
        },
        Err(source) => Err(
            OtelDecodeError::Logs {
                sequence: batch.sequence,
                entry_index: entry.entry_index,
                source,
            },
        ),
    }
}

/// Name of the schema of [`TypedDecodedLogs`].
pub const OTLP_LOGS_SCHEMA_NAME: &'static str = "opendata.otel.logs.v1";

/// Log records together with the schema that they follow.
#[derive(Debug)]
pub struct TypedDecodedLogs {
    records: Vec<DecodedLogRecord>,
    schema: TypedSchema,
}

impl View for TypedDecodedLogs {
    type V = Seq<DecodedLogRecord>;

    closed spec fn view(&self) -> Seq<DecodedLogRecord> {
        self.records@
    }
}

impl TypedDecodedLogs {
    #[verifier::type_invariant]
    spec fn schema_is_fixed(&self) -> bool {
        self.schema.name@ == OTLP_LOGS_SCHEMA_NAME@ && self.schema.version == SchemaVersion(1)
    }

    pub fn new(records: Vec<DecodedLogRecord>) -> (logs: Self)
        ensures
            logs@ == records@,
    {
        TypedDecodedLogs {
            records,
            schema: TypedSchema { name: owned(OTLP_LOGS_SCHEMA_NAME), version: SchemaVersion(1) },
        }
    }

    pub fn records(&self) -> (r: &Vec<DecodedLogRecord>)
        ensures
            r@ == self@,
    {
        &self.records
    }

    pub fn into_records(self) -> (r: Vec<DecodedLogRecord>)
        ensures
            r@ == self@,
    {
        self.records
    }

    pub fn record_count(&self) -> (n: usize)
        ensures
            n == self@.len(),
    {
        self.records.len()
    }

    /// The sum of the approximate sizes of the records.
    pub fn estimated_bytes(&self) -> (n: usize)
        ensures
            n as nat == capped(records_bytes(self@)),
    {
        sum_sizes(&self.records)
    }

    pub fn schema(&self) -> (s: &TypedSchema)
        ensures
            s.name@ == OTLP_LOGS_SCHEMA_NAME@,
            s.version == SchemaVersion(1),
    {
        proof {
            use_type_invariant(self);
        }
        &self.schema
    }
}

/// The sequences of a run of records.
pub open spec fn sequence_column(records: Seq<DecodedLogRecord>) -> Seq<u64> {
    records.map_values(|r: DecodedLogRecord| r.source.buffer_sequence)
}

/// The entry indices of a run of records.
pub open spec fn entry_column(records: Seq<DecodedLogRecord>) -> Seq<u32> {
    records.map_values(|r: DecodedLogRecord| r.source.entry_index)
}

/// The record indices of a run of records.
pub open spec fn record_column(records: Seq<DecodedLogRecord>) -> Seq<u32> {
    records.map_values(|r: DecodedLogRecord| r.source.record_index)
}

/// The ingestion times of a run of records.
pub open spec fn time_column(records: Seq<DecodedLogRecord>) -> Seq<i64> {
    records.map_values(|r: DecodedLogRecord| r.source.ingestion_time_ms)
}

/// What a batch that decodes is decoded to.
pub open spec fn decoded_from(batch: SourceBatch, out: DecodedBatch) -> bool {
    &&& out.source@ == batch.source@
    &&& out.low_sequence == batch.sequence
    &&& out.high_sequence == batch.sequence
    &&& out.source_entry_count == batch.entries@.len() as u32
    &&& out.records matches DecodedRecords::Logs(logs) && {
        &&& otlp::views(logs@) == batch_rows(batch, batch.entries@.len())
        &&& out.source_columns.sequences@ == sequence_column(logs@)
        &&& out.source_columns.entry_indices@ == entry_column(logs@)
        &&& out.source_columns.record_indices@ == record_column(logs@)
        &&& out.source_columns.ingestion_time_ms@ == time_column(logs@)
        &&& out.stats.decoded_byte_estimate as nat == capped(records_bytes(logs@))
    }
    &&& out.source_columns.manifest_path@ == batch.manifest_path@
    &&& out.source_columns.data_path@ == batch.data_object_path@
    &&& out.stats.source_byte_count == 0
    &&& out.schema_version == SchemaVersion(1)
}

/// Whether entry `k` is the first of the batch that is not an export request.
pub open spec fn first_undecodable(batch: SourceBatch, k: int) -> bool {
    &&& 0 <= k < batch.entries@.len()
    &&& !entry_decodes(batch.entries@[k])
    &&& forall|i: int| 0 <= i < k ==> entry_decodes(#[trigger] batch.entries@[i])
}

/// Decoder of OTLP log payloads.
#[derive(Debug)]
pub struct OtlpLogsDecoder;

impl Default for OtlpLogsDecoder {
    fn default() -> (d: Self)
        ensures
            d == OtlpLogsDecoder,
    {
        OtlpLogsDecoder
    }
}

impl OtlpLogsDecoder {
    pub fn new() -> (d: Self)
        ensures
            d == OtlpLogsDecoder,
    {
        OtlpLogsDecoder
    }

    /// Decodes every entry of a batch into rows, in the order of the entries and
    /// of the records in them. The first payload that is not an export request
    /// ends the walk with an error that names its entry.
    pub fn decode_logs(&self, batch: &SourceBatch) -> (r: Result<
        Vec<DecodedLogRecord>,
        OtelDecodeError,
    >)
        ensures
            r is Ok <==> forall|i: int|
                0 <= i < batch.entries@.len() ==> entry_decodes(#[trigger] batch.entries@[i]),
            match r {
                Ok(records) => otlp::views(records@) == batch_rows(
                    *batch,
                    batch.entries@.len(),
                ),
                Err(OtelDecodeError::Logs { sequence, entry_index, source }) => exists|k: int|
                    #[trigger] first_undecodable(*batch, k) && sequence == batch.sequence
                        && entry_index == batch.entries@[k].entry_index && otlp::export_request(
                        batch.entries@[k].raw_bytes@,
                    )->Err_0 == otlp::decode_error_display(source),
            },
    {
        let mut records: Vec<DecodedLogRecord> = Vec::new();
        let mut i: usize = 0;
        assert(otlp::views(records@) =~= batch_rows(*batch, 0));
        while i < batch.entries.len()
            invariant
                i <= batch.entries@.len(),
                otlp::views(records@) == batch_rows(*batch, i as nat),
                forall|j: int| 0 <= j < i ==> entry_decodes(#[trigger] batch.entries@[j]),
            decreases batch.entries.len() - i,
        {
            match decode_entry(batch, &batch.entries[i], &mut records) {
                Ok(()) => {},
                Err(e) => {
                    assert(first_undecodable(*batch, i as int));
                    return Err(e);
                },
            }
            i = i + 1;
        }
        Ok(records)
    }
}

impl Decoder for OtlpLogsDecoder {
    /// Decodes a batch into one decoded batch, whose range is the sequence of
    /// the source batch and whose coordinate columns hold one value per record.
    fn decode(&self, batch: SourceBatch) -> (r: Result<Vec<DecodedBatch>, RuntimeError>)
        ensures
            r is Ok <==> forall|i: int|
                0 <= i < batch.entries@.len() ==> entry_decodes(#[trigger] batch.entries@[i]),
            match r {
                Ok(batches) => batches@.len() == 1 && decoded_from(batch, batches@[0]),
                Err(RuntimeError::Decoder(OtelDecodeError::Logs { sequence, entry_index, source })) => exists|
                    k: int,
                | #[trigger]
                    first_undecodable(batch, k) && sequence == batch.sequence && entry_index
                        == batch.entries@[k].entry_index && otlp::export_request(
                        batch.entries@[k].raw_bytes@,
                    )->Err_0 == otlp::decode_error_display(source),
            },
    {
        let records = match self.decode_logs(&batch) {
            Ok(records) => records,
            Err(e) => return Err(RuntimeError::Decoder(e)),
        };
        let decoded_byte_estimate: u64 = sum_sizes(&records) as u64;
        let mut sequences: Vec<u64> = Vec::new();
        let mut entry_indices: Vec<u32> = Vec::new();
        let mut record_indices: Vec<u32> = Vec::new();
        let mut ingestion_time_ms: Vec<i64> = Vec::new();
        let mut i: usize = 0;
        while i < records.len()
            invariant
                i <= records@.len(),
                sequences@ == sequence_column(records@.take(i as int)),
                entry_indices@ == entry_column(records@.take(i as int)),
                record_indices@ == record_column(records@.take(i as int)),
                ingestion_time_ms@ == time_column(records@.take(i as int)),
            decreases records.len() - i,
        {
            assert(records@.take(i + 1) =~= records@.take(i as int).push(records@[i as int]));
            sequences.push(records[i].source.buffer_sequence);
            entry_indices.push(records[i].source.entry_index);
            record_indices.push(records[i].source.record_index);
            ingestion_time_ms.push(records[i].source.ingestion_time_ms);
            i = i + 1;
            proof {
                assert(sequences@ =~= sequence_column(records@.take(i as int)));
                assert(entry_indices@ =~= entry_column(records@.take(i as int)));
                assert(record_indices@ =~= record_column(records@.take(i as int)));
                assert(ingestion_time_ms@ =~= time_column(records@.take(i as int)));
            }
        }
        assert(records@.take(i as int) =~= records@);
        let source_columns = SourceCoordinateColumns {
            manifest_path: batch.manifest_path.clone(),
            data_path: batch.data_object_path.clone(),
            sequences,
            entry_indices,
            record_indices,
            ingestion_time_ms,
        };
        let decoded = DecodedBatch {
            source: batch.source.clone(),
            low_sequence: batch.sequence,
            high_sequence: batch.sequence,
            source_entry_count: batch.entries.len() as u32,
            records: DecodedRecords::Logs(TypedDecodedLogs::new(records)),
            source_columns,
            stats: BatchStats { source_byte_count: 0, decoded_byte_estimate },
            schema_version: SchemaVersion(1),
        };
        let mut out: Vec<DecodedBatch> = Vec::new();
        out.push(decoded);
        Ok(out)
    }

    /// Whether this decoder takes payloads under an envelope.
    fn accepts(&self, envelope: &MetadataEnvelope) -> (b: bool)
        ensures
            b == (envelope.version == 1 && envelope.signal_type == SignalType::Logs
                && envelope.encoding == PayloadEncoding::OtlpProtobuf),
    {
        envelope.version == 1 && envelope.signal_type == SignalType::Logs && envelope.encoding
            == PayloadEncoding::OtlpProtobuf
    }
}

/// Row `i` of a request is numbered `i` and carries the coordinates of its entry.
pub proof fn law_rows_numbered(
    origin: EntryOrigin,
    blocks: Seq<otlp::ResourceBlockView>,
    i: int,
)
    requires
        0 <= i < request_rows(origin, blocks).len(),
    ensures
        request_rows(origin, blocks)[i].source == (CoordinatesView {
            buffer_sequence: origin.sequence,
            entry_index: origin.entry_index,
            record_index: record_number(i as nat),
            manifest_path: origin.manifest_path,
            data_path: origin.data_path,
            ingestion_time_ms: origin.ingestion_time_ms,
        }),
    decreases blocks.len(),
{
    let front = request_rows(origin, blocks.drop_last());
    if i < front.len() {
        law_rows_numbered(origin, blocks.drop_last(), i);
    } else {
        let block = blocks.last();
        lemma_block_numbered(
            origin,
            front.len(),
            block,
            block.scope_logs.len(),
            i - front.len(),
        );
    }
}

proof fn lemma_block_numbered(
    origin: EntryOrigin,
    start: nat,
    block: otlp::ResourceBlockView,
    n: nat,
    i: int,
)
    requires
        0 <= i < block_rows(origin, start, block, n).len(),
    ensures
        block_rows(origin, start, block, n)[i].source == (CoordinatesView {
            buffer_sequence: origin.sequence,
            entry_index: origin.entry_index,
            record_index: record_number((start + i) as nat),
            manifest_path: origin.manifest_path,
            data_path: origin.data_path,
            ingestion_time_ms: origin.ingestion_time_ms,
        }),
    decreases n,
{
    let front = block_rows(origin, start, block, (n - 1) as nat);
    if i < front.len() {
        lemma_block_numbered(origin, start, block, (n - 1) as nat, i);
    } else {
        let rows = scope_rows(origin, start + front.len(), block, block.scope_logs[n - 1]);
        assert(block_rows(origin, start, block, n)[i] == rows[i - front.len()]);
    }
}

/// A request without blocks yields no row.
pub proof fn law_empty_request_has_no_rows(origin: EntryOrigin)
    ensures
        request_rows(origin, Seq::empty()).len() == 0,
{
}

/// Which entry, and which row of it, row `i` of a batch is.
pub open spec fn row_place(batch: SourceBatch, n: nat, i: int) -> (int, int)
    decreases n,
{
    if n == 0 {
        (0, 0)
    } else {
        let before = batch_rows(batch, (n - 1) as nat).len();
        if i < before {
            row_place(batch, (n - 1) as nat, i)
        } else {
            (n - 1, i - before)
        }
    }
}

/// Row `i` of a batch is the row of an entry that its place says.
pub proof fn lemma_row_place(batch: SourceBatch, n: nat, i: int)
    requires
        n <= batch.entries@.len(),
        0 <= i < batch_rows(batch, n).len(),
    ensures
        ({
            let (k, p) = row_place(batch, n, i);
            &&& 0 <= k < n
            &&& 0 <= p < entry_rows(batch, batch.entries@[k]).len()
            &&& batch_rows(batch, n)[i] == entry_rows(batch, batch.entries@[k])[p]
        }),
    decreases n,
{
    let before = batch_rows(batch, (n - 1) as nat);
    if i < before.len() {
        lemma_row_place(batch, (n - 1) as nat, i);
    }
}

proof fn lemma_row_place_order(batch: SourceBatch, n: nat, i: int, j: int)
    requires
        n <= batch.entries@.len(),
        0 <= i < j < batch_rows(batch, n).len(),
    ensures
        ({
            let (k, p) = row_place(batch, n, i);
            let (l, q) = row_place(batch, n, j);
            k < l || (k == l && p < q)
        }),
    decreases n,
{
    let before = batch_rows(batch, (n - 1) as nat);
    if j < before.len() {
        lemma_row_place_order(batch, (n - 1) as nat, i, j);
    } else if i < before.len() {
        lemma_row_place(batch, (n - 1) as nat, i);
    }
}

/// Whether no entry of a batch holds more rows than 32 bits can number.
pub open spec fn entries_numberable(batch: SourceBatch) -> bool {
    forall|k: int|
        0 <= k < batch.entries@.len() ==> entry_rows(
            batch,
            #[trigger] batch.entries@[k],
        ).len() <= 0x1_0000_0000
}

/// The rows of a batch whose entries have different indices are told apart by
/// `(buffer_sequence, entry_index, record_index)`.
pub proof fn law_row_coordinates_unique(batch: SourceBatch, i: int, j: int)
    requires
        entries_numberable(batch),
        forall|k: int, l: int|
            0 <= k < l < batch.entries@.len() ==> (#[trigger] batch.entries@[k]).entry_index != (
            #[trigger] batch.entries@[l]).entry_index,
        0 <= i < j < batch_rows(batch, batch.entries@.len()).len(),
    ensures
        ({
            let a = batch_rows(batch, batch.entries@.len())[i].source;
            let b = batch_rows(batch, batch.entries@.len())[j].source;
            (a.buffer_sequence, a.entry_index, a.record_index) != (
                b.buffer_sequence,
                b.entry_index,
                b.record_index,
            )
        }),
{
    let n = batch.entries@.len();
    lemma_row_place(batch, n, i);
    lemma_row_place(batch, n, j);
    lemma_row_place_order(batch, n, i, j);
    let (k, p) = row_place(batch, n, i);
    let (l, q) = row_place(batch, n, j);
    lemma_entry_row(batch, k, p);
    lemma_entry_row(batch, l, q);
}

proof fn lemma_entry_row(batch: SourceBatch, k: int, p: int)
    requires
        0 <= k < batch.entries@.len(),
        0 <= p < entry_rows(batch, batch.entries@[k]).len(),
    ensures
        ({
            let c = entry_rows(batch, batch.entries@[k])[p].source;
            &&& c.buffer_sequence == batch.sequence
            &&& c.entry_index == batch.entries@[k].entry_index
            &&& c.record_index == record_number(p as nat)
        }),
{
    let entry = batch.entries@[k];
    law_rows_numbered(
        origin_of(batch, entry),
        otlp::export_request(entry.raw_bytes@)->Ok_0,
        p,
    );
}

/// When the entries of a batch come with ascending indices, its rows come in
/// the order of `(entry_index, record_index)`.
pub proof fn law_rows_in_coordinate_order(batch: SourceBatch, i: int, j: int)
    requires
        entries_numberable(batch),
        forall|k: int, l: int|
            0 <= k < l < batch.entries@.len() ==> (#[trigger] batch.entries@[k]).entry_index < (
            #[trigger] batch.entries@[l]).entry_index,
        0 <= i < j < batch_rows(batch, batch.entries@.len()).len(),
    ensures
        ({
            let a = batch_rows(batch, batch.entries@.len())[i].source;
            let b = batch_rows(batch, batch.entries@.len())[j].source;
            a.entry_index < b.entry_index || (a.entry_index == b.entry_index && a.record_index
                < b.record_index)
        }),
{
    let n = batch.entries@.len();
    lemma_row_place(batch, n, i);
    lemma_row_place(batch, n, j);
    lemma_row_place_order(batch, n, i, j);
    let (k, p) = row_place(batch, n, i);
    let (l, q) = row_place(batch, n, j);
    lemma_entry_row(batch, k, p);
    lemma_entry_row(batch, l, q);
}

/// Whether attribute `i` of a run is the one that counts for a key: it has that
/// key and a value, and none with that key and a value comes after it.
pub open spec fn decides(kvs: Seq<otlp::AttributeView>, i: int, key: Seq<char>) -> bool {
    &&& 0 <= i < kvs.len()
    &&& kvs[i].key == key
    &&& kvs[i].value is Some
    &&& forall|j: int| i < j < kvs.len() && (#[trigger] kvs[j]).key == key ==> kvs[j].value is None
}

/// Whether a map holds the attributes of a run: for each key the text of the
/// attribute that counts for it, and no other key.
pub open spec fn stores(map: Map<Seq<char>, Seq<char>>, kvs: Seq<otlp::AttributeView>) -> bool {
    &&& forall|key: Seq<char>| #[trigger]
        map.contains_key(key) <==> exists|i: int| #[trigger] decides(kvs, i, key)
    &&& forall|key: Seq<char>, i: int| #[trigger]
        decides(kvs, i, key) ==> map[key] == value_text(kvs[i].value->0)
}

proof fn lemma_stored(kvs: Seq<otlp::AttributeView>, key: Seq<char>)
    ensures
        attributes::map_of(attribute_texts(kvs)).contains_key(key) <==> exists|i: int| #[trigger]
            decides(kvs, i, key),
        forall|i: int| #[trigger]
            decides(kvs, i, key) ==> attributes::map_of(attribute_texts(kvs))[key] == value_text(
                kvs[i].value->0,
            ),
    decreases kvs.len(),
{
    if kvs.len() > 0 {
        let front = kvs.drop_last();
        let n = kvs.len() - 1;
        lemma_stored(front, key);
        let texts = attribute_texts(front);
        if kvs.last().value is Some {
            let pair = (kvs.last().key, value_text(kvs.last().value->0));
            assert(attribute_texts(kvs) == texts.push(pair));
            assert(texts.push(pair).drop_last() =~= texts);
        }
        if kvs.last().key == key && kvs.last().value is Some {
            assert(decides(kvs, n, key));
            assert forall|i: int| #[trigger] decides(kvs, i, key) implies i == n by {
                if i < n {
                    assert(kvs[n].key == key);
                }
            }
        } else {
            assert forall|i: int| #[trigger] decides(kvs, i, key) implies decides(
                front,
                i,
                key,
            ) by {
                assert(i < n);
                assert(front[i] == kvs[i]);
                assert forall|j: int|
                    i < j < front.len() && (#[trigger] front[j]).key == key implies front[j].value is None by {
                    assert(front[j] == kvs[j]);
                }
            }
            assert forall|i: int| #[trigger] decides(front, i, key) implies decides(
                kvs,
                i,
                key,
            ) by {
                assert(front[i] == kvs[i]);
                assert forall|j: int|
                    i < j < kvs.len() && (#[trigger] kvs[j]).key == key implies kvs[j].value is None by {
                    if j < n {
                        assert(front[j] == kvs[j]);
                    }
                }
            }
        }
    }
}

/// Attributes are stored under their keys with their texts. Where a key occurs
/// more than once the last one with a value counts; one without a value changes
/// nothing.
pub proof fn law_attributes_are_stored(kvs: Seq<otlp::AttributeView>)
    ensures
        stores(attributes::map_of(attribute_texts(kvs)), kvs),
{
    let map = attributes::map_of(attribute_texts(kvs));
    assert forall|key: Seq<char>| #[trigger] map.contains_key(key) <==> exists|i: int|
        #[trigger] decides(kvs, i, key) by {
        lemma_stored(kvs, key);
    }
    assert forall|key: Seq<char>, i: int| #[trigger] decides(kvs, i, key) implies map[key]
        == value_text(kvs[i].value->0) by {
        lemma_stored(kvs, key);
    }
}

/// The text of a value says what the value is: a text is kept, a boolean is
/// `true` or `false`, an integer is read back from its digits, bytes are read back
/// from their hexadecimal digits, and what is nested is a placeholder.
pub proof fn law_value_texts(v: otlp::ValueView)
    ensures
        match v {
            otlp::ValueView::Text(s) => value_text(v) == s,
            otlp::ValueView::Real(s) => value_text(v) == s,
            otlp::ValueView::Flag(b) => value_text(v) == if b {
                "true"@
            } else {
                "false"@
            },
            otlp::ValueView::Whole(n) => {
                let s = value_text(v);
                let digits = if n < 0 {
                    s.skip(1)
                } else {
                    s
                };
                &&& n < 0 <==> s[0] == '-'
                &&& digits.len() > 0 && text::all_digits(digits)
                &&& n == if n < 0 {
                    -(text::digits_value(digits) as int)
                } else {
                    text::digits_value(digits) as int
                }
            },
            otlp::ValueView::Octets(b) => value_text(v).len() == 2 * b.len() && forall|i: int|
                0 <= i < b.len() ==> digest::hex_value(value_text(v)[2 * i]) is Some
                    && digest::hex_value(value_text(v)[2 * i + 1]) is Some && (#[trigger] b[i]) == 16
                    * digest::hex_value(value_text(v)[2 * i])->0 + digest::hex_value(
                    value_text(v)[2 * i + 1],
                )->0,
            otlp::ValueView::Complex => value_text(v) == "<complex>"@,
        },
{
    match v {
        otlp::ValueView::Whole(n) => text::law_signed_decimal_reads_back(n),
        otlp::ValueView::Octets(b) => {
            assert forall|i: int| 0 <= i < b.len() implies digest::hex_value(
                value_text(v)[2 * i],
            ) is Some && digest::hex_value(value_text(v)[2 * i + 1]) is Some && (#[trigger] b[i])
                == 16 * digest::hex_value(value_text(v)[2 * i])->0 + digest::hex_value(
                value_text(v)[2 * i + 1],
            )->0 by {
                digest::law_hex_reads_back(b, i);
            }
        },
        _ => {},
    }
}

/// The number of records of the first `n` scopes.
pub open spec fn scope_records(scopes: Seq<otlp::ScopeBlockView>, n: nat) -> nat
    decreases n,
{
    if n == 0 {
        0
    } else {
        scope_records(scopes, (n - 1) as nat) + scopes[n - 1].log_records.len()
    }
}

/// The number of records of the first `n` blocks.
pub open spec fn block_records(blocks: Seq<otlp::ResourceBlockView>, n: nat) -> nat
    decreases n,
{
    if n == 0 {
        0
    } else {
        block_records(blocks, (n - 1) as nat) + scope_records(
            blocks[n - 1].scope_logs,
            blocks[n - 1].scope_logs.len(),
        )
    }
}

proof fn lemma_block_row(
    origin: EntryOrigin,
    start: nat,
    block: otlp::ResourceBlockView,
    n: nat,
    s: int,
    i: int,
)
    requires
        n <= block.scope_logs.len(),
    ensures
        block_rows(origin, start, block, n).len() == scope_records(block.scope_logs, n),
        0 <= s < n && 0 <= i < block.scope_logs[s].log_records.len() ==> {
            let at = scope_records(block.scope_logs, s as nat) + i;
            at < scope_records(block.scope_logs, n) && block_rows(origin, start, block, n)[at]
                == flat_record(
                origin,
                (start + at) as nat,
                block,
                block.scope_logs[s],
                block.scope_logs[s].log_records[i],
            )
        },
    decreases n,
{
    if n > 0 {
        lemma_block_row(origin, start, block, (n - 1) as nat, s, i);
        let front = block_rows(origin, start, block, (n - 1) as nat);
        let rows = scope_rows(origin, start + front.len(), block, block.scope_logs[n - 1]);
        assert(rows.len() == block.scope_logs[n - 1].log_records.len());
        if 0 <= s < n && 0 <= i < block.scope_logs[s].log_records.len() {
            let at = scope_records(block.scope_logs, s as nat) + i;
            if s == n - 1 {
                assert(block_rows(origin, start, block, n)[at] == rows[i]);
            } else {
                assert(block_rows(origin, start, block, n)[at] == front[at]);
            }
        }
    }
}

proof fn lemma_block_records_prefix(blocks: Seq<otlp::ResourceBlockView>, n: nat)
    requires
        n < blocks.len(),
    ensures
        block_records(blocks.drop_last(), n) == block_records(blocks, n),
    decreases n,
{
    if n > 0 {
        lemma_block_records_prefix(blocks, (n - 1) as nat);
    }
}

proof fn lemma_request_row(
    origin: EntryOrigin,
    blocks: Seq<otlp::ResourceBlockView>,
    b: int,
    s: int,
    i: int,
)
    ensures
        request_rows(origin, blocks).len() == block_records(blocks, blocks.len()),
        0 <= b < blocks.len() && 0 <= s < blocks[b].scope_logs.len() && 0 <= i
            < blocks[b].scope_logs[s].log_records.len() ==> {
            let at = block_records(blocks, b as nat) + scope_records(
                blocks[b].scope_logs,
                s as nat,
            ) + i;
            at < request_rows(origin, blocks).len() && request_rows(origin, blocks)[at]
                == flat_record(
                origin,
                at as nat,
                blocks[b],
                blocks[b].scope_logs[s],
                blocks[b].scope_logs[s].log_records[i],
            )
        },
    decreases blocks.len(),
{
    if blocks.len() > 0 {
        let before = blocks.drop_last();
        let n = before.len();
        lemma_request_row(origin, before, b, s, i);
        lemma_block_records_prefix(blocks, n);
        let front = request_rows(origin, before);
        let last = blocks.last();
        lemma_block_row(origin, front.len(), last, last.scope_logs.len(), s, i);
        if 0 <= b < n {
            lemma_block_records_prefix(blocks, b as nat);
            assert(before[b] == blocks[b]);
        }
    }
}

/// The attributes of a resource; none where there is no resource.
pub open spec fn resource_attributes_of(block: otlp::ResourceBlockView) -> Seq<
    otlp::AttributeView,
> {
    match block.resource {
        Some(kvs) => kvs,
        None => Seq::empty(),
    }
}

/// The attributes of a scope; none where there is no scope.
pub open spec fn scope_attributes_of(logs: otlp::ScopeBlockView) -> Seq<otlp::AttributeView> {
    match logs.scope {
        Some(scope) => scope.attributes,
        None => Seq::empty(),
    }
}

/// Whether a map holds two runs of attributes, the second over the first: for a
/// key that the second has, what it says; for any other, what the first says.
pub open spec fn stores_over(
    map: Map<Seq<char>, Seq<char>>,
    under: Seq<otlp::AttributeView>,
    over: Seq<otlp::AttributeView>,
) -> bool {
    &&& forall|key: Seq<char>| #[trigger]
        map.contains_key(key) <==> (exists|i: int| #[trigger] decides(over, i, key)) || (exists|
            i: int,
        | #[trigger] decides(under, i, key))
    &&& forall|key: Seq<char>, i: int| #[trigger]
        decides(over, i, key) ==> map[key] == value_text(over[i].value->0)
    &&& forall|key: Seq<char>, i: int| #[trigger]
        decides(under, i, key) && !(exists|j: int| #[trigger] decides(over, j, key)) ==> map[key]
            == value_text(under[i].value->0)
}

proof fn lemma_stored_over(under: Seq<otlp::AttributeView>, over: Seq<otlp::AttributeView>)
    ensures
        stores_over(
            attributes::map_of(attribute_texts(under) + attribute_texts(over)),
            under,
            over,
        ),
{
    let a = attributes::map_of(attribute_texts(under));
    let b = attributes::map_of(attribute_texts(over));
    let map = attributes::map_of(attribute_texts(under) + attribute_texts(over));
    lemma_map_of_concat(attribute_texts(under), attribute_texts(over));
    law_attributes_are_stored(under);
    law_attributes_are_stored(over);
    assert forall|key: Seq<char>| #[trigger] map.contains_key(key) <==> (exists|i: int|
        #[trigger] decides(over, i, key)) || (exists|i: int| #[trigger] decides(under, i, key)) by {
        assert(map.contains_key(key) == (a.contains_key(key) || b.contains_key(key)));
    }
    assert forall|key: Seq<char>, i: int| #[trigger] decides(over, i, key) implies map[key]
        == value_text(over[i].value->0) by {
        assert(b.contains_key(key));
    }
    assert forall|key: Seq<char>, i: int| #[trigger]
        decides(under, i, key) && !(exists|j: int| #[trigger] decides(over, j, key)) implies map[key]
        == value_text(under[i].value->0) by {
        assert(!b.contains_key(key));
        assert(a.contains_key(key));
    }
}

/// Every record of a request has one row, in the order of the blocks, their scopes
/// and the records in them, and the row says what the record says: its times, its
/// severity, its body, its ids, the attributes of its resource, the name of its
/// scope, its own attributes under those of its scope, and where it comes from.
pub proof fn law_rows_say_what_the_records_say(
    origin: EntryOrigin,
    blocks: Seq<otlp::ResourceBlockView>,
    b: int,
    s: int,
    i: int,
)
    requires
        0 <= b < blocks.len(),
        0 <= s < blocks[b].scope_logs.len(),
        0 <= i < blocks[b].scope_logs[s].log_records.len(),
    ensures
        ({
            let logs = blocks[b].scope_logs[s];
            let log = logs.log_records[i];
            let at = block_records(blocks, b as nat) + scope_records(
                blocks[b].scope_logs,
                s as nat,
            ) + i;
            let row = request_rows(origin, blocks)[at];
            &&& request_rows(origin, blocks).len() == block_records(blocks, blocks.len())
            &&& at < request_rows(origin, blocks).len()
            &&& row.source.buffer_sequence == origin.sequence
            &&& row.source.entry_index == origin.entry_index
            &&& row.source.record_index == at % 0x1_0000_0000
            &&& row.source.manifest_path == origin.manifest_path
            &&& row.source.data_path == origin.data_path
            &&& row.source.ingestion_time_ms == origin.ingestion_time_ms
            &&& row.timestamp_unix_nano == log.time_unix_nano
            &&& row.observed_timestamp_unix_nano == log.observed_time_unix_nano
            &&& row.severity_number == log.severity_number
            &&& row.severity_text == log.severity_text
            &&& log.body is None ==> row.body.len() == 0
            &&& log.body matches Some(v) ==> row.body == value_text(v)
            &&& row.trace_id_hex == digest::hex_of(log.trace_id)
            &&& row.span_id_hex == digest::hex_of(log.span_id)
            &&& row.scope_name is Some <==> logs.scope is Some
            &&& logs.scope matches Some(scope) ==> row.scope_name == Some(scope.name)
            &&& stores(row.resource_attributes, resource_attributes_of(blocks[b]))
            &&& row.service_name is Some <==> row.resource_attributes.contains_key(
                "service.name"@,
            )
            &&& row.service_name matches Some(name) ==> name
                == row.resource_attributes["service.name"@]
            &&& stores_over(row.log_attributes, log.attributes, scope_attributes_of(logs))
        }),
{
    lemma_request_row(origin, blocks, b, s, i);
    let block = blocks[b];
    let logs = block.scope_logs[s];
    let log = logs.log_records[i];
    law_attributes_are_stored(resource_attributes_of(block));
    assert(resource_pairs(block) =~= attribute_texts(resource_attributes_of(block)));
    lemma_stored_over(log.attributes, scope_attributes_of(logs));
    assert(scope_pairs(logs) =~= attribute_texts(scope_attributes_of(logs)));
}

/// The origin of the rows of an entry is the batch and the entry: its sequence, the
/// index and time of the entry, and the paths of the batch.
pub proof fn law_rows_come_from_their_entry(batch: SourceBatch, k: int, p: int)
    requires
        0 <= k < batch.entries@.len(),
        0 <= p < entry_rows(batch, batch.entries@[k]).len(),
    ensures
        ({
            let source = entry_rows(batch, batch.entries@[k])[p].source;
            &&& source.buffer_sequence == batch.sequence
            &&& source.entry_index == batch.entries@[k].entry_index
            &&& source.record_index == p % 0x1_0000_0000
            &&& source.manifest_path == batch.manifest_path@
            &&& source.data_path == batch.data_object_path@
            &&& source.ingestion_time_ms == batch.entries@[k].ingestion_time_ms
        }),
{
    let entry = batch.entries@[k];
    law_rows_numbered(
        origin_of(batch, entry),
        otlp::export_request(entry.raw_bytes@)->Ok_0,
        p,
    );
}

/// The rows of a batch are those of its entries, the first entry first.
pub proof fn law_batch_rows_follow_entries(batch: SourceBatch, n: nat)
    requires
        n < batch.entries@.len(),
    ensures
        batch_rows(batch, 0).len() == 0,
        batch_rows(batch, n + 1).len() == batch_rows(batch, n).len() + entry_rows(
            batch,
            batch.entries@[n as int],
        ).len(),
        batch_rows(batch, n + 1).take(batch_rows(batch, n).len() as int) == batch_rows(batch, n),
        batch_rows(batch, n + 1).skip(batch_rows(batch, n).len() as int) == entry_rows(
            batch,
            batch.entries@[n as int],
        ),
{
    let a = batch_rows(batch, n);
    let e = entry_rows(batch, batch.entries@[n as int]);
    assert(batch_rows(batch, n + 1) == a + e);
    assert((a + e).take(a.len() as int) =~= a);
    assert((a + e).skip(a.len() as int) =~= e);
}

/// A decoded batch is that of its source batch: its range is the one sequence, it
/// counts the entries, and its columns hold, record by record, the coordinates that
/// the records carry.
pub proof fn law_decoded_batch_is_aligned(batch: SourceBatch, out: DecodedBatch, i: int)
    requires
        decoded_from(batch, out),
    ensures
        out.source@ == batch.source@,
        out.low_sequence == batch.sequence && out.high_sequence == batch.sequence,
        batch.entries@.len() <= u32::MAX ==> out.source_entry_count == batch.entries@.len(),
        out.schema_version.0 == 1,
        out.source_columns.manifest_path@ == batch.manifest_path@,
        out.source_columns.data_path@ == batch.data_object_path@,
        out.records matches DecodedRecords::Logs(logs) && {
            &&& logs@.len() == batch_rows(batch, batch.entries@.len()).len()
            &&& out.source_columns.sequences@.len() == logs@.len()
            &&& out.source_columns.entry_indices@.len() == logs@.len()
            &&& out.source_columns.record_indices@.len() == logs@.len()
            &&& out.source_columns.ingestion_time_ms@.len() == logs@.len()
            &&& 0 <= i < logs@.len() ==> {
                &&& logs@[i]@ == batch_rows(batch, batch.entries@.len())[i]
                &&& out.source_columns.sequences@[i] == logs@[i].source.buffer_sequence
                &&& out.source_columns.entry_indices@[i] == logs@[i].source.entry_index
                &&& out.source_columns.record_indices@[i] == logs@[i].source.record_index
                &&& out.source_columns.ingestion_time_ms@[i] == logs@[i].source.ingestion_time_ms
            }
        },
{
    let logs = out.records->Logs_0;
    let rows = otlp::views(logs@);
    assert(rows.len() == logs@.len());
    if 0 <= i < logs@.len() {
        assert(rows[i] == logs@[i]@);
    }
}

/// The approximate size of a record grows with each of its texts by the number of
/// their bytes: two records that differ in their texts alone differ in size by the
/// difference of the lengths of those texts, and one without texts has the size of
/// the structure.
pub proof fn law_size_counts_every_text(a: RecordView, b: RecordView)
    ensures
        record_bytes(a) - record_bytes(b) == (byte_len(a.severity_text) - byte_len(b.severity_text))
            + (byte_len(a.body) - byte_len(b.body)) + (optional_byte_len(a.service_name)
            - optional_byte_len(b.service_name)) + (optional_byte_len(a.scope_name)
            - optional_byte_len(b.scope_name)) + (byte_len(a.trace_id_hex) - byte_len(
            b.trace_id_hex,
        )) + (byte_len(a.span_id_hex) - byte_len(b.span_id_hex)) + (map_bytes(
            a.resource_attributes,
        ) - map_bytes(b.resource_attributes)) + (map_bytes(a.log_attributes) - map_bytes(
            b.log_attributes,
        )),
        record_bytes(a) >= vstd::layout::size_of::<DecodedLogRecord>() + byte_len(a.body),
        record_bytes(a) <= usize::MAX ==> record_size(a) == record_bytes(a),
{
}

/// Flattening a request adds a row for every record of it behind those that are there,
/// and each says what its record says.
pub proof fn law_request_is_flattened(
    batch: &SourceBatch,
    entry: &SourceEntry,
    blocks: &Vec<ResourceBlock>,
    records: &mut Vec<DecodedLogRecord>,
    b: int,
    s: int,
    i: int,
)
    requires
        call_ensures(flatten_request, (batch, entry, blocks, records), ()),
        0 <= b < blocks@.len(),
        0 <= s < blocks@[b].scope_logs@.len(),
        0 <= i < blocks@[b].scope_logs@[s].log_records@.len(),
    ensures
        final(records)@.len() == old(records)@.len() + block_records(
            otlp::views(blocks@),
            blocks@.len(),
        ),
        forall|j: int|
            0 <= j < old(records)@.len() ==> (#[trigger] final(records)@[j])@ == old(
                records)@[j]@,
        ({
            let logs = blocks@[b].scope_logs@[s];
            let log = logs.log_records@[i];
            let at = block_records(otlp::views(blocks@), b as nat) + scope_records(
                blocks@[b]@.scope_logs,
                s as nat,
            ) + i;
            let row = final(records)@[old(records)@.len() + at];
            &&& row.timestamp_unix_nano == log.time_unix_nano
            &&& row.observed_timestamp_unix_nano == log.observed_time_unix_nano
            &&& row.severity_number == log.severity_number
            &&& row.severity_text@ == log.severity_text@
            &&& row.trace_id_hex@ == digest::hex_of(log.trace_id@)
            &&& row.span_id_hex@ == digest::hex_of(log.span_id@)
            &&& stores(row.resource_attributes@, resource_attributes_of(blocks@[b]@))
            &&& stores_over(row.log_attributes@, log@.attributes, scope_attributes_of(logs@))
            &&& row.source.buffer_sequence == batch.sequence
            &&& row.source.entry_index == entry.entry_index
            &&& row.source.ingestion_time_ms == entry.ingestion_time_ms
            &&& row.source.record_index == at % 0x1_0000_0000
        }),
{
    let origin = origin_of(*batch, *entry);
    let views = otlp::views(blocks@);
    let before = otlp::views(old(records)@);
    let after = otlp::views(final(records)@);
    let rows = request_rows(origin, views);
    assert(views[b] == blocks@[b]@);
    assert(views[b].scope_logs[s] == blocks@[b].scope_logs@[s]@);
    assert(views[b].scope_logs[s].log_records[i] == blocks@[b].scope_logs@[s].log_records@[i]@);
    law_rows_say_what_the_records_say(origin, views, b, s, i);
    assert(after == before + rows);
    assert(after.len() == final(records)@.len() && before.len() == old(records)@.len());
    assert(views.len() == blocks@.len());
    assert forall|j: int| 0 <= j < old(records)@.len() implies (#[trigger] final(records)@[j])@
        == old(records)@[j]@ by {
        assert(after[j] == before[j]);
    }
    let at = block_records(views, b as nat) + scope_records(views[b].scope_logs, s as nat) + i;
    assert(after[before.len() + at] == rows[at]);
    assert(after[before.len() + at] == final(records)@[old(records)@.len() + at]@);
}

/// The decoder takes logs in OTLP protobuf under the first version of the header, and
/// nothing else.
pub proof fn law_decoder_takes_logs_only(
    d: &OtlpLogsDecoder,
    envelope: &MetadataEnvelope,
    b: bool,
)
    requires
        call_ensures(<OtlpLogsDecoder as Decoder>::accepts, (d, envelope), b),
    ensures
        envelope.signal_type != SignalType::Logs ==> !b,
        envelope.version != 1 ==> !b,
        envelope.version == 1 && envelope.signal_type == SignalType::Logs && envelope.encoding
            == PayloadEncoding::OtlpProtobuf ==> b,
{
}

/// The size of attributes is the length of their keys and values in bytes, taken
/// together.
pub proof fn law_size_of_attributes_adds_up(pairs: Seq<attributes::TextPair>)
    requires
        attributes::keys_ascend(pairs),
    ensures
        pairs.len() == 0 ==> map_bytes(attributes::map_of(pairs)) == 0,
        pairs.len() > 0 ==> map_bytes(attributes::map_of(pairs)) == map_bytes(
            attributes::map_of(pairs.drop_last()),
        ) + encode_utf8(pairs.last().0).len() + encode_utf8(pairs.last().1).len(),
        optional_byte_len(None) == 0,
        forall|s: Seq<char>| #[trigger] optional_byte_len(Some(s)) == encode_utf8(s).len(),
        forall|s: Seq<char>| #[trigger] byte_len(s) == encode_utf8(s).len(),
{
    attributes::lemma_sorted_pairs(pairs);
    if pairs.len() > 0 {
        let front = pairs.drop_last();
        assert forall|i: int, j: int| 0 <= i < j < front.len() implies text::text_before(
            (#[trigger] front[i]).0,
            (#[trigger] front[j]).0,
        ) by {
            assert(front[i] == pairs[i] && front[j] == pairs[j]);
        }
        attributes::lemma_sorted_pairs(front);
    }
}

/// A value is stored as a text: a text as itself, a truth value as its word, bytes as
/// their digits. A missing value is no text, and the empty one where a text is needed.
pub proof fn law_values_are_stored_as_texts(
    value: &Option<AttributeValue>,
    r: Option<String>,
    s: String,
)
    requires
        call_ensures(string_value, (value,), r),
        call_ensures(any_value_to_string, (value,), s),
    ensures
        r is Some <==> value is Some,
        r matches Some(t) ==> t@ == s@,
        value is None ==> s@.len() == 0,
        value matches Some(AttributeValue::Text(t)) ==> s@ == t@,
        value matches Some(AttributeValue::Real(t)) ==> s@ == t@,
        value matches Some(AttributeValue::Flag(b)) ==> (*b ==> s@ == "true"@) && (!*b ==> s@
            == "false"@),
        value matches Some(AttributeValue::Octets(b)) ==> s@.len() == 2 * b@.len(),
        value matches Some(AttributeValue::Complex) ==> s@ == "<complex>"@,
        value matches Some(AttributeValue::Whole(n)) ==> (*n < 0 ==> s@[0] == '-') && (*n >= 0
            ==> text::all_digits(s@) && text::digits_value(s@) == *n),
{
    if value is Some {
        law_value_texts(value->0@);
    }
}

/// A batch decodes exactly if each of its entries does. The error names the sequence of
/// the batch, and an entry of it that does not decode while all before it do.
pub proof fn law_one_bad_entry_fails_the_batch(
    d: &OtlpLogsDecoder,
    batch: &SourceBatch,
    r: Result<Vec<DecodedLogRecord>, OtelDecodeError>,
    k: int,
)
    requires
        call_ensures(OtlpLogsDecoder::decode_logs, (d, batch), r),
        0 <= k < batch.entries@.len(),
    ensures
        otlp::export_request(batch.entries@[k].raw_bytes@) is Err ==> r is Err,
        (forall|i: int|
            0 <= i < batch.entries@.len() ==> otlp::export_request(
                (#[trigger] batch.entries@[i]).raw_bytes@,
            ) is Ok) ==> r is Ok,
        otlp::export_request(batch.entries@[k].raw_bytes@) is Err && (forall|i: int|
            0 <= i < k ==> otlp::export_request((#[trigger] batch.entries@[i]).raw_bytes@) is Ok)
            ==> (r matches Err(OtelDecodeError::Logs { sequence, entry_index, source }) && sequence
            == batch.sequence && entry_index == batch.entries@[k].entry_index),
{
    assert(entry_decodes(batch.entries@[k]) <==> otlp::export_request(
        batch.entries@[k].raw_bytes@,
    ) is Ok);
    if let Err(OtelDecodeError::Logs { sequence, entry_index, source }) = r {
        let first = choose|j: int|
            #[trigger] first_undecodable(*batch, j) && sequence == batch.sequence && entry_index
                == batch.entries@[j].entry_index && otlp::export_request(
                batch.entries@[j].raw_bytes@,
            )->Err_0 == otlp::decode_error_display(source);
        assert(first_undecodable(*batch, first));
        assert(!entry_decodes(batch.entries@[first]));
        if otlp::export_request(batch.entries@[k].raw_bytes@) is Err && (forall|i: int|
            0 <= i < k ==> otlp::export_request((#[trigger] batch.entries@[i]).raw_bytes@) is Ok) {
            if first < k {
                assert(otlp::export_request(batch.entries@[first].raw_bytes@) is Ok);
            }
            assert(first == k);
        }
    }
}

/// The size of a run of records is the sum of the sizes that they report, as far as it
/// can be counted, and a decoded batch is as large as its records.
pub proof fn law_size_of_a_batch_is_the_sum(
    records: &Vec<DecodedLogRecord>,
    longer: &Vec<DecodedLogRecord>,
    last: usize,
    n: usize,
    m: usize,
    batch: SourceBatch,
    out: DecodedBatch,
)
    requires
        call_ensures(sum_sizes, (records,), n),
        call_ensures(sum_sizes, (longer,), m),
        longer@.len() == records@.len() + 1,
        longer@.drop_last() == records@,
        call_ensures(DecodedLogRecord::approx_size_bytes, (&longer@.last(),), last),
        decoded_from(batch, out),
    ensures
        records@.len() == 0 ==> n == 0,
        n < usize::MAX && n + last <= usize::MAX ==> m == n + last,
        n + last > usize::MAX ==> m == usize::MAX,
        out.records->Logs_0@ == records@ ==> out.stats.decoded_byte_estimate == n,
        out.stats.source_byte_count == 0,
{
}

} // verus!
