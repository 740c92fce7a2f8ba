//! OTLP log export requests: the part of the protobuf message tree that the
//! decoder reads, as plain values, and the parser that fills it.
use opentelemetry_proto::tonic::collector::logs::v1::ExportLogsServiceRequest;
use opentelemetry_proto::tonic::common::v1 as wire_common;
use opentelemetry_proto::tonic::common::v1::any_value::Value;
use opentelemetry_proto::tonic::logs::v1 as wire_logs;
use opentelemetry_proto::tonic::resource::v1 as wire_resource;
use prost::Message;
use vstd::prelude::*;

use crate::text::owned;

verus! {

/// The views of a run of values.
pub open spec fn views<T: View>(s: Seq<T>) -> Seq<T::V> {
    s.map_values(|x: T| x@)
}

/// The view of an optional value.
pub open spec fn option_view<T: View>(o: Option<T>) -> Option<T::V> {
    match o {
        Some(x) => Some(x@),
        None => None,
    }
}

/// An attribute value or a log body.
#[derive(Debug)]
pub enum AttributeValue {
    Text(String),
    Flag(bool),
    Whole(i64),
    /// A double, as its printed form.
    Real(String),
    Octets(Vec<u8>),
    /// An array or a nested key-value list.
    Complex,
}

pub enum ValueView {
    Text(Seq<char>),
    Flag(bool),
    Whole(i64),
    Real(Seq<char>),
    Octets(Seq<u8>),
    Complex,
}

impl View for AttributeValue {
    type V = ValueView;

    open spec fn view(&self) -> ValueView {
        match self {
            AttributeValue::Text(s) => ValueView::Text(s@),
            AttributeValue::Flag(b) => ValueView::Flag(*b),
            AttributeValue::Whole(i) => ValueView::Whole(*i),
            AttributeValue::Real(s) => ValueView::Real(s@),
            AttributeValue::Octets(b) => ValueView::Octets(b@),
            AttributeValue::Complex => ValueView::Complex,
        }
    }
}

/// An attribute; the value may be missing.
#[derive(Debug)]
pub struct Attribute {
    pub key: String,
    pub value: Option<AttributeValue>,
}

pub struct AttributeView {
    pub key: Seq<char>,
    pub value: Option<ValueView>,
}

impl View for Attribute {
    type V = AttributeView;

    open spec fn view(&self) -> AttributeView {
        AttributeView { key: self.key@, value: option_view(self.value) }
    }
}

/// The instrumentation scope of a group of records.
#[derive(Debug)]
pub struct Scope {
    pub name: String,
    pub attributes: Vec<Attribute>,
}

#[verifier::ext_equal]
pub struct ScopeView {
    pub name: Seq<char>,
    pub attributes: Seq<AttributeView>,
}

impl View for Scope {
    type V = ScopeView;

    open spec fn view(&self) -> ScopeView {
        ScopeView { name: self.name@, attributes: views(self.attributes@) }
    }
}

/// One log record of a request.
#[derive(Debug)]
pub struct LogEntry {
    pub time_unix_nano: u64,
    pub observed_time_unix_nano: u64,
    pub severity_number: i32,
    pub severity_text: String,
    pub body: Option<AttributeValue>,
    pub attributes: Vec<Attribute>,
    pub trace_id: Vec<u8>,
    pub span_id: Vec<u8>,
}

#[verifier::ext_equal]
pub struct LogView {
    pub time_unix_nano: u64,
    pub observed_time_unix_nano: u64,
    pub severity_number: i32,
    pub severity_text: Seq<char>,
    pub body: Option<ValueView>,
    pub attributes: Seq<AttributeView>,
    pub trace_id: Seq<u8>,
    pub span_id: Seq<u8>,
}

impl View for LogEntry {
    type V = LogView;

    open spec fn view(&self) -> LogView {
        LogView {
            time_unix_nano: self.time_unix_nano,
            observed_time_unix_nano: self.observed_time_unix_nano,
            severity_number: self.severity_number,
            severity_text: self.severity_text@,
            body: option_view(self.body),
            attributes: views(self.attributes@),
            trace_id: self.trace_id@,
            span_id: self.span_id@,
        }
    }
}

/// The records of one scope.
#[derive(Debug)]
pub struct ScopeBlock {
    pub scope: Option<Scope>,
    pub log_records: Vec<LogEntry>,
}

#[verifier::ext_equal]
pub struct ScopeBlockView {
    pub scope: Option<ScopeView>,
    pub log_records: Seq<LogView>,
}

impl View for ScopeBlock {
    type V = ScopeBlockView;

    open spec fn view(&self) -> ScopeBlockView {
        ScopeBlockView { scope: option_view(self.scope), log_records: views(self.log_records@) }
    }
}

/// The attributes of a resource.
#[derive(Debug)]
pub struct Resource {
    pub attributes: Vec<Attribute>,
}

impl View for Resource {
    type V = Seq<AttributeView>;

    open spec fn view(&self) -> Seq<AttributeView> {
        views(self.attributes@)
    }
}

/// The scopes of one resource.
#[derive(Debug)]
pub struct ResourceBlock {
    pub resource: Option<Resource>,
    pub scope_logs: Vec<ScopeBlock>,
}

#[verifier::ext_equal]
pub struct ResourceBlockView {
    pub resource: Option<Seq<AttributeView>>,
    pub scope_logs: Seq<ScopeBlockView>,
}

impl View for ResourceBlock {
    type V = ResourceBlockView;

    open spec fn view(&self) -> ResourceBlockView {
        ResourceBlockView { resource: option_view(self.resource), scope_logs: views(self.scope_logs@) }
    }
}

/// `prost::DecodeError`, why a payload is not a protobuf message of its type.
#[verifier::external_type_specification]
#[verifier::external_body]
pub struct ExDecodeError(prost::DecodeError);

/// The generated message `AnyValue`.
#[verifier::external_type_specification]
#[verifier::external_body]
pub struct ExAnyValue(opentelemetry_proto::tonic::common::v1::AnyValue);

/// The generated message `KeyValue`.
#[verifier::external_type_specification]
#[verifier::external_body]
pub struct ExKeyValue(opentelemetry_proto::tonic::common::v1::KeyValue);

/// The generated message `LogRecord`.
#[verifier::external_type_specification]
#[verifier::external_body]
pub struct ExLogRecord(opentelemetry_proto::tonic::logs::v1::LogRecord);

/// The generated message `ScopeLogs`.
#[verifier::external_type_specification]
#[verifier::external_body]
pub struct ExScopeLogs(opentelemetry_proto::tonic::logs::v1::ScopeLogs);

/// The generated message `ResourceLogs`.
#[verifier::external_type_specification]
#[verifier::external_body]
pub struct ExResourceLogs(opentelemetry_proto::tonic::logs::v1::ResourceLogs);

/// What `ExportLogsServiceRequest::decode` makes of a payload: the contents of
/// the message, or the printed form of the error.
pub uninterp spec fn export_request(payload: Seq<u8>) -> Result<Seq<ResourceBlockView>, Seq<char>>;

/// What `prost::DecodeError` prints.
pub uninterp spec fn decode_error_display(e: prost::DecodeError) -> Seq<char>;

/// What an `AnyValue` message holds; `None` when no value is set.
pub uninterp spec fn any_value_contents(v: wire_common::AnyValue) -> Option<ValueView>;

/// What a `KeyValue` message holds.
pub uninterp spec fn key_value_contents(kv: wire_common::KeyValue) -> AttributeView;

/// What a `LogRecord` message holds.
pub uninterp spec fn log_record_contents(log: wire_logs::LogRecord) -> LogView;

/// What a `ScopeLogs` message holds.
pub uninterp spec fn scope_logs_contents(logs: wire_logs::ScopeLogs) -> ScopeBlockView;

/// What a `ResourceLogs` message holds.
pub uninterp spec fn resource_logs_contents(logs: wire_logs::ResourceLogs) -> ResourceBlockView;

/// The contents of a run of `KeyValue` messages.
pub open spec fn pairs_contents(kvs: Seq<wire_common::KeyValue>) -> Seq<AttributeView> {
    kvs.map_values(|kv: wire_common::KeyValue| key_value_contents(kv))
}

/// The contents of an optional `AnyValue` field: missing and unset are the same.
pub open spec fn optional_value_contents(v: Option<wire_common::AnyValue>) -> Option<ValueView> {
    match v {
        Some(any) => any_value_contents(any),
        None => None,
    }
}

/// `ExportLogsServiceRequest::decode` parses a payload. The result is named by
/// [`export_request`]; on success the blocks that come back hold the contents.
#[verifier::external_body]
fn decode_request(payload: &[u8]) -> (r: Result<Vec<wire_logs::ResourceLogs>, prost::DecodeError>)
    ensures
        match r {
            Ok(blocks) => export_request(payload@) == Ok::<Seq<ResourceBlockView>, Seq<char>>(
                blocks@.map_values(|b: wire_logs::ResourceLogs| resource_logs_contents(b)),
            ),
            Err(e) => export_request(payload@) == Err::<Seq<ResourceBlockView>, Seq<char>>(
                decode_error_display(e),
            ),
        },
{
    ExportLogsServiceRequest::decode(payload).map(|request| request.resource_logs)
}

/// The `Display` form of `prost::DecodeError`.
#[verifier::external_body]
pub(crate) fn decode_error_text(e: &prost::DecodeError) -> (s: String)
    ensures
        s@ == decode_error_display(*e),
{
    e.to_string()
}

/// Reads an `AnyValue` message: its `value` field, variant by variant. A double
/// comes out as what `f64` prints; arrays and key-value lists are not opened.
#[verifier::external_body]
fn read_value(v: &wire_common::AnyValue) -> (r: Option<AttributeValue>)
    ensures
        option_view(r) == any_value_contents(*v),
{
    v.value.as_ref().map(|value| match value {
        Value::StringValue(s) => AttributeValue::Text(s.clone()),
        Value::BoolValue(b) => AttributeValue::Flag(*b),
        Value::IntValue(i) => AttributeValue::Whole(*i),
        Value::DoubleValue(d) => AttributeValue::Real(d.to_string()),
        Value::BytesValue(b) => AttributeValue::Octets(b.clone()),
        Value::ArrayValue(_) => AttributeValue::Complex,
        Value::KvlistValue(_) => AttributeValue::Complex,
    })
}

/// Reads a `KeyValue` message: its `key` and `value` fields.
#[verifier::external_body]
fn read_pair(kv: &wire_common::KeyValue) -> (r: (String, &Option<wire_common::AnyValue>))
    ensures
        key_value_contents(*kv) == (AttributeView {
            key: r.0@,
            value: optional_value_contents(*r.1),
        }),
{
    (kv.key.clone(), &kv.value)
}

/// Reads a `LogRecord` message: its body and attributes, which are messages
/// themselves, and the fields that are plain, in a record without those two.
#[verifier::external_body]
fn read_log(log: &wire_logs::LogRecord) -> (r: (
    &Option<wire_common::AnyValue>,
    &Vec<wire_common::KeyValue>,
    LogEntry,
))
    ensures
        log_record_contents(*log) == (LogView {
            body: optional_value_contents(*r.0),
            attributes: pairs_contents(r.1@),
            ..r.2@
        }),
{
    let plain = LogEntry {
        time_unix_nano: log.time_unix_nano,
        observed_time_unix_nano: log.observed_time_unix_nano,
        severity_number: log.severity_number,
        severity_text: log.severity_text.clone(),
        body: None,
        attributes: Vec::new(),
        trace_id: log.trace_id.clone(),
        span_id: log.span_id.clone(),
    };
    (&log.body, &log.attributes, plain)
}

/// Reads a `ScopeLogs` message: the name and attributes of its scope, if it has
/// one, and its records.
#[verifier::external_body]
fn read_scope_logs(logs: &wire_logs::ScopeLogs) -> (r: (
    Option<(String, &Vec<wire_common::KeyValue>)>,
    &Vec<wire_logs::LogRecord>,
))
    ensures
        scope_logs_contents(*logs) == (ScopeBlockView {
            scope: match r.0 {
                Some(scope) => Some(
                    ScopeView { name: scope.0@, attributes: pairs_contents(scope.1@) },
                ),
                None => None,
            },
            log_records: r.1@.map_values(|l: wire_logs::LogRecord| log_record_contents(l)),
        }),
{
    (logs.scope.as_ref().map(|scope| (scope.name.clone(), &scope.attributes)), &logs.log_records)
}

/// Reads a `ResourceLogs` message: the attributes of its resource, if it has
/// one, and its scopes.
#[verifier::external_body]
fn read_resource_logs(logs: &wire_logs::ResourceLogs) -> (r: (
    Option<&Vec<wire_common::KeyValue>>,
    &Vec<wire_logs::ScopeLogs>,
))
    ensures
        resource_logs_contents(*logs) == (ResourceBlockView {
            resource: match r.0 {
                Some(attributes) => Some(pairs_contents(attributes@)),
                None => None,
            },
            scope_logs: r.1@.map_values(|l: wire_logs::ScopeLogs| scope_logs_contents(l)),
        }),
{
    (logs.resource.as_ref().map(|resource| &resource.attributes), &logs.scope_logs)
}

fn plain_value(v: &Option<wire_common::AnyValue>) -> (r: Option<AttributeValue>)
    ensures
        option_view(r) == optional_value_contents(*v),
{
    match v {
        Some(any) => read_value(any),
        None => None,
    }
}

fn plain_pairs(kvs: &Vec<wire_common::KeyValue>) -> (r: Vec<Attribute>)
    ensures
        views(r@) == pairs_contents(kvs@),
{
    let mut out: Vec<Attribute> = Vec::new();
    let mut i: usize = 0;
    while i < kvs.len()
        invariant
            i <= kvs@.len(),
            views(out@) == pairs_contents(kvs@.take(i as int)),
        decreases kvs.len() - i,
    {
        let (key, value) = read_pair(&kvs[i]);
        let pair = Attribute { key, value: plain_value(value) };
        proof {
            assert(views(out@.push(pair)) =~= views(out@).push(pair@));
            assert(pairs_contents(kvs@.take(i + 1)) =~= pairs_contents(kvs@.take(i as int)).push(
                key_value_contents(kvs@[i as int]),
            ));
        }
        out.push(pair);
        i = i + 1;
    }
    assert(kvs@.take(i as int) =~= kvs@);
    out
}

fn plain_log(log: &wire_logs::LogRecord) -> (r: LogEntry)
    ensures
        r@ == log_record_contents(*log),
{
    let (body, attributes, plain) = read_log(log);
    LogEntry { body: plain_value(body), attributes: plain_pairs(attributes), ..plain }
}

fn plain_logs(logs: &Vec<wire_logs::LogRecord>) -> (r: Vec<LogEntry>)
    ensures
        views(r@) == logs@.map_values(|l: wire_logs::LogRecord| log_record_contents(l)),
{
    let mut out: Vec<LogEntry> = Vec::new();
    let ghost want = logs@.map_values(|l: wire_logs::LogRecord| log_record_contents(l));
    let mut i: usize = 0;
    while i < logs.len()
        invariant
            i <= logs@.len(),
            want == logs@.map_values(|l: wire_logs::LogRecord| log_record_contents(l)),
            views(out@) == want.take(i as int),
        decreases logs.len() - i,
    {
        let log = plain_log(&logs[i]);
        proof {
            assert(views(out@.push(log)) =~= views(out@).push(log@));
            assert(want.take(i + 1) =~= want.take(i as int).push(want[i as int]));
        }
        out.push(log);
        i = i + 1;
    }
    assert(want.take(i as int) =~= want);
    out
}

fn plain_scope_logs(logs: &wire_logs::ScopeLogs) -> (r: ScopeBlock)
    ensures
        r@ == scope_logs_contents(*logs),
{
    let (scope, records) = read_scope_logs(logs);
    let scope = match scope {
        Some((name, attributes)) => Some(Scope { name, attributes: plain_pairs(attributes) }),
        None => None,
    };
    ScopeBlock { scope, log_records: plain_logs(records) }
}

fn plain_resource_logs(logs: &wire_logs::ResourceLogs) -> (r: ResourceBlock)
    ensures
        r@ == resource_logs_contents(*logs),
{
    let (attributes, scopes) = read_resource_logs(logs);
    let resource = match attributes {
        Some(attributes) => Some(Resource { attributes: plain_pairs(attributes) }),
        None => None,
    };
    let mut out: Vec<ScopeBlock> = Vec::new();
    let ghost want = scopes@.map_values(|l: wire_logs::ScopeLogs| scope_logs_contents(l));
    let mut i: usize = 0;
    while i < scopes.len()
        invariant
            i <= scopes@.len(),
            want == scopes@.map_values(|l: wire_logs::ScopeLogs| scope_logs_contents(l)),
            views(out@) == want.take(i as int),
        decreases scopes.len() - i,
    {
        let scope_logs = plain_scope_logs(&scopes[i]);
        proof {
            assert(views(out@.push(scope_logs)) =~= views(out@).push(scope_logs@));
            assert(want.take(i + 1) =~= want.take(i as int).push(want[i as int]));
        }
        out.push(scope_logs);
        i = i + 1;
    }
    assert(want.take(i as int) =~= want);
    ResourceBlock { resource, scope_logs: out }
}

/// Parses the payload of an entry.
pub fn parse_export_request(payload: &[u8]) -> (r: Result<Vec<ResourceBlock>, prost::DecodeError>)
    ensures
        match r {
            Ok(blocks) => export_request(payload@) == Ok::<Seq<ResourceBlockView>, Seq<char>>(
                views(blocks@),
            ),
            Err(e) => export_request(payload@) == Err::<Seq<ResourceBlockView>, Seq<char>>(
                decode_error_display(e),
            ),
        },
{
    let blocks = match decode_request(payload) {
        Ok(blocks) => blocks,
        Err(e) => return Err(e),
    };
    let mut out: Vec<ResourceBlock> = Vec::new();
    let ghost want = blocks@.map_values(|b: wire_logs::ResourceLogs| resource_logs_contents(b));
    let mut i: usize = 0;
    while i < blocks.len()
        invariant
            i <= blocks@.len(),
            want == blocks@.map_values(|b: wire_logs::ResourceLogs| resource_logs_contents(b)),
            views(out@) == want.take(i as int),
        decreases blocks.len() - i,
    {
        let block = plain_resource_logs(&blocks[i]);
        proof {
            assert(views(out@.push(block)) =~= views(out@).push(block@));
            assert(want.take(i + 1) =~= want.take(i as int).push(want[i as int]));
        }
        out.push(block);
        i = i + 1;
    }
    assert(want.take(i as int) =~= want);
    Ok(out)
}

/// A log record whose body and attributes are texts.
#[derive(Debug)]
pub struct TextLog {
    pub time_unix_nano: u64,
    pub severity_number: i32,
    pub severity_text: String,
    pub body: String,
    pub attributes: Vec<(String, String)>,
}

/// Text attributes as a message holds them.
pub open spec fn text_attributes(pairs: Seq<(String, String)>) -> Seq<AttributeView> {
    pairs.map_values(
        |pair: (String, String)|
            AttributeView { key: pair.0@, value: Some(ValueView::Text(pair.1@)) },
    )
}

/// A record of texts as a message holds it. What it does not say is left at
/// zero or empty.
impl View for TextLog {
    type V = LogView;

    open spec fn view(&self) -> LogView {
        LogView {
            time_unix_nano: self.time_unix_nano,
            observed_time_unix_nano: 0,
            severity_number: self.severity_number,
            severity_text: self.severity_text@,
            body: Some(ValueView::Text(self.body@)),
            attributes: text_attributes(self.attributes@),
            trace_id: Seq::empty(),
            span_id: Seq::empty(),
        }
    }
}

/// A resource with one scope, which is not named.
pub open spec fn text_block(
    resource: Seq<(String, String)>,
    logs: Seq<TextLog>,
) -> ResourceBlockView {
    ResourceBlockView {
        resource: Some(text_attributes(resource)),
        scope_logs: seq![ScopeBlockView { scope: None, log_records: views(logs) }],
    }
}

/// Whether a payload is an export request of one block.
pub open spec fn carries(payload: Seq<u8>, block: ResourceBlockView) -> bool {
    export_request(payload) == Ok::<Seq<ResourceBlockView>, Seq<char>>(seq![block])
}

/// Writes a key and a text as a `KeyValue` message with a string value.
#[verifier::external_body]
fn wire_pair(key: String, value: String) -> (pair: wire_common::KeyValue)
    ensures
        key_value_contents(pair) == (AttributeView {
            key: key@,
            value: Some(ValueView::Text(value@)),
        }),
{
    let any = wire_common::AnyValue { value: Some(Value::StringValue(value)) };
    wire_common::KeyValue { key, value: Some(any) }
}

fn wire_pairs(pairs: &Vec<(String, String)>) -> (r: Vec<wire_common::KeyValue>)
    ensures
        pairs_contents(r@) == text_attributes(pairs@),
{
    let mut out: Vec<wire_common::KeyValue> = Vec::new();
    let mut i: usize = 0;
    while i < pairs.len()
        invariant
            i <= pairs@.len(),
            out@.len() == i,
            forall|j: int|
                0 <= j < i ==> key_value_contents(#[trigger] out@[j]) == text_attributes(pairs@)[j],
        decreases pairs@.len() - i,
    {
        out.push(wire_pair(owned(pairs[i].0.as_str()), owned(pairs[i].1.as_str())));
        i = i + 1;
    }
    assert(pairs_contents(out@) =~= text_attributes(pairs@));
    out
}

/// Writes a record of texts and the messages of its attributes as a `LogRecord`
/// message. The other fields are left at their defaults.
#[verifier::external_body]
fn wire_record(log: &TextLog, attributes: Vec<wire_common::KeyValue>) -> (record:
    wire_logs::LogRecord)
    ensures
        log_record_contents(record) == (LogView { attributes: pairs_contents(attributes@), ..log@ }),
{
    let body = wire_common::AnyValue { value: Some(Value::StringValue(log.body.clone())) };
    wire_logs::LogRecord {
        time_unix_nano: log.time_unix_nano,
        severity_number: log.severity_number,
        severity_text: log.severity_text.clone(),
        body: Some(body),
        attributes,
        ..Default::default()
    }
}

/// What a block holds of the messages of a resource's attributes and of the
/// records of one scope, which is not named.
pub open spec fn wire_block_contents(
    attributes: Seq<wire_common::KeyValue>,
    records: Seq<wire_logs::LogRecord>,
) -> ResourceBlockView {
    ResourceBlockView {
        resource: Some(pairs_contents(attributes)),
        scope_logs: seq![
            ScopeBlockView {
                scope: None,
                log_records: records.map_values(|r: wire_logs::LogRecord| log_record_contents(r)),
            },
        ],
    }
}

/// Writes a `ResourceLogs` message with one `ScopeLogs` message. The other fields
/// are left at their defaults.
#[verifier::external_body]
fn wire_block(
    attributes: Vec<wire_common::KeyValue>,
    log_records: Vec<wire_logs::LogRecord>,
) -> (block: wire_logs::ResourceLogs)
    ensures
        resource_logs_contents(block) == wire_block_contents(attributes@, log_records@),
{
    wire_logs::ResourceLogs {
        resource: Some(wire_resource::Resource { attributes, dropped_attributes_count: 0 }),
        scope_logs: vec![wire_logs::ScopeLogs { log_records, ..Default::default() }],
        ..Default::default()
    }
}

/// Whether a payload is an export request of one `ResourceLogs` message.
pub open spec fn encodes_block(payload: Seq<u8>, block: wire_logs::ResourceLogs) -> bool {
    carries(payload, resource_logs_contents(block))
}

/// Whether no value of a run of attributes is an array or a key-value list.
pub open spec fn flat_attributes(attributes: Seq<AttributeView>) -> bool {
    forall|i: int|
        0 <= i < attributes.len() ==> (#[trigger] attributes[i]).value != Some(ValueView::Complex)
}

/// Whether neither the body of a record nor an attribute is an array or a
/// key-value list.
pub open spec fn flat_log(log: LogView) -> bool {
    log.body != Some(ValueView::Complex) && flat_attributes(log.attributes)
}

/// Whether the values of a scope and of its records are flat.
pub open spec fn flat_scope_block(block: ScopeBlockView) -> bool {
    &&& block.scope matches Some(scope) ==> flat_attributes(scope.attributes)
    &&& forall|i: int| 0 <= i < block.log_records.len() ==> flat_log(#[trigger] block.log_records[i])
}

/// Whether a block holds no array and no key-value list anywhere, so that its
/// messages are nested to a fixed depth.
pub open spec fn flat_block(block: ResourceBlockView) -> bool {
    &&& block.resource matches Some(attributes) ==> flat_attributes(attributes)
    &&& forall|i: int|
        0 <= i < block.scope_logs.len() ==> flat_scope_block(#[trigger] block.scope_logs[i])
}

/// `Message::encode_to_vec` writes an export request of one block. Decoding gives
/// back what was encoded. The decoder gives up on messages that are nested too
/// deep, which only arrays and key-value lists can be: a block that holds any is
/// left out.
#[verifier::external_body]
fn encode_block(block: wire_logs::ResourceLogs) -> (payload: Vec<u8>)
    requires
        flat_block(resource_logs_contents(block)),
    ensures
        encodes_block(payload@, block),
{
    ExportLogsServiceRequest { resource_logs: vec![block] }.encode_to_vec()
}

/// The payload of a resource and its records.
pub fn encode_request(resource: Vec<(String, String)>, logs: Vec<TextLog>) -> (payload: Vec<u8>)
    ensures
        carries(payload@, text_block(resource@, logs@)),
{
    let mut records: Vec<wire_logs::LogRecord> = Vec::new();
    let mut i: usize = 0;
    while i < logs.len()
        invariant
            i <= logs@.len(),
            records@.len() == i,
            forall|j: int|
                0 <= j < i ==> log_record_contents(#[trigger] records@[j]) == logs@[j]@,
        decreases logs@.len() - i,
    {
        let attributes = wire_pairs(&logs[i].attributes);
        records.push(wire_record(&logs[i], attributes));
        i = i + 1;
    }
    assert(records@.map_values(|r: wire_logs::LogRecord| log_record_contents(r)) =~= views(logs@));
    encode_block(wire_block(wire_pairs(&resource), records))
}

/// A request is read as it was written: one resource with its attributes, under which
/// every record has its own time, severity, body and attributes, in the order in which
/// they were given. What was not given is zero or empty.
pub proof fn law_request_reads_back(
    resource: Vec<(String, String)>,
    logs: Vec<TextLog>,
    payload: Vec<u8>,
    bytes: &[u8],
    blocks: Vec<ResourceBlock>,
    i: int,
    k: int,
)
    requires
        call_ensures(encode_request, (resource, logs), payload),
        bytes@ == payload@,
        call_ensures(
            parse_export_request,
            (bytes,),
            Ok::<Vec<ResourceBlock>, prost::DecodeError>(blocks),
        ),
    ensures
        blocks@.len() == 1,
        blocks@[0].scope_logs@.len() == 1,
        blocks@[0].scope_logs@[0].scope is None,
        blocks@[0].scope_logs@[0].log_records@.len() == logs@.len(),
        blocks@[0].resource is Some,
        blocks@[0].resource->0.attributes@.len() == resource@.len(),
        0 <= i < resource@.len() ==> {
            let pair = blocks@[0].resource->0.attributes@[i];
            &&& pair.key@ == resource@[i].0@
            &&& pair.value matches Some(AttributeValue::Text(s)) && s@ == resource@[i].1@
        },
        0 <= i < logs@.len() ==> {
            let log = blocks@[0].scope_logs@[0].log_records@[i];
            &&& log.time_unix_nano == logs@[i].time_unix_nano
            &&& log.observed_time_unix_nano == 0
            &&& log.severity_number == logs@[i].severity_number
            &&& log.severity_text@ == logs@[i].severity_text@
            &&& log.body matches Some(AttributeValue::Text(s)) && s@ == logs@[i].body@
            &&& log.trace_id@.len() == 0
            &&& log.span_id@.len() == 0
            &&& log.attributes@.len() == logs@[i].attributes@.len()
        },
        0 <= i < logs@.len() && 0 <= k < logs@[i].attributes@.len() ==> {
            let pair = blocks@[0].scope_logs@[0].log_records@[i].attributes@[k];
            &&& pair.key@ == logs@[i].attributes@[k].0@
            &&& pair.value matches Some(AttributeValue::Text(s)) && s@ == logs@[i].attributes@[k].1@
        },
{
    let written = text_block(resource@, logs@);
    let read = views(blocks@);
    assert(read == seq![written]);
    assert(blocks@.len() == read.len());
    assert(read[0] == blocks@[0]@);
    let block = blocks@[0];
    assert(block@ == written);
    let scopes = views(block.scope_logs@);
    assert(scopes == written.scope_logs);
    assert(scopes[0] == block.scope_logs@[0]@);
    let records = views(block.scope_logs@[0].log_records@);
    assert(records == views(logs@));
    assert(block.scope_logs@[0].log_records@.len() == records.len());
    assert(views(logs@).len() == logs@.len());
    let attributes = views(block.resource->0.attributes@);
    assert(attributes == text_attributes(resource@));
    assert(block.resource->0.attributes@.len() == attributes.len());
    assert(text_attributes(resource@).len() == resource@.len());
    if 0 <= i < resource@.len() {
        assert(attributes[i] == block.resource->0.attributes@[i]@);
        assert(text_attributes(resource@)[i].key == resource@[i].0@);
    }
    if 0 <= i < logs@.len() {
        let log = block.scope_logs@[0].log_records@[i];
        assert(records[i] == log@);
        assert(views(logs@)[i] == logs@[i]@);
        let pairs = views(log.attributes@);
        assert(pairs == text_attributes(logs@[i].attributes@));
        assert(pairs.len() == log.attributes@.len());
        assert(text_attributes(logs@[i].attributes@).len() == logs@[i].attributes@.len());
        if 0 <= k < logs@[i].attributes@.len() {
            assert(pairs[k] == log.attributes@[k]@);
            assert(text_attributes(logs@[i].attributes@)[k].key == logs@[i].attributes@[k].0@);
        }
    }
}

} // verus!
