use clickhouse_ingestor::envelope::{MetadataEnvelope, PayloadEncoding, SignalType};
use clickhouse_ingestor::logs::{OtelDecodeError, OtlpLogsDecoder};
use clickhouse_ingestor::runtime::{DecodedRecords, Decoder, RuntimeError};
use clickhouse_ingestor::signal::SignalDecoder;
use clickhouse_ingestor::source::{SourceBatch, SourceEntry};
use opentelemetry_proto::tonic::collector::logs::v1::ExportLogsServiceRequest;
use opentelemetry_proto::tonic::common::v1::{
    any_value::Value, AnyValue, ArrayValue, InstrumentationScope, KeyValue,
};
use opentelemetry_proto::tonic::logs::v1::{LogRecord, ResourceLogs, ScopeLogs};
use opentelemetry_proto::tonic::resource::v1::Resource;
use prost::Message;

fn make_request(records_per_resource: &[usize]) -> ExportLogsServiceRequest {
    let resource_logs = records_per_resource
        .iter()
        .enumerate()
        .map(|(r_idx, &count)| ResourceLogs {
            resource: Some(Resource {
                attributes: vec![KeyValue {
                    key: "service.name".into(),
                    value: Some(AnyValue {
                        value: Some(Value::StringValue(format!("svc-{r_idx}"))),
                    }),
                }],
                dropped_attributes_count: 0,
            }),
            scope_logs: vec![ScopeLogs {
                scope: None,
                log_records: (0..count)
                    .map(|i| LogRecord {
                        time_unix_nano: 1_000 + i as u64,
                        observed_time_unix_nano: 0,
                        severity_number: 9,
                        severity_text: "INFO".into(),
                        body: Some(AnyValue {
                            value: Some(Value::StringValue(format!("body-{r_idx}-{i}"))),
                        }),
                        attributes: vec![KeyValue {
                            key: "rec".into(),
                            value: Some(AnyValue {
                                value: Some(Value::StringValue(format!("{r_idx}/{i}"))),
                            }),
                        }],
                        dropped_attributes_count: 0,
                        flags: 0,
                        trace_id: vec![0xaa; 16],
                        span_id: vec![0xbb; 8],
                        event_name: String::new(),
                    })
                    .collect(),
                schema_url: String::new(),
            }],
            schema_url: String::new(),
        })
        .collect();
    ExportLogsServiceRequest { resource_logs }
}

fn batch_with_payloads(payloads: Vec<Vec<u8>>) -> SourceBatch {
    SourceBatch {
        source: "buffer".into(),
        sequence: 42,
        manifest_path: "ingest/test/manifest".into(),
        data_object_path: "ingest/test/data/abc.batch".into(),
        entries: payloads
            .into_iter()
            .enumerate()
            .map(|(i, payload)| SourceEntry {
                entry_index: i as u32,
                raw_bytes: payload,
                raw_metadata: vec![1, 2, 1, 0],
                ingestion_time_ms: 99,
            })
            .collect(),
    }
}

#[test]
fn flattens_resource_scope_log_tree_and_assigns_record_index() {
    // Two resource_logs blocks: 2 records and 3 records.
    let req = make_request(&[2, 3]);
    let payload = req.encode_to_vec();
    let batch = batch_with_payloads(vec![payload]);

    let decoder = OtlpLogsDecoder::new();
    let decoded = decoder.decode_logs(&batch).expect("decode");
    assert_eq!(decoded.len(), 5);
    let indices: Vec<u32> = decoded.iter().map(|r| r.source.record_index).collect();
    assert_eq!(indices, vec![0, 1, 2, 3, 4]);
    // Resource attributes flow through.
    assert_eq!(decoded[0].service_name.as_deref(), Some("svc-0"));
    assert_eq!(decoded[2].service_name.as_deref(), Some("svc-1"));
    // Source coordinates use the per-batch buffer sequence and per-entry index.
    for rec in &decoded {
        assert_eq!(rec.source.buffer_sequence, 42);
        assert_eq!(rec.source.entry_index, 0);
        assert_eq!(rec.source.manifest_path, "ingest/test/manifest");
        assert_eq!(rec.source.ingestion_time_ms, 99);
    }
    assert_eq!(decoded[0].body, "body-0-0");
}

#[test]
fn record_index_resets_per_entry() {
    // Two entries, each with one record. record_index should be 0 within
    // each entry — the (sequence, entry_index, record_index) triple is
    // what's globally unique, not record_index alone.
    let req = make_request(&[1]);
    let payload = req.encode_to_vec();
    let batch = batch_with_payloads(vec![payload.clone(), payload]);

    let decoded = OtlpLogsDecoder::new().decode_logs(&batch).expect("decode");
    assert_eq!(decoded.len(), 2);
    assert_eq!(decoded[0].source.entry_index, 0);
    assert_eq!(decoded[1].source.entry_index, 1);
    assert_eq!(decoded[0].source.record_index, 0);
    assert_eq!(decoded[1].source.record_index, 0);
}

#[test]
fn empty_payload_yields_zero_rows_but_no_error() {
    let req = ExportLogsServiceRequest {
        resource_logs: vec![],
    };
    let payload = req.encode_to_vec();
    let batch = batch_with_payloads(vec![payload]);

    let decoded = OtlpLogsDecoder::new().decode_logs(&batch).expect("decode");
    assert!(decoded.is_empty(), "expected no decoded records");
}

#[test]
fn malformed_payload_returns_signal_decode_error() {
    let batch = batch_with_payloads(vec![b"not-a-protobuf-message".to_vec()]);
    let err = OtlpLogsDecoder::new().decode_logs(&batch).unwrap_err();
    match err {
        OtelDecodeError::Logs { .. } => {}
    }
}

#[test]
fn trace_and_span_ids_hex_encoded() {
    let req = make_request(&[1]);
    let payload = req.encode_to_vec();
    let batch = batch_with_payloads(vec![payload]);
    let decoded = OtlpLogsDecoder::new().decode_logs(&batch).expect("decode");
    assert_eq!(decoded[0].trace_id_hex, "a".repeat(32));
    assert_eq!(decoded[0].span_id_hex, "b".repeat(16));
}

fn any(value: Value) -> Option<AnyValue> {
    Some(AnyValue { value: Some(value) })
}

fn kv(key: &str, value: Value) -> KeyValue {
    KeyValue { key: key.into(), value: any(value) }
}

fn one_log(log: LogRecord, scope: Option<InstrumentationScope>) -> Vec<u8> {
    ExportLogsServiceRequest {
        resource_logs: vec![ResourceLogs {
            resource: None,
            scope_logs: vec![ScopeLogs { scope, log_records: vec![log], schema_url: String::new() }],
            schema_url: String::new(),
        }],
    }
    .encode_to_vec()
}

#[test]
fn values_become_texts() {
    let log = LogRecord {
        body: any(Value::IntValue(-3)),
        attributes: vec![
            kv("s", Value::StringValue("text".into())),
            kv("b", Value::BoolValue(true)),
            kv("d", Value::DoubleValue(1.5)),
            kv("y", Value::BytesValue(vec![0, 255])),
            kv("none", Value::ArrayValue(ArrayValue { values: vec![] })),
            KeyValue { key: "unset".into(), value: None },
        ],
        ..Default::default()
    };
    let batch = batch_with_payloads(vec![one_log(log, None)]);
    let decoded = OtlpLogsDecoder::new().decode_logs(&batch).expect("decode");
    let r = &decoded[0];
    assert_eq!(r.body, "-3");
    assert_eq!(r.log_attributes.get("s"), Some("text"));
    assert_eq!(r.log_attributes.get("b"), Some("true"));
    assert_eq!(r.log_attributes.get("d"), Some("1.5"));
    assert_eq!(r.log_attributes.get("y"), Some("00ff"));
    assert_eq!(r.log_attributes.get("none"), Some("<complex>"));
    assert_eq!(r.log_attributes.get("unset"), None);
    assert_eq!(r.service_name, None);
    assert_eq!(r.scope_name, None);
}

#[test]
fn scope_attributes_go_over_those_of_the_record() {
    let log = LogRecord {
        attributes: vec![
            kv("k", Value::StringValue("log".into())),
            kv("own", Value::StringValue("log".into())),
        ],
        ..Default::default()
    };
    let scope = InstrumentationScope {
        name: "lib".into(),
        version: String::new(),
        attributes: vec![kv("k", Value::StringValue("scope".into()))],
        dropped_attributes_count: 0,
    };
    let batch = batch_with_payloads(vec![one_log(log, Some(scope))]);
    let decoded = OtlpLogsDecoder::new().decode_logs(&batch).expect("decode");
    assert_eq!(decoded[0].log_attributes.get("k"), Some("scope"));
    assert_eq!(decoded[0].log_attributes.get("own"), Some("log"));
    assert_eq!(decoded[0].scope_name.as_deref(), Some("lib"));
}

#[test]
fn one_bad_entry_fails_the_batch() {
    let good = make_request(&[1]).encode_to_vec();
    let batch = batch_with_payloads(vec![good, b"not-a-protobuf-message".to_vec()]);
    let err = OtlpLogsDecoder::new().decode_logs(&batch).unwrap_err();
    assert!(
        err.message().starts_with("OTLP logs decode failed for sequence=42 entry_index=1: "),
        "{}",
        err.message()
    );
    let err = SignalDecoder::decode(&OtlpLogsDecoder::new(), &batch, &[]).unwrap_err();
    assert!(
        err.message()
            .starts_with("signal decoder: OTLP logs decode failed for sequence=42 entry_index=1: "),
        "{}",
        err.message()
    );
    let RuntimeError::Decoder(inner) = Decoder::decode(&OtlpLogsDecoder::new(), batch).unwrap_err();
    let OtelDecodeError::Logs { entry_index, .. } = inner;
    assert_eq!(entry_index, 1);
}

#[test]
fn coordinates_come_in_order_and_once() {
    let batch = batch_with_payloads(vec![
        make_request(&[2, 1]).encode_to_vec(),
        make_request(&[3]).encode_to_vec(),
    ]);
    let decoded = OtlpLogsDecoder::new().decode_logs(&batch).expect("decode");
    let places: Vec<(u32, u32)> =
        decoded.iter().map(|r| (r.source.entry_index, r.source.record_index)).collect();
    let mut sorted = places.clone();
    sorted.sort();
    sorted.dedup();
    assert_eq!(places, sorted);
    assert_eq!(places.len(), 6);
}

#[test]
fn decoded_batch_carries_its_columns() {
    let batch = batch_with_payloads(vec![make_request(&[2]).encode_to_vec()]);
    let mut out = Decoder::decode(&OtlpLogsDecoder::new(), batch).expect("decode");
    assert_eq!(out.len(), 1);
    let d = out.remove(0);
    assert_eq!((d.low_sequence, d.high_sequence), (42, 42));
    assert_eq!(d.source_columns.sequences, vec![42, 42]);
    assert_eq!(d.source_columns.record_indices, vec![0, 1]);
    assert_eq!(d.source_columns.ingestion_time_ms, vec![99, 99]);
    match d.records {
        DecodedRecords::Logs(logs) => {
            assert_eq!(logs.record_count(), 2);
            assert_eq!(
                logs.estimated_bytes() as u64,
                d.stats.decoded_byte_estimate
            );
            assert_eq!(logs.records().len(), 2);
        }
        other => panic!("unexpected {other:?}"),
    }
}

#[test]
fn logs_decoder_takes_logs_in_otlp_protobuf() {
    let envelope = |signal_type| MetadataEnvelope {
        version: 1,
        signal_type,
        encoding: PayloadEncoding::OtlpProtobuf,
        reserved: 0,
    };
    let decoder = OtlpLogsDecoder::new();
    assert!(decoder.accepts(&envelope(SignalType::Logs)));
    assert!(!decoder.accepts(&envelope(SignalType::Metrics)));
}
