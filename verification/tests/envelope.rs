use clickhouse_ingestor::envelope::{
    decode_envelopes, decode_one, validate_consistent, ConfiguredEnvelope, EnvelopeError,
    PayloadEncoding, SignalType,
};
use clickhouse_ingestor::error::IngestorError;
use clickhouse_ingestor::source::{RawBufferBatch, RawEntry};

fn batch_with_envelopes(envelopes: Vec<&[u8]>) -> RawBufferBatch {
    RawBufferBatch {
        sequence: 1,
        manifest_path: "m".into(),
        data_object_path: "d".into(),
        entries: envelopes
            .into_iter()
            .enumerate()
            .map(|(i, env)| RawEntry {
                entry_index: i as u32,
                raw_bytes: vec![],
                raw_metadata: env.to_vec(),
                ingestion_time_ms: 0,
            })
            .collect(),
    }
}

fn logs_otlp() -> ConfiguredEnvelope {
    ConfiguredEnvelope {
        version: 1,
        signal_type: SignalType::Logs,
        encoding: PayloadEncoding::OtlpProtobuf,
    }
}

#[test]
fn decodes_per_entry() {
    let batch = batch_with_envelopes(vec![&[1, 2, 1, 0], &[1, 1, 1, 0]]);
    let envs = decode_envelopes(&batch).expect("decode");
    assert_eq!(envs[0].signal_type, SignalType::Logs);
    assert_eq!(envs[1].signal_type, SignalType::Metrics);
}

#[test]
fn rejects_short_envelope() {
    let batch = batch_with_envelopes(vec![&[1, 2]]);
    let err = decode_envelopes(&batch).unwrap_err();
    assert!(matches!(err, EnvelopeError::TooShort { .. }));
}

#[test]
fn rejects_unsupported_version() {
    let batch = batch_with_envelopes(vec![&[2, 2, 1, 0]]);
    let err = decode_envelopes(&batch).unwrap_err();
    assert!(matches!(err, EnvelopeError::UnsupportedVersion { .. }));
}

#[test]
fn rejects_unknown_signal() {
    let batch = batch_with_envelopes(vec![&[1, 99, 1, 0]]);
    let err = decode_envelopes(&batch).unwrap_err();
    assert!(matches!(err, EnvelopeError::UnsupportedSignal { .. }));
}

#[test]
fn rejects_unknown_encoding() {
    let batch = batch_with_envelopes(vec![&[1, 2, 99, 0]]);
    let err = decode_envelopes(&batch).unwrap_err();
    assert!(matches!(err, EnvelopeError::UnsupportedEncoding { .. }));
}

#[test]
fn validate_passes_when_all_match() {
    let batch = batch_with_envelopes(vec![&[1, 2, 1, 0], &[1, 2, 1, 0]]);
    let envs = decode_envelopes(&batch).expect("decode");
    validate_consistent(&envs, &logs_otlp()).expect("ok");
}

#[test]
fn validate_fails_when_signal_mismatches() {
    let batch = batch_with_envelopes(vec![&[1, 2, 1, 0], &[1, 1, 1, 0]]);
    let envs = decode_envelopes(&batch).expect("decode");
    let err = validate_consistent(&envs, &logs_otlp()).unwrap_err();
    match err {
        EnvelopeError::Mismatch { entry_index, .. } => assert_eq!(entry_index, 1),
        other => panic!("expected mismatch, got {other:?}"),
    }
}

#[test]
fn signal_and_encoding_bytes_read_back() {
    for signal in [SignalType::Metrics, SignalType::Logs, SignalType::Traces] {
        assert_eq!(SignalType::from_byte(signal.as_byte()), Some(signal));
    }
    assert_eq!(SignalType::Metrics.as_byte(), 1);
    assert_eq!(SignalType::Logs.as_byte(), 2);
    assert_eq!(SignalType::Traces.as_byte(), 3);
    assert_eq!(SignalType::from_byte(0), None);
    assert_eq!(SignalType::Logs.name(), "logs");
    assert_eq!(PayloadEncoding::OtlpProtobuf.as_byte(), 1);
    assert_eq!(
        PayloadEncoding::from_byte(PayloadEncoding::OtlpProtobuf.as_byte()),
        Some(PayloadEncoding::OtlpProtobuf)
    );
}

#[test]
fn first_bad_entry_is_reported() {
    let batch = batch_with_envelopes(vec![&[1, 2, 1, 0], &[1], &[9, 9, 9, 9]]);
    match decode_envelopes(&batch).unwrap_err() {
        EnvelopeError::TooShort { entry_index, .. } => assert_eq!(entry_index, 1),
        other => panic!("unexpected {other:?}"),
    }
}

#[test]
fn bytes_after_the_header_are_ignored() {
    let env = decode_one(3, &[1, 2, 1, 77, 5, 6]).expect("decode");
    assert_eq!(env.version, 1);
    assert_eq!(env.signal_type, SignalType::Logs);
    assert!(logs_otlp().matches(&env));
}

#[test]
fn envelope_errors_have_messages() {
    let short = decode_one(4, &[1, 2]).unwrap_err();
    let version = decode_one(5, &[7, 2, 1, 0]).unwrap_err();
    let signal = decode_one(6, &[1, 99, 1, 0]).unwrap_err();
    let encoding = decode_one(7, &[1, 2, 98, 0]).unwrap_err();
    assert_eq!(short.message(), "entry 4: envelope is 2 bytes; expected at least 4");
    assert_eq!(version.message(), "entry 5: unsupported version 7");
    assert_eq!(signal.message(), "entry 6: unsupported signal_type byte 99");
    assert_eq!(encoding.message(), "entry 7: unsupported encoding byte 98");
    let batch = batch_with_envelopes(vec![&[1, 1, 1, 0]]);
    let envs = decode_envelopes(&batch).expect("decode");
    let mismatch = validate_consistent(&envs, &logs_otlp()).unwrap_err();
    assert_eq!(
        mismatch.message(),
        "entry 0: envelope (v1, signal=metrics, encoding=otlp_protobuf) does not match configured (v1, signal=logs, encoding=otlp_protobuf)"
    );
    let wrapped = IngestorError::from(decode_one(4, &[1, 2]).unwrap_err());
    assert_eq!(
        wrapped.message(),
        "metadata envelope: entry 4: envelope is 2 bytes; expected at least 4"
    );
}
