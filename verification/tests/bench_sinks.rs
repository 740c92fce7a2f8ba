use clickhouse_ingestor::bench::fixtures::{
    logs_envelope, payload_text, FakeDecoder, FakeRecords, LargeDecoder, LargeRecords,
};
use clickhouse_ingestor::bench::real_sink::{Interposition, RealClickHouseSink};
use clickhouse_ingestor::bench::scripted_sink::{
    BenchSink, ScriptedWrite, SinkCommitFailureKind, WriteOutcome,
};
use clickhouse_ingestor::envelope::decode_one;
use clickhouse_ingestor::logs_adapter::{LogsAdapterConfig, OtlpLogsClickHouseAdapter};
use clickhouse_ingestor::runtime::{
    CommitIdentity, CommitStatus, DecodedRecords, Decoder, SchemaVersion, SequenceRange,
    SinkCommitFailure, SinkCommitResult,
};
use clickhouse_ingestor::sink::ClickHouseSink;
use clickhouse_ingestor::source::{SourceBatch, SourceEntry};
use clickhouse_ingestor::writer::{ClickHouseWriter, WriterConfig};

fn id(high: u64) -> CommitIdentity {
    CommitIdentity {
        source: "buffer".into(),
        sink: "bench".into(),
        range: SequenceRange::new(0, high),
        schema_version: SchemaVersion(1),
    }
}

fn maybe_text(r: &Result<SinkCommitResult, SinkCommitFailure>) -> &str {
    match r {
        Err(SinkCommitFailure::MaybeCommitted(m)) => m.as_str(),
        other => panic!("unexpected {other:?}"),
    }
}

#[test]
fn unscripted_writes_succeed() {
    let mut sink = BenchSink::new("bench");
    assert_eq!(sink.id(), "bench");
    let reply = sink.write(&id(4));
    assert!(reply.committed);
    assert_eq!(
        reply.result.unwrap(),
        SinkCommitResult { bytes_written: 0, rows_written: 1 }
    );
    let captured = sink.drain_captured_writes();
    assert_eq!(captured.len(), 1);
    assert_eq!(captured[0].outcome, WriteOutcome::Committed { rows: 1 });
    assert_eq!(captured[0].identity.range, SequenceRange::new(0, 4));
    assert!(sink.drain_captured_writes().is_empty());
}

#[test]
fn scripted_doubt_is_followed_by_success() {
    let mut sink = BenchSink::new("bench");
    sink.set_per_sequence_forced_outcome(3, ScriptedWrite::MaybeCommittedThenOk);
    assert!(sink.write(&id(2)).result.is_ok());
    let first = sink.write(&id(3));
    assert!(!first.committed);
    assert_eq!(maybe_text(&first.result), "scripted MaybeCommitted on seq=3");
    assert!(sink.write(&id(3)).result.is_ok());
    assert!(sink.write(&id(3)).result.is_ok());
    let outcomes: Vec<WriteOutcome> =
        sink.drain_captured_writes().iter().map(|c| c.outcome).collect();
    assert_eq!(outcomes[1], WriteOutcome::Failure(SinkCommitFailureKind::MaybeCommitted));
    assert_eq!(outcomes.len(), 4);
}

#[test]
fn hidden_commit_is_told_to_the_observer_only() {
    let mut sink = BenchSink::new("bench");
    sink.set_per_sequence_forced_outcome(
        1,
        ScriptedWrite::CommitButReportMaybeCommittedThenRetry,
    );
    let first = sink.write(&id(1));
    assert!(first.committed);
    assert!(first.result.is_err());
    let again = sink.write(&id(1));
    assert!(again.committed && again.result.is_ok());
    sink.set_per_sequence_forced_outcome(1, ScriptedWrite::Success);
    assert!(sink.write(&id(1)).result.is_ok());
    assert_eq!(sink.check_committed(&id(1)), CommitStatus::Unknown);
    sink.set_check_committed_response(CommitStatus::Committed);
    assert_eq!(sink.check_committed(&id(1)), CommitStatus::Committed);
}

fn real_sink() -> RealClickHouseSink {
    let inner = ClickHouseSink::new(
        "clickhouse_logs".into(),
        OtlpLogsClickHouseAdapter::new(LogsAdapterConfig::default()),
        ClickHouseWriter::new(WriterConfig::default()),
    );
    RealClickHouseSink::new("real", inner)
}

fn done() -> SinkCommitResult {
    SinkCommitResult { bytes_written: 9, rows_written: 5 }
}

#[test]
fn unscripted_write_is_handed_on() {
    let mut sink = real_sink();
    assert_eq!(sink.id(), "real");
    assert_eq!(sink.inner().id(), "clickhouse_logs");
    assert!(matches!(sink.begin_write(&id(1)), Interposition::Delegate { in_doubt: false }));
    let reply = sink.end_write(&id(1), false, Ok(done()));
    assert!(reply.committed);
    assert_eq!(reply.result.unwrap(), done());
    let captured = sink.drain_captured_writes();
    assert_eq!(captured[0].outcome, WriteOutcome::Committed { rows: 5 });
    assert_eq!(sink.check_committed(&id(1)), CommitStatus::Unknown);
}

#[test]
fn scripted_doubt_does_not_reach_the_sink_behind() {
    let mut sink = real_sink();
    sink.set_per_sequence_forced_outcome(2, ScriptedWrite::MaybeCommittedThenOk);
    match sink.begin_write(&id(2)) {
        Interposition::Answer(reply) => {
            assert!(!reply.committed);
            assert_eq!(maybe_text(&reply.result), "scripted MaybeCommitted on seq=2");
        }
        other => panic!("unexpected {other:?}"),
    }
    assert!(matches!(sink.begin_write(&id(2)), Interposition::Delegate { in_doubt: false }));
    assert!(matches!(sink.begin_write(&id(2)), Interposition::Delegate { in_doubt: false }));
    assert_eq!(sink.drain_captured_writes().len(), 1);
}

#[test]
fn hidden_commit_reaches_the_sink_behind_twice() {
    let mut sink = real_sink();
    sink.set_per_sequence_forced_outcome(
        2,
        ScriptedWrite::CommitButReportMaybeCommittedThenRetry,
    );
    assert!(matches!(sink.begin_write(&id(2)), Interposition::Delegate { in_doubt: true }));
    let reply = sink.end_write(&id(2), true, Ok(done()));
    assert!(reply.committed);
    assert_eq!(
        maybe_text(&reply.result),
        "scripted CommitThenReportMaybeCommitted on seq=2 (inner committed; reporting MaybeCommitted to drive retry path)"
    );
    // Another sequence is written before the retry.
    assert!(matches!(sink.begin_write(&id(1)), Interposition::Delegate { in_doubt: false }));
    assert!(sink.end_write(&id(1), false, Ok(done())).result.is_ok());
    assert!(matches!(sink.begin_write(&id(2)), Interposition::Delegate { in_doubt: false }));
    let again = sink.end_write(&id(2), false, Ok(done()));
    assert!(again.committed);
    assert_eq!(again.result.unwrap(), done());
    let outcomes: Vec<WriteOutcome> =
        sink.drain_captured_writes().iter().map(|c| c.outcome).collect();
    assert_eq!(
        outcomes,
        vec![
            WriteOutcome::Failure(SinkCommitFailureKind::MaybeCommitted),
            WriteOutcome::Committed { rows: 5 },
            WriteOutcome::Committed { rows: 5 },
        ]
    );
}

#[test]
fn failure_behind_is_passed_on() {
    let mut sink = real_sink();
    for (inner, kind) in [
        (SinkCommitFailure::NotCommitted("a".into()), SinkCommitFailureKind::NotCommitted),
        (SinkCommitFailure::MaybeCommitted("b".into()), SinkCommitFailureKind::MaybeCommitted),
        (SinkCommitFailure::Fatal("c".into()), SinkCommitFailureKind::Fatal),
    ] {
        let reply = sink.end_write(&id(2), true, Err(inner));
        assert!(!reply.committed);
        assert!(reply.result.is_err());
        let captured = sink.drain_captured_writes();
        assert_eq!(captured[0].outcome, WriteOutcome::Failure(kind));
    }
}

fn source_batch(n: usize) -> SourceBatch {
    SourceBatch {
        source: "buffer".into(),
        sequence: 6,
        manifest_path: "m".into(),
        data_object_path: "d".into(),
        entries: (0..n)
            .map(|i| SourceEntry {
                entry_index: i as u32,
                raw_bytes: payload_text(i as u64).into_bytes(),
                raw_metadata: logs_envelope(),
                ingestion_time_ms: 100 + i as i64,
            })
            .collect(),
    }
}

#[test]
fn fake_decoder_makes_one_row_per_entry() {
    let out = FakeDecoder.decode(source_batch(3)).expect("decode");
    assert_eq!(out.len(), 1);
    let d = &out[0];
    assert_eq!((d.low_sequence, d.high_sequence, d.source_entry_count), (6, 6, 3));
    assert_eq!(d.source_columns.sequences, vec![6, 6, 6]);
    assert_eq!(d.source_columns.entry_indices, vec![0, 1, 2]);
    assert_eq!(d.source_columns.record_indices, vec![0, 0, 0]);
    assert_eq!(d.source_columns.ingestion_time_ms, vec![100, 101, 102]);
    assert_eq!(d.stats.decoded_byte_estimate, 48);
    match &d.records {
        DecodedRecords::Foreign(r) => {
            assert_eq!(r.schema.name, "bench.fake.v1");
            assert_eq!((r.record_count, r.estimated_bytes), (3, 48));
        }
        other => panic!("unexpected {other:?}"),
    }
}

#[test]
fn large_decoder_claims_its_size() {
    let decoder = LargeDecoder { bytes_per_batch: 1024 };
    let envelope = decode_one(0, &logs_envelope()).expect("envelope");
    assert!(decoder.accepts(&envelope));
    let out = decoder.decode(source_batch(2)).expect("decode");
    assert_eq!(out[0].stats.decoded_byte_estimate, 1024);
    match &out[0].records {
        DecodedRecords::Foreign(r) => {
            assert_eq!(r.schema.name, "bench.large.v1");
            assert_eq!((r.record_count, r.estimated_bytes), (2, 1024));
        }
        other => panic!("unexpected {other:?}"),
    }
}

#[test]
fn fixture_records_report_their_size() {
    let fake = FakeRecords::new(4);
    assert_eq!((fake.record_count(), fake.estimated_bytes()), (4, 64));
    assert_eq!(fake.schema().version, SchemaVersion(1));
    let large = LargeRecords::new(4, 7);
    assert_eq!((large.record_count(), large.estimated_bytes()), (4, 7));
    assert_eq!(large.schema().name, "bench.large.v1");
    assert_eq!(payload_text(12), "payload-12");
    assert_eq!(logs_envelope(), vec![1, 2, 1, 0]);
}
