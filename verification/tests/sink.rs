use clickhouse_ingestor::adapter::{
    Adapter, AdapterError, AdapterResult, ClickHouseAdapterBatch, InsertChunk,
};
use clickhouse_ingestor::attributes::AttributeMap;
use clickhouse_ingestor::bench::fixtures::logs_envelope;
use clickhouse_ingestor::bench::workload::make_logs;
use clickhouse_ingestor::logs::{
    DecodedLogRecord, OtlpLogsDecoder, RowSourceCoordinates, TypedDecodedLogs,
};
use clickhouse_ingestor::logs_adapter::{LogsAdapterConfig, OtlpLogsClickHouseAdapter};
use clickhouse_ingestor::runtime::{
    BatchStats, CommitIdentity, CommitStatus, DecodedBatch, DecodedRecords, Decoder, ForeignRecords,
    SchemaVersion, SequenceRange, SinkCommit, SinkCommitFailure, SinkCommitResult,
    SourceCoordinateColumns, TypedSchema,
};
use clickhouse_ingestor::sink::{
    settle, ClickHouseSink, CommitAction, CommitRun, DryRunSink, PreparedCommit,
};
use clickhouse_ingestor::source::{SourceBatch, SourceEntry};
use clickhouse_ingestor::writer::{
    classify_status, transport_failure, ClickHouseWriter, TransportFailure, WriterConfig, WriterError,
};

/// An adapter that drops every record.
struct DroppingAdapter;

impl Adapter for DroppingAdapter {
    type Input = DecodedLogRecord;
    fn plan(&self, _batch: ClickHouseAdapterBatch<Self::Input>) -> AdapterResult<Vec<InsertChunk>> {
        Ok(Vec::new())
    }
}

/// An adapter that cannot plan anything.
struct FailingAdapter;

impl Adapter for FailingAdapter {
    type Input = DecodedLogRecord;
    fn plan(&self, _batch: ClickHouseAdapterBatch<Self::Input>) -> AdapterResult<Vec<InsertChunk>> {
        Err(AdapterError { message: "no plan".into() })
    }
}

fn fake_log_record(seq: u64) -> DecodedLogRecord {
    DecodedLogRecord {
        source: RowSourceCoordinates {
            buffer_sequence: seq,
            entry_index: 0,
            record_index: 0,
            manifest_path: "test/manifest".into(),
            data_path: "test/data".into(),
            ingestion_time_ms: 0,
        },
        timestamp_unix_nano: 0,
        observed_timestamp_unix_nano: 0,
        severity_number: 9,
        severity_text: "INFO".into(),
        body: "hello".into(),
        service_name: None,
        resource_attributes: AttributeMap::new(),
        scope_name: None,
        log_attributes: AttributeMap::new(),
        trace_id_hex: String::new(),
        span_id_hex: String::new(),
    }
}

fn fake_sink_commit(records: DecodedRecords, count: usize) -> SinkCommit {
    let schema_version = SchemaVersion(1);
    SinkCommit {
        identity: CommitIdentity {
            source: "test".into(),
            sink: "clickhouse_logs".into(),
            range: SequenceRange::new(0, 0),
            schema_version,
        },
        batch: DecodedBatch {
            source: "test".into(),
            low_sequence: 0,
            high_sequence: 0,
            source_entry_count: count as u32,
            records,
            source_columns: SourceCoordinateColumns {
                manifest_path: "test/manifest".into(),
                data_path: "test/data".into(),
                sequences: vec![0; count],
                entry_indices: vec![0; count],
                record_indices: (0..count as u32).collect(),
                ingestion_time_ms: vec![0; count],
            },
            stats: BatchStats { source_byte_count: 0, decoded_byte_estimate: 0 },
            schema_version,
        },
    }
}

fn logs_commit(n: u64) -> SinkCommit {
    let records: Vec<DecodedLogRecord> = (0..n).map(fake_log_record).collect();
    fake_sink_commit(DecodedRecords::Logs(TypedDecodedLogs::new(records)), n as usize)
}

fn sink_with<A: Adapter<Input = DecodedLogRecord>>(adapter: A) -> ClickHouseSink<A> {
    let writer = ClickHouseWriter::new(WriterConfig {
        endpoint: "http://localhost:1".into(), // never reached
        ..Default::default()
    });
    ClickHouseSink::new("clickhouse_logs".into(), adapter, writer)
}

fn fatal_text(e: SinkCommitFailure) -> String {
    match e {
        SinkCommitFailure::Fatal(msg) => msg,
        other => panic!("expected Fatal, got {other:?}"),
    }
}

/// A commit whose plan holds fewer rows than it has records is refused before
/// anything is sent.
#[test]
fn sink_rejects_adapter_that_drops_rows() {
    let sink = sink_with(DroppingAdapter);
    let err = sink.prepare(logs_commit(2)).expect_err("guard must reject a dropping adapter");
    let msg = fatal_text(err);
    assert!(
        msg.contains("adapter plan covered 0 rows but commit held 2"),
        "unexpected error message: {msg}"
    );
}

#[test]
fn plan_failure_is_fatal() {
    let err = sink_with(FailingAdapter).prepare(logs_commit(1)).unwrap_err();
    assert_eq!(fatal_text(err), "no plan");
}

#[test]
fn foreign_records_are_fatal() {
    let sink = sink_with(OtlpLogsClickHouseAdapter::new(LogsAdapterConfig::default()));
    let foreign = ForeignRecords {
        schema: TypedSchema { name: "other.v1".into(), version: SchemaVersion(3) },
        record_count: 1,
        estimated_bytes: 16,
    };
    let msg = fatal_text(sink.prepare(fake_sink_commit(DecodedRecords::Foreign(foreign), 1)).unwrap_err());
    assert!(msg.contains("other.v1"), "{msg}");
}

#[test]
fn range_that_is_not_that_of_the_batch_is_fatal() {
    let sink = sink_with(OtlpLogsClickHouseAdapter::new(LogsAdapterConfig::default()));
    let mut commit = logs_commit(1);
    commit.identity.range = SequenceRange::new(0, 7);
    let msg = fatal_text(sink.prepare(commit).unwrap_err());
    assert!(msg.contains('7'), "{msg}");
}

#[test]
fn prepared_commit_holds_every_record() {
    let sink = sink_with(OtlpLogsClickHouseAdapter::new(LogsAdapterConfig::default()));
    let prepared = sink.prepare(logs_commit(3)).expect("prepared");
    assert_eq!(prepared.result.rows_written, 3);
    assert_eq!(prepared.chunks.iter().map(|c| c.rows_count()).sum::<usize>(), 3);
    assert_eq!(sink.id(), "clickhouse_logs");
    assert_eq!(sink.writer().config().endpoint, "http://localhost:1");
}

/// A payload of four records, two to a chunk, from its bytes to its chunks.
#[test]
fn adapter_chunks_carry_tokens_under_real_pipeline() {
    let manifest_path = "ingest/test/recording/manifest";
    let batch = SourceBatch {
        source: "buffer".into(),
        sequence: 0,
        manifest_path: manifest_path.into(),
        data_object_path: "ingest/test/recording/data/0".into(),
        entries: vec![SourceEntry {
            entry_index: 0,
            raw_bytes: make_logs("svc", 4, 1_000_000_000),
            raw_metadata: logs_envelope(),
            ingestion_time_ms: 0,
        }],
    };
    let decoded = OtlpLogsDecoder::new().decode(batch).expect("decode").remove(0);
    let sink = sink_with(OtlpLogsClickHouseAdapter::new(LogsAdapterConfig {
        max_chunk_rows: 2,
        ..LogsAdapterConfig::default()
    }));
    let identity = CommitIdentity {
        source: "buffer".into(),
        sink: "clickhouse_logs".into(),
        range: SequenceRange::new(decoded.low_sequence, decoded.high_sequence),
        schema_version: SchemaVersion(1),
    };
    let chunks = sink.prepare(SinkCommit { identity, batch: decoded }).expect("prepared").chunks;
    assert_eq!(chunks.len(), 2, "expected 2 chunks, got {chunks:?}");
    let tokens: Vec<&str> = chunks.iter().map(|c| c.idempotency_token.as_str()).collect();
    assert_ne!(tokens[0], tokens[1]);
    for chunk in &chunks {
        assert_eq!(chunk.database, "responsive");
        assert_eq!(chunk.table, "logs");
        let token = &chunk.idempotency_token;
        let manifest_prefix = format!("{manifest_path}:responsive.logs:");
        assert!(
            token.starts_with(&manifest_prefix),
            "token must start with {manifest_prefix}, got {token}"
        );
    }
}

#[test]
fn end_of_a_write_is_settled_by_class() {
    let done = SinkCommitResult { bytes_written: 1, rows_written: 2 };
    assert_eq!(settle(done, Ok(())).unwrap(), done);
    assert!(matches!(
        settle(done, Err(classify_status(503, "busy"))),
        Err(SinkCommitFailure::MaybeCommitted(_))
    ));
    assert!(matches!(
        settle(done, Err(WriterError::RetryBudgetExhausted { message: "m".into() })),
        Err(SinkCommitFailure::MaybeCommitted(_))
    ));
    match settle(done, Err(classify_status(400, "bad"))) {
        Err(SinkCommitFailure::Fatal(msg)) => {
            assert_eq!(msg, "clickhouse insert failed (non-retryable): status 400: bad");
        }
        other => panic!("unexpected {other:?}"),
    }
}

#[test]
fn commits_are_never_known_to_be_in() {
    let sink = sink_with(DroppingAdapter);
    let identity = logs_commit(0).identity;
    assert_eq!(sink.check_committed(&identity), CommitStatus::Unknown);
}

#[test]
fn dry_run_sink_refuses_to_write() {
    let sink = DryRunSink::new("clickhouse_logs".into());
    assert_eq!(sink.id(), "clickhouse_logs");
    let commit = logs_commit(0);
    assert_eq!(sink.check_committed(&commit.identity), CommitStatus::Unknown);
    assert_eq!(
        fatal_text(sink.write(commit).unwrap_err()),
        "DryRunSink::write called; runtime should have short-circuited via dry_run=true"
    );
}

fn two_chunks() -> PreparedCommit {
    let sink = sink_with(OtlpLogsClickHouseAdapter::new(LogsAdapterConfig {
        max_chunk_rows: 2,
        ..LogsAdapterConfig::default()
    }));
    let prepared = sink.prepare(logs_commit(3)).expect("prepared");
    assert_eq!(prepared.chunks.len(), 2);
    prepared
}

fn outcome(action: CommitAction) -> Result<SinkCommitResult, SinkCommitFailure> {
    match action {
        CommitAction::Settled { outcome } => outcome,
        other => panic!("expected an outcome, got {other:?}"),
    }
}

#[test]
fn a_commit_succeeds_after_its_last_chunk() {
    let config = WriterConfig::default();
    let prepared = two_chunks();
    let (mut run, action) = CommitRun::start(&config, &prepared);
    assert!(matches!(action, CommitAction::Send { chunk: 0 }));
    let action = run.after_attempt(&config, Err(classify_status(503, "busy")));
    match action {
        CommitAction::Resend { chunk: 0, wait } => assert_eq!(wait, config.initial_backoff),
        other => panic!("expected a retry, got {other:?}"),
    }
    let action = run.after_attempt(&config, Ok(()));
    assert!(matches!(action, CommitAction::Send { chunk: 1 }));
    let done = outcome(run.after_attempt(&config, Ok(()))).expect("committed");
    assert_eq!(done, prepared.result);
    assert_eq!(done.rows_written, 3);
}

#[test]
fn a_commit_whose_attempts_are_used_up_is_in_doubt() {
    let config = WriterConfig { max_attempts: 1, ..WriterConfig::default() };
    let (mut run, _) = CommitRun::start(&config, &two_chunks());
    let failed = outcome(run.after_attempt(&config, Err(classify_status(500, "oops"))));
    match failed {
        Err(SinkCommitFailure::MaybeCommitted(msg)) => {
            assert!(msg.contains("retry budget (1) exhausted"), "{msg}")
        }
        other => panic!("expected MaybeCommitted, got {other:?}"),
    }
}

#[test]
fn a_commit_that_cannot_be_serialized_is_fatal() {
    let config = WriterConfig::default();
    let (mut run, _) = CommitRun::start(&config, &two_chunks());
    let failed = run.after_attempt(&config, Err(WriterError::Serialization("bad".into())));
    let msg = fatal_text(outcome(failed).expect_err("refused"));
    assert_eq!(msg, "serialization error: bad");
}

#[test]
fn an_empty_commit_is_written_at_once() {
    let sink = sink_with(OtlpLogsClickHouseAdapter::new(LogsAdapterConfig::default()));
    let prepared = sink.prepare(logs_commit(0)).expect("prepared");
    let (_, action) = CommitRun::start(&WriterConfig::default(), &prepared);
    assert_eq!(outcome(action).expect("written").rows_written, 0);
}

#[test]
fn a_failed_request_has_one_kind() {
    assert_eq!(transport_failure(true, true, true), TransportFailure::Timeout);
    assert_eq!(transport_failure(false, true, true), TransportFailure::Connect);
    assert_eq!(transport_failure(false, false, true), TransportFailure::Status);
    assert_eq!(transport_failure(false, false, false), TransportFailure::Other);
}
