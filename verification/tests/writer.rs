use std::time::Duration;

use clickhouse_ingestor::adapter::{ClickHouseSettings, InsertChunk, RowValue};
use clickhouse_ingestor::metrics::InsertResult;
use clickhouse_ingestor::serializer::SerializationFormat;
use clickhouse_ingestor::writer::{
    attempt_label, build_insert_url, classify_status, classify_transport, read_outcome,
    render_insert_sql_clean, ChunkRun, ClickHouseWriter, HttpClientMode, HttpOutcome, RetryStep,
    TransportFailure, WriteAction, WriteRun, WriterConfig, WriterError, WriterErrorClass,
};

fn insert_chunk(rows: Vec<Vec<RowValue>>) -> InsertChunk {
    InsertChunk {
        database: "responsive".into(),
        table: "logs".into(),
        columns: vec!["a", "b"],
        rows,
        settings: ClickHouseSettings {
            insert_quorum: Some("auto".into()),
            insert_deduplication_token: "tok".into(),
            apply_deduplication_token: true,
        },
        idempotency_token: "tok".into(),
        chunk_index: 0,
        observability_labels: vec![],
    }
}

#[test]
fn insert_sql_is_well_formed() {
    let c = insert_chunk(vec![]);
    let sql = render_insert_sql_clean(&c, SerializationFormat::JsonEachRow);
    assert_eq!(sql, "INSERT INTO responsive.logs FORMAT JSONEachRow");
}

#[test]
fn classify_status_503_is_retryable() {
    let err = classify_status(503, "service unavailable");
    assert_eq!(err.class(), WriterErrorClass::Retryable);
}

#[test]
fn classify_status_429_is_retryable() {
    let err = classify_status(429, "too many requests");
    assert_eq!(err.class(), WriterErrorClass::Retryable);
}

#[test]
fn classify_status_400_is_non_retryable() {
    let err = classify_status(400, "bad request");
    assert_eq!(err.class(), WriterErrorClass::NonRetryable);
}

#[test]
fn retry_budget_exhausted_classifies_distinctly() {
    let err = WriterError::RetryBudgetExhausted {
        message: "retry budget (3) exhausted: timeout".into(),
    };
    assert_eq!(err.class(), WriterErrorClass::RetryBudgetExhausted);
    // Distinct from `NonRetryable`, so that the sink can branch.
    assert_ne!(
        WriterErrorClass::RetryBudgetExhausted,
        WriterErrorClass::NonRetryable
    );
}

/// A chunk whose only attempt cannot connect has used up its attempts.
#[test]
fn execute_chunk_returns_retry_budget_exhausted_after_one_attempt() {
    let config = WriterConfig {
        endpoint: "http://127.0.0.1:1".into(),
        user: "default".into(),
        password: String::new(),
        request_timeout: Duration::from_millis(100),
        max_attempts: 1,
        initial_backoff: Duration::from_millis(1),
        ..Default::default()
    };
    let mut run = ChunkRun::start(&config);
    let failure = read_outcome(HttpOutcome::Failed {
        kind: TransportFailure::Connect,
        detail: "connection refused".into(),
    })
    .map(|_| ());
    match run.after_attempt(failure) {
        RetryStep::Fail { error } => {
            assert_eq!(error.class(), WriterErrorClass::RetryBudgetExhausted, "got {error:?}");
        }
        other => panic!("connect failure with max_attempts=1 must surface an error, got {other:?}"),
    }
}

#[test]
fn insert_url_carries_settings_as_query_params() {
    let c = insert_chunk(vec![]);
    let url = build_insert_url("http://localhost:8123", &c, Duration::from_secs(5));
    assert!(url.starts_with("http://localhost:8123/?async_insert=0"));
    assert!(url.contains("date_time_input_format=best_effort"));
    assert!(url.contains("insert_deduplication_token=tok"));
    assert!(url.contains("insert_quorum=auto"));
    assert!(url.contains("max_execution_time=5"));
}

#[test]
fn insert_url_omits_token_when_disabled() {
    let mut c = insert_chunk(vec![]);
    c.settings.apply_deduplication_token = false;
    let url = build_insert_url("http://localhost:8123", &c, Duration::from_secs(5));
    assert!(!url.contains("insert_deduplication_token"));
}

#[test]
fn insert_url_escapes_the_token_and_trims_slashes() {
    let mut c = insert_chunk(vec![]);
    c.settings.insert_deduplication_token = "m/a:db.t:1-2 é".into();
    let url = build_insert_url("http://localhost:8123//", &c, Duration::from_secs(5));
    assert!(url.starts_with("http://localhost:8123/?async_insert=0"), "{url}");
    assert!(
        url.contains("insert_deduplication_token=m%2Fa%3Adb.t%3A1-2%20%C3%A9"),
        "{url}"
    );
}

#[test]
fn requests_carry_statement_rows_and_credentials() {
    let writer = ClickHouseWriter::new(WriterConfig {
        endpoint: "http://h:1/".into(),
        user: "me".into(),
        password: String::new(),
        ..Default::default()
    });
    let c = insert_chunk(vec![vec![RowValue::UInt8(1), RowValue::UInt8(2)]]);
    let rows = writer.serialize(&c).expect("serialize");
    assert_eq!(rows, b"{\"a\":1,\"b\":2}\n".to_vec());
    let request = writer.insert_request(&c, &rows);
    assert_eq!(
        request.body,
        b"INSERT INTO responsive.logs FORMAT JSONEachRow\n{\"a\":1,\"b\":2}\n".to_vec()
    );
    assert_eq!(request.user.as_deref(), Some("me"));
    assert_eq!(request.key, None);
    let statement = writer.statement_request("SELECT 1");
    assert_eq!(statement.url, "http://h:1");
    assert_eq!(statement.body, b"SELECT 1".to_vec());
    assert_eq!(writer.http_mode_label(), "per_call");
    assert_eq!(writer.format_label(), "json_each_row");
    assert_eq!(writer.config().user, "me");
}

#[test]
fn clients_are_built_by_mode() {
    let per_call = ClickHouseWriter::new(WriterConfig::default());
    assert!(per_call.pooled_client_plan().is_none());
    assert_eq!(per_call.per_call_client_plan().pool_max_idle_per_host, 0);
    let pooled = ClickHouseWriter::new(WriterConfig {
        http_client_mode: HttpClientMode::Pooled {
            pool_max_idle_per_host: 16,
            pool_idle_timeout_ms: 30_000,
        },
        ..Default::default()
    });
    let plan = pooled.pooled_client_plan().expect("plan");
    assert_eq!(plan.pool_max_idle_per_host, 16);
    assert_eq!(plan.pool_idle_timeout, Some(Duration::from_secs(30)));
    assert_eq!(plan.timeout, Duration::from_secs(30));
    assert_eq!(pooled.http_mode_label(), "pooled");
}

#[test]
fn outcomes_are_read_by_kind_and_status() {
    assert_eq!(
        read_outcome(HttpOutcome::Answered { status: 200, body: "5\n".into() }).unwrap(),
        "5\n"
    );
    let e = read_outcome(HttpOutcome::Answered { status: 404, body: "no".into() }).unwrap_err();
    assert_eq!(e.class(), WriterErrorClass::NonRetryable);
    assert_eq!(e.message(), "clickhouse insert failed (non-retryable): status 404: no");
    let e = read_outcome(HttpOutcome::NoClient { detail: "tls".into() }).unwrap_err();
    assert_eq!(e.class(), WriterErrorClass::NonRetryable);
    let e = classify_transport(TransportFailure::Timeout, "slow");
    assert_eq!(e.message(), "clickhouse insert failed (retryable): network/timeout: slow");
    let e = classify_transport(TransportFailure::Status, "x");
    assert_eq!(e.message(), "clickhouse insert failed (retryable): http status: x");
    let e = classify_transport(TransportFailure::Other, "x");
    assert_eq!(e.message(), "clickhouse insert failed (retryable): request error: x");
    assert_eq!(
        WriterError::Serialization("s".into()).class(),
        WriterErrorClass::NonRetryable
    );
}

fn retryable() -> Result<(), WriterError> {
    Err(classify_status(503, "busy"))
}

#[test]
fn backoff_doubles_until_the_attempts_are_used_up() {
    let config = WriterConfig { max_attempts: 3, ..Default::default() };
    let mut run = ChunkRun::start(&config);
    let mut waits = Vec::new();
    loop {
        match run.after_attempt(retryable()) {
            RetryStep::Retry { wait } => waits.push(wait),
            RetryStep::Fail { error } => {
                assert_eq!(error.class(), WriterErrorClass::RetryBudgetExhausted);
                assert!(error.message().contains("retry budget (3) exhausted"), "{}", error.message());
                break;
            }
            RetryStep::Done => panic!("nothing was accepted"),
        }
    }
    assert_eq!(waits, vec![Duration::from_millis(100), Duration::from_millis(200)]);
}

#[test]
fn final_failure_ends_a_chunk_at_once() {
    let mut run = ChunkRun::start(&WriterConfig::default());
    match run.after_attempt(Err(classify_status(400, "bad"))) {
        RetryStep::Fail { error } => assert_eq!(error.class(), WriterErrorClass::NonRetryable),
        other => panic!("unexpected {other:?}"),
    }
    let mut run = ChunkRun::start(&WriterConfig::default());
    assert!(matches!(run.after_attempt(Ok(())), RetryStep::Done));
}

#[test]
fn write_goes_through_its_chunks_in_order() {
    let config = WriterConfig::default();
    let (_, action) = WriteRun::start(&config, 0);
    assert!(matches!(action, WriteAction::Finished));

    let (mut run, action) = WriteRun::start(&config, 2);
    assert!(matches!(action, WriteAction::Send { chunk: 0 }));
    match run.after_attempt(&config, retryable()) {
        WriteAction::Resend { chunk, wait } => {
            assert_eq!(chunk, 0);
            assert_eq!(wait, Duration::from_millis(100));
        }
        other => panic!("unexpected {other:?}"),
    }
    assert!(matches!(run.after_attempt(&config, Ok(())), WriteAction::Send { chunk: 1 }));
    // The attempts of the second chunk start anew.
    match run.after_attempt(&config, retryable()) {
        WriteAction::Resend { chunk, wait } => {
            assert_eq!(chunk, 1);
            assert_eq!(wait, Duration::from_millis(100));
        }
        other => panic!("unexpected {other:?}"),
    }
    assert!(matches!(run.after_attempt(&config, Ok(())), WriteAction::Finished));

    let (mut run, _) = WriteRun::start(&config, 2);
    assert!(matches!(
        run.after_attempt(&config, Err(classify_status(400, "bad"))),
        WriteAction::Failed { .. }
    ));
}

#[test]
fn attempts_are_labelled() {
    assert_eq!(attempt_label(&Ok(())), InsertResult::Success);
    assert_eq!(attempt_label(&retryable()), InsertResult::Retryable);
    assert_eq!(InsertResult::Success.as_label(), "ok");
    let labels = [
        InsertResult::Success.as_label(),
        InsertResult::Retryable.as_label(),
        InsertResult::NonRetryable.as_label(),
        InsertResult::RetryBudgetExhausted.as_label(),
    ];
    let distinct: std::collections::HashSet<&str> = labels.iter().copied().collect();
    assert_eq!(distinct.len(), labels.len());
}
