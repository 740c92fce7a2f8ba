use clickhouse_ingestor::metrics::{
    InsertResult, MetricFamily, CHUNK_ROWS, COMMIT_BYTES_TOTAL, HTTP_CONCURRENT_INFLIGHT,
    INSERT_DURATION_SECONDS, INSERT_ERRORS_TOTAL, RETRY_COUNT_TOTAL, ROWS_COMMITTED_TOTAL,
    SERIALIZATION_DURATION_SECONDS, SERIALIZED_BYTES,
};
use prometheus_client::encoding::text::encode;
use prometheus_client::metrics::counter::Counter;
use prometheus_client::metrics::family::Family;
use prometheus_client::metrics::gauge::Gauge;
use prometheus_client::metrics::histogram::Histogram;
use prometheus_client::registry::Registry;

type Labels = Vec<(String, String)>;

fn labels(pairs: &[(&str, &str)]) -> Labels {
    pairs.iter().map(|(k, v)| (k.to_string(), v.to_string())).collect()
}

const SECONDS: [f64; 3] = [0.025, 0.05, 0.1];

#[test]
fn register_and_encode_round_trip() {
    let rows: Family<Labels, Counter> = Family::default();
    let bytes: Counter = Counter::default();
    let in_flight: Family<Labels, Gauge> = Family::default();
    let inserts: Family<Labels, Histogram> =
        Family::new_with_constructor(|| Histogram::new(SECONDS));
    let mut registry = Registry::default();
    let family = MetricFamily::RowsCommitted;
    registry.register(family.name(), family.help(), rows.clone());
    let family = MetricFamily::CommitBytes;
    registry.register(family.name(), family.help(), bytes.clone());
    let family = MetricFamily::HttpConcurrentInflight;
    registry.register(family.name(), family.help(), in_flight.clone());
    let family = MetricFamily::InsertDurationSeconds;
    registry.register(family.name(), family.help(), inserts.clone());

    rows.get_or_create(&labels(&[("run_id", "smoke-test")])).inc_by(600);
    bytes.inc_by(12_345);
    in_flight.get_or_create(&labels(&[("http_mode", "pooled")])).inc();
    inserts
        .get_or_create(&labels(&[
            ("format", "row_binary"),
            ("http_mode", "pooled"),
            ("result", InsertResult::Success.as_label()),
        ]))
        .observe(0.042);

    let mut buf = String::new();
    encode(&mut buf, &registry).expect("encode");
    assert!(
        buf.contains("clickhouse_ingestor_rows_committed_total{run_id=\"smoke-test\"} 600"),
        "missing rows_committed counter line. Output was:\n{buf}",
    );
    assert!(
        buf.contains("ingestor_commit_bytes_total 12345"),
        "missing commit_bytes counter line. Output was:\n{buf}",
    );
    assert!(
        buf.contains("clickhouse_http_concurrent_inflight{http_mode=\"pooled\"} 1"),
        "missing http_concurrent_inflight gauge line. Output was:\n{buf}",
    );
    assert!(
        buf.contains(
            "clickhouse_insert_duration_seconds_bucket{le=\"0.05\",format=\"row_binary\",http_mode=\"pooled\",result=\"ok\"} 1"
        ),
        "missing insert_duration histogram +0.05s bucket count. Output was:\n{buf}",
    );
}

#[test]
fn family_names_agree_with_the_exported_names() {
    let total = |f: MetricFamily| format!("{}_total", f.name());
    assert_eq!(total(MetricFamily::RowsCommitted), ROWS_COMMITTED_TOTAL);
    assert_eq!(total(MetricFamily::CommitBytes), COMMIT_BYTES_TOTAL);
    assert_eq!(total(MetricFamily::RetryCount), RETRY_COUNT_TOTAL);
    assert_eq!(total(MetricFamily::InsertErrors), INSERT_ERRORS_TOTAL);
    assert_eq!(MetricFamily::HttpConcurrentInflight.name(), HTTP_CONCURRENT_INFLIGHT);
    assert_eq!(
        MetricFamily::SerializationDurationSeconds.name(),
        SERIALIZATION_DURATION_SECONDS
    );
    assert_eq!(MetricFamily::SerializedBytes.name(), SERIALIZED_BYTES);
    assert_eq!(MetricFamily::ChunkRows.name(), CHUNK_ROWS);
    assert_eq!(MetricFamily::InsertDurationSeconds.name(), INSERT_DURATION_SECONDS);
    assert_eq!(
        MetricFamily::RetryCount.help(),
        "Per-chunk retry attempts, labeled by reason."
    );
}

#[test]
fn outcomes_have_different_labels() {
    assert_eq!(InsertResult::Success.as_label(), "ok");
    assert_eq!(InsertResult::Retryable.as_label(), "retryable");
    assert_eq!(InsertResult::NonRetryable.as_label(), "non_retryable");
    assert_eq!(InsertResult::RetryBudgetExhausted.as_label(), "retry_budget_exhausted");
}
