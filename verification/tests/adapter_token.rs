//! The deduplication token of a planned chunk:
//!
//! ```text
//! {manifest_path}:{database}.{table}:{low}-{high}:{adapter_version}:{fingerprint}:{chunk_index}
//! ```
//!
//! A change of any of its inputs changes the token.
use clickhouse_ingestor::adapter::{Adapter, ClickHouseAdapterBatch, RowValue};
use clickhouse_ingestor::attributes::AttributeMap;
use clickhouse_ingestor::logs::{DecodedLogRecord, RowSourceCoordinates};
use clickhouse_ingestor::logs_adapter::{log_columns, LogsAdapterConfig, OtlpLogsClickHouseAdapter};
use clickhouse_ingestor::runtime::{CommitIdentity, SchemaVersion, SequenceRange};

fn make_record(
    manifest_path: &str,
    sequence: u64,
    entry_index: u32,
    record_index: u32,
) -> DecodedLogRecord {
    DecodedLogRecord {
        source: RowSourceCoordinates {
            buffer_sequence: sequence,
            entry_index,
            record_index,
            manifest_path: manifest_path.to_string(),
            data_path: "ingest/test/adapter-token/data/0".to_string(),
            ingestion_time_ms: 1_700_000_000_000,
        },
        timestamp_unix_nano: 1_700_000_000_000_000_000,
        observed_timestamp_unix_nano: 1_700_000_000_000_000_001,
        severity_number: 9,
        severity_text: "INFO".into(),
        body: "hello".into(),
        service_name: Some("svc".into()),
        resource_attributes: AttributeMap::new(),
        scope_name: None,
        log_attributes: AttributeMap::new(),
        trace_id_hex: String::new(),
        span_id_hex: String::new(),
    }
}

fn identity(low: u64, high: u64) -> CommitIdentity {
    CommitIdentity {
        source: "buffer".into(),
        sink: "clickhouse_logs".into(),
        range: SequenceRange::new(low, high),
        schema_version: SchemaVersion(1),
    }
}

fn batch(
    manifest_path: &str,
    low_sequence: u64,
    high_sequence: u64,
    n_records: usize,
) -> ClickHouseAdapterBatch<DecodedLogRecord> {
    let records: Vec<DecodedLogRecord> = (0..n_records as u32)
        .map(|i| make_record(manifest_path, low_sequence, 0, i))
        .collect();
    let bytes = records.iter().map(|r| r.approx_size_bytes()).sum();
    ClickHouseAdapterBatch {
        identity: identity(low_sequence, high_sequence),
        records,
        bytes,
    }
}

#[test]
fn adapter_token_matches_documented_build_token_shape() {
    let config = LogsAdapterConfig {
        database: "responsive".into(),
        table: "logs".into(),
        adapter_version: 1,
        max_chunk_rows: 100_000,
        max_chunk_bytes: 32 * 1024 * 1024,
        insert_quorum: Some("auto".into()),
        apply_deduplication_token: true,
    };
    let adapter = OtlpLogsClickHouseAdapter::new(config.clone());
    let fingerprint = adapter.chunking_fingerprint().to_string();

    let chunks = adapter
        .plan(batch("ingest/test/adapter-token/manifest", 7, 9, 1))
        .expect("plan");
    assert_eq!(chunks.len(), 1, "small batch should fit in one chunk");

    let expected = format!(
        "ingest/test/adapter-token/manifest:{}.{}:7-9:{}:{}:0",
        config.database, config.table, config.adapter_version, fingerprint,
    );
    assert_eq!(
        chunks[0].idempotency_token, expected,
        "exact token format mismatch"
    );
    // Settings carries the same token under
    // `insert_deduplication_token` (writer-side input).
    assert_eq!(chunks[0].settings.insert_deduplication_token, expected);
}

#[test]
fn adapter_token_changes_with_manifest_path() {
    let adapter = OtlpLogsClickHouseAdapter::new(LogsAdapterConfig::default());
    let a = adapter.plan(batch("manifests/a", 0, 0, 1)).expect("plan a")[0]
        .idempotency_token
        .clone();
    let b = adapter.plan(batch("manifests/b", 0, 0, 1)).expect("plan b")[0]
        .idempotency_token
        .clone();
    assert_ne!(a, b);
}

#[test]
fn adapter_token_changes_with_database_table_low_high_adapter_version() {
    let baseline_cfg = LogsAdapterConfig::default();
    let baseline = OtlpLogsClickHouseAdapter::new(baseline_cfg.clone())
        .plan(batch("manifests/base", 0, 0, 1))
        .expect("plan baseline")[0]
        .idempotency_token
        .clone();

    // database
    let mut cfg = baseline_cfg.clone();
    cfg.database = "other_db".into();
    let differ_db = OtlpLogsClickHouseAdapter::new(cfg)
        .plan(batch("manifests/base", 0, 0, 1))
        .expect("plan db")[0]
        .idempotency_token
        .clone();
    assert_ne!(baseline, differ_db, "database must affect token");

    // table
    let mut cfg = baseline_cfg.clone();
    cfg.table = "other_table".into();
    let differ_table = OtlpLogsClickHouseAdapter::new(cfg)
        .plan(batch("manifests/base", 0, 0, 1))
        .expect("plan table")[0]
        .idempotency_token
        .clone();
    assert_ne!(baseline, differ_table, "table must affect token");

    // adapter_version
    let mut cfg = baseline_cfg.clone();
    cfg.adapter_version = baseline_cfg.adapter_version + 1;
    let differ_version = OtlpLogsClickHouseAdapter::new(cfg)
        .plan(batch("manifests/base", 0, 0, 1))
        .expect("plan version")[0]
        .idempotency_token
        .clone();
    assert_ne!(
        baseline, differ_version,
        "adapter_version must affect token"
    );

    // low_sequence
    let differ_low = OtlpLogsClickHouseAdapter::new(baseline_cfg.clone())
        .plan(batch("manifests/base", 1, 1, 1))
        .expect("plan low")[0]
        .idempotency_token
        .clone();
    assert_ne!(baseline, differ_low, "low_sequence must affect token");

    // high_sequence
    let differ_high = OtlpLogsClickHouseAdapter::new(baseline_cfg.clone())
        .plan(batch("manifests/base", 0, 1, 1))
        .expect("plan high")[0]
        .idempotency_token
        .clone();
    assert_ne!(baseline, differ_high, "high_sequence must affect token");
}

#[test]
fn adapter_token_changes_with_chunking_fingerprint_inputs() {
    let baseline_cfg = LogsAdapterConfig::default();
    let baseline = OtlpLogsClickHouseAdapter::new(baseline_cfg.clone())
        .plan(batch("manifests/base", 0, 0, 1))
        .expect("plan baseline")[0]
        .idempotency_token
        .clone();

    // max_chunk_rows
    let mut cfg = baseline_cfg.clone();
    cfg.max_chunk_rows = baseline_cfg.max_chunk_rows + 1;
    let differ_rows = OtlpLogsClickHouseAdapter::new(cfg)
        .plan(batch("manifests/base", 0, 0, 1))
        .expect("plan rows")[0]
        .idempotency_token
        .clone();
    assert_ne!(baseline, differ_rows, "max_chunk_rows must affect token");

    // max_chunk_bytes
    let mut cfg = baseline_cfg.clone();
    cfg.max_chunk_bytes = baseline_cfg.max_chunk_bytes + 1;
    let differ_bytes = OtlpLogsClickHouseAdapter::new(cfg)
        .plan(batch("manifests/base", 0, 0, 1))
        .expect("plan bytes")[0]
        .idempotency_token
        .clone();
    assert_ne!(baseline, differ_bytes, "max_chunk_bytes must affect token");

    // insert_quorum
    let mut cfg = baseline_cfg.clone();
    cfg.insert_quorum = Some("3".into());
    let differ_quorum = OtlpLogsClickHouseAdapter::new(cfg)
        .plan(batch("manifests/base", 0, 0, 1))
        .expect("plan quorum")[0]
        .idempotency_token
        .clone();
    assert_ne!(baseline, differ_quorum, "insert_quorum must affect token");

    // insert_quorum None vs the baseline's Some("auto"). The
    // hasher serializes the quorum value (or `""` when None),
    // so these should differ at the token level even though
    // None and Some("") would collide.
    let mut cfg = baseline_cfg.clone();
    cfg.insert_quorum = None;
    let differ_none = OtlpLogsClickHouseAdapter::new(cfg)
        .plan(batch("manifests/base", 0, 0, 1))
        .expect("plan none")[0]
        .idempotency_token
        .clone();
    assert_ne!(
        baseline, differ_none,
        "insert_quorum None vs Some(\"auto\") must affect token"
    );

    // No quorum and an empty quorum have one fingerprint.
    let mut cfg_empty = baseline_cfg.clone();
    cfg_empty.insert_quorum = Some(String::new());
    let differ_empty = OtlpLogsClickHouseAdapter::new(cfg_empty)
        .plan(batch("manifests/base", 0, 0, 1))
        .expect("plan empty")[0]
        .idempotency_token
        .clone();
    assert_eq!(
        differ_none, differ_empty,
        "no quorum and an empty quorum have one fingerprint"
    );
}

#[test]
fn adapter_token_chunk_index_increments_within_a_single_plan() {
    // Force chunking by setting max_chunk_rows = 1.
    let cfg = LogsAdapterConfig {
        database: "responsive".into(),
        table: "logs".into(),
        adapter_version: 1,
        max_chunk_rows: 1,
        max_chunk_bytes: 32 * 1024 * 1024,
        insert_quorum: Some("auto".into()),
        apply_deduplication_token: true,
    };
    let adapter = OtlpLogsClickHouseAdapter::new(cfg.clone());
    let chunks = adapter
        .plan(batch("manifests/chunked", 0, 0, 3))
        .expect("plan");
    assert_eq!(chunks.len(), 3, "max_chunk_rows=1 should produce 3 chunks");
    for (i, chunk) in chunks.iter().enumerate() {
        assert_eq!(chunk.chunk_index, i as u32);
        assert!(
            chunk.idempotency_token.ends_with(&format!(":{i}")),
            "chunk {i} token must end with `:{i}`; got {}",
            chunk.idempotency_token,
        );
    }
    // Pairwise: every chunk's token is unique.
    let mut seen = std::collections::HashSet::new();
    for chunk in &chunks {
        assert!(
            seen.insert(chunk.idempotency_token.clone()),
            "duplicate token across chunks: {}",
            chunk.idempotency_token,
        );
    }
}

#[test]
fn adapter_token_range_comes_from_commit_identity_range() {
    let adapter = OtlpLogsClickHouseAdapter::new(LogsAdapterConfig::default());

    // Build a batch whose records sit at buffer_sequence = 100 but
    // whose `CommitIdentity.range` claims `7..=9`. The records'
    // buffer_sequence is what flows into the `_odb_sequence`
    // column; the token's `low-high` segment must come from the
    // identity, not from the records.
    let records = vec![make_record("manifests/range-prov", 100, 0, 0)];
    let bytes = records.iter().map(|r| r.approx_size_bytes()).sum();
    let chunks = adapter
        .plan(ClickHouseAdapterBatch {
            identity: identity(7, 9),
            records,
            bytes,
        })
        .expect("plan");
    assert_eq!(chunks.len(), 1);
    let token = &chunks[0].idempotency_token;
    assert!(
        token.contains(":7-9:"),
        "token's low-high segment must be the identity range, got {token}",
    );
    assert!(
        !token.contains(":100-100:"),
        "token must not derive its range from record buffer_sequence; got {token}",
    );
}

#[test]
fn adapter_token_changes_with_commit_identity_range() {
    let adapter = OtlpLogsClickHouseAdapter::new(LogsAdapterConfig::default());
    let records = || vec![make_record("manifests/range-shift", 1, 0, 0)];
    let bytes = records().iter().map(|r| r.approx_size_bytes()).sum();
    let plan_a = adapter
        .plan(ClickHouseAdapterBatch {
            identity: identity(0, 0),
            records: records(),
            bytes,
        })
        .expect("plan a");
    let plan_b = adapter
        .plan(ClickHouseAdapterBatch {
            identity: identity(0, 1),
            records: records(),
            bytes,
        })
        .expect("plan b");
    assert_ne!(plan_a[0].idempotency_token, plan_b[0].idempotency_token);
}

fn plan_of(cfg: LogsAdapterConfig, records: Vec<DecodedLogRecord>) -> Vec<clickhouse_ingestor::adapter::InsertChunk> {
    let bytes = records.iter().map(|r| r.approx_size_bytes()).sum();
    OtlpLogsClickHouseAdapter::new(cfg)
        .plan(ClickHouseAdapterBatch { identity: identity(0, 0), records, bytes })
        .expect("plan")
}

fn record_indices(chunks: &[clickhouse_ingestor::adapter::InsertChunk]) -> Vec<u32> {
    let at = log_columns().iter().position(|c| *c == "_odb_record_index").unwrap();
    chunks
        .iter()
        .flat_map(|c| c.rows.iter())
        .map(|row| match &row[at] {
            RowValue::UInt32(n) => *n,
            other => panic!("unexpected {other:?}"),
        })
        .collect()
}

#[test]
fn rows_are_planned_in_coordinate_order() {
    let records: Vec<DecodedLogRecord> =
        [3u32, 0, 2, 1].iter().map(|i| make_record("m", 1, 0, *i)).collect();
    let chunks = plan_of(LogsAdapterConfig::default(), records);
    assert_eq!(record_indices(&chunks), vec![0, 1, 2, 3]);
}

#[test]
fn planning_twice_gives_the_same_chunks() {
    let cfg = LogsAdapterConfig { max_chunk_rows: 2, ..Default::default() };
    let a = plan_of(cfg.clone(), (0..5).map(|i| make_record("m", 1, 0, i)).collect());
    let b = plan_of(cfg, (0..5).rev().map(|i| make_record("m", 1, 0, i)).collect());
    assert_eq!(a.len(), 3);
    assert_eq!(format!("{a:?}"), format!("{b:?}"));
}

#[test]
fn chunks_respect_both_limits() {
    let one = make_record("m", 1, 0, 0).approx_size_bytes();
    let cfg = LogsAdapterConfig { max_chunk_bytes: 2 * one, ..Default::default() };
    let chunks = plan_of(cfg, (0..5).map(|i| make_record("m", 1, 0, i)).collect());
    let rows: Vec<usize> = chunks.iter().map(|c| c.rows_count()).collect();
    assert_eq!(rows, vec![2, 2, 1]);
    // A limit of zero counts as one.
    let cfg = LogsAdapterConfig { max_chunk_rows: 0, max_chunk_bytes: 0, ..Default::default() };
    let chunks = plan_of(cfg, (0..2).map(|i| make_record("m", 1, 0, i)).collect());
    assert_eq!(chunks.len(), 2);
}

#[test]
fn nothing_is_planned_for_no_records() {
    assert!(plan_of(LogsAdapterConfig::default(), vec![]).is_empty());
}

#[test]
fn gateway_time_has_a_column_of_its_own() {
    let mut stamped = make_record("m", 1, 0, 0);
    stamped
        .resource_attributes
        .insert("_odb_gateway_received_at".into(), "1700000000000000123".into());
    stamped.resource_attributes.insert("host".into(), "h".into());
    let chunks = plan_of(LogsAdapterConfig::default(), vec![stamped]);
    let row = &chunks[0].rows[0];
    assert_eq!(row.len(), log_columns().len());
    match row.last().unwrap() {
        RowValue::NullableDateTime64Nanos(Some(ns)) => assert_eq!(*ns, 1_700_000_000_000_000_123),
        other => panic!("trailing column wrong shape: {other:?}"),
    }
    match &row[6] {
        RowValue::StringMap(map) => {
            assert_eq!(map.get("_odb_gateway_received_at"), None);
            assert_eq!(map.get("host"), Some("h"));
        }
        other => panic!("position 6 wrong shape: {other:?}"),
    }

    let mut bad = make_record("m", 1, 0, 0);
    bad.resource_attributes.insert("_odb_gateway_received_at".into(), "soon".into());
    let chunks = plan_of(LogsAdapterConfig::default(), vec![bad]);
    let row = &chunks[0].rows[0];
    assert!(matches!(row.last().unwrap(), RowValue::NullableDateTime64Nanos(None)));
    match &row[6] {
        RowValue::StringMap(map) => assert_eq!(map.get("_odb_gateway_received_at"), Some("soon")),
        other => panic!("position 6 wrong shape: {other:?}"),
    }
}

#[test]
fn fingerprint_is_a_short_digest_in_hex() {
    let adapter = OtlpLogsClickHouseAdapter::new(LogsAdapterConfig::default());
    let f = adapter.chunking_fingerprint();
    assert_eq!(f.len(), 16);
    assert!(f.chars().all(|c| c.is_ascii_hexdigit() && !c.is_ascii_uppercase()));
}
