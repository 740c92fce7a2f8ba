use std::time::Duration;

use clickhouse_ingestor::bench::artifacts::{
    collect_samples, collect_stage_samples, git_info, raw_file, raw_path, render_raw_metrics,
    sample_column, timeseries, Agg, GitInfo, HostFacts, MetricSeries, PerStage, PlaceFigures,
    StageFigures, StageInIteration, StageSamples, StageSummary,
};
use clickhouse_ingestor::bench::calendar::{epoch_parts, run_id_slug, utc_iso, CivilTime};
use clickhouse_ingestor::bench::clickhouse_fixture::{
    count_post_dedupe_duplicates_sql, count_pre_dedupe_duplicates_sql, count_raw_sql,
    count_visible_sql, create_database_sql, fixture_writer_config, hash_column_sql, hash_rows_sql,
    local_endpoint, read_count, sink_writer_config, truncate_sql, FixtureError,
};
use clickhouse_ingestor::bench::json_tree::Json;
use clickhouse_ingestor::bench::matrix::{
    check_points, check_results, coordinates, default_format_x_http_points, matrix_index,
    matrix_metadata, point_config, point_notes, MatrixConfig, MatrixError, MatrixPointResult,
    PointFigures,
};
use clickhouse_ingestor::bench::protocol::{
    close_iteration, counted_baseline, drain_step, drain_target, first_step, iteration_passed,
    next_step, not_drained, payloads_of, records_missing, run_passed, started_unix_ms, workers,
    DrainStep, IterationCounts, IterationPlan, IterationStep, TableCounts,
};
use clickhouse_ingestor::bench::real_ch;
use clickhouse_ingestor::bench::stage::{Stage, StageWorkerCounts};
use clickhouse_ingestor::bench::stage_latencies;
use clickhouse_ingestor::bench::workload::{make_logs, LogWorkload, LogWorkloadConfig};
use clickhouse_ingestor::digest::sha256_hex;
use clickhouse_ingestor::logs::OtlpLogsDecoder;
use clickhouse_ingestor::serializer::SerializationFormat;
use clickhouse_ingestor::source::{SourceBatch, SourceEntry};
use clickhouse_ingestor::writer::HttpClientMode;

/// The value of a document as `serde_json` holds it.
fn value(json: &Json) -> serde_json::Value {
    match json {
        Json::Null => serde_json::Value::Null,
        Json::Flag(b) => serde_json::Value::from(*b),
        Json::Whole(n) => serde_json::Value::from(*n),
        Json::Count(n) => serde_json::Value::from(*n),
        Json::Real(bits) => serde_json::Value::from(f64::from_bits(*bits)),
        Json::Text(s) => serde_json::Value::from(s.as_str()),
        Json::List(items) => items.iter().map(value).collect(),
        Json::Object(members) => {
            members.iter().map(|(k, v)| (k.clone(), value(v))).collect::<serde_json::Map<_, _>>().into()
        }
    }
}

fn parts(secs: i64) -> (i64, u32, u32, u32, u32, u32) {
    let CivilTime { year, month, day, hour, minute, second } = epoch_parts(secs);
    (year, month, day, hour, minute, second)
}

#[test]
fn epoch_is_split_by_the_calendar() {
    assert_eq!(parts(0), (1970, 1, 1, 0, 0, 0));
    assert_eq!(parts(86_399), (1970, 1, 1, 23, 59, 59));
    assert_eq!(parts(951_782_400), (2000, 2, 29, 0, 0, 0));
    assert_eq!(parts(951_868_800), (2000, 3, 1, 0, 0, 0));
    assert_eq!(parts(1_700_000_000), (2023, 11, 14, 22, 13, 20));
    assert_eq!(parts(4_107_542_399), (2100, 2, 28, 23, 59, 59));
    assert_eq!(parts(4_107_542_400), (2100, 3, 1, 0, 0, 0));
    // Before the epoch only the time of day means anything.
    assert_eq!(parts(-1), (1970, 1, 0, 23, 59, 59));
    assert_eq!(parts(-86_401), (1970, 1, u32::MAX, 23, 59, 59));
}

#[test]
fn stamps_and_run_names_are_padded() {
    assert_eq!(utc_iso(1_700_000_000_999), "2023-11-14T22:13:20Z");
    assert_eq!(utc_iso(0), "1970-01-01T00:00:00Z");
    assert_eq!(run_id_slug(951_782_465_000, "baseline"), "2000-02-29T0001-baseline");
}

#[test]
fn stages_have_labels() {
    for stage in Stage::all() {
        assert_eq!(Stage::parse(stage.as_label()), Some(stage));
    }
    assert_eq!(Stage::SinkDispatch.as_label(), "sink_dispatch");
    assert_eq!(Stage::parse("sink"), None);
    let counts = StageWorkerCounts::of_run(8, 4, 2);
    let all: Vec<u32> = Stage::all().iter().map(|s| counts.get(*s)).collect();
    assert_eq!(all, vec![1, 8, 4, 2]);
}

fn walk(plan: IterationPlan) -> Vec<IterationStep> {
    let mut steps = vec![first_step(&plan)];
    while *steps.last().unwrap() != IterationStep::Finished {
        let next = next_step(&plan, *steps.last().unwrap());
        steps.push(next);
    }
    steps
}

#[test]
fn iteration_follows_its_protocol() {
    let plan =
        IterationPlan { against_clickhouse: true, warmup_payloads: 5, timed_payloads: 50 };
    assert_eq!(
        walk(plan),
        vec![
            IterationStep::TruncateTable,
            IterationStep::DrainResidue,
            IterationStep::BuildSource,
            IterationStep::StartRuntime,
            IterationStep::ProduceWarmup,
            IterationStep::DrainWarmup,
            IterationStep::Baseline,
            IterationStep::ProduceTimed,
            IterationStep::CloseProducer,
            IterationStep::DrainTimed,
            IterationStep::CheckWindow,
            IterationStep::Shutdown,
            IterationStep::FinalSnapshot,
            IterationStep::CountRows,
            IterationStep::Finished,
        ]
    );
    let idle = IterationPlan { against_clickhouse: false, warmup_payloads: 0, timed_payloads: 0 };
    let steps = walk(idle);
    assert_eq!(steps[0], IterationStep::DrainResidue);
    assert_eq!(steps.len(), 10);
    assert!(!steps.contains(&IterationStep::DrainWarmup));
    assert!(!steps.contains(&IterationStep::CountRows));
}

#[test]
fn phases_share_out_the_sequences() {
    let plan =
        IterationPlan { against_clickhouse: true, warmup_payloads: 5, timed_payloads: 50 };
    assert_eq!(payloads_of(&plan, IterationStep::ProduceWarmup), (0, 5));
    assert_eq!(payloads_of(&plan, IterationStep::ProduceTimed), (5, 50));
    assert_eq!(drain_target(&plan, IterationStep::DrainWarmup), 4);
    assert_eq!(drain_target(&plan, IterationStep::DrainTimed), 54);
    let idle = IterationPlan { against_clickhouse: true, warmup_payloads: 0, timed_payloads: 0 };
    assert_eq!(drain_target(&idle, IterationStep::DrainTimed), 0);
}

#[test]
fn waits_end_with_the_ack_or_the_deadline() {
    let second = Duration::from_secs(1);
    let later = Duration::from_millis(1001);
    assert_eq!(drain_step(Some(9), 9, later, second), DrainStep::Drained);
    assert_eq!(drain_step(Some(8), 9, second, second), DrainStep::Wait { millis: 50 });
    assert_eq!(drain_step(Some(8), 9, later, second), DrainStep::TimedOut);
    assert_eq!(drain_step(None, 0, later, second), DrainStep::TimedOut);
    assert_eq!(
        not_drained("warmup", Duration::from_millis(1500), Some(8), 9),
        "warmup did not drain within 1.5s (last_acked=Some(8), target=9)"
    );
    assert_eq!(
        not_drained("timed", second, None, 9),
        "timed did not drain within 1s (last_acked=None, target=9)"
    );
}

fn counts(visible: u64, dupes: u64) -> IterationCounts {
    close_iteration(
        1,
        1_700_000_000_000,
        500,
        5500,
        StageWorkerCounts::of_run(8, 4, 2),
        TableCounts { raw: visible + 1, visible, pre_dedupe_dupes: 1, post_dedupe_dupes: dupes },
    )
}

#[test]
fn books_are_closed_on_the_timed_window() {
    let good = counts(5500, 0);
    assert_eq!(good.records_processed, 5000);
    assert_eq!(good.records_processed_cumulative, 5500);
    assert!(iteration_passed(&good));
    assert_eq!(records_missing(&good), 0);
    let short = counts(5400, 0);
    assert!(!iteration_passed(&short));
    assert_eq!(records_missing(&short), 100);
    assert!(!iteration_passed(&counts(5500, 1)));
    assert_eq!(records_missing(&counts(6000, 0)), 0);
    assert!(run_passed(&vec![]));
    assert!(run_passed(&vec![good, good]));
    assert!(!run_passed(&vec![good, short]));
    assert_eq!(started_unix_ms(&vec![good]), 1_700_000_000_000);
    assert_eq!(started_unix_ms(&vec![]), 0);
    assert_eq!(workers(&vec![good]).fetch, 8);
    assert_eq!(workers(&vec![]).fetch, 1);
}

#[test]
fn workload_knows_its_size() {
    let cfg = LogWorkloadConfig::default();
    let handle = LogWorkload::handle(&cfg);
    assert_eq!(handle.warmup_highest_sequence, 19);
    assert_eq!(handle.highest_sequence, 219);
    assert_eq!(handle.total_records, 22_000);
    assert_eq!(handle.timed_records, 20_000);
    let it = cfg.for_iteration(3);
    assert_eq!(it.manifest_path, "phase07/7.2/iter-3/manifest");
    assert_eq!(it.data_prefix, "phase07/7.2/iter-3/data");
    assert_eq!(it.service_name, "phase07-bench");
    assert_eq!(LogWorkload::payload_time(7, 2), 2_000_000_007);
    assert_eq!(
        stage_latencies::iteration_paths(2),
        ("phase07/7.1/iter-2/manifest".to_string(), "phase07/7.1/iter-2/data".to_string())
    );
}

#[test]
fn workload_payload_decodes_to_its_records() {
    let payload = make_logs("svc", 3, 1_000);
    let batch = SourceBatch {
        source: "buffer".into(),
        sequence: 1,
        manifest_path: "m".into(),
        data_object_path: "d".into(),
        entries: vec![SourceEntry {
            entry_index: 0,
            raw_bytes: payload,
            raw_metadata: vec![1, 2, 1, 0],
            ingestion_time_ms: 0,
        }],
    };
    let rows = OtlpLogsDecoder::new().decode_logs(&batch).expect("decode");
    assert_eq!(rows.len(), 3);
    for (i, row) in rows.iter().enumerate() {
        assert_eq!(row.body, format!("body-{i}"));
        assert_eq!(row.timestamp_unix_nano, 1_000 + i as u64);
        assert_eq!(row.observed_timestamp_unix_nano, 0);
        assert_eq!((row.severity_number, row.severity_text.as_str()), (9, "INFO"));
        assert_eq!(row.log_attributes.get("topic"), Some(format!("t-{i}").as_str()));
        assert_eq!(row.service_name.as_deref(), Some("svc"));
    }
    assert!(LogWorkload::payload(&LogWorkloadConfig::default(), 0, 1).len() > 1000);
}

#[test]
fn statements_name_their_table() {
    assert_eq!(create_database_sql("db"), "CREATE DATABASE IF NOT EXISTS db");
    assert_eq!(truncate_sql("db", "t"), "TRUNCATE TABLE IF EXISTS db.t");
    assert_eq!(count_raw_sql("db", "t"), "SELECT count() FROM db.t");
    assert_eq!(count_visible_sql("db", "t"), "SELECT count() FROM db.t FINAL");
    assert_eq!(
        count_pre_dedupe_duplicates_sql("db", "t"),
        "SELECT count() - count(DISTINCT (_odb_sequence, _odb_entry_index, _odb_record_index)) FROM db.t"
    );
    assert_eq!(
        count_post_dedupe_duplicates_sql("db", "t"),
        "SELECT count() - count(DISTINCT (_odb_sequence, _odb_entry_index, _odb_record_index)) FROM db.t FINAL"
    );
    assert_eq!(
        hash_rows_sql("db", "t"),
        "SELECT sum(cityHash64(toString(tuple(* EXCEPT _odb_clickhouse_inserted_at)))) FROM db.t FINAL"
    );
    assert_eq!(
        hash_column_sql("db", "t", "Body"),
        "SELECT sum(cityHash64(toString(Body))) FROM db.t FINAL"
    );
    assert_eq!(local_endpoint(8123), "http://127.0.0.1:8123");
}

#[test]
fn counts_are_read_off_answers() {
    assert_eq!(read_count("q", "42\n").unwrap(), 42);
    assert_eq!(read_count("q", "  18446744073709551615 ").unwrap(), u64::MAX);
    match read_count("SELECT 1", "x\n").unwrap_err() {
        FixtureError::Query(m) => {
            assert_eq!(m, "parse \"SELECT 1\" -> \"x\\n\": invalid digit found in string");
        }
        other => panic!("unexpected {other:?}"),
    }
    let e = read_count("q", "").unwrap_err();
    assert_eq!(
        e.message(),
        "ClickHouse query: parse \"q\" -> \"\": cannot parse integer from empty string"
    );
    assert_eq!(FixtureError::Testcontainers("x".into()).message(), "testcontainers: x");
    assert_eq!(FixtureError::Writer("x".into()).message(), "ClickHouse writer: x");
}

#[test]
fn sink_writer_takes_over_the_fixture_settings() {
    let fixture = fixture_writer_config("http://a".into());
    assert_eq!(fixture.max_attempts, 4);
    assert_eq!(fixture.initial_backoff, Duration::from_millis(100));
    let sink = sink_writer_config(
        &fixture,
        "http://b",
        SerializationFormat::RowBinary,
        HttpClientMode::PerCall,
    );
    assert_eq!(sink.endpoint, "http://b");
    assert_eq!(sink.user, "default");
    assert_eq!(sink.max_attempts, 4);
    assert_eq!(sink.serialization_format, SerializationFormat::RowBinary);
}

fn series(name: &str, stage: Option<&str>, samples: Option<Vec<u64>>) -> MetricSeries {
    let mut labels = vec![("source".to_string(), "buffer".to_string())];
    if let Some(s) = stage {
        labels.push(("stage".to_string(), s.to_string()));
    }
    MetricSeries { name: name.into(), labels, samples }
}

#[test]
fn stage_samples_are_picked_out_of_a_snapshot() {
    let snapshot = vec![
        series("runtime_stage_latency_seconds", Some("fetch"), Some(vec![1, 2])),
        series("runtime_stage_latency_seconds", Some("other"), Some(vec![9])),
        series("runtime_stage_latency_seconds", None, Some(vec![9])),
        series("runtime_stage_latency_seconds", Some("fetch"), None),
        series("another_seconds", Some("fetch"), Some(vec![9])),
        series("runtime_stage_latency_seconds", Some("source"), Some(vec![5])),
        series("runtime_stage_latency_seconds", Some("fetch"), Some(vec![3])),
    ];
    let samples = collect_stage_samples(&snapshot);
    assert_eq!(samples.get(Stage::Fetch), &vec![1, 2, 3]);
    assert_eq!(samples.get(Stage::Source), &vec![5]);
    assert!(samples.get(Stage::Decode).is_empty());
    assert_eq!(collect_samples(&snapshot, "another_seconds"), vec![9]);
}

#[test]
fn samples_are_lined_up_by_place() {
    let per_iteration = vec![vec![1, 2], vec![], vec![3, 4, 5]];
    assert_eq!(sample_column(&per_iteration, 0), vec![1, 3]);
    assert_eq!(sample_column(&per_iteration, 2), vec![5]);
    assert_eq!(sample_column(&per_iteration, 3), Vec::<u64>::new());
}

#[test]
fn raw_metrics_have_a_line_per_sample() {
    let samples = StageSamples {
        source: vec![],
        fetch: vec![0.25f64.to_bits(), 0.5f64.to_bits()],
        decode: vec![],
        sink_dispatch: vec![1.0f64.to_bits()],
    };
    let lines: Vec<serde_json::Value> =
        render_raw_metrics(100, 2, &samples).iter().map(value).collect();
    assert_eq!(lines.len(), 3);
    assert_eq!(
        lines[1].to_string(),
        "{\"labels\":{\"iteration\":2,\"sample_index\":1,\"stage\":\"fetch\"},\"metric\":\"runtime_stage_latency_seconds\",\"ts_unix_ms\":101,\"value\":0.5}"
    );
    assert_eq!(lines[2]["labels"]["stage"], "sink_dispatch");
    assert_eq!(raw_file(2), "run-2.metrics.jsonl");
    assert_eq!(raw_path(2), "raw/run-2.metrics.jsonl");
}

#[test]
fn timeseries_hold_every_stage() {
    let figure = PlaceFigures { sample_index: 0, median: 0, p90: 0, max: 1.5f64.to_bits(), n: 2 };
    let figures = StageFigures {
        source: vec![],
        fetch: vec![figure],
        decode: vec![],
        sink_dispatch: vec![],
    };
    let doc = value(&timeseries(&vec![7, 8], &figures));
    assert_eq!(doc["schema_version"], 2);
    assert_eq!(doc["window_seconds"], 1.0);
    assert_eq!(doc["iterations_aggregated"], 2);
    assert_eq!(doc["iteration_starts_unix_ms"][1], 8);
    assert_eq!(doc["series"].as_array().unwrap().len(), 4);
    assert_eq!(doc["series"][1]["labels"]["stage"], "fetch");
    assert_eq!(doc["series"][1]["samples"][0]["max"], 1.5);
}

#[test]
fn git_answers_are_shortened() {
    let g = git_info(Some("0123456789abcdef\n"), Some(" main\n"), Some(" M file\n"));
    assert_eq!((g.rev.as_str(), g.branch.as_str(), g.dirty), ("0123456", "main", true));
    let g = git_info(Some("abc\n"), None, Some(""));
    assert_eq!((g.rev.as_str(), g.branch.as_str(), g.dirty), ("abc", "", false));
    let g = git_info(None, None, None);
    assert_eq!((g.rev.as_str(), g.dirty), ("", false));
    let g = git_info(Some("12345\u{e9}89"), None, None);
    assert_eq!(g.rev, "12345\u{e9}");
}

fn git() -> GitInfo {
    git_info(Some("0123456789"), Some("main"), Some(""))
}

fn host() -> HostFacts {
    HostFacts {
        machine: "box".into(),
        os: "linux x86_64".into(),
        cpu_model: "unknown".into(),
        cpu_count_logical: 8,
    }
}

#[test]
fn real_run_documents_say_what_it_was() {
    let cfg = real_ch::RealChConfig::default();
    let reports = vec![counts(5500, 0)];
    let doc = value(&real_ch::build_metadata(&reports, &cfg, "s", "e", &git(), &host()));
    assert_eq!(doc["schema_version"], 2);
    assert_eq!(doc["phase"], "phase07-clickhouse-throughput");
    assert_eq!(doc["unit_id"], "7.2");
    assert_eq!(doc["services"]["clickhouse"]["engine"], "ReplacingMergeTree");
    assert_eq!(doc["experiment"]["fixed_controls"]["source.fetch_concurrency"], 8);
    assert_eq!(doc["git"]["opendata-contrib"]["rev"], "0123456");
    assert_eq!(doc["host"]["memory_gb"], -1);
    assert_eq!(doc["workload"]["records_total"], 22_000);
    assert_eq!(doc["workload"]["batches_total"], 220);
    assert_eq!(
        doc["workload"]["fingerprint"],
        "phase07-real-ch-100records-per-payload-20warmup-200timed"
    );
    let canonical = "{\"decoder\":\"OtlpLogsDecoder\",\"kind\":\"phase07-real-ch-smoke\",\"records_per_source_range\":100,\"schema\":\"otel_logs_v1\",\"service_name\":\"phase07-bench\",\"sink\":\"ClickHouseSink\",\"timed_payloads\":200,\"warmup_payloads\":20}";
    assert_eq!(
        doc["workload"]["fingerprint_hash"],
        format!("sha256:{}", sha256_hex(canonical.as_bytes()))
    );
    assert_eq!(
        sha256_hex(b"otel_logs_v1").len(),
        doc["workload"]["schema_hash"].as_str().unwrap().len() - "sha256:".len()
    );
    let doc = value(&real_ch::correctness(&reports, true));
    assert_eq!(doc["summary"]["passed"], true);
    assert_eq!(doc["summary"]["required_sinks"][0], "clickhouse");
    assert_eq!(doc["iterations"][0]["records_processed_timed"], 5000);
    assert_eq!(doc["iterations"][0]["records_missing_from_sink"], 0);
    assert_eq!(doc["iterations"][0]["passed"], true);
}

fn agg(n: usize) -> Agg {
    Agg { median: 2.0f64.to_bits(), p10: 1.0f64.to_bits(), p90: 3.0f64.to_bits(), n }
}

fn summary() -> StageSummary {
    StageSummary {
        worker_utilization: agg(1),
        service_time: agg(1),
        median_ms: 4.0f64.to_bits(),
        p10_ms: 0,
        p90_ms: 0,
        ops_per_sec: 0,
        samples: 12,
    }
}

fn in_iteration() -> StageInIteration {
    StageInIteration {
        median_ms: 4.0f64.to_bits(),
        p10_ms: 0,
        p90_ms: 0,
        ops_per_sec: 0,
        samples: 12,
        worker_utilization: 0.5f64.to_bits(),
        service_time: 0,
    }
}

fn per_stage<T>(f: impl Fn() -> T) -> PerStage<T> {
    PerStage { source: f(), fetch: f(), decode: f(), sink_dispatch: f() }
}

#[test]
fn real_run_results_hold_scalars_stages_and_iterations() {
    let run = real_ch::RunFigures {
        throughput: agg(1),
        elapsed: agg(1),
        serialize_fraction: agg(1),
        serialize_seconds: agg(1),
        serialization_bytes: agg(1),
        end_to_end: agg(1),
        stages: per_stage(summary),
    };
    let figures = vec![real_ch::IterationFigures {
        elapsed_seconds: 2.5f64.to_bits(),
        throughput: 0,
        records_processed: 5000.0f64.to_bits(),
        records_processed_cumulative: 5500.0f64.to_bits(),
        records_visible: 0,
        records_raw: 0,
        pre_dedupe_dupes: 0,
        post_dedupe_dupes: 0,
        stages: per_stage(in_iteration),
    }];
    let doc = value(&real_ch::build_results(&vec![counts(5500, 0)], &figures, &run));
    assert_eq!(doc["scalars"]["serialize_fraction_of_insert"]["p90"], 3.0);
    assert_eq!(doc["scalars"]["worker_utilization_sink_dispatch"]["n"], 1);
    assert_eq!(doc["scalars"].as_object().unwrap().len(), 14);
    assert_eq!(doc["stages"][1]["name"], "fetch");
    assert_eq!(doc["stages"][1]["worker_count"], 8);
    assert_eq!(doc["stages"][1]["samples"], 12);
    assert_eq!(doc["iterations"][0]["scalars"]["iteration_elapsed_seconds"], 2.5);
    assert_eq!(doc["iterations"][0]["stages"][3]["worker_utilization"], 0.5);
    assert_eq!(doc["iterations"][0]["raw_log"], "raw/run-1.metrics.jsonl");
    assert_eq!(doc["histograms"], serde_json::Value::Object(serde_json::Map::new()));
}

#[test]
fn stage_run_documents_say_what_it_was() {
    let cfg = stage_latencies::StageLatenciesConfig::default();
    let inputs = cfg.inputs();
    let doc = value(&stage_latencies::build_metadata(&vec![], &inputs, "s", "e", &git(), &host()));
    assert_eq!(doc["unit_id"], "7.1");
    assert_eq!(doc["iterations"], 3);
    assert_eq!(doc["experiment"]["fixed_controls"]["sink.kind"], "bench-sink");
    assert_eq!(doc["experiment"]["fixed_controls"]["source.decode_concurrency"], 1);
    assert_eq!(doc["workload"]["records_total"], 36);
    assert_eq!(
        doc["workload"]["fingerprint"],
        "phase07-stage-latencies-1records-per-payload-4warmup-32timed"
    );
    let canonical = "{\"decoder\":\"FakeDecoder\",\"generator\":\"phase07-stage-latencies-bench\",\"kind\":\"phase07-stage-latencies\",\"records_per_source_range\":1,\"sink\":\"BenchSink\",\"timed_payloads\":32,\"warmup_payloads\":4}";
    assert_eq!(
        doc["workload"]["fingerprint_hash"],
        format!("sha256:{}", sha256_hex(canonical.as_bytes()))
    );

    let iteration = stage_latencies::StageIteration {
        iteration: 1,
        timed_started_unix_ms: 5,
        records_processed: 36,
        worker_counts: StageWorkerCounts::of_run(8, 4, 2),
    };
    assert_eq!(stage_latencies::started_unix_ms(&vec![iteration]), 5);
    let figures = vec![stage_latencies::StageIterationFigures {
        elapsed_seconds: 1.0f64.to_bits(),
        throughput: 36.0f64.to_bits(),
        records_processed: 36.0f64.to_bits(),
        stages: per_stage(in_iteration),
    }];
    let run = stage_latencies::StageRunFigures {
        throughput: agg(1),
        elapsed: agg(1),
        stages: per_stage(summary),
    };
    let doc = value(&stage_latencies::build_results(&vec![iteration], &figures, &run));
    assert_eq!(doc["iterations"][0]["scalars"]["iteration_records_processed"], 36.0);
    assert_eq!(doc["scalars"].as_object().unwrap().len(), 10);
    let doc = value(&stage_latencies::build_results(&vec![], &vec![], &run));
    assert_eq!(doc["stages"][0]["worker_count"], 0);
}

#[test]
fn default_sweep_covers_every_combination() {
    let points = default_format_x_http_points();
    let ids: Vec<&str> = points.iter().map(|p| p.id.as_str()).collect();
    assert_eq!(ids, vec!["point-001", "point-002", "point-003", "point-004"]);
    let pairs: Vec<(&str, &str)> = points
        .iter()
        .map(|p| (p.serialization_format.as_label(), p.http_client_mode.as_label()))
        .collect();
    assert_eq!(
        pairs,
        vec![
            ("json_each_row", "per_call"),
            ("json_each_row", "pooled"),
            ("row_binary", "per_call"),
            ("row_binary", "pooled"),
        ]
    );
    assert_eq!(
        point_notes(&points[3]),
        "Phase 7.6 matrix point point-004; format=row_binary, http_mode=pooled"
    );
    assert_eq!(value(&coordinates(&points[0]))["http_client_mode"], "per_call");
    let cfg = MatrixConfig::default();
    let run = point_config(&cfg, &points[1], "out/point-002".into());
    assert_eq!(run.change_slug, "point-002");
    assert_eq!(run.output_dir, "out/point-002");
    assert_eq!(run.workload.timed_payloads, 200);
    assert!(run.runtime_options.is_none());
}

fn point_result(passed: bool) -> MatrixPointResult {
    MatrixPointResult {
        point: default_format_x_http_points().remove(0),
        correctness_passed: passed,
        figures: PointFigures {
            throughput: 10.0f64.to_bits(),
            elapsed_median: 0,
            source_utilization: 0,
            fetch_utilization: 0,
            decode_utilization: 0,
            sink_dispatch_utilization: 0.75f64.to_bits(),
            serialize_fraction: 0,
            serialize_seconds: 0,
            serialization_bytes: 0,
            end_to_end: 0,
            iterations: 1,
        },
    }
}

#[test]
fn sweep_counts_only_if_every_point_is_good() {
    assert_eq!(check_points(&vec![]), Err(MatrixError::NoPoints));
    assert!(check_points(&default_format_x_http_points()).is_ok());
    assert!(MatrixError::NoPoints.message().starts_with("matrix has zero points to run"));
    assert_eq!(
        check_results(&vec![point_result(true), point_result(false)]),
        Err(MatrixError::PointFailed)
    );
    assert_eq!(check_results(&vec![point_result(true)]), Ok(()));
    let cfg = MatrixConfig::default();
    let doc = value(&matrix_index(&cfg.workload, &vec![point_result(true)]));
    assert_eq!(doc["dimensions"][1], "http_client_mode");
    assert_eq!(doc["points"][0]["id"], "point-001");
    assert_eq!(doc["points"][0]["subdir"], "point-001");
    assert_eq!(doc["points"][0]["scalars"]["total_throughput_records_per_sec"], 10.0);
    assert_eq!(
        doc["points"][0]["scalars"]["worker_utilization"]["sink_dispatch"],
        0.75
    );
    let doc = value(&matrix_metadata(&cfg, 0, 1_700_000_000_000));
    assert_eq!(doc["started_at"], "1970-01-01T00:00:00Z");
    assert_eq!(doc["ended_at"], "2023-11-14T22:13:20Z");
    assert_eq!(doc["experiment"]["matrix_file"], "matrix.json");
}

#[test]
fn the_warm_up_is_left_out_only_against_a_server() {
    let mut plan = IterationPlan { against_clickhouse: true, warmup_payloads: 2, timed_payloads: 3 };
    assert_eq!(counted_baseline(&plan, 40), 40);
    plan.against_clickhouse = false;
    assert_eq!(counted_baseline(&plan, 40), 0);
}
