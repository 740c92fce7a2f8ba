//! The run against a ClickHouse server: its settings, and the documents that it
//! leaves behind.
use std::time::Duration;
use vstd::prelude::*;
use vstd::utf8::*;

use crate::adapter;
use crate::adapter::JsonCell;
use crate::bench::artifacts;
use crate::bench::artifacts::{
    agg, object_store, per_stage_workers, put_stage_scalars, raw_path, repositories, results,
    stage_summaries, stages_in_iteration, host_state, Agg, GitInfo, HostFacts, PerStage,
    StageInIteration, StageSummary,
};
use crate::bench::json_tree;
use crate::bench::json_tree::{text_value, Items, Json, JsonTree, Members};
use crate::bench::options::RuntimeOptions;
use crate::bench::protocol;
use crate::bench::protocol::{iteration_passed, records_missing, workers, IterationCounts};
use crate::bench::stage::StageWorkerCounts;
use crate::bench::workload;
use crate::bench::workload::LogWorkloadConfig;
use crate::digest;
use crate::digest::sha256_hex;
use crate::serializer;
use crate::serializer::jsoneachrow;
use crate::serializer::jsoneachrow::{object_bytes, object_insert, object_new};
use crate::serializer::SerializationFormat;
use crate::text;
use crate::text::{owned, push_decimal};
use crate::time;
use crate::writer;
use crate::writer::HttpClientMode;

verus! {

/// The settings of a run.
#[derive(Debug)]
pub struct RealChConfig {
    pub workload: LogWorkloadConfig,
    pub iterations: usize,
    /// The settings of the pipeline; without them it runs under those of the
    /// benches.
    pub runtime_options: Option<RuntimeOptions>,
    pub serialization_format: SerializationFormat,
    pub http_client_mode: HttpClientMode,
    /// How long the warm-up may take.
    pub warmup_deadline: Duration,
    /// How long the timed window may take.
    pub timed_deadline: Duration,
    pub output_dir: String,
    pub change_slug: String,
    pub notes: String,
}

impl Default for RealChConfig {
    fn default() -> (r: Self)
        ensures
            workload::is_default_load(r.workload),
            r.iterations == 1,
            r.runtime_options is None,
            r.serialization_format == SerializationFormat::JsonEachRow,
            r.http_client_mode == HttpClientMode::PerCall,
            time::duration_nanos(r.warmup_deadline) == 120_000_000_000,
            time::duration_nanos(r.timed_deadline) == 600_000_000_000,
            r.output_dir@ == "bench-results/phase07/7.2-real-ch-smoke"@,
            r.change_slug@ == "baseline"@,
            r.notes@ == Seq::<char>::empty(),
    {
        RealChConfig {
            workload: LogWorkloadConfig::default(),
            iterations: 1,
            runtime_options: None,
            serialization_format: SerializationFormat::JsonEachRow,
            http_client_mode: HttpClientMode::PerCall,
            warmup_deadline: Duration::from_secs(120),
            timed_deadline: Duration::from_secs(600),
            output_dir: owned("bench-results/phase07/7.2-real-ch-smoke"),
            change_slug: owned("baseline"),
            notes: String::new(),
        }
    }
}

/// What is said of the correctness of an iteration.
pub open spec fn iteration_correctness_tree(c: IterationCounts) -> JsonTree {
    JsonTree::Object(
        json_tree::no_members()
            .push(("iteration"@, JsonTree::Count(c.iteration as u64)))
            .push(("records_processed_timed"@, JsonTree::Count(c.records_processed)))
            .push((
                "records_processed_cumulative"@,
                JsonTree::Count(c.records_processed_cumulative),
            ))
            .push(("records_raw_in_clickhouse"@, JsonTree::Count(c.records_raw)))
            .push(("records_visible_in_clickhouse"@, JsonTree::Count(c.records_visible)))
            .push(("pre_dedupe_duplicates"@, JsonTree::Count(c.pre_dedupe_dupes)))
            .push(("post_dedupe_duplicates"@, JsonTree::Count(c.post_dedupe_dupes)))
            .push(("records_missing_from_sink"@, JsonTree::Count(protocol::missing(c))))
            .push(("passed"@, JsonTree::Flag(protocol::iteration_good(c)))),
    )
}

fn iteration_correctness(c: &IterationCounts) -> (r: Json)
    ensures
        r@ == iteration_correctness_tree(*c),
{
    let mut document = Members::new();
    document.put("iteration", Json::Count(c.iteration as u64));
    document.put("records_processed_timed", Json::Count(c.records_processed));
    document.put("records_processed_cumulative", Json::Count(c.records_processed_cumulative));
    document.put("records_raw_in_clickhouse", Json::Count(c.records_raw));
    document.put("records_visible_in_clickhouse", Json::Count(c.records_visible));
    document.put("pre_dedupe_duplicates", Json::Count(c.pre_dedupe_dupes));
    document.put("post_dedupe_duplicates", Json::Count(c.post_dedupe_dupes));
    document.put("records_missing_from_sink", Json::Count(records_missing(c)));
    document.put("passed", Json::Flag(iteration_passed(c)));
    document.done()
}

/// What is said of every iteration.
pub open spec fn iterations_correctness(reports: Seq<IterationCounts>) -> Seq<JsonTree> {
    Seq::new(reports.len(), |i: int| iteration_correctness_tree(reports[i]))
}

fn correctness_items(reports: &Vec<IterationCounts>) -> (r: Items)
    ensures
        r@ == iterations_correctness(reports@),
{
    let mut items = Items::new();
    let mut i: usize = 0;
    while i < reports.len()
        invariant
            i <= reports@.len(),
            items@ == iterations_correctness(reports@).take(i as int),
        decreases reports@.len() - i,
    {
        items.push(iteration_correctness(&reports[i]));
        i = i + 1;
        assert(items@ =~= iterations_correctness(reports@).take(i as int));
    }
    assert(items@ =~= iterations_correctness(reports@));
    items
}

/// The correctness of a run, iteration by iteration.
pub open spec fn correctness_tree(reports: Seq<IterationCounts>, passed: bool) -> JsonTree {
    JsonTree::Object(
        json_tree::no_members()
            .push(("schema_version"@, JsonTree::Count(2)))
            .push(("summary"@, JsonTree::Object(
                json_tree::no_members()
                    .push(("passed"@, JsonTree::Flag(passed)))
                    .push(("iterations"@, JsonTree::Whole(reports.len() as i64)))
                    .push(("required_sinks"@, JsonTree::List(
                        json_tree::no_items()
                            .push(JsonTree::Text("clickhouse"@)),
                    )))
                    .push(("ack_invariant_checks_reported"@, JsonTree::Count(0)))
                    .push((
                        "notes"@,
                        JsonTree::Text("Row 7.2 first cut: counts-based correctness only. Full ack_invariant_checks land alongside the TestObservableSink trait refactor."@),
                    )),
            )))
            .push(("iterations"@, JsonTree::List(iterations_correctness(reports)))),
    )
}

/// The document of the correctness of a run.
pub fn correctness(reports: &Vec<IterationCounts>, passed: bool) -> (r: Json)
    ensures
        r@ == correctness_tree(reports@, passed),
{
    let mut document = Members::new();
    document.put("schema_version", Json::Count(2));
    let mut summary = Members::new();
    summary.put("passed", Json::Flag(passed));
    summary.put("iterations", Json::Whole(reports.len() as i64));
    let mut required_sinks = Items::new();
    required_sinks.push(text_value("clickhouse"));
    summary.put("required_sinks", required_sinks.done());
    summary.put("ack_invariant_checks_reported", Json::Count(0));
    summary.put_text(
        "notes",
        "Row 7.2 first cut: counts-based correctness only. Full ack_invariant_checks land alongside the TestObservableSink trait refactor.",
    );
    document.put("summary", summary.done());
    document.put("iterations", correctness_items(reports).done());
    document.done()
}

/// The figures of an iteration.
#[derive(Debug)]
pub struct IterationFigures {
    pub elapsed_seconds: u64,
    pub throughput: u64,
    pub records_processed: u64,
    pub records_processed_cumulative: u64,
    pub records_visible: u64,
    pub records_raw: u64,
    pub pre_dedupe_dupes: u64,
    pub post_dedupe_dupes: u64,
    pub stages: PerStage<StageInIteration>,
}

/// The results of an iteration.
pub open spec fn iteration_block_tree(
    iteration: usize,
    counts: StageWorkerCounts,
    f: IterationFigures,
) -> JsonTree {
    JsonTree::Object(
        json_tree::no_members()
            .push(("iteration"@, JsonTree::Count(iteration as u64)))
            .push(("scalars"@, JsonTree::Object(
                json_tree::no_members()
                    .push(("iteration_elapsed_seconds"@, JsonTree::Real(f.elapsed_seconds)))
                    .push(("iteration_throughput_records_per_sec"@, JsonTree::Real(f.throughput)))
                    .push(("iteration_records_processed"@, JsonTree::Real(f.records_processed)))
                    .push((
                        "iteration_records_processed_cumulative"@,
                        JsonTree::Real(f.records_processed_cumulative),
                    ))
                    .push(("records_visible_in_clickhouse"@, JsonTree::Real(f.records_visible)))
                    .push(("records_raw_in_clickhouse"@, JsonTree::Real(f.records_raw)))
                    .push(("pre_dedupe_duplicates"@, JsonTree::Real(f.pre_dedupe_dupes)))
                    .push(("post_dedupe_duplicates"@, JsonTree::Real(f.post_dedupe_dupes))),
            )))
            .push((
                "stages"@,
                artifacts::stages_in_iteration_tree(artifacts::workers_per_stage(counts), f.stages),
            ))
            .push(("histograms"@, JsonTree::Object(json_tree::no_members())))
            .push((
                "raw_log"@,
                JsonTree::Text("raw/"@ + artifacts::raw_file_text(iteration as nat)),
            ))
            .push((
                "raw_metrics"@,
                JsonTree::Text("raw/"@ + artifacts::raw_file_text(iteration as nat)),
            )),
    )
}

/// The object of an iteration.
pub fn iteration_block(
    iteration: usize,
    counts: &StageWorkerCounts,
    f: &IterationFigures,
) -> (r: Json)
    ensures
        r@ == iteration_block_tree(iteration, *counts, *f),
{
    let mut document = Members::new();
    document.put("iteration", Json::Count(iteration as u64));
    let mut scalars = Members::new();
    scalars.put("iteration_elapsed_seconds", Json::Real(f.elapsed_seconds));
    scalars.put("iteration_throughput_records_per_sec", Json::Real(f.throughput));
    scalars.put("iteration_records_processed", Json::Real(f.records_processed));
    scalars.put(
        "iteration_records_processed_cumulative",
        Json::Real(f.records_processed_cumulative),
    );
    scalars.put("records_visible_in_clickhouse", Json::Real(f.records_visible));
    scalars.put("records_raw_in_clickhouse", Json::Real(f.records_raw));
    scalars.put("pre_dedupe_duplicates", Json::Real(f.pre_dedupe_dupes));
    scalars.put("post_dedupe_duplicates", Json::Real(f.post_dedupe_dupes));
    document.put("scalars", scalars.done());
    document.put("stages", stages_in_iteration(&per_stage_workers(counts), &f.stages));
    document.put("histograms", Members::new().done());
    document.put("raw_log", Json::Text(raw_path(iteration)));
    document.put("raw_metrics", Json::Text(raw_path(iteration)));
    document.done()
}

/// The figures of a run.
#[derive(Debug)]
pub struct RunFigures {
    pub throughput: Agg,
    pub elapsed: Agg,
    pub serialize_fraction: Agg,
    pub serialize_seconds: Agg,
    pub serialization_bytes: Agg,
    pub end_to_end: Agg,
    pub stages: PerStage<StageSummary>,
}

/// The scalars of a run.
pub open spec fn scalars_tree(f: RunFigures) -> JsonTree {
    JsonTree::Object(
        artifacts::with_stage_scalars(
            json_tree::no_members()
                .push(("total_throughput_records_per_sec"@, artifacts::agg_tree(f.throughput)))
                .push(("iteration_elapsed_seconds"@, artifacts::agg_tree(f.elapsed)))
                .push(("serialize_fraction_of_insert"@, artifacts::agg_tree(f.serialize_fraction)))
                .push(("serialize_seconds_per_record"@, artifacts::agg_tree(f.serialize_seconds)))
                .push(("serialization_bytes_per_record"@, artifacts::agg_tree(f.serialization_bytes)))
                .push(("end_to_end_seconds_per_record"@, artifacts::agg_tree(f.end_to_end))),
            f.stages,
        ),
    )
}

fn scalars(f: &RunFigures) -> (r: Json)
    ensures
        r@ == scalars_tree(*f),
{
    let mut members = Members::new();
    members.put("total_throughput_records_per_sec", agg(&f.throughput));
    members.put("iteration_elapsed_seconds", agg(&f.elapsed));
    members.put("serialize_fraction_of_insert", agg(&f.serialize_fraction));
    members.put("serialize_seconds_per_record", agg(&f.serialize_seconds));
    members.put("serialization_bytes_per_record", agg(&f.serialization_bytes));
    members.put("end_to_end_seconds_per_record", agg(&f.end_to_end));
    put_stage_scalars(&mut members, &f.stages);
    members.done()
}

/// The workers of each stage in the first iteration; none if there was none.
pub open spec fn first_workers(reports: Seq<IterationCounts>) -> PerStage<u32> {
    if reports.len() == 0 {
        PerStage { source: 0, fetch: 0, decode: 0, sink_dispatch: 0 }
    } else {
        artifacts::workers_per_stage(reports[0].worker_counts)
    }
}

/// The results of a run.
pub open spec fn run_results_tree(
    reports: Seq<IterationCounts>,
    figures: Seq<IterationFigures>,
    run: RunFigures,
) -> JsonTree {
    artifacts::results_tree(
        scalars_tree(run),
        artifacts::stage_summaries_tree(first_workers(reports), run.stages),
        Seq::new(
            reports.len(),
            |i: int|
                iteration_block_tree(reports[i].iteration, reports[i].worker_counts, figures[i]),
        ),
    )
}

/// The document of the results of a run, from the counts and the figures of its
/// iterations.
pub fn build_results(
    reports: &Vec<IterationCounts>,
    figures: &Vec<IterationFigures>,
    run: &RunFigures,
) -> (r: Json)
    requires
        figures@.len() == reports@.len(),
    ensures
        r@ == run_results_tree(reports@, figures@, *run),
{
    let ghost blocks = Seq::new(
        reports@.len(),
        |i: int|
            iteration_block_tree(reports@[i].iteration, reports@[i].worker_counts, figures@[i]),
    );
    let mut items = Items::new();
    let mut i: usize = 0;
    while i < reports.len()
        invariant
            i <= reports@.len() == figures@.len(),
            blocks == Seq::new(
                reports@.len(),
                |i: int|
                    iteration_block_tree(
                        reports@[i].iteration,
                        reports@[i].worker_counts,
                        figures@[i],
                    ),
            ),
            items@ == blocks.take(i as int),
        decreases reports@.len() - i,
    {
        items.push(
            iteration_block(reports[i].iteration, &reports[i].worker_counts, &figures[i]),
        );
        i = i + 1;
        assert(items@ =~= blocks.take(i as int));
    }
    assert(items@ =~= blocks);
    let first: PerStage<u32> = if reports.len() == 0 {
        PerStage { source: 0, fetch: 0, decode: 0, sink_dispatch: 0 }
    } else {
        per_stage_workers(&reports[0].worker_counts)
    };
    results(scalars(run), stage_summaries(&first, &run.stages), items)
}

/// A short name of a load.
pub open spec fn fingerprint_text(
    kind: Seq<char>,
    records: nat,
    warmup: nat,
    timed: nat,
) -> Seq<char> {
    "phase07-"@ + kind + "-"@ + text::decimal(records) + "records-per-payload-"@ + text::decimal(
        warmup,
    ) + "warmup-"@ + text::decimal(timed) + "timed"@
}

pub fn fingerprint(kind: &str, records: u64, warmup: u64, timed: u64) -> (r: String)
    ensures
        r@ == fingerprint_text(kind@, records as nat, warmup as nat, timed as nat),
{
    let mut out = owned("phase07-");
    out.append(kind);
    out.append("-");
    push_decimal(&mut out, records);
    out.append("records-per-payload-");
    push_decimal(&mut out, warmup);
    out.append("warmup-");
    push_decimal(&mut out, timed);
    out.append("timed");
    out
}

/// A digest as it is written.
pub open spec fn tagged_digest(data: Seq<u8>) -> Seq<char> {
    "sha256:"@ + digest::hex_of(digest::sha256(data))
}

pub fn tagged_sha256(data: &[u8]) -> (r: String)
    ensures
        r@ == tagged_digest(data@),
{
    let mut out = owned("sha256:");
    out.append(sha256_hex(data).as_str());
    out
}

/// What identifies a load, member by member.
pub open spec fn canonical_members(load: LogWorkloadConfig) -> Map<Seq<char>, adapter::JsonView> {
    jsoneachrow::no_members()
        .insert("kind"@, adapter::JsonView::Text("phase07-real-ch-smoke"@))
        .insert(
            "records_per_source_range"@,
            adapter::JsonView::Number(load.records_per_source_range as int),
        )
        .insert("warmup_payloads"@, adapter::JsonView::Number(load.warmup_payloads as int))
        .insert("timed_payloads"@, adapter::JsonView::Number(load.timed_payloads as int))
        .insert("service_name"@, adapter::JsonView::Text(load.service_name@))
        .insert("schema"@, adapter::JsonView::Text("otel_logs_v1"@))
        .insert("sink"@, adapter::JsonView::Text("ClickHouseSink"@))
        .insert("decoder"@, adapter::JsonView::Text("OtlpLogsDecoder"@))
}

/// The digest of what identifies a load, written as JSON.
pub fn fingerprint_hash(load: &LogWorkloadConfig) -> (r: String)
    ensures
        r@ == tagged_digest(jsoneachrow::object_json(canonical_members(*load))),
{
    let mut object = object_new();
    object_insert(&mut object, owned("kind"), JsonCell::Text(owned("phase07-real-ch-smoke")));
    object_insert(
        &mut object,
        owned("records_per_source_range"),
        JsonCell::Unsigned(load.records_per_source_range as u64),
    );
    object_insert(
        &mut object,
        owned("warmup_payloads"),
        JsonCell::Unsigned(load.warmup_payloads as u64),
    );
    object_insert(
        &mut object,
        owned("timed_payloads"),
        JsonCell::Unsigned(load.timed_payloads as u64),
    );
    object_insert(
        &mut object,
        owned("service_name"),
        JsonCell::Text(owned(load.service_name.as_str())),
    );
    object_insert(&mut object, owned("schema"), JsonCell::Text(owned("otel_logs_v1")));
    object_insert(&mut object, owned("sink"), JsonCell::Text(owned("ClickHouseSink")));
    object_insert(&mut object, owned("decoder"), JsonCell::Text(owned("OtlpLogsDecoder")));
    match object_bytes(&object) {
        Ok(bytes) => tagged_sha256(bytes.as_slice()),
        Err(_) => String::new(),
    }
}

/// Whether the size of a load can be written as a signed number.
pub open spec fn writable(load: LogWorkloadConfig) -> bool {
    &&& workload::countable(load)
    &&& load.records_per_source_range <= i64::MAX
    &&& load.warmup_payloads + load.timed_payloads <= i64::MAX
    &&& load.records_per_source_range * (load.warmup_payloads + load.timed_payloads) <= i64::MAX
}

/// What a run keeps fixed.
pub open spec fn experiment_tree(cfg: RealChConfig, w: StageWorkerCounts) -> JsonTree {
    JsonTree::Object(
        json_tree::no_members()
            .push(("kind"@, JsonTree::Text("ab"@)))
            .push(("dimensions"@, JsonTree::List(json_tree::no_items())))
            .push(("fixed_controls"@, JsonTree::Object(
                json_tree::no_members()
                    .push((
                        "records_per_source_range"@,
                        JsonTree::Count(cfg.workload.records_per_source_range as u64),
                    ))
                    .push((
                        "warmup_payloads"@,
                        JsonTree::Count(cfg.workload.warmup_payloads as u64),
                    ))
                    .push(("timed_payloads"@, JsonTree::Count(cfg.workload.timed_payloads as u64)))
                    .push(("source.fetch_concurrency"@, JsonTree::Count(w.fetch as u64)))
                    .push(("source.decode_concurrency"@, JsonTree::Count(w.decode as u64)))
                    .push(("sink.max_concurrent_commits"@, JsonTree::Count(w.sink_dispatch as u64)))
                    .push(("sink.kind"@, JsonTree::Text("clickhouse"@)))
                    .push((
                        "serialization_format"@,
                        JsonTree::Text(serializer::format_label(cfg.serialization_format)@),
                    ))
                    .push((
                        "http_client_mode"@,
                        JsonTree::Text(writer::http_mode_text(cfg.http_client_mode)@),
                    )),
            )))
            .push(("matrix_file"@, JsonTree::Null)),
    )
}

fn experiment(cfg: &RealChConfig, w: &StageWorkerCounts) -> (r: Json)
    ensures
        r@ == experiment_tree(*cfg, *w),
{
    let mut document = Members::new();
    document.put_text("kind", "ab");
    document.put("dimensions", Items::new().done());
    let mut fixed_controls = Members::new();
    fixed_controls.put(
        "records_per_source_range",
        Json::Count(cfg.workload.records_per_source_range as u64),
    );
    fixed_controls.put("warmup_payloads", Json::Count(cfg.workload.warmup_payloads as u64));
    fixed_controls.put("timed_payloads", Json::Count(cfg.workload.timed_payloads as u64));
    fixed_controls.put("source.fetch_concurrency", Json::Count(w.fetch as u64));
    fixed_controls.put("source.decode_concurrency", Json::Count(w.decode as u64));
    fixed_controls.put("sink.max_concurrent_commits", Json::Count(w.sink_dispatch as u64));
    fixed_controls.put_text("sink.kind", "clickhouse");
    fixed_controls.put_text("serialization_format", cfg.serialization_format.as_label());
    fixed_controls.put_text("http_client_mode", cfg.http_client_mode.as_label());
    document.put("fixed_controls", fixed_controls.done());
    document.put("matrix_file", Json::Null);
    document.done()
}

/// What was built.
pub open spec fn binary_tree() -> JsonTree {
    JsonTree::Object(
        json_tree::no_members()
            .push(("name"@, JsonTree::Text("phase07-real-ch-smoke"@)))
            .push((
                "build_command"@,
                JsonTree::Text("cargo build --release -p clickhouse-ingestor-bench --features real-ch --bin phase07-real-ch-smoke"@),
            ))
            .push(("build_rev"@, JsonTree::Text("see git.opendata-contrib.rev"@)))
            .push(("build_flags"@, JsonTree::Text("release"@))),
    )
}

fn binary() -> (r: Json)
    ensures
        r@ == binary_tree(),
{
    let mut document = Members::new();
    document.put_text("name", "phase07-real-ch-smoke");
    document.put_text(
        "build_command",
        "cargo build --release -p clickhouse-ingestor-bench --features real-ch --bin phase07-real-ch-smoke",
    );
    document.put_text("build_rev", "see git.opendata-contrib.rev");
    document.put_text("build_flags", "release");
    document.done()
}

/// The settings that took effect.
pub open spec fn effective_config_tree(cfg: RealChConfig, w: StageWorkerCounts) -> JsonTree {
    JsonTree::Object(
        json_tree::no_members()
            .push(("runtime_yaml_path"@, JsonTree::Null))
            .push(("effective_yaml_hash"@, JsonTree::Text("n/a"@)))
            .push(("effective_yaml"@, JsonTree::Object(
                json_tree::no_members()
                    .push(("buffer.object_store"@, JsonTree::Text("InMemory"@)))
                    .push(("buffer.batch_compression"@, JsonTree::Text("none"@)))
                    .push(("runtime.dry_run"@, JsonTree::Flag(false)))
                    .push((
                        "runtime.sink.max_concurrent_commits"@,
                        JsonTree::Count(w.sink_dispatch as u64),
                    ))
                    .push(("runtime.source.fetch_concurrency"@, JsonTree::Count(w.fetch as u64)))
                    .push(("runtime.source.decode_concurrency"@, JsonTree::Count(w.decode as u64)))
                    .push(("runtime.ack_flush_policy"@, JsonTree::Text("EveryCommitGroup"@)))
                    .push(("sink.kind"@, JsonTree::Text("clickhouse"@)))
                    .push((
                        "sink.serialization_format"@,
                        JsonTree::Text(serializer::format_label(cfg.serialization_format)@),
                    ))
                    .push((
                        "sink.http_client_mode"@,
                        JsonTree::Text(writer::http_mode_text(cfg.http_client_mode)@),
                    )),
            ))),
    )
}

fn effective_config(cfg: &RealChConfig, w: &StageWorkerCounts) -> (r: Json)
    ensures
        r@ == effective_config_tree(*cfg, *w),
{
    let mut document = Members::new();
    document.put("runtime_yaml_path", Json::Null);
    document.put_text("effective_yaml_hash", "n/a");
    let mut effective_yaml = Members::new();
    effective_yaml.put_text("buffer.object_store", "InMemory");
    effective_yaml.put_text("buffer.batch_compression", "none");
    effective_yaml.put("runtime.dry_run", Json::Flag(false));
    effective_yaml.put("runtime.sink.max_concurrent_commits", Json::Count(w.sink_dispatch as u64));
    effective_yaml.put("runtime.source.fetch_concurrency", Json::Count(w.fetch as u64));
    effective_yaml.put("runtime.source.decode_concurrency", Json::Count(w.decode as u64));
    effective_yaml.put_text("runtime.ack_flush_policy", "EveryCommitGroup");
    effective_yaml.put_text("sink.kind", "clickhouse");
    effective_yaml.put_text("sink.serialization_format", cfg.serialization_format.as_label());
    effective_yaml.put_text("sink.http_client_mode", cfg.http_client_mode.as_label());
    document.put("effective_yaml", effective_yaml.done());
    document.done()
}

/// The services of a run.
pub open spec fn services_tree() -> JsonTree {
    JsonTree::Object(
        json_tree::no_members()
            .push(("clickhouse"@, JsonTree::Object(
                json_tree::no_members()
                    .push(("version"@, JsonTree::Text("testcontainers-default"@)))
                    .push(("engine"@, JsonTree::Text("ReplacingMergeTree"@)))
                    .push(("engine_version_column"@, JsonTree::Text("_adapter_version"@)))
                    .push(("table_ddl_path"@, JsonTree::Null))
                    .push(("table_ddl_hash"@, JsonTree::Null))
                    .push(("order_by"@, JsonTree::Null))
                    .push(("settings_overrides"@, JsonTree::Object(json_tree::no_members())))
                    .push((
                        "container_image"@,
                        JsonTree::Text("testcontainers-modules/clickhouse@default"@),
                    )),
            )))
            .push(("object_store"@, artifacts::object_store_tree()))
            .push(("iceberg"@, JsonTree::Null)),
    )
}

fn services() -> (r: Json)
    ensures
        r@ == services_tree(),
{
    let mut document = Members::new();
    let mut clickhouse = Members::new();
    clickhouse.put_text("version", "testcontainers-default");
    clickhouse.put_text("engine", "ReplacingMergeTree");
    clickhouse.put_text("engine_version_column", "_adapter_version");
    clickhouse.put("table_ddl_path", Json::Null);
    clickhouse.put("table_ddl_hash", Json::Null);
    clickhouse.put("order_by", Json::Null);
    clickhouse.put("settings_overrides", Members::new().done());
    clickhouse.put_text("container_image", "testcontainers-modules/clickhouse@default");
    document.put("clickhouse", clickhouse.done());
    document.put("object_store", object_store());
    document.put("iceberg", Json::Null);
    document.done()
}

/// The load of a run.
pub open spec fn load_tree(cfg: LogWorkloadConfig) -> JsonTree {
    JsonTree::Object(
        json_tree::no_members()
            .push(("generator"@, JsonTree::Text("phase07-real-ch-otlp-logs-synth"@)))
            .push(("generator_rev"@, JsonTree::Text("see git.opendata-contrib.rev"@)))
            .push(("seed"@, JsonTree::Count(0)))
            .push(("schema"@, JsonTree::Text("otel_logs_v1"@)))
            .push(("schema_hash"@, JsonTree::Text(tagged_digest(encode_utf8("otel_logs_v1"@)))))
            .push((
                "fingerprint"@,
                JsonTree::Text(
                    fingerprint_text(
                        "real-ch"@,
                        cfg.records_per_source_range as nat,
                        cfg.warmup_payloads as nat,
                        cfg.timed_payloads as nat,
                    ),
                ),
            ))
            .push((
                "fingerprint_hash"@,
                JsonTree::Text(tagged_digest(jsoneachrow::object_json(canonical_members(cfg)))),
            ))
            .push(("canonical_path"@, JsonTree::Null))
            .push((
                "records_total"@,
                JsonTree::Whole(
                    (cfg.records_per_source_range * (cfg.warmup_payloads + cfg.timed_payloads)) as i64,
                ),
            ))
            .push((
                "batches_total"@,
                JsonTree::Whole((cfg.warmup_payloads + cfg.timed_payloads) as i64),
            ))
            .push(("records_per_batch"@, JsonTree::Whole(cfg.records_per_source_range as i64)))
            .push(("approx_bytes_per_record"@, JsonTree::Count(64)))
            .push(("encoding"@, JsonTree::Text("otlp_protobuf"@)))
            .push(("compression"@, JsonTree::Text("none"@)))
            .push(("attribute_cardinality"@, JsonTree::Null)),
    )
}

fn load(cfg: &LogWorkloadConfig) -> (r: Json)
    requires
        writable(*cfg),
    ensures
        r@ == load_tree(*cfg),
{
    let batches: i64 = cfg.warmup_payloads as i64 + cfg.timed_payloads as i64;
    let mut document = Members::new();
    document.put_text("generator", "phase07-real-ch-otlp-logs-synth");
    document.put_text("generator_rev", "see git.opendata-contrib.rev");
    document.put("seed", Json::Count(0));
    document.put_text("schema", "otel_logs_v1");
    document.put("schema_hash", Json::Text(tagged_sha256("otel_logs_v1".as_bytes())));
    document.put(
        "fingerprint",
        Json::Text(
            fingerprint(
                "real-ch",
                cfg.records_per_source_range as u64,
                cfg.warmup_payloads as u64,
                cfg.timed_payloads as u64,
            ),
        ),
    );
    document.put("fingerprint_hash", Json::Text(fingerprint_hash(cfg)));
    document.put("canonical_path", Json::Null);
    document.put("records_total", Json::Whole(cfg.records_per_source_range as i64 * batches));
    document.put("batches_total", Json::Whole(batches));
    document.put("records_per_batch", Json::Whole(cfg.records_per_source_range as i64));
    document.put("approx_bytes_per_record", Json::Count(64));
    document.put_text("encoding", "otlp_protobuf");
    document.put_text("compression", "none");
    document.put("attribute_cardinality", Json::Null);
    document.done()
}

/// What a run was.
pub open spec fn build_metadata_tree(
    reports: Seq<IterationCounts>,
    cfg: RealChConfig,
    started_at: Seq<char>,
    ended_at: Seq<char>,
    git: GitInfo,
    host: HostFacts,
) -> JsonTree {
    JsonTree::Object(
        json_tree::no_members()
            .push(("schema_version"@, JsonTree::Count(2)))
            .push(("phase"@, JsonTree::Text("phase07-clickhouse-throughput"@)))
            .push(("unit_id"@, JsonTree::Text("7.2"@)))
            .push((
                "unit_title"@,
                JsonTree::Text("Stand up real-ClickHouse bench harness end-to-end (testcontainers-rs path; docker-compose path also lands; generalize correctness checks)"@),
            ))
            .push(("owner"@, JsonTree::Text("Benchmark/Perf Implementor"@)))
            .push(("started_at"@, JsonTree::Text(started_at)))
            .push(("ended_at"@, JsonTree::Text(ended_at)))
            .push(("experiment"@, experiment_tree(cfg, protocol::run_workers(reports))))
            .push(("varied_param"@, JsonTree::Null))
            .push(("git"@, artifacts::repositories_tree(git)))
            .push(("host"@, artifacts::host_state_tree(host)))
            .push(("binary"@, binary_tree()))
            .push(("config"@, effective_config_tree(cfg, protocol::run_workers(reports))))
            .push(("services"@, services_tree()))
            .push(("workload"@, load_tree(cfg.workload)))
            .push(("iterations"@, JsonTree::Whole(cfg.iterations as i64)))
            .push(("baseline_run"@, JsonTree::Null))
            .push(("notes"@, JsonTree::Text(cfg.notes@))),
    )
}

/// The document that says what a run was.
pub fn build_metadata(
    reports: &Vec<IterationCounts>,
    cfg: &RealChConfig,
    started_at: &str,
    ended_at: &str,
    git: &GitInfo,
    host: &HostFacts,
) -> (r: Json)
    requires
        writable(cfg.workload),
    ensures
        r@ == build_metadata_tree(reports@, *cfg, started_at@, ended_at@, *git, *host),
{
    let w: StageWorkerCounts = workers(reports);
    let mut document = Members::new();
    document.put("schema_version", Json::Count(2));
    document.put_text("phase", "phase07-clickhouse-throughput");
    document.put_text("unit_id", "7.2");
    document.put_text(
        "unit_title",
        "Stand up real-ClickHouse bench harness end-to-end (testcontainers-rs path; docker-compose path also lands; generalize correctness checks)",
    );
    document.put_text("owner", "Benchmark/Perf Implementor");
    document.put_text("started_at", started_at);
    document.put_text("ended_at", ended_at);
    document.put("experiment", experiment(cfg, &w));
    document.put("varied_param", Json::Null);
    document.put("git", repositories(git));
    document.put("host", host_state(host));
    document.put("binary", binary());
    document.put("config", effective_config(cfg, &w));
    document.put("services", services());
    document.put("workload", load(&cfg.workload));
    document.put("iterations", Json::Whole(cfg.iterations as i64));
    document.put("baseline_run", Json::Null);
    document.put_text("notes", cfg.notes.as_str());
    document.done()
}

/// The correctness of a run is reported as its verdict and, iteration by iteration in
/// their order, as the counts that each was judged by.
pub proof fn law_correctness_is_reported(
    reports: &Vec<IterationCounts>,
    passed: bool,
    r: Json,
    i: int,
    good: bool,
    gone: u64,
)
    requires
        call_ensures(correctness, (reports, passed), r),
        0 <= i < reports@.len(),
        call_ensures(iteration_passed, (&reports@[i],), good),
        call_ensures(records_missing, (&reports@[i],), gone),
    ensures
        json_tree::says(r@, seq!["schema_version"@], JsonTree::Count(2)),
        json_tree::says(r@, seq!["summary"@, "passed"@], JsonTree::Flag(passed)),
        json_tree::says(
            r@,
            seq!["summary"@, "iterations"@],
            JsonTree::Whole(reports@.len() as i64),
        ),
        exists|entries: Seq<JsonTree>|
            entries.len() == reports@.len() && tells_counts(entries[i], reports@[i], good, gone)
                && #[trigger] json_tree::says(r@, seq!["iterations"@], JsonTree::List(entries)),
{
    let entries = iterations_correctness(reports@);
    json_tree::lemma_says_member(r@, 2);
    lemma_counts_are_told(reports@[i]);
    assert(entries[i] == iteration_correctness_tree(reports@[i]));
    assert(json_tree::says(r@, seq!["iterations"@], JsonTree::List(entries)));
    json_tree::lemma_says_member(r@, 0);
    json_tree::lemma_says_second(r@, 1, 0);
    json_tree::lemma_says_second(r@, 1, 1);
}

/// Whether an entry tells the counts of an iteration, whether it was good, and how much
/// is missing.
pub open spec fn tells_counts(
    entry: JsonTree,
    c: IterationCounts,
    good: bool,
    gone: u64,
) -> bool {
    &&& json_tree::says(entry, seq!["iteration"@], JsonTree::Count(c.iteration as u64))
    &&& json_tree::says(
        entry,
        seq!["records_processed_timed"@],
        JsonTree::Count(c.records_processed),
    )
    &&& json_tree::says(
        entry,
        seq!["records_processed_cumulative"@],
        JsonTree::Count(c.records_processed_cumulative),
    )
    &&& json_tree::says(entry, seq!["records_raw_in_clickhouse"@], JsonTree::Count(c.records_raw))
    &&& json_tree::says(
        entry,
        seq!["records_visible_in_clickhouse"@],
        JsonTree::Count(c.records_visible),
    )
    &&& json_tree::says(
        entry,
        seq!["pre_dedupe_duplicates"@],
        JsonTree::Count(c.pre_dedupe_dupes),
    )
    &&& json_tree::says(
        entry,
        seq!["post_dedupe_duplicates"@],
        JsonTree::Count(c.post_dedupe_dupes),
    )
    &&& json_tree::says(entry, seq!["records_missing_from_sink"@], JsonTree::Count(gone))
    &&& json_tree::says(entry, seq!["passed"@], JsonTree::Flag(good))
}

proof fn lemma_counts_are_told(c: IterationCounts)
    ensures
        tells_counts(
            iteration_correctness_tree(c),
            c,
            protocol::iteration_good(c),
            protocol::missing(c),
        ),
{
    let entry = iteration_correctness_tree(c);
    json_tree::lemma_says_member(entry, 0);
    json_tree::lemma_says_member(entry, 1);
    json_tree::lemma_says_member(entry, 2);
    json_tree::lemma_says_member(entry, 3);
    json_tree::lemma_says_member(entry, 4);
    json_tree::lemma_says_member(entry, 5);
    json_tree::lemma_says_member(entry, 6);
    json_tree::lemma_says_member(entry, 7);
    json_tree::lemma_says_member(entry, 8);
}

/// The entry of an iteration holds each of its figures under its own name, its stages,
/// and the file of its samples.
pub proof fn law_iteration_is_reported(
    iteration: usize,
    counts: &StageWorkerCounts,
    f: &IterationFigures,
    r: Json,
    workers: PerStage<u32>,
    stages: Json,
)
    requires
        call_ensures(iteration_block, (iteration, counts, f), r),
        call_ensures(per_stage_workers, (counts,), workers),
        call_ensures(stages_in_iteration, (&workers, &f.stages), stages),
    ensures
        json_tree::says(r@, seq!["iteration"@], JsonTree::Count(iteration as u64)),
        json_tree::says(
            r@,
            seq!["scalars"@, "iteration_elapsed_seconds"@],
            JsonTree::Real(f.elapsed_seconds),
        ),
        json_tree::says(
            r@,
            seq!["scalars"@, "iteration_throughput_records_per_sec"@],
            JsonTree::Real(f.throughput),
        ),
        json_tree::says(
            r@,
            seq!["scalars"@, "iteration_records_processed"@],
            JsonTree::Real(f.records_processed),
        ),
        json_tree::says(
            r@,
            seq!["scalars"@, "iteration_records_processed_cumulative"@],
            JsonTree::Real(f.records_processed_cumulative),
        ),
        json_tree::says(
            r@,
            seq!["scalars"@, "records_visible_in_clickhouse"@],
            JsonTree::Real(f.records_visible),
        ),
        json_tree::says(
            r@,
            seq!["scalars"@, "records_raw_in_clickhouse"@],
            JsonTree::Real(f.records_raw),
        ),
        json_tree::says(
            r@,
            seq!["scalars"@, "pre_dedupe_duplicates"@],
            JsonTree::Real(f.pre_dedupe_dupes),
        ),
        json_tree::says(
            r@,
            seq!["scalars"@, "post_dedupe_duplicates"@],
            JsonTree::Real(f.post_dedupe_dupes),
        ),
        json_tree::says(r@, seq!["stages"@], stages@),
        json_tree::says(
            r@,
            seq!["raw_log"@],
            JsonTree::Text("raw/"@ + ("run-"@ + text::decimal(iteration as nat) + ".metrics.jsonl"@)),
        ),
        json_tree::says(
            r@,
            seq!["raw_metrics"@],
            JsonTree::Text("raw/"@ + ("run-"@ + text::decimal(iteration as nat) + ".metrics.jsonl"@)),
        ),
{
    json_tree::lemma_says_member(r@, 0);
    json_tree::lemma_says_second(r@, 1, 0);
    json_tree::lemma_says_second(r@, 1, 1);
    json_tree::lemma_says_second(r@, 1, 2);
    json_tree::lemma_says_second(r@, 1, 3);
    json_tree::lemma_says_second(r@, 1, 4);
    json_tree::lemma_says_second(r@, 1, 5);
    json_tree::lemma_says_second(r@, 1, 6);
    json_tree::lemma_says_second(r@, 1, 7);
    json_tree::lemma_says_member(r@, 2);
    json_tree::lemma_says_member(r@, 4);
    json_tree::lemma_says_member(r@, 5);
}

/// The results of a run hold its scalars, its stages with the workers of its first
/// iteration, and the entry of every iteration in their order.
pub proof fn law_results_are_reported(
    reports: &Vec<IterationCounts>,
    figures: &Vec<IterationFigures>,
    run: &RunFigures,
    r: Json,
    i: int,
    entry: Json,
    workers: PerStage<u32>,
    stages: Json,
    throughput: Json,
)
    requires
        figures@.len() == reports@.len(),
        0 <= i < reports@.len(),
        call_ensures(build_results, (reports, figures, run), r),
        call_ensures(per_stage_workers, (&reports@[0].worker_counts,), workers),
        call_ensures(stage_summaries, (&workers, &run.stages), stages),
        call_ensures(
            iteration_block,
            (reports@[i].iteration, &reports@[i].worker_counts, &figures@[i]),
            entry,
        ),
        call_ensures(agg, (&run.throughput,), throughput),
    ensures
        json_tree::says(r@, seq!["schema_version"@], JsonTree::Count(2)),
        json_tree::says(r@, seq!["scalars"@, "total_throughput_records_per_sec"@], throughput@),
        json_tree::says(
            r@,
            seq!["scalars"@, "iteration_elapsed_seconds"@],
            artifacts::agg_tree(run.elapsed),
        ),
        json_tree::says(
            r@,
            seq!["scalars"@, "serialize_fraction_of_insert"@],
            artifacts::agg_tree(run.serialize_fraction),
        ),
        json_tree::says(
            r@,
            seq!["scalars"@, "serialize_seconds_per_record"@],
            artifacts::agg_tree(run.serialize_seconds),
        ),
        json_tree::says(
            r@,
            seq!["scalars"@, "serialization_bytes_per_record"@],
            artifacts::agg_tree(run.serialization_bytes),
        ),
        json_tree::says(
            r@,
            seq!["scalars"@, "end_to_end_seconds_per_record"@],
            artifacts::agg_tree(run.end_to_end),
        ),
        json_tree::says(r@, seq!["stages"@], stages@),
        exists|entries: Seq<JsonTree>|
            entries.len() == reports@.len() && entries[i] == entry@ && #[trigger] json_tree::says(
                r@,
                seq!["iterations"@],
                JsonTree::List(entries),
            ),
{
    let entries = r@->Object_0[4].1->List_0;
    json_tree::lemma_says_member(r@, 4);
    assert(entries.len() == reports@.len() && entries[i] == entry@);
    assert(json_tree::says(r@, seq!["iterations"@], JsonTree::List(entries)));
    json_tree::lemma_says_member(r@, 0);
    json_tree::lemma_says_second(r@, 1, 0);
    json_tree::lemma_says_second(r@, 1, 1);
    json_tree::lemma_says_second(r@, 1, 2);
    json_tree::lemma_says_second(r@, 1, 3);
    json_tree::lemma_says_second(r@, 1, 4);
    json_tree::lemma_says_second(r@, 1, 5);
    json_tree::lemma_says_member(r@, 2);
}

/// The metadata of a run says what it was, when it started and ended, what it was built
/// from and on which machine it ran.
pub proof fn law_run_is_described(
    reports: &Vec<IterationCounts>,
    cfg: &RealChConfig,
    started_at: &str,
    ended_at: &str,
    git: &GitInfo,
    host: &HostFacts,
    r: Json,
    trees: Json,
    machine: Json,
)
    requires
        writable(cfg.workload),
        call_ensures(build_metadata, (reports, cfg, started_at, ended_at, git, host), r),
        call_ensures(repositories, (git,), trees),
        call_ensures(host_state, (host,), machine),
    ensures
        json_tree::says(r@, seq!["schema_version"@], JsonTree::Count(2)),
        json_tree::says(r@, seq!["phase"@], JsonTree::Text("phase07-clickhouse-throughput"@)),
        json_tree::says(r@, seq!["unit_id"@], JsonTree::Text("7.2"@)),
        json_tree::says(r@, seq!["owner"@], JsonTree::Text("Benchmark/Perf Implementor"@)),
        json_tree::says(r@, seq!["started_at"@], JsonTree::Text(started_at@)),
        json_tree::says(r@, seq!["ended_at"@], JsonTree::Text(ended_at@)),
        json_tree::says(r@, seq!["varied_param"@], JsonTree::Null),
        json_tree::says(r@, seq!["git"@], trees@),
        json_tree::says(r@, seq!["host"@], machine@),
        json_tree::says(r@, seq!["iterations"@], JsonTree::Whole(cfg.iterations as i64)),
        json_tree::says(r@, seq!["baseline_run"@], JsonTree::Null),
        json_tree::says(r@, seq!["notes"@], JsonTree::Text(cfg.notes@)),
{
    json_tree::lemma_says_member(r@, 0);
    json_tree::lemma_says_member(r@, 1);
    json_tree::lemma_says_member(r@, 2);
    json_tree::lemma_says_member(r@, 4);
    json_tree::lemma_says_member(r@, 5);
    json_tree::lemma_says_member(r@, 6);
    json_tree::lemma_says_member(r@, 8);
    json_tree::lemma_says_member(r@, 9);
    json_tree::lemma_says_member(r@, 10);
    json_tree::lemma_says_member(r@, 15);
    json_tree::lemma_says_member(r@, 16);
    json_tree::lemma_says_member(r@, 17);
}

/// The metadata of a run names its settings: the workers of its stages, the format and
/// the client. They are the same where they are listed twice.
pub proof fn law_settings_of_a_run_are_described(
    reports: &Vec<IterationCounts>,
    cfg: &RealChConfig,
    started_at: &str,
    ended_at: &str,
    git: &GitInfo,
    host: &HostFacts,
    r: Json,
    label: &'static str,
    client: &'static str,
    w: StageWorkerCounts,
)
    requires
        writable(cfg.workload),
        call_ensures(build_metadata, (reports, cfg, started_at, ended_at, git, host), r),
        call_ensures(workers, (reports,), w),
        call_ensures(SerializationFormat::as_label, (cfg.serialization_format,), label),
        call_ensures(HttpClientMode::as_label, (&cfg.http_client_mode,), client),
    ensures
        json_tree::says(r@, seq!["experiment"@, "kind"@], JsonTree::Text("ab"@)),
        json_tree::says(
            r@,
            seq!["experiment"@, "fixed_controls"@, "records_per_source_range"@],
            JsonTree::Count(cfg.workload.records_per_source_range as u64),
        ),
        json_tree::says(
            r@,
            seq!["experiment"@, "fixed_controls"@, "warmup_payloads"@],
            JsonTree::Count(cfg.workload.warmup_payloads as u64),
        ),
        json_tree::says(
            r@,
            seq!["experiment"@, "fixed_controls"@, "timed_payloads"@],
            JsonTree::Count(cfg.workload.timed_payloads as u64),
        ),
        json_tree::says(
            r@,
            seq!["experiment"@, "fixed_controls"@, "source.fetch_concurrency"@],
            JsonTree::Count(w.fetch as u64),
        ),
        json_tree::says(
            r@,
            seq!["experiment"@, "fixed_controls"@, "source.decode_concurrency"@],
            JsonTree::Count(w.decode as u64),
        ),
        json_tree::says(
            r@,
            seq!["experiment"@, "fixed_controls"@, "sink.max_concurrent_commits"@],
            JsonTree::Count(w.sink_dispatch as u64),
        ),
        json_tree::says(
            r@,
            seq!["experiment"@, "fixed_controls"@, "sink.kind"@],
            JsonTree::Text("clickhouse"@),
        ),
        json_tree::says(
            r@,
            seq!["experiment"@, "fixed_controls"@, "serialization_format"@],
            JsonTree::Text(label@),
        ),
        json_tree::says(
            r@,
            seq!["experiment"@, "fixed_controls"@, "http_client_mode"@],
            JsonTree::Text(client@),
        ),
        json_tree::says(
            r@,
            seq!["config"@, "effective_yaml"@, "buffer.object_store"@],
            JsonTree::Text("InMemory"@),
        ),
        json_tree::says(
            r@,
            seq!["config"@, "effective_yaml"@, "buffer.batch_compression"@],
            JsonTree::Text("none"@),
        ),
        json_tree::says(
            r@,
            seq!["config"@, "effective_yaml"@, "runtime.dry_run"@],
            JsonTree::Flag(false),
        ),
        json_tree::says(
            r@,
            seq!["config"@, "effective_yaml"@, "runtime.sink.max_concurrent_commits"@],
            JsonTree::Count(w.sink_dispatch as u64),
        ),
        json_tree::says(
            r@,
            seq!["config"@, "effective_yaml"@, "runtime.source.fetch_concurrency"@],
            JsonTree::Count(w.fetch as u64),
        ),
        json_tree::says(
            r@,
            seq!["config"@, "effective_yaml"@, "runtime.source.decode_concurrency"@],
            JsonTree::Count(w.decode as u64),
        ),
        json_tree::says(
            r@,
            seq!["config"@, "effective_yaml"@, "runtime.ack_flush_policy"@],
            JsonTree::Text("EveryCommitGroup"@),
        ),
        json_tree::says(
            r@,
            seq!["config"@, "effective_yaml"@, "sink.kind"@],
            JsonTree::Text("clickhouse"@),
        ),
        json_tree::says(
            r@,
            seq!["config"@, "effective_yaml"@, "sink.serialization_format"@],
            JsonTree::Text(label@),
        ),
        json_tree::says(
            r@,
            seq!["config"@, "effective_yaml"@, "sink.http_client_mode"@],
            JsonTree::Text(client@),
        ),
{
    json_tree::lemma_says_second(r@, 7, 0);
    json_tree::lemma_says_third(r@, 7, 2, 0);
    json_tree::lemma_says_third(r@, 7, 2, 1);
    json_tree::lemma_says_third(r@, 7, 2, 2);
    json_tree::lemma_says_third(r@, 7, 2, 3);
    json_tree::lemma_says_third(r@, 7, 2, 4);
    json_tree::lemma_says_third(r@, 7, 2, 5);
    json_tree::lemma_says_third(r@, 7, 2, 6);
    json_tree::lemma_says_third(r@, 7, 2, 7);
    json_tree::lemma_says_third(r@, 7, 2, 8);
    json_tree::lemma_says_third(r@, 12, 2, 0);
    json_tree::lemma_says_third(r@, 12, 2, 1);
    json_tree::lemma_says_third(r@, 12, 2, 2);
    json_tree::lemma_says_third(r@, 12, 2, 3);
    json_tree::lemma_says_third(r@, 12, 2, 4);
    json_tree::lemma_says_third(r@, 12, 2, 5);
    json_tree::lemma_says_third(r@, 12, 2, 6);
    json_tree::lemma_says_third(r@, 12, 2, 7);
    json_tree::lemma_says_third(r@, 12, 2, 8);
    json_tree::lemma_says_third(r@, 12, 2, 9);
}

/// The metadata of a run describes its load: how many batches and records it comes to,
/// its short name and the digest that identifies it.
pub proof fn law_load_of_a_run_is_described(
    reports: &Vec<IterationCounts>,
    cfg: &RealChConfig,
    started_at: &str,
    ended_at: &str,
    git: &GitInfo,
    host: &HostFacts,
    r: Json,
    name: String,
    hash: String,
)
    requires
        writable(cfg.workload),
        call_ensures(build_metadata, (reports, cfg, started_at, ended_at, git, host), r),
        call_ensures(
            fingerprint,
            (
                "real-ch",
                cfg.workload.records_per_source_range as u64,
                cfg.workload.warmup_payloads as u64,
                cfg.workload.timed_payloads as u64,
            ),
            name,
        ),
        call_ensures(fingerprint_hash, (&cfg.workload,), hash),
    ensures
        json_tree::says(
            r@,
            seq!["workload"@, "generator"@],
            JsonTree::Text("phase07-real-ch-otlp-logs-synth"@),
        ),
        json_tree::says(r@, seq!["workload"@, "seed"@], JsonTree::Count(0)),
        json_tree::says(r@, seq!["workload"@, "schema"@], JsonTree::Text("otel_logs_v1"@)),
        json_tree::says(r@, seq!["workload"@, "fingerprint"@], JsonTree::Text(name@)),
        json_tree::says(r@, seq!["workload"@, "fingerprint_hash"@], JsonTree::Text(hash@)),
        json_tree::says(
            r@,
            seq!["workload"@, "records_total"@],
            JsonTree::Whole((cfg.workload.records_per_source_range * (cfg.workload.warmup_payloads
                + cfg.workload.timed_payloads)) as i64),
        ),
        json_tree::says(
            r@,
            seq!["workload"@, "batches_total"@],
            JsonTree::Whole((cfg.workload.warmup_payloads + cfg.workload.timed_payloads) as i64),
        ),
        json_tree::says(
            r@,
            seq!["workload"@, "records_per_batch"@],
            JsonTree::Whole(cfg.workload.records_per_source_range as i64),
        ),
        json_tree::says(r@, seq!["workload"@, "approx_bytes_per_record"@], JsonTree::Count(64)),
        json_tree::says(r@, seq!["workload"@, "encoding"@], JsonTree::Text("otlp_protobuf"@)),
        json_tree::says(r@, seq!["workload"@, "compression"@], JsonTree::Text("none"@)),
{
    json_tree::lemma_says_second(r@, 14, 0);
    json_tree::lemma_says_second(r@, 14, 2);
    json_tree::lemma_says_second(r@, 14, 3);
    json_tree::lemma_says_second(r@, 14, 5);
    json_tree::lemma_says_second(r@, 14, 6);
    json_tree::lemma_says_second(r@, 14, 8);
    json_tree::lemma_says_second(r@, 14, 9);
    json_tree::lemma_says_second(r@, 14, 10);
    json_tree::lemma_says_second(r@, 14, 11);
    json_tree::lemma_says_second(r@, 14, 12);
    json_tree::lemma_says_second(r@, 14, 13);
}

/// What identifies a load is made of its sizes and its service: each of them stands under
/// its own name in what the digest is taken of, and where it was run from does not.
pub proof fn law_identity_of_a_load(load: LogWorkloadConfig)
    ensures
        canonical_members(load).dom() == set![
            "kind"@,
            "records_per_source_range"@,
            "warmup_payloads"@,
            "timed_payloads"@,
            "service_name"@,
            "schema"@,
            "sink"@,
            "decoder"@,
        ],
        canonical_members(load)["records_per_source_range"@] == adapter::JsonView::Number(
            load.records_per_source_range as int,
        ),
        canonical_members(load)["warmup_payloads"@] == adapter::JsonView::Number(
            load.warmup_payloads as int,
        ),
        canonical_members(load)["timed_payloads"@] == adapter::JsonView::Number(
            load.timed_payloads as int,
        ),
        canonical_members(load)["service_name"@] == adapter::JsonView::Text(load.service_name@),
        canonical_members(load)["kind"@] == adapter::JsonView::Text("phase07-real-ch-smoke"@),
        canonical_members(load)["schema"@] == adapter::JsonView::Text("otel_logs_v1"@),
        canonical_members(load)["sink"@] == adapter::JsonView::Text("ClickHouseSink"@),
        canonical_members(load)["decoder"@] == adapter::JsonView::Text("OtlpLogsDecoder"@),
{
    reveal_strlit("kind");
    reveal_strlit("records_per_source_range");
    reveal_strlit("warmup_payloads");
    reveal_strlit("timed_payloads");
    reveal_strlit("service_name");
    reveal_strlit("schema");
    reveal_strlit("sink");
    reveal_strlit("decoder");
    assert("kind"@.len() == 4 && "kind"@[0] == 'k');
    assert("sink"@.len() == 4 && "sink"@[0] == 's');
    assert("records_per_source_range"@.len() == 24);
    assert("warmup_payloads"@.len() == 15);
    assert("timed_payloads"@.len() == 14);
    assert("service_name"@.len() == 12);
    assert("schema"@.len() == 6);
    assert("decoder"@.len() == 7);
    assert(canonical_members(load).dom() =~= set![
        "kind"@,
        "records_per_source_range"@,
        "warmup_payloads"@,
        "timed_payloads"@,
        "service_name"@,
        "schema"@,
        "sink"@,
        "decoder"@,
    ]);
}

/// The short name of a load holds its kind and its three sizes, each before the word for
/// it.
pub proof fn law_short_name_of_a_load(
    kind: &str,
    records: u64,
    warmup: u64,
    timed: u64,
    r: String,
)
    requires
        call_ensures(fingerprint, (kind, records, warmup, timed), r),
    ensures
        r@ == "phase07-"@ + kind@ + "-"@ + text::decimal(records as nat)
            + "records-per-payload-"@ + text::decimal(warmup as nat) + "warmup-"@ + text::decimal(
            timed as nat,
        ) + "timed"@,
{
}

} // verus!
