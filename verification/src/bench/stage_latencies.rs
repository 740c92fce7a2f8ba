//! The run in memory that times the stages: its settings, and the documents that
//! it leaves behind.
use std::time::Duration;
use vstd::prelude::*;
use vstd::utf8::*;

use crate::adapter;
use crate::adapter::JsonCell;
use crate::bench::artifacts;
use crate::bench::artifacts::{
    agg, host_state, object_store, per_stage_workers, put_stage_scalars, raw_path, repositories,
    results, stage_summaries, stages_in_iteration, Agg, GitInfo, HostFacts, PerStage,
    StageInIteration, StageSummary,
};
use crate::bench::json_tree;
use crate::bench::json_tree::{Items, Json, JsonTree, Members};
use crate::bench::options::RuntimeOptions;
use crate::bench::real_ch;
use crate::bench::real_ch::{fingerprint, tagged_sha256};
use crate::bench::stage::StageWorkerCounts;
use crate::bench::workload;
use crate::bench::workload::iteration_part;
use crate::serializer::jsoneachrow;
use crate::serializer::jsoneachrow::{object_bytes, object_insert, object_new};
use crate::text::owned;
use crate::time;

verus! {

/// The settings of a run.
#[derive(Debug)]
pub struct StageLatenciesConfig {
    pub records_per_source_range: usize,
    pub warmup_payloads: u64,
    pub timed_payloads: u64,
    pub iterations: usize,
    pub warmup_deadline: Duration,
    pub timed_deadline: Duration,
    /// The settings of the pipeline; without them it runs under those of the
    /// benches.
    pub runtime_options: Option<RuntimeOptions>,
    pub output_dir: String,
    pub change_slug: String,
    pub notes: String,
}

impl Default for StageLatenciesConfig {
    fn default() -> (r: Self)
        ensures
            r.records_per_source_range == 1,
            r.warmup_payloads == 4,
            r.timed_payloads == 32,
            r.iterations == 3,
            time::duration_nanos(r.warmup_deadline) == 60_000_000_000,
            time::duration_nanos(r.timed_deadline) == 600_000_000_000,
            r.runtime_options is None,
            r.output_dir@ == "bench-results/phase07/7.1-port-baseline"@,
            r.change_slug@ == "baseline"@,
            r.notes@ == Seq::<char>::empty(),
    {
        StageLatenciesConfig {
            records_per_source_range: 1,
            warmup_payloads: 4,
            timed_payloads: 32,
            iterations: 3,
            warmup_deadline: Duration::from_secs(60),
            timed_deadline: Duration::from_secs(600),
            runtime_options: None,
            output_dir: owned("bench-results/phase07/7.1-port-baseline"),
            change_slug: owned("baseline"),
            notes: String::new(),
        }
    }
}

/// The manifest and the data prefix of the buffer of an iteration.
pub fn iteration_paths(iteration: usize) -> (r: (String, String))
    ensures
        r.0@ == workload::iteration_path("7.1"@, iteration as nat, "manifest"@),
        r.1@ == workload::iteration_path("7.1"@, iteration as nat, "data"@),
{
    (iteration_part("7.1", iteration, "manifest"), iteration_part("7.1", iteration, "data"))
}

/// What a run is called, and what its documents repeat of its settings.
#[derive(Debug)]
pub struct RunInputs<'a> {
    pub output_dir: &'a str,
    /// What the name of the run ends in.
    pub change_slug: &'a str,
    pub unit_id: &'a str,
    pub unit_title: &'a str,
    pub phase: &'a str,
    pub owner: &'a str,
    pub records_per_source_range: usize,
    pub warmup_payloads: u64,
    pub timed_payloads: u64,
    pub iterations: usize,
    pub notes: &'a str,
}

impl StageLatenciesConfig {
    /// The run of these settings.
    pub fn inputs<'a>(&'a self) -> (r: RunInputs<'a>)
        ensures
            r.output_dir@ == self.output_dir@,
            r.change_slug@ == self.change_slug@,
            r.unit_id@ == "7.1"@,
            r.unit_title@
                == "Port Phase 1.4 stage-latency bench onto patched Runtime::builder + Phase 6 stage histograms"@,
            r.phase@ == "phase07-clickhouse-throughput"@,
            r.owner@ == "Benchmark/Perf Implementor"@,
            r.records_per_source_range == self.records_per_source_range,
            r.warmup_payloads == self.warmup_payloads,
            r.timed_payloads == self.timed_payloads,
            r.iterations == self.iterations,
            r.notes@ == self.notes@,
    {
        RunInputs {
            output_dir: self.output_dir.as_str(),
            change_slug: self.change_slug.as_str(),
            unit_id: "7.1",
            unit_title: "Port Phase 1.4 stage-latency bench onto patched Runtime::builder + Phase 6 stage histograms",
            phase: "phase07-clickhouse-throughput",
            owner: "Benchmark/Perf Implementor",
            records_per_source_range: self.records_per_source_range,
            warmup_payloads: self.warmup_payloads,
            timed_payloads: self.timed_payloads,
            iterations: self.iterations,
            notes: self.notes.as_str(),
        }
    }
}

/// What was counted in an iteration.
#[derive(Debug, Clone, Copy, PartialEq, Eq, Structural)]
pub struct StageIteration {
    pub iteration: usize,
    pub timed_started_unix_ms: u64,
    /// Records written since the pipeline started.
    pub records_processed: u64,
    pub worker_counts: StageWorkerCounts,
}

/// The figures of an iteration.
#[derive(Debug)]
pub struct StageIterationFigures {
    pub elapsed_seconds: u64,
    pub throughput: u64,
    pub records_processed: u64,
    pub stages: PerStage<StageInIteration>,
}

/// The results of an iteration.
pub open spec fn iteration_block_tree(
    iteration: usize,
    counts: StageWorkerCounts,
    f: StageIterationFigures,
) -> JsonTree {
    JsonTree::Object(
        json_tree::no_members()
            .push(("iteration"@, JsonTree::Count(iteration as u64)))
            .push(("scalars"@, JsonTree::Object(
                json_tree::no_members()
                    .push(("iteration_elapsed_seconds"@, JsonTree::Real(f.elapsed_seconds)))
                    .push(("iteration_throughput_records_per_sec"@, JsonTree::Real(f.throughput)))
                    .push(("iteration_records_processed"@, JsonTree::Real(f.records_processed))),
            )))
            .push((
                "stages"@,
                artifacts::stages_in_iteration_tree(artifacts::workers_per_stage(counts), f.stages),
            ))
            .push(("histograms"@, JsonTree::Object(json_tree::no_members())))
            .push((
                "raw_log"@,
                JsonTree::Text("raw/"@ + artifacts::raw_file_text(iteration as nat)),
            ))
            .push((
                "raw_metrics"@,
                JsonTree::Text("raw/"@ + artifacts::raw_file_text(iteration as nat)),
            )),
    )
}

/// The object of an iteration.
pub fn iteration_block(
    iteration: usize,
    counts: &StageWorkerCounts,
    f: &StageIterationFigures,
) -> (r: Json)
    ensures
        r@ == iteration_block_tree(iteration, *counts, *f),
{
    let mut document = Members::new();
    document.put("iteration", Json::Count(iteration as u64));
    let mut scalars = Members::new();
    scalars.put("iteration_elapsed_seconds", Json::Real(f.elapsed_seconds));
    scalars.put("iteration_throughput_records_per_sec", Json::Real(f.throughput));
    scalars.put("iteration_records_processed", Json::Real(f.records_processed));
    document.put("scalars", scalars.done());
    document.put("stages", stages_in_iteration(&per_stage_workers(counts), &f.stages));
    document.put("histograms", Members::new().done());
    document.put("raw_log", Json::Text(raw_path(iteration)));
    document.put("raw_metrics", Json::Text(raw_path(iteration)));
    document.done()
}

/// The figures of a run.
#[derive(Debug)]
pub struct StageRunFigures {
    pub throughput: Agg,
    pub elapsed: Agg,
    pub stages: PerStage<StageSummary>,
}

/// The scalars of a run.
pub open spec fn scalars_tree(f: StageRunFigures) -> JsonTree {
    JsonTree::Object(
        artifacts::with_stage_scalars(
            json_tree::no_members()
                .push(("total_throughput_records_per_sec"@, artifacts::agg_tree(f.throughput)))
                .push(("iteration_elapsed_seconds"@, artifacts::agg_tree(f.elapsed))),
            f.stages,
        ),
    )
}

fn scalars(f: &StageRunFigures) -> (r: Json)
    ensures
        r@ == scalars_tree(*f),
{
    let mut members = Members::new();
    members.put("total_throughput_records_per_sec", agg(&f.throughput));
    members.put("iteration_elapsed_seconds", agg(&f.elapsed));
    put_stage_scalars(&mut members, &f.stages);
    members.done()
}

/// The workers of each stage in the first iteration; none if there was none.
pub open spec fn first_workers(reports: Seq<StageIteration>) -> PerStage<u32> {
    if reports.len() == 0 {
        PerStage { source: 0, fetch: 0, decode: 0, sink_dispatch: 0 }
    } else {
        artifacts::workers_per_stage(reports[0].worker_counts)
    }
}

/// The results of the iterations.
pub open spec fn blocks(reports: Seq<StageIteration>, figures: Seq<StageIterationFigures>) -> Seq<
    JsonTree,
> {
    Seq::new(
        reports.len(),
        |i: int| iteration_block_tree(reports[i].iteration, reports[i].worker_counts, figures[i]),
    )
}

/// The document of the results of a run, from the counts and the figures of its
/// iterations.
pub fn build_results(
    reports: &Vec<StageIteration>,
    figures: &Vec<StageIterationFigures>,
    run: &StageRunFigures,
) -> (r: Json)
    requires
        figures@.len() == reports@.len(),
    ensures
        r@ == artifacts::results_tree(
            scalars_tree(*run),
            artifacts::stage_summaries_tree(first_workers(reports@), run.stages),
            blocks(reports@, figures@),
        ),
{
    let mut items = Items::new();
    let mut i: usize = 0;
    while i < reports.len()
        invariant
            i <= reports@.len() == figures@.len(),
            items@ == blocks(reports@, figures@).take(i as int),
        decreases reports@.len() - i,
    {
        items.push(
            iteration_block(reports[i].iteration, &reports[i].worker_counts, &figures[i]),
        );
        i = i + 1;
        assert(items@ =~= blocks(reports@, figures@).take(i as int));
    }
    assert(items@ =~= blocks(reports@, figures@));
    let first: PerStage<u32> = if reports.len() == 0 {
        PerStage { source: 0, fetch: 0, decode: 0, sink_dispatch: 0 }
    } else {
        per_stage_workers(&reports[0].worker_counts)
    };
    results(scalars(run), stage_summaries(&first, &run.stages), items)
}

/// What identifies a load, member by member.
pub open spec fn canonical_members(inputs: RunInputs) -> Map<Seq<char>, adapter::JsonView> {
    jsoneachrow::no_members()
        .insert("kind"@, adapter::JsonView::Text("phase07-stage-latencies"@))
        .insert(
            "records_per_source_range"@,
            adapter::JsonView::Number(inputs.records_per_source_range as int),
        )
        .insert("warmup_payloads"@, adapter::JsonView::Number(inputs.warmup_payloads as int))
        .insert("timed_payloads"@, adapter::JsonView::Number(inputs.timed_payloads as int))
        .insert("generator"@, adapter::JsonView::Text("phase07-stage-latencies-bench"@))
        .insert("decoder"@, adapter::JsonView::Text("FakeDecoder"@))
        .insert("sink"@, adapter::JsonView::Text("BenchSink"@))
}

/// The digest of what identifies a load, written as JSON.
pub fn fingerprint_hash(inputs: &RunInputs) -> (r: String)
    ensures
        r@ == real_ch::tagged_digest(jsoneachrow::object_json(canonical_members(*inputs))),
{
    let mut object = object_new();
    object_insert(&mut object, owned("kind"), JsonCell::Text(owned("phase07-stage-latencies")));
    object_insert(
        &mut object,
        owned("records_per_source_range"),
        JsonCell::Unsigned(inputs.records_per_source_range as u64),
    );
    object_insert(
        &mut object,
        owned("warmup_payloads"),
        JsonCell::Unsigned(inputs.warmup_payloads),
    );
    object_insert(&mut object, owned("timed_payloads"), JsonCell::Unsigned(inputs.timed_payloads));
    object_insert(
        &mut object,
        owned("generator"),
        JsonCell::Text(owned("phase07-stage-latencies-bench")),
    );
    object_insert(&mut object, owned("decoder"), JsonCell::Text(owned("FakeDecoder")));
    object_insert(&mut object, owned("sink"), JsonCell::Text(owned("BenchSink")));
    match object_bytes(&object) {
        Ok(bytes) => tagged_sha256(bytes.as_slice()),
        Err(_) => String::new(),
    }
}

/// Whether the size of a load can be written as a signed number.
pub open spec fn writable(inputs: RunInputs) -> bool {
    &&& inputs.records_per_source_range <= i64::MAX
    &&& inputs.warmup_payloads + inputs.timed_payloads <= i64::MAX
    &&& inputs.records_per_source_range * (inputs.warmup_payloads + inputs.timed_payloads)
        <= i64::MAX
}

/// The workers of a run, as its first iteration has them; one each if there was
/// none.
pub open spec fn run_workers(reports: Seq<StageIteration>) -> StageWorkerCounts {
    if reports.len() == 0 {
        StageWorkerCounts { source: 1, fetch: 1, decode: 1, sink_dispatch: 1 }
    } else {
        reports[0].worker_counts
    }
}

fn workers(reports: &Vec<StageIteration>) -> (r: StageWorkerCounts)
    ensures
        r == run_workers(reports@),
{
    if reports.len() == 0 {
        StageWorkerCounts { source: 1, fetch: 1, decode: 1, sink_dispatch: 1 }
    } else {
        reports[0].worker_counts
    }
}

/// When the timed window of the first iteration started; 0 if there was none.
pub open spec fn run_started(reports: Seq<StageIteration>) -> u64 {
    if reports.len() == 0 {
        0
    } else {
        reports[0].timed_started_unix_ms
    }
}

pub fn started_unix_ms(reports: &Vec<StageIteration>) -> (r: u64)
    ensures
        r == run_started(reports@),
{
    if reports.len() == 0 {
        0
    } else {
        reports[0].timed_started_unix_ms
    }
}

/// What a run keeps fixed.
pub open spec fn experiment_tree(inputs: RunInputs, w: StageWorkerCounts) -> JsonTree {
    JsonTree::Object(
        json_tree::no_members()
            .push(("kind"@, JsonTree::Text("ab"@)))
            .push(("dimensions"@, JsonTree::List(json_tree::no_items())))
            .push(("fixed_controls"@, JsonTree::Object(
                json_tree::no_members()
                    .push((
                        "records_per_source_range"@,
                        JsonTree::Count(inputs.records_per_source_range as u64),
                    ))
                    .push(("warmup_payloads"@, JsonTree::Count(inputs.warmup_payloads)))
                    .push(("timed_payloads"@, JsonTree::Count(inputs.timed_payloads)))
                    .push(("source.fetch_concurrency"@, JsonTree::Count(w.fetch as u64)))
                    .push(("source.decode_concurrency"@, JsonTree::Count(w.decode as u64)))
                    .push(("sink.max_concurrent_commits"@, JsonTree::Count(w.sink_dispatch as u64)))
                    .push(("runtime.dry_run"@, JsonTree::Flag(false)))
                    .push(("sink.kind"@, JsonTree::Text("bench-sink"@))),
            )))
            .push(("matrix_file"@, JsonTree::Null)),
    )
}

fn experiment(inputs: &RunInputs, w: &StageWorkerCounts) -> (r: Json)
    ensures
        r@ == experiment_tree(*inputs, *w),
{
    let mut document = Members::new();
    document.put_text("kind", "ab");
    document.put("dimensions", Items::new().done());
    let mut fixed_controls = Members::new();
    fixed_controls.put(
        "records_per_source_range",
        Json::Count(inputs.records_per_source_range as u64),
    );
    fixed_controls.put("warmup_payloads", Json::Count(inputs.warmup_payloads));
    fixed_controls.put("timed_payloads", Json::Count(inputs.timed_payloads));
    fixed_controls.put("source.fetch_concurrency", Json::Count(w.fetch as u64));
    fixed_controls.put("source.decode_concurrency", Json::Count(w.decode as u64));
    fixed_controls.put("sink.max_concurrent_commits", Json::Count(w.sink_dispatch as u64));
    fixed_controls.put("runtime.dry_run", Json::Flag(false));
    fixed_controls.put_text("sink.kind", "bench-sink");
    document.put("fixed_controls", fixed_controls.done());
    document.put("matrix_file", Json::Null);
    document.done()
}

/// What was built.
pub open spec fn binary_tree() -> JsonTree {
    JsonTree::Object(
        json_tree::no_members()
            .push(("name"@, JsonTree::Text("phase07-stage-latencies"@)))
            .push((
                "build_command"@,
                JsonTree::Text("cargo build --release -p clickhouse-ingestor-bench --bin phase07-stage-latencies"@),
            ))
            .push(("build_rev"@, JsonTree::Text("see git.opendata-contrib.rev"@)))
            .push(("build_flags"@, JsonTree::Text("release"@))),
    )
}

fn binary() -> (r: Json)
    ensures
        r@ == binary_tree(),
{
    let mut document = Members::new();
    document.put_text("name", "phase07-stage-latencies");
    document.put_text(
        "build_command",
        "cargo build --release -p clickhouse-ingestor-bench --bin phase07-stage-latencies",
    );
    document.put_text("build_rev", "see git.opendata-contrib.rev");
    document.put_text("build_flags", "release");
    document.done()
}

/// The settings that took effect.
pub open spec fn effective_config_tree(w: StageWorkerCounts) -> JsonTree {
    JsonTree::Object(
        json_tree::no_members()
            .push(("runtime_yaml_path"@, JsonTree::Null))
            .push(("effective_yaml_hash"@, JsonTree::Text("n/a"@)))
            .push(("effective_yaml"@, JsonTree::Object(
                json_tree::no_members()
                    .push(("buffer.object_store"@, JsonTree::Text("InMemory"@)))
                    .push(("buffer.batch_compression"@, JsonTree::Text("none"@)))
                    .push(("runtime.dry_run"@, JsonTree::Flag(false)))
                    .push((
                        "runtime.sink.max_concurrent_commits"@,
                        JsonTree::Count(w.sink_dispatch as u64),
                    ))
                    .push(("runtime.source.fetch_concurrency"@, JsonTree::Count(w.fetch as u64)))
                    .push(("runtime.source.decode_concurrency"@, JsonTree::Count(w.decode as u64)))
                    .push(("runtime.ack_flush_policy"@, JsonTree::Text("EveryCommitGroup"@)))
                    .push(("sink.kind"@, JsonTree::Text("bench-sink"@))),
            ))),
    )
}

fn effective_config(w: &StageWorkerCounts) -> (r: Json)
    ensures
        r@ == effective_config_tree(*w),
{
    let mut document = Members::new();
    document.put("runtime_yaml_path", Json::Null);
    document.put_text("effective_yaml_hash", "n/a");
    let mut effective_yaml = Members::new();
    effective_yaml.put_text("buffer.object_store", "InMemory");
    effective_yaml.put_text("buffer.batch_compression", "none");
    effective_yaml.put("runtime.dry_run", Json::Flag(false));
    effective_yaml.put("runtime.sink.max_concurrent_commits", Json::Count(w.sink_dispatch as u64));
    effective_yaml.put("runtime.source.fetch_concurrency", Json::Count(w.fetch as u64));
    effective_yaml.put("runtime.source.decode_concurrency", Json::Count(w.decode as u64));
    effective_yaml.put_text("runtime.ack_flush_policy", "EveryCommitGroup");
    effective_yaml.put_text("sink.kind", "bench-sink");
    document.put("effective_yaml", effective_yaml.done());
    document.done()
}

/// The services of a run.
pub open spec fn services_tree() -> JsonTree {
    JsonTree::Object(
        json_tree::no_members()
            .push(("clickhouse"@, JsonTree::Null))
            .push(("object_store"@, artifacts::object_store_tree()))
            .push(("iceberg"@, JsonTree::Null)),
    )
}

fn services() -> (r: Json)
    ensures
        r@ == services_tree(),
{
    let mut document = Members::new();
    document.put("clickhouse", Json::Null);
    document.put("object_store", object_store());
    document.put("iceberg", Json::Null);
    document.done()
}

/// The load of a run.
pub open spec fn load_tree(inputs: RunInputs) -> JsonTree {
    JsonTree::Object(
        json_tree::no_members()
            .push(("generator"@, JsonTree::Text("phase07-stage-latencies-bench"@)))
            .push(("generator_rev"@, JsonTree::Text("see git.opendata-contrib.rev"@)))
            .push(("seed"@, JsonTree::Count(0)))
            .push(("schema"@, JsonTree::Text("bench.fake.v1"@)))
            .push((
                "schema_hash"@,
                JsonTree::Text(real_ch::tagged_digest(encode_utf8("bench.fake.v1"@))),
            ))
            .push((
                "fingerprint"@,
                JsonTree::Text(
                    real_ch::fingerprint_text(
                        "stage-latencies"@,
                        inputs.records_per_source_range as nat,
                        inputs.warmup_payloads as nat,
                        inputs.timed_payloads as nat,
                    ),
                ),
            ))
            .push((
                "fingerprint_hash"@,
                JsonTree::Text(real_ch::tagged_digest(jsoneachrow::object_json(canonical_members(inputs)))),
            ))
            .push(("canonical_path"@, JsonTree::Text("raw/workload.canonical.json"@)))
            .push((
                "records_total"@,
                JsonTree::Whole(
                    (inputs.records_per_source_range * (inputs.warmup_payloads + inputs.timed_payloads)) as i64,
                ),
            ))
            .push((
                "batches_total"@,
                JsonTree::Whole((inputs.warmup_payloads + inputs.timed_payloads) as i64),
            ))
            .push(("records_per_batch"@, JsonTree::Whole(inputs.records_per_source_range as i64)))
            .push(("approx_bytes_per_record"@, JsonTree::Count(16)))
            .push(("encoding"@, JsonTree::Text("synthetic-payload-strings"@)))
            .push(("compression"@, JsonTree::Text("none"@)))
            .push(("attribute_cardinality"@, JsonTree::Null)),
    )
}

fn load(inputs: &RunInputs) -> (r: Json)
    requires
        writable(*inputs),
    ensures
        r@ == load_tree(*inputs),
{
    let batches: i64 = inputs.warmup_payloads as i64 + inputs.timed_payloads as i64;
    let mut document = Members::new();
    document.put_text("generator", "phase07-stage-latencies-bench");
    document.put_text("generator_rev", "see git.opendata-contrib.rev");
    document.put("seed", Json::Count(0));
    document.put_text("schema", "bench.fake.v1");
    document.put("schema_hash", Json::Text(tagged_sha256("bench.fake.v1".as_bytes())));
    document.put(
        "fingerprint",
        Json::Text(
            fingerprint(
                "stage-latencies",
                inputs.records_per_source_range as u64,
                inputs.warmup_payloads,
                inputs.timed_payloads,
            ),
        ),
    );
    document.put("fingerprint_hash", Json::Text(fingerprint_hash(inputs)));
    document.put_text("canonical_path", "raw/workload.canonical.json");
    document.put("records_total", Json::Whole(inputs.records_per_source_range as i64 * batches));
    document.put("batches_total", Json::Whole(batches));
    document.put("records_per_batch", Json::Whole(inputs.records_per_source_range as i64));
    document.put("approx_bytes_per_record", Json::Count(16));
    document.put_text("encoding", "synthetic-payload-strings");
    document.put_text("compression", "none");
    document.put("attribute_cardinality", Json::Null);
    document.done()
}

/// What a run was.
pub open spec fn build_metadata_tree(
    reports: Seq<StageIteration>,
    inputs: RunInputs,
    started_at: Seq<char>,
    ended_at: Seq<char>,
    git: GitInfo,
    host: HostFacts,
) -> JsonTree {
    JsonTree::Object(
        json_tree::no_members()
            .push(("schema_version"@, JsonTree::Count(2)))
            .push(("phase"@, JsonTree::Text(inputs.phase@)))
            .push(("unit_id"@, JsonTree::Text(inputs.unit_id@)))
            .push(("unit_title"@, JsonTree::Text(inputs.unit_title@)))
            .push(("owner"@, JsonTree::Text(inputs.owner@)))
            .push(("started_at"@, JsonTree::Text(started_at)))
            .push(("ended_at"@, JsonTree::Text(ended_at)))
            .push(("experiment"@, experiment_tree(inputs, run_workers(reports))))
            .push(("varied_param"@, JsonTree::Null))
            .push(("git"@, artifacts::repositories_tree(git)))
            .push(("host"@, artifacts::host_state_tree(host)))
            .push(("binary"@, binary_tree()))
            .push(("config"@, effective_config_tree(run_workers(reports))))
            .push(("services"@, services_tree()))
            .push(("workload"@, load_tree(inputs)))
            .push(("iterations"@, JsonTree::Whole(inputs.iterations as i64)))
            .push(("baseline_run"@, JsonTree::Null))
            .push(("notes"@, JsonTree::Text(inputs.notes@))),
    )
}

/// The document that says what a run was.
pub fn build_metadata(
    reports: &Vec<StageIteration>,
    inputs: &RunInputs,
    started_at: &str,
    ended_at: &str,
    git: &GitInfo,
    host: &HostFacts,
) -> (r: Json)
    requires
        writable(*inputs),
    ensures
        r@ == build_metadata_tree(reports@, *inputs, started_at@, ended_at@, *git, *host),
{
    let w: StageWorkerCounts = workers(reports);
    let mut document = Members::new();
    document.put("schema_version", Json::Count(2));
    document.put_text("phase", inputs.phase);
    document.put_text("unit_id", inputs.unit_id);
    document.put_text("unit_title", inputs.unit_title);
    document.put_text("owner", inputs.owner);
    document.put_text("started_at", started_at);
    document.put_text("ended_at", ended_at);
    document.put("experiment", experiment(inputs, &w));
    document.put("varied_param", Json::Null);
    document.put("git", repositories(git));
    document.put("host", host_state(host));
    document.put("binary", binary());
    document.put("config", effective_config(&w));
    document.put("services", services());
    document.put("workload", load(inputs));
    document.put("iterations", Json::Whole(inputs.iterations as i64));
    document.put("baseline_run", Json::Null);
    document.put_text("notes", inputs.notes);
    document.done()
}

/// The entry of an iteration holds each of its figures under its own name, its stages,
/// and the file of its samples.
pub proof fn law_iteration_is_reported(
    iteration: usize,
    counts: &StageWorkerCounts,
    f: &StageIterationFigures,
    r: Json,
    workers: PerStage<u32>,
    stages: Json,
    path: String,
)
    requires
        call_ensures(iteration_block, (iteration, counts, f), r),
        call_ensures(per_stage_workers, (counts,), workers),
        call_ensures(stages_in_iteration, (&workers, &f.stages), stages),
        call_ensures(raw_path, (iteration,), path),
    ensures
        json_tree::says(r@, seq!["iteration"@], JsonTree::Count(iteration as u64)),
        json_tree::says(
            r@,
            seq!["scalars"@, "iteration_elapsed_seconds"@],
            JsonTree::Real(f.elapsed_seconds),
        ),
        json_tree::says(
            r@,
            seq!["scalars"@, "iteration_throughput_records_per_sec"@],
            JsonTree::Real(f.throughput),
        ),
        json_tree::says(
            r@,
            seq!["scalars"@, "iteration_records_processed"@],
            JsonTree::Real(f.records_processed),
        ),
        json_tree::says(r@, seq!["stages"@], stages@),
        json_tree::says(r@, seq!["raw_log"@], JsonTree::Text(path@)),
        json_tree::says(r@, seq!["raw_metrics"@], JsonTree::Text(path@)),
{
    json_tree::lemma_says_member(r@, 0);
    json_tree::lemma_says_second(r@, 1, 0);
    json_tree::lemma_says_second(r@, 1, 1);
    json_tree::lemma_says_second(r@, 1, 2);
    json_tree::lemma_says_member(r@, 2);
    json_tree::lemma_says_member(r@, 4);
    json_tree::lemma_says_member(r@, 5);
}

/// The results of a run hold its scalars, its stages with the workers of its first
/// iteration, and the entry of every iteration in their order.
pub proof fn law_results_are_reported(
    reports: &Vec<StageIteration>,
    figures: &Vec<StageIterationFigures>,
    run: &StageRunFigures,
    r: Json,
    i: int,
    entry: Json,
    workers: PerStage<u32>,
    stages: Json,
    throughput: Json,
    elapsed: Json,
)
    requires
        figures@.len() == reports@.len(),
        0 <= i < reports@.len(),
        call_ensures(build_results, (reports, figures, run), r),
        call_ensures(per_stage_workers, (&reports@[0].worker_counts,), workers),
        call_ensures(stage_summaries, (&workers, &run.stages), stages),
        call_ensures(
            iteration_block,
            (reports@[i].iteration, &reports@[i].worker_counts, &figures@[i]),
            entry,
        ),
        call_ensures(agg, (&run.throughput,), throughput),
        call_ensures(agg, (&run.elapsed,), elapsed),
    ensures
        json_tree::says(r@, seq!["schema_version"@], JsonTree::Count(2)),
        json_tree::says(r@, seq!["scalars"@, "total_throughput_records_per_sec"@], throughput@),
        json_tree::says(r@, seq!["scalars"@, "iteration_elapsed_seconds"@], elapsed@),
        json_tree::says(r@, seq!["stages"@], stages@),
        exists|entries: Seq<JsonTree>|
            entries.len() == reports@.len() && entries[i] == entry@ && #[trigger] json_tree::says(
                r@,
                seq!["iterations"@],
                JsonTree::List(entries),
            ),
{
    let entries = r@->Object_0[4].1->List_0;
    json_tree::lemma_says_member(r@, 4);
    assert(entries.len() == reports@.len() && entries[i] == entry@);
    assert(json_tree::says(r@, seq!["iterations"@], JsonTree::List(entries)));
    json_tree::lemma_says_member(r@, 0);
    json_tree::lemma_says_second(r@, 1, 0);
    json_tree::lemma_says_second(r@, 1, 1);
    json_tree::lemma_says_member(r@, 2);
}

/// The metadata of a run says what it was, when it started and ended, what it was built
/// from and on which machine it ran.
pub proof fn law_run_is_described(
    reports: &Vec<StageIteration>,
    inputs: &RunInputs,
    started_at: &str,
    ended_at: &str,
    git: &GitInfo,
    host: &HostFacts,
    r: Json,
    trees: Json,
    machine: Json,
)
    requires
        writable(*inputs),
        call_ensures(build_metadata, (reports, inputs, started_at, ended_at, git, host), r),
        call_ensures(repositories, (git,), trees),
        call_ensures(host_state, (host,), machine),
    ensures
        json_tree::says(r@, seq!["schema_version"@], JsonTree::Count(2)),
        json_tree::says(r@, seq!["phase"@], JsonTree::Text(inputs.phase@)),
        json_tree::says(r@, seq!["unit_id"@], JsonTree::Text(inputs.unit_id@)),
        json_tree::says(r@, seq!["unit_title"@], JsonTree::Text(inputs.unit_title@)),
        json_tree::says(r@, seq!["owner"@], JsonTree::Text(inputs.owner@)),
        json_tree::says(r@, seq!["started_at"@], JsonTree::Text(started_at@)),
        json_tree::says(r@, seq!["ended_at"@], JsonTree::Text(ended_at@)),
        json_tree::says(r@, seq!["varied_param"@], JsonTree::Null),
        json_tree::says(r@, seq!["git"@], trees@),
        json_tree::says(r@, seq!["host"@], machine@),
        json_tree::says(r@, seq!["iterations"@], JsonTree::Whole(inputs.iterations as i64)),
        json_tree::says(r@, seq!["baseline_run"@], JsonTree::Null),
        json_tree::says(r@, seq!["notes"@], JsonTree::Text(inputs.notes@)),
{
    json_tree::lemma_says_member(r@, 0);
    json_tree::lemma_says_member(r@, 1);
    json_tree::lemma_says_member(r@, 2);
    json_tree::lemma_says_member(r@, 3);
    json_tree::lemma_says_member(r@, 4);
    json_tree::lemma_says_member(r@, 5);
    json_tree::lemma_says_member(r@, 6);
    json_tree::lemma_says_member(r@, 8);
    json_tree::lemma_says_member(r@, 9);
    json_tree::lemma_says_member(r@, 10);
    json_tree::lemma_says_member(r@, 15);
    json_tree::lemma_says_member(r@, 16);
    json_tree::lemma_says_member(r@, 17);
}

/// The metadata of a run names the workers of its stages, which are those of its first
/// iteration. They are the same where they are listed twice.
pub proof fn law_settings_of_a_run_are_described(
    reports: &Vec<StageIteration>,
    inputs: &RunInputs,
    started_at: &str,
    ended_at: &str,
    git: &GitInfo,
    host: &HostFacts,
    r: Json,
    w: StageWorkerCounts,
)
    requires
        writable(*inputs),
        call_ensures(build_metadata, (reports, inputs, started_at, ended_at, git, host), r),
        reports@.len() > 0 ==> w == reports@[0].worker_counts,
        reports@.len() == 0 ==> w == (StageWorkerCounts {
            source: 1,
            fetch: 1,
            decode: 1,
            sink_dispatch: 1,
        }),
    ensures
        json_tree::says(r@, seq!["experiment"@, "kind"@], JsonTree::Text("ab"@)),
        json_tree::says(
            r@,
            seq!["experiment"@, "fixed_controls"@, "records_per_source_range"@],
            JsonTree::Count(inputs.records_per_source_range as u64),
        ),
        json_tree::says(
            r@,
            seq!["experiment"@, "fixed_controls"@, "warmup_payloads"@],
            JsonTree::Count(inputs.warmup_payloads),
        ),
        json_tree::says(
            r@,
            seq!["experiment"@, "fixed_controls"@, "timed_payloads"@],
            JsonTree::Count(inputs.timed_payloads),
        ),
        json_tree::says(
            r@,
            seq!["experiment"@, "fixed_controls"@, "source.fetch_concurrency"@],
            JsonTree::Count(w.fetch as u64),
        ),
        json_tree::says(
            r@,
            seq!["experiment"@, "fixed_controls"@, "source.decode_concurrency"@],
            JsonTree::Count(w.decode as u64),
        ),
        json_tree::says(
            r@,
            seq!["experiment"@, "fixed_controls"@, "sink.max_concurrent_commits"@],
            JsonTree::Count(w.sink_dispatch as u64),
        ),
        json_tree::says(
            r@,
            seq!["experiment"@, "fixed_controls"@, "runtime.dry_run"@],
            JsonTree::Flag(false),
        ),
        json_tree::says(
            r@,
            seq!["experiment"@, "fixed_controls"@, "sink.kind"@],
            JsonTree::Text("bench-sink"@),
        ),
        json_tree::says(
            r@,
            seq!["config"@, "effective_yaml"@, "buffer.object_store"@],
            JsonTree::Text("InMemory"@),
        ),
        json_tree::says(
            r@,
            seq!["config"@, "effective_yaml"@, "buffer.batch_compression"@],
            JsonTree::Text("none"@),
        ),
        json_tree::says(
            r@,
            seq!["config"@, "effective_yaml"@, "runtime.dry_run"@],
            JsonTree::Flag(false),
        ),
        json_tree::says(
            r@,
            seq!["config"@, "effective_yaml"@, "runtime.sink.max_concurrent_commits"@],
            JsonTree::Count(w.sink_dispatch as u64),
        ),
        json_tree::says(
            r@,
            seq!["config"@, "effective_yaml"@, "runtime.source.fetch_concurrency"@],
            JsonTree::Count(w.fetch as u64),
        ),
        json_tree::says(
            r@,
            seq!["config"@, "effective_yaml"@, "runtime.source.decode_concurrency"@],
            JsonTree::Count(w.decode as u64),
        ),
        json_tree::says(
            r@,
            seq!["config"@, "effective_yaml"@, "runtime.ack_flush_policy"@],
            JsonTree::Text("EveryCommitGroup"@),
        ),
        json_tree::says(
            r@,
            seq!["config"@, "effective_yaml"@, "sink.kind"@],
            JsonTree::Text("bench-sink"@),
        ),
{
    json_tree::lemma_says_second(r@, 7, 0);
    json_tree::lemma_says_third(r@, 7, 2, 0);
    json_tree::lemma_says_third(r@, 7, 2, 1);
    json_tree::lemma_says_third(r@, 7, 2, 2);
    json_tree::lemma_says_third(r@, 7, 2, 3);
    json_tree::lemma_says_third(r@, 7, 2, 4);
    json_tree::lemma_says_third(r@, 7, 2, 5);
    json_tree::lemma_says_third(r@, 7, 2, 6);
    json_tree::lemma_says_third(r@, 7, 2, 7);
    json_tree::lemma_says_third(r@, 12, 2, 0);
    json_tree::lemma_says_third(r@, 12, 2, 1);
    json_tree::lemma_says_third(r@, 12, 2, 2);
    json_tree::lemma_says_third(r@, 12, 2, 3);
    json_tree::lemma_says_third(r@, 12, 2, 4);
    json_tree::lemma_says_third(r@, 12, 2, 5);
    json_tree::lemma_says_third(r@, 12, 2, 6);
    json_tree::lemma_says_third(r@, 12, 2, 7);
}

/// The metadata of a run describes its load: how many batches and records it comes to,
/// its short name and the digest that identifies it.
pub proof fn law_load_of_a_run_is_described(
    reports: &Vec<StageIteration>,
    inputs: &RunInputs,
    started_at: &str,
    ended_at: &str,
    git: &GitInfo,
    host: &HostFacts,
    r: Json,
    name: String,
    hash: String,
)
    requires
        writable(*inputs),
        call_ensures(build_metadata, (reports, inputs, started_at, ended_at, git, host), r),
        call_ensures(
            fingerprint,
            (
                "stage-latencies",
                inputs.records_per_source_range as u64,
                inputs.warmup_payloads,
                inputs.timed_payloads,
            ),
            name,
        ),
        call_ensures(fingerprint_hash, (inputs,), hash),
    ensures
        json_tree::says(
            r@,
            seq!["workload"@, "generator"@],
            JsonTree::Text("phase07-stage-latencies-bench"@),
        ),
        json_tree::says(r@, seq!["workload"@, "seed"@], JsonTree::Count(0)),
        json_tree::says(r@, seq!["workload"@, "schema"@], JsonTree::Text("bench.fake.v1"@)),
        json_tree::says(r@, seq!["workload"@, "fingerprint"@], JsonTree::Text(name@)),
        json_tree::says(r@, seq!["workload"@, "fingerprint_hash"@], JsonTree::Text(hash@)),
        json_tree::says(
            r@,
            seq!["workload"@, "canonical_path"@],
            JsonTree::Text("raw/workload.canonical.json"@),
        ),
        json_tree::says(
            r@,
            seq!["workload"@, "records_total"@],
            JsonTree::Whole((inputs.records_per_source_range * (inputs.warmup_payloads
                + inputs.timed_payloads)) as i64),
        ),
        json_tree::says(
            r@,
            seq!["workload"@, "batches_total"@],
            JsonTree::Whole((inputs.warmup_payloads + inputs.timed_payloads) as i64),
        ),
        json_tree::says(
            r@,
            seq!["workload"@, "records_per_batch"@],
            JsonTree::Whole(inputs.records_per_source_range as i64),
        ),
        json_tree::says(r@, seq!["workload"@, "approx_bytes_per_record"@], JsonTree::Count(16)),
        json_tree::says(
            r@,
            seq!["workload"@, "encoding"@],
            JsonTree::Text("synthetic-payload-strings"@),
        ),
        json_tree::says(r@, seq!["workload"@, "compression"@], JsonTree::Text("none"@)),
{
    json_tree::lemma_says_second(r@, 14, 0);
    json_tree::lemma_says_second(r@, 14, 2);
    json_tree::lemma_says_second(r@, 14, 3);
    json_tree::lemma_says_second(r@, 14, 5);
    json_tree::lemma_says_second(r@, 14, 6);
    json_tree::lemma_says_second(r@, 14, 7);
    json_tree::lemma_says_second(r@, 14, 8);
    json_tree::lemma_says_second(r@, 14, 9);
    json_tree::lemma_says_second(r@, 14, 10);
    json_tree::lemma_says_second(r@, 14, 11);
    json_tree::lemma_says_second(r@, 14, 12);
    json_tree::lemma_says_second(r@, 14, 13);
}

/// What identifies a load is made of its sizes: each of them stands under its own name in
/// what the digest is taken of, and where it was run from does not.
pub proof fn law_identity_of_a_load(inputs: RunInputs)
    ensures
        canonical_members(inputs).dom() == set![
            "kind"@,
            "records_per_source_range"@,
            "warmup_payloads"@,
            "timed_payloads"@,
            "generator"@,
            "decoder"@,
            "sink"@,
        ],
        canonical_members(inputs)["records_per_source_range"@] == adapter::JsonView::Number(
            inputs.records_per_source_range as int,
        ),
        canonical_members(inputs)["warmup_payloads"@] == adapter::JsonView::Number(
            inputs.warmup_payloads as int,
        ),
        canonical_members(inputs)["timed_payloads"@] == adapter::JsonView::Number(
            inputs.timed_payloads as int,
        ),
        canonical_members(inputs)["kind"@] == adapter::JsonView::Text("phase07-stage-latencies"@),
        canonical_members(inputs)["generator"@] == adapter::JsonView::Text(
            "phase07-stage-latencies-bench"@,
        ),
        canonical_members(inputs)["decoder"@] == adapter::JsonView::Text("FakeDecoder"@),
        canonical_members(inputs)["sink"@] == adapter::JsonView::Text("BenchSink"@),
{
    reveal_strlit("kind");
    reveal_strlit("records_per_source_range");
    reveal_strlit("warmup_payloads");
    reveal_strlit("timed_payloads");
    reveal_strlit("generator");
    reveal_strlit("decoder");
    reveal_strlit("sink");
    assert("kind"@.len() == 4 && "kind"@[0] == 'k');
    assert("sink"@.len() == 4 && "sink"@[0] == 's');
    assert("records_per_source_range"@.len() == 24);
    assert("warmup_payloads"@.len() == 15);
    assert("timed_payloads"@.len() == 14);
    assert("generator"@.len() == 9);
    assert("decoder"@.len() == 7);
    assert(canonical_members(inputs).dom() =~= set![
        "kind"@,
        "records_per_source_range"@,
        "warmup_payloads"@,
        "timed_payloads"@,
        "generator"@,
        "decoder"@,
        "sink"@,
    ]);
}

/// The documents of a run repeat its settings as they are.
pub proof fn law_settings_are_repeated(cfg: &StageLatenciesConfig, r: RunInputs)
    requires
        call_ensures(StageLatenciesConfig::inputs, (cfg,), r),
    ensures
        r.output_dir@ == cfg.output_dir@,
        r.change_slug@ == cfg.change_slug@,
        r.records_per_source_range == cfg.records_per_source_range,
        r.warmup_payloads == cfg.warmup_payloads,
        r.timed_payloads == cfg.timed_payloads,
        r.iterations == cfg.iterations,
        r.notes@ == cfg.notes@,
        r.unit_id@ == "7.1"@,
        r.phase@ == "phase07-clickhouse-throughput"@,
{
}

/// An iteration keeps its manifest and its data apart, and apart from those of other
/// iterations: both paths hold its number.
pub proof fn law_iterations_have_their_own_buffer(iteration: usize, r: (String, String))
    requires
        call_ensures(iteration_paths, (iteration,), r),
    ensures
        r.0@ == "phase07/"@ + "7.1"@ + "/iter-"@ + crate::text::decimal(iteration as nat) + "/"@
            + "manifest"@,
        r.1@ == "phase07/"@ + "7.1"@ + "/iter-"@ + crate::text::decimal(iteration as nat) + "/"@
            + "data"@,
{
}

/// A run started when its first window did, or at 0 where there was none.
pub proof fn law_run_starts_with_its_first_window(reports: &Vec<StageIteration>, r: u64)
    requires
        call_ensures(started_unix_ms, (reports,), r),
    ensures
        reports@.len() > 0 ==> r == reports@[0].timed_started_unix_ms,
        reports@.len() == 0 ==> r == 0,
{
}

} // verus!
