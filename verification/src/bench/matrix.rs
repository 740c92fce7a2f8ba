//! The sweep over wire formats and HTTP clients.
use std::time::Duration;
use vstd::prelude::*;

use crate::bench::calendar;
use crate::bench::calendar::utc_iso;
use crate::bench::json_tree;
use crate::bench::json_tree::{text_value, Items, Json, JsonTree, Members};
use crate::bench::real_ch::RealChConfig;
use crate::bench::workload;
use crate::bench::workload::LogWorkloadConfig;
use crate::serializer;
use crate::serializer::SerializationFormat;
use crate::text::owned;
use crate::time;
use crate::writer;
use crate::writer::HttpClientMode;

verus! {

/// One combination of the sweep.
#[derive(Debug)]
pub struct MatrixPoint {
    pub id: String,
    pub serialization_format: SerializationFormat,
    pub http_client_mode: HttpClientMode,
}

/// Whether a point has a name and a place in the sweep.
pub open spec fn point_is(
    p: MatrixPoint,
    id: &'static str,
    format: SerializationFormat,
    mode: HttpClientMode,
) -> bool {
    p.id@ == id@ && p.serialization_format == format && p.http_client_mode == mode
}

/// The client of the pooled points.
pub open spec fn pool() -> HttpClientMode {
    HttpClientMode::Pooled { pool_max_idle_per_host: 16, pool_idle_timeout_ms: 30_000 }
}

/// Whether the points are both formats under both clients.
pub open spec fn is_full_sweep(points: Seq<MatrixPoint>) -> bool {
    &&& points.len() == 4
    &&& point_is(
        points[0],
        "point-001",
        SerializationFormat::JsonEachRow,
        HttpClientMode::PerCall,
    )
    &&& point_is(points[1], "point-002", SerializationFormat::JsonEachRow, pool())
    &&& point_is(points[2], "point-003", SerializationFormat::RowBinary, HttpClientMode::PerCall)
    &&& point_is(points[3], "point-004", SerializationFormat::RowBinary, pool())
}

fn point(
    id: &str,
    serialization_format: SerializationFormat,
    http_client_mode: HttpClientMode,
) -> (r:
    MatrixPoint)
    ensures
        r.id@ == id@,
        r.serialization_format == serialization_format,
        r.http_client_mode == http_client_mode,
{
    MatrixPoint { id: owned(id), serialization_format, http_client_mode }
}

/// Both formats under both clients.
pub fn default_format_x_http_points() -> (r: Vec<MatrixPoint>)
    ensures
        is_full_sweep(r@),
{
    let pooled = HttpClientMode::Pooled {
        pool_max_idle_per_host: 16,
        pool_idle_timeout_ms: 30_000,
    };
    let mut r: Vec<MatrixPoint> = Vec::new();
    r.push(point("point-001", SerializationFormat::JsonEachRow, HttpClientMode::PerCall));
    r.push(point("point-002", SerializationFormat::JsonEachRow, pooled));
    r.push(point("point-003", SerializationFormat::RowBinary, HttpClientMode::PerCall));
    r.push(point("point-004", SerializationFormat::RowBinary, pooled));
    r
}

/// The default sweep holds every format with a fresh client and with the pool,
/// once each, and no two points share a name, so that each has a directory of its
/// own.
pub proof fn law_sweep_is_complete(points: Seq<MatrixPoint>, format: SerializationFormat, pooled: bool)
    requires
        is_full_sweep(points),
    ensures
        exists|i: int|
            0 <= i < points.len() && (#[trigger] points[i]).serialization_format == format
                && points[i].http_client_mode == if pooled {
                pool()
            } else {
                HttpClientMode::PerCall
            },
        forall|i: int, j: int|
            0 <= i < j < points.len() ==> (#[trigger] points[i]).id@ != (#[trigger] points[j]).id@
                && (points[i].serialization_format != points[j].serialization_format
                || points[i].http_client_mode != points[j].http_client_mode),
{
    reveal_strlit("point-001");
    reveal_strlit("point-002");
    reveal_strlit("point-003");
    reveal_strlit("point-004");
    assert("point-001"@[8] == '1');
    assert("point-002"@[8] == '2');
    assert("point-003"@[8] == '3');
    assert("point-004"@[8] == '4');
    let k: int = match format {
        SerializationFormat::JsonEachRow => if pooled {
            1
        } else {
            0
        },
        SerializationFormat::RowBinary => if pooled {
            3
        } else {
            2
        },
    };
    assert(points[k].serialization_format == format);
}

/// The settings of a sweep.
#[derive(Debug)]
pub struct MatrixConfig {
    pub workload: LogWorkloadConfig,
    pub iterations: usize,
    pub warmup_deadline: Duration,
    pub timed_deadline: Duration,
    pub output_dir: String,
    pub change_slug: String,
    pub notes: String,
    pub points: Vec<MatrixPoint>,
}

impl Default for MatrixConfig {
    fn default() -> (r: Self)
        ensures
            workload::is_default_load(r.workload),
            r.iterations == 1,
            time::duration_nanos(r.warmup_deadline) == 120_000_000_000,
            time::duration_nanos(r.timed_deadline) == 600_000_000_000,
            r.output_dir@ == "bench-results/phase07/7.6-chunk-and-concurrency-sweep"@,
            r.change_slug@ == "format-x-http"@,
            r.notes@ == Seq::<char>::empty(),
            is_full_sweep(r.points@),
    {
        MatrixConfig {
            workload: LogWorkloadConfig::default(),
            iterations: 1,
            warmup_deadline: Duration::from_secs(120),
            timed_deadline: Duration::from_secs(600),
            output_dir: owned("bench-results/phase07/7.6-chunk-and-concurrency-sweep"),
            change_slug: owned("format-x-http"),
            notes: String::new(),
            points: default_format_x_http_points(),
        }
    }
}

/// Why a sweep is not run, or does not count.
#[derive(Debug, Clone, Copy, PartialEq, Eq, Structural)]
pub enum MatrixError {
    NoPoints,
    PointFailed,
}

/// The message of an error.
pub open spec fn matrix_error_text(e: MatrixError) -> &'static str {
    match e {
        MatrixError::NoPoints =>
            "matrix has zero points to run — check `--only-points` filter against the registered point IDs",
        MatrixError::PointFailed =>
            "at least one matrix point failed its correctness gate; see correctness.json under each point's subdir",
    }
}

impl MatrixError {
    pub fn message(&self) -> (r: &'static str)
        ensures
            r@ == matrix_error_text(*self)@,
    {
        match self {
            MatrixError::NoPoints =>
                "matrix has zero points to run — check `--only-points` filter against the registered point IDs",
            MatrixError::PointFailed =>
                "at least one matrix point failed its correctness gate; see correctness.json under each point's subdir",
        }
    }
}

/// Whether a sweep can be run: it has points.
pub fn check_points(points: &Vec<MatrixPoint>) -> (r: Result<(), MatrixError>)
    ensures
        r == if points@.len() == 0 {
            Err::<(), MatrixError>(MatrixError::NoPoints)
        } else {
            Ok(())
        },
{
    if points.len() == 0 {
        Err(MatrixError::NoPoints)
    } else {
        Ok(())
    }
}

/// What a point is said to be in the notes of its run.
pub open spec fn point_notes_text(p: MatrixPoint) -> Seq<char> {
    "Phase 7.6 matrix point "@ + p.id@ + "; format="@ + serializer::format_label(
        p.serialization_format,
    )@ + ", http_mode="@ + writer::http_mode_text(p.http_client_mode)@
}

pub fn point_notes(p: &MatrixPoint) -> (r: String)
    ensures
        r@ == point_notes_text(*p),
{
    let mut out = owned("Phase 7.6 matrix point ");
    out.append(p.id.as_str());
    out.append("; format=");
    out.append(p.serialization_format.as_label());
    out.append(", http_mode=");
    out.append(p.http_client_mode.as_label());
    out
}

/// The run of a point: the settings of the sweep, with the format and the client
/// of the point, in a directory of its own.
pub fn point_config(cfg: &MatrixConfig, p: &MatrixPoint, point_dir: String) -> (r: RealChConfig)
    ensures
        workload::same_load(r.workload, cfg.workload),
        r.iterations == cfg.iterations,
        r.runtime_options is None,
        r.serialization_format == p.serialization_format,
        r.http_client_mode == p.http_client_mode,
        r.warmup_deadline == cfg.warmup_deadline,
        r.timed_deadline == cfg.timed_deadline,
        r.output_dir == point_dir,
        r.change_slug@ == p.id@,
        r.notes@ == point_notes_text(*p),
{
    RealChConfig {
        workload: cfg.workload.copy(),
        iterations: cfg.iterations,
        runtime_options: None,
        serialization_format: p.serialization_format,
        http_client_mode: p.http_client_mode,
        warmup_deadline: cfg.warmup_deadline,
        timed_deadline: cfg.timed_deadline,
        output_dir: point_dir,
        change_slug: owned(p.id.as_str()),
        notes: point_notes(p),
    }
}

/// The figures of a point.
#[derive(Debug, Clone, Copy, PartialEq, Eq, Structural)]
pub struct PointFigures {
    pub throughput: u64,
    pub elapsed_median: u64,
    pub source_utilization: u64,
    pub fetch_utilization: u64,
    pub decode_utilization: u64,
    pub sink_dispatch_utilization: u64,
    pub serialize_fraction: u64,
    pub serialize_seconds: u64,
    pub serialization_bytes: u64,
    pub end_to_end: u64,
    pub iterations: usize,
}

/// A point that was run: whether its run was good, and its figures.
#[derive(Debug)]
pub struct MatrixPointResult {
    pub point: MatrixPoint,
    pub correctness_passed: bool,
    pub figures: PointFigures,
}

/// Whether every point was good; a sweep with one that was not does not count.
pub fn check_results(points: &Vec<MatrixPointResult>) -> (r: Result<(), MatrixError>)
    ensures
        r == if forall|i: int|
            0 <= i < points@.len() ==> (#[trigger] points@[i]).correctness_passed {
            Ok::<(), MatrixError>(())
        } else {
            Err(MatrixError::PointFailed)
        },
{
    let mut i: usize = 0;
    while i < points.len()
        invariant
            i <= points@.len(),
            forall|j: int| 0 <= j < i ==> (#[trigger] points@[j]).correctness_passed,
        decreases points@.len() - i,
    {
        if !points[i].correctness_passed {
            return Err(MatrixError::PointFailed);
        }
        i = i + 1;
    }
    Ok(())
}

/// The place of a point in the sweep.
pub open spec fn coordinates_tree(p: MatrixPoint) -> JsonTree {
    JsonTree::Object(
        json_tree::no_members()
            .push((
                "serialization_format"@,
                JsonTree::Text(serializer::format_label(p.serialization_format)@),
            ))
            .push((
                "http_client_mode"@,
                JsonTree::Text(writer::http_mode_text(p.http_client_mode)@),
            )),
    )
}

pub fn coordinates(p: &MatrixPoint) -> (r: Json)
    ensures
        r@ == coordinates_tree(*p),
{
    let mut document = Members::new();
    document.put_text("serialization_format", p.serialization_format.as_label());
    document.put_text("http_client_mode", p.http_client_mode.as_label());
    document.done()
}

/// The object of a point.
pub open spec fn point_block_tree(r: MatrixPointResult) -> JsonTree {
    JsonTree::Object(
        json_tree::no_members()
            .push(("id"@, JsonTree::Text(r.point.id@)))
            .push(("coordinates"@, coordinates_tree(r.point)))
            .push(("correctness_passed"@, JsonTree::Flag(r.correctness_passed)))
            .push(("subdir"@, JsonTree::Text(r.point.id@)))
            .push(("scalars"@, JsonTree::Object(
                json_tree::no_members()
                    .push((
                        "total_throughput_records_per_sec"@,
                        JsonTree::Real(r.figures.throughput),
                    ))
                    .push((
                        "iteration_elapsed_seconds_median"@,
                        JsonTree::Real(r.figures.elapsed_median),
                    ))
                    .push(("worker_utilization"@, JsonTree::Object(
                        json_tree::no_members()
                            .push(("source"@, JsonTree::Real(r.figures.source_utilization)))
                            .push(("fetch"@, JsonTree::Real(r.figures.fetch_utilization)))
                            .push(("decode"@, JsonTree::Real(r.figures.decode_utilization)))
                            .push((
                                "sink_dispatch"@,
                                JsonTree::Real(r.figures.sink_dispatch_utilization),
                            )),
                    )))
                    .push((
                        "serialize_fraction_of_insert"@,
                        JsonTree::Real(r.figures.serialize_fraction),
                    ))
                    .push((
                        "serialize_seconds_per_record"@,
                        JsonTree::Real(r.figures.serialize_seconds),
                    ))
                    .push((
                        "serialization_bytes_per_record"@,
                        JsonTree::Real(r.figures.serialization_bytes),
                    ))
                    .push(("end_to_end_seconds_per_record"@, JsonTree::Real(r.figures.end_to_end)))
                    .push(("iterations"@, JsonTree::Whole(r.figures.iterations as i64))),
            ))),
    )
}

pub fn point_block(r: &MatrixPointResult) -> (json: Json)
    ensures
        json@ == point_block_tree(*r),
{
    let mut document = Members::new();
    document.put_text("id", r.point.id.as_str());
    document.put("coordinates", coordinates(&r.point));
    document.put("correctness_passed", Json::Flag(r.correctness_passed));
    document.put_text("subdir", r.point.id.as_str());
    let mut scalars = Members::new();
    scalars.put("total_throughput_records_per_sec", Json::Real(r.figures.throughput));
    scalars.put("iteration_elapsed_seconds_median", Json::Real(r.figures.elapsed_median));
    let mut worker_utilization = Members::new();
    worker_utilization.put("source", Json::Real(r.figures.source_utilization));
    worker_utilization.put("fetch", Json::Real(r.figures.fetch_utilization));
    worker_utilization.put("decode", Json::Real(r.figures.decode_utilization));
    worker_utilization.put("sink_dispatch", Json::Real(r.figures.sink_dispatch_utilization));
    scalars.put("worker_utilization", worker_utilization.done());
    scalars.put("serialize_fraction_of_insert", Json::Real(r.figures.serialize_fraction));
    scalars.put("serialize_seconds_per_record", Json::Real(r.figures.serialize_seconds));
    scalars.put("serialization_bytes_per_record", Json::Real(r.figures.serialization_bytes));
    scalars.put("end_to_end_seconds_per_record", Json::Real(r.figures.end_to_end));
    scalars.put("iterations", Json::Whole(r.figures.iterations as i64));
    document.put("scalars", scalars.done());
    document.done()
}

/// The objects of all points.
pub open spec fn point_blocks(points: Seq<MatrixPointResult>) -> Seq<JsonTree> {
    Seq::new(points.len(), |i: int| point_block_tree(points[i]))
}

fn point_items(points: &Vec<MatrixPointResult>) -> (r: Items)
    ensures
        r@ == point_blocks(points@),
{
    let mut items = Items::new();
    let mut i: usize = 0;
    while i < points.len()
        invariant
            i <= points@.len(),
            items@ == point_blocks(points@).take(i as int),
        decreases points@.len() - i,
    {
        items.push(point_block(&points[i]));
        i = i + 1;
        assert(items@ =~= point_blocks(points@).take(i as int));
    }
    assert(items@ =~= point_blocks(points@));
    items
}

/// What a sweep keeps fixed.
pub open spec fn fixed_controls_tree(load: LogWorkloadConfig) -> JsonTree {
    JsonTree::Object(
        json_tree::no_members()
            .push((
                "records_per_source_range"@,
                JsonTree::Count(load.records_per_source_range as u64),
            ))
            .push(("warmup_payloads"@, JsonTree::Count(load.warmup_payloads as u64)))
            .push(("timed_payloads"@, JsonTree::Count(load.timed_payloads as u64))),
    )
}

fn fixed_controls(load: &LogWorkloadConfig) -> (r: Json)
    ensures
        r@ == fixed_controls_tree(*load),
{
    let mut document = Members::new();
    document.put("records_per_source_range", Json::Count(load.records_per_source_range as u64));
    document.put("warmup_payloads", Json::Count(load.warmup_payloads as u64));
    document.put("timed_payloads", Json::Count(load.timed_payloads as u64));
    document.done()
}

/// What a sweep varies.
pub open spec fn dimensions_tree() -> JsonTree {
    JsonTree::List(
        json_tree::no_items()
            .push(JsonTree::Text("serialization_format"@))
            .push(JsonTree::Text("http_client_mode"@)),
    )
}

fn dimensions() -> (r: Json)
    ensures
        r@ == dimensions_tree(),
{
    let mut axes = Items::new();
    axes.push(text_value("serialization_format"));
    axes.push(text_value("http_client_mode"));
    axes.done()
}

/// The index of a sweep, point by point.
pub open spec fn matrix_index_tree(
    load: LogWorkloadConfig,
    points: Seq<MatrixPointResult>,
) -> JsonTree {
    JsonTree::Object(
        json_tree::no_members()
            .push(("schema_version"@, JsonTree::Count(2)))
            .push(("dimensions"@, dimensions_tree()))
            .push(("fixed_controls"@, fixed_controls_tree(load)))
            .push(("points"@, JsonTree::List(point_blocks(points))))
            .push(("skip_summary"@, JsonTree::Object(
                json_tree::no_members()
                    .push((
                        "rule_1_workload_axis_correctness_check_inert_pairs"@,
                        JsonTree::Count(0),
                    ))
                    .push((
                        "notes"@,
                        JsonTree::Text("Row 7.6 lightweight: only format × http_mode dimensions; the workload-axis correctness check from the design's full 6-axis sweep doesn't apply here."@),
                    )),
            ))),
    )
}

/// The index of a sweep.
pub fn matrix_index(load: &LogWorkloadConfig, points: &Vec<MatrixPointResult>) -> (r: Json)
    ensures
        r@ == matrix_index_tree(*load, points@),
{
    let mut document = Members::new();
    document.put("schema_version", Json::Count(2));
    document.put("dimensions", dimensions());
    document.put("fixed_controls", fixed_controls(load));
    document.put("points", point_items(points).done());
    let mut skip_summary = Members::new();
    skip_summary.put("rule_1_workload_axis_correctness_check_inert_pairs", Json::Count(0));
    skip_summary.put_text(
        "notes",
        "Row 7.6 lightweight: only format × http_mode dimensions; the workload-axis correctness check from the design's full 6-axis sweep doesn't apply here.",
    );
    document.put("skip_summary", skip_summary.done());
    document.done()
}

/// What a sweep was.
pub open spec fn matrix_metadata_tree(
    cfg: MatrixConfig,
    started_unix_ms: u64,
    ended_unix_ms: u64,
) -> JsonTree {
    JsonTree::Object(
        json_tree::no_members()
            .push(("schema_version"@, JsonTree::Count(2)))
            .push(("phase"@, JsonTree::Text("phase07-clickhouse-throughput"@)))
            .push(("unit_id"@, JsonTree::Text("7.6"@)))
            .push((
                "unit_title"@,
                JsonTree::Text("Sweep workload × sink × format × http_mode (matrix experiment per benchmarks.md)"@),
            ))
            .push(("owner"@, JsonTree::Text("Benchmark/Perf Implementor"@)))
            .push((
                "started_at"@,
                JsonTree::Text(calendar::iso_text(calendar::civil_at((started_unix_ms / 1000) as int))),
            ))
            .push((
                "ended_at"@,
                JsonTree::Text(calendar::iso_text(calendar::civil_at((ended_unix_ms / 1000) as int))),
            ))
            .push(("experiment"@, JsonTree::Object(
                json_tree::no_members()
                    .push(("kind"@, JsonTree::Text("matrix"@)))
                    .push(("dimensions"@, dimensions_tree()))
                    .push(("fixed_controls"@, fixed_controls_tree(cfg.workload)))
                    .push(("matrix_file"@, JsonTree::Text("matrix.json"@))),
            )))
            .push(("varied_param"@, JsonTree::Null))
            .push(("notes"@, JsonTree::Text(cfg.notes@))),
    )
}

/// The document that says what a sweep was.
pub fn matrix_metadata(cfg: &MatrixConfig, started_unix_ms: u64, ended_unix_ms: u64) -> (r: Json)
    ensures
        r@ == matrix_metadata_tree(*cfg, started_unix_ms, ended_unix_ms),
{
    let mut document = Members::new();
    document.put("schema_version", Json::Count(2));
    document.put_text("phase", "phase07-clickhouse-throughput");
    document.put_text("unit_id", "7.6");
    document.put_text(
        "unit_title",
        "Sweep workload × sink × format × http_mode (matrix experiment per benchmarks.md)",
    );
    document.put_text("owner", "Benchmark/Perf Implementor");
    document.put("started_at", Json::Text(utc_iso(started_unix_ms)));
    document.put("ended_at", Json::Text(utc_iso(ended_unix_ms)));
    let mut experiment = Members::new();
    experiment.put_text("kind", "matrix");
    experiment.put("dimensions", dimensions());
    experiment.put("fixed_controls", fixed_controls(&cfg.workload));
    experiment.put_text("matrix_file", "matrix.json");
    document.put("experiment", experiment.done());
    document.put("varied_param", Json::Null);
    document.put_text("notes", cfg.notes.as_str());
    document.done()
}

/// The entry of a point says where it stands in the sweep, whether its run was good, and
/// each of its figures under its own name.
pub proof fn law_point_is_reported(
    r: &MatrixPointResult,
    json: Json,
    label: &'static str,
    client: &'static str,
)
    requires
        call_ensures(point_block, (r,), json),
        call_ensures(SerializationFormat::as_label, (r.point.serialization_format,), label),
        call_ensures(HttpClientMode::as_label, (&r.point.http_client_mode,), client),
    ensures
        json_tree::says(json@, seq!["id"@], JsonTree::Text(r.point.id@)),
        json_tree::says(
            json@,
            seq!["coordinates"@, "serialization_format"@],
            JsonTree::Text(label@),
        ),
        json_tree::says(json@, seq!["coordinates"@, "http_client_mode"@], JsonTree::Text(client@)),
        json_tree::says(json@, seq!["correctness_passed"@], JsonTree::Flag(r.correctness_passed)),
        json_tree::says(json@, seq!["subdir"@], JsonTree::Text(r.point.id@)),
        json_tree::says(
            json@,
            seq!["scalars"@, "total_throughput_records_per_sec"@],
            JsonTree::Real(r.figures.throughput),
        ),
        json_tree::says(
            json@,
            seq!["scalars"@, "iteration_elapsed_seconds_median"@],
            JsonTree::Real(r.figures.elapsed_median),
        ),
        json_tree::says(
            json@,
            seq!["scalars"@, "worker_utilization"@, "source"@],
            JsonTree::Real(r.figures.source_utilization),
        ),
        json_tree::says(
            json@,
            seq!["scalars"@, "worker_utilization"@, "fetch"@],
            JsonTree::Real(r.figures.fetch_utilization),
        ),
        json_tree::says(
            json@,
            seq!["scalars"@, "worker_utilization"@, "decode"@],
            JsonTree::Real(r.figures.decode_utilization),
        ),
        json_tree::says(
            json@,
            seq!["scalars"@, "worker_utilization"@, "sink_dispatch"@],
            JsonTree::Real(r.figures.sink_dispatch_utilization),
        ),
        json_tree::says(
            json@,
            seq!["scalars"@, "serialize_fraction_of_insert"@],
            JsonTree::Real(r.figures.serialize_fraction),
        ),
        json_tree::says(
            json@,
            seq!["scalars"@, "serialize_seconds_per_record"@],
            JsonTree::Real(r.figures.serialize_seconds),
        ),
        json_tree::says(
            json@,
            seq!["scalars"@, "serialization_bytes_per_record"@],
            JsonTree::Real(r.figures.serialization_bytes),
        ),
        json_tree::says(
            json@,
            seq!["scalars"@, "end_to_end_seconds_per_record"@],
            JsonTree::Real(r.figures.end_to_end),
        ),
        json_tree::says(
            json@,
            seq!["scalars"@, "iterations"@],
            JsonTree::Whole(r.figures.iterations as i64),
        ),
{
    json_tree::lemma_says_member(json@, 0);
    json_tree::lemma_says_second(json@, 1, 0);
    json_tree::lemma_says_second(json@, 1, 1);
    json_tree::lemma_says_member(json@, 2);
    json_tree::lemma_says_member(json@, 3);
    json_tree::lemma_says_second(json@, 4, 0);
    json_tree::lemma_says_second(json@, 4, 1);
    json_tree::lemma_says_third(json@, 4, 2, 0);
    json_tree::lemma_says_third(json@, 4, 2, 1);
    json_tree::lemma_says_third(json@, 4, 2, 2);
    json_tree::lemma_says_third(json@, 4, 2, 3);
    json_tree::lemma_says_second(json@, 4, 3);
    json_tree::lemma_says_second(json@, 4, 4);
    json_tree::lemma_says_second(json@, 4, 5);
    json_tree::lemma_says_second(json@, 4, 6);
    json_tree::lemma_says_second(json@, 4, 7);
}

/// The index of a sweep holds the entry of every point, in their order, and what was the
/// same for all of them.
pub proof fn law_index_lists_every_point(
    load: &LogWorkloadConfig,
    points: &Vec<MatrixPointResult>,
    r: Json,
    i: int,
    entry: Json,
)
    requires
        call_ensures(matrix_index, (load, points), r),
        0 <= i < points@.len(),
        call_ensures(point_block, (&points@[i],), entry),
    ensures
        json_tree::says(r@, seq!["schema_version"@], JsonTree::Count(2)),
        json_tree::says(
            r@,
            seq!["fixed_controls"@, "records_per_source_range"@],
            JsonTree::Count(load.records_per_source_range as u64),
        ),
        json_tree::says(
            r@,
            seq!["fixed_controls"@, "warmup_payloads"@],
            JsonTree::Count(load.warmup_payloads as u64),
        ),
        json_tree::says(
            r@,
            seq!["fixed_controls"@, "timed_payloads"@],
            JsonTree::Count(load.timed_payloads as u64),
        ),
        exists|entries: Seq<JsonTree>|
            entries.len() == points@.len() && entries[i] == entry@ && #[trigger] json_tree::says(
                r@,
                seq!["points"@],
                JsonTree::List(entries),
            ),
{
    let entries = point_blocks(points@);
    json_tree::lemma_says_member(r@, 3);
    assert(entries.len() == points@.len() && entries[i] == entry@);
    assert(json_tree::says(r@, seq!["points"@], JsonTree::List(entries)));
    json_tree::lemma_says_member(r@, 0);
    json_tree::lemma_says_second(r@, 2, 0);
    json_tree::lemma_says_second(r@, 2, 1);
    json_tree::lemma_says_second(r@, 2, 2);
}

/// The metadata of a sweep says when it started and when it ended, and what it kept
/// fixed.
pub proof fn law_sweep_is_described(
    cfg: &MatrixConfig,
    started: u64,
    ended: u64,
    r: Json,
    from: String,
    to: String,
)
    requires
        call_ensures(matrix_metadata, (cfg, started, ended), r),
        call_ensures(utc_iso, (started,), from),
        call_ensures(utc_iso, (ended,), to),
    ensures
        json_tree::says(r@, seq!["schema_version"@], JsonTree::Count(2)),
        json_tree::says(r@, seq!["phase"@], JsonTree::Text("phase07-clickhouse-throughput"@)),
        json_tree::says(r@, seq!["unit_id"@], JsonTree::Text("7.6"@)),
        json_tree::says(r@, seq!["owner"@], JsonTree::Text("Benchmark/Perf Implementor"@)),
        json_tree::says(r@, seq!["started_at"@], JsonTree::Text(from@)),
        json_tree::says(r@, seq!["ended_at"@], JsonTree::Text(to@)),
        json_tree::says(r@, seq!["experiment"@, "kind"@], JsonTree::Text("matrix"@)),
        json_tree::says(
            r@,
            seq!["experiment"@, "fixed_controls"@, "records_per_source_range"@],
            JsonTree::Count(cfg.workload.records_per_source_range as u64),
        ),
        json_tree::says(
            r@,
            seq!["experiment"@, "fixed_controls"@, "warmup_payloads"@],
            JsonTree::Count(cfg.workload.warmup_payloads as u64),
        ),
        json_tree::says(
            r@,
            seq!["experiment"@, "fixed_controls"@, "timed_payloads"@],
            JsonTree::Count(cfg.workload.timed_payloads as u64),
        ),
        json_tree::says(r@, seq!["experiment"@, "matrix_file"@], JsonTree::Text("matrix.json"@)),
        json_tree::says(r@, seq!["varied_param"@], JsonTree::Null),
        json_tree::says(r@, seq!["notes"@], JsonTree::Text(cfg.notes@)),
{
    json_tree::lemma_says_member(r@, 0);
    json_tree::lemma_says_member(r@, 1);
    json_tree::lemma_says_member(r@, 2);
    json_tree::lemma_says_member(r@, 4);
    json_tree::lemma_says_member(r@, 5);
    json_tree::lemma_says_member(r@, 6);
    json_tree::lemma_says_second(r@, 7, 0);
    json_tree::lemma_says_third(r@, 7, 2, 0);
    json_tree::lemma_says_third(r@, 7, 2, 1);
    json_tree::lemma_says_third(r@, 7, 2, 2);
    json_tree::lemma_says_second(r@, 7, 3);
    json_tree::lemma_says_member(r@, 8);
    json_tree::lemma_says_member(r@, 9);
}

/// The sweep goes through both formats, each with a fresh client first and then with the
/// pool, which keeps sixteen connections for half a minute.
pub proof fn law_sweep_order(points: Vec<MatrixPoint>)
    requires
        call_ensures(default_format_x_http_points, (), points),
    ensures
        points@.len() == 4,
        forall|i: int|
            0 <= i < 4 ==> ((#[trigger] points@[i]).serialization_format
                == SerializationFormat::JsonEachRow <==> i < 2),
        forall|i: int|
            0 <= i < 4 ==> ((#[trigger] points@[i]).serialization_format
                == SerializationFormat::RowBinary <==> i >= 2),
        forall|i: int|
            0 <= i < 4 ==> ((#[trigger] points@[i]).http_client_mode == HttpClientMode::PerCall
                <==> i % 2 == 0),
        forall|i: int|
            0 <= i < 4 && i % 2 == 1 ==> (#[trigger] points@[i]).http_client_mode == (
            HttpClientMode::Pooled { pool_max_idle_per_host: 16, pool_idle_timeout_ms: 30_000 }),
{
}

/// A sweep is run if it has a point, and counts if every point was good: one that was
/// not is enough to refuse it.
pub proof fn law_one_bad_point_fails_the_sweep(
    points: &Vec<MatrixPoint>,
    results: &Vec<MatrixPointResult>,
    r: Result<(), MatrixError>,
    s: Result<(), MatrixError>,
    i: int,
)
    requires
        call_ensures(check_points, (points,), r),
        call_ensures(check_results, (results,), s),
    ensures
        points@.len() > 0 ==> r is Ok,
        points@.len() == 0 ==> r == Err::<(), MatrixError>(MatrixError::NoPoints),
        0 <= i < results@.len() && !results@[i].correctness_passed ==> s == Err::<(), MatrixError>(
            MatrixError::PointFailed,
        ),
        (forall|k: int|
            0 <= k < results@.len() ==> (#[trigger] results@[k]).correctness_passed) ==> s is Ok,
{
}

/// The run of a point is that of the sweep, but for the format and the client, which
/// are those of the point, and the directory and the name, which are its own.
pub proof fn law_point_runs_as_the_sweep(
    cfg: &MatrixConfig,
    p: &MatrixPoint,
    dir: String,
    r: RealChConfig,
)
    requires
        call_ensures(point_config, (cfg, p, dir), r),
    ensures
        r.serialization_format == p.serialization_format,
        r.http_client_mode == p.http_client_mode,
        r.output_dir@ == dir@,
        r.change_slug@ == p.id@,
        r.iterations == cfg.iterations,
        r.runtime_options is None,
        r.warmup_deadline == cfg.warmup_deadline,
        r.timed_deadline == cfg.timed_deadline,
        r.workload.source_id@ == cfg.workload.source_id@,
        r.workload.service_name@ == cfg.workload.service_name@,
        r.workload.records_per_source_range == cfg.workload.records_per_source_range,
        r.workload.warmup_payloads == cfg.workload.warmup_payloads,
        r.workload.timed_payloads == cfg.workload.timed_payloads,
        r.workload.manifest_path@ == cfg.workload.manifest_path@,
        r.workload.data_prefix@ == cfg.workload.data_prefix@,
{
}

} // verus!
