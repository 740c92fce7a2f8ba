//! What the files of a throughput run are made of. Figures are computed outside
//! and come here as the bits of floating-point numbers.
use vstd::prelude::*;
use vstd::utf8::*;

use crate::bench::json_tree;
use crate::bench::json_tree::{Items, Json, JsonTree, Members};
use crate::bench::stage;
use crate::bench::stage::{Stage, StageWorkerCounts};
use crate::text;
use crate::text::{owned, push_decimal, same_text, trim};

verus! {

/// What is said of a run of figures: the median, the tenth and the ninetieth
/// percentile, and how many there are.
#[derive(Debug, Clone, Copy, PartialEq, Eq, Structural)]
pub struct Agg {
    pub median: u64,
    pub p10: u64,
    pub p90: u64,
    pub n: usize,
}

/// The object of a run of figures.
pub open spec fn agg_tree(a: Agg) -> JsonTree {
    JsonTree::Object(
        json_tree::no_members()
            .push(("median"@, JsonTree::Real(a.median)))
            .push(("p10"@, JsonTree::Real(a.p10)))
            .push(("p90"@, JsonTree::Real(a.p90)))
            .push(("n"@, JsonTree::Whole(a.n as i64))),
    )
}

pub fn agg(a: &Agg) -> (r: Json)
    ensures
        r@ == agg_tree(*a),
{
    let mut document = Members::new();
    document.put("median", Json::Real(a.median));
    document.put("p10", Json::Real(a.p10));
    document.put("p90", Json::Real(a.p90));
    document.put("n", Json::Whole(a.n as i64));
    document.done()
}

/// The state of the work tree that a run was built from.
#[derive(Debug)]
pub struct GitInfo {
    pub rev: String,
    pub branch: String,
    pub dirty: bool,
}

/// The text with the white space around it taken off.
pub open spec fn trimmed(s: Seq<char>) -> Seq<char> {
    text::trimmed_end(text::trimmed_start(s))
}

/// Whether a revision can be cut after seven bytes: it has no more, or a character
/// ends there.
pub open spec fn can_be_cut(s: Seq<char>) -> bool {
    encode_utf8(trimmed(s)).len() <= 7 || is_char_boundary(encode_utf8(trimmed(s)), 7)
}

/// Whether `r` is a revision cut after seven bytes.
pub open spec fn short_revision(s: Seq<char>, r: Seq<char>) -> bool {
    encode_utf8(r) == if encode_utf8(trimmed(s)).len() <= 7 {
        encode_utf8(trimmed(s))
    } else {
        encode_utf8(trimmed(s)).take(7)
    }
}

fn shorten(s: &str) -> (r: String)
    requires
        can_be_cut(s@),
    ensures
        short_revision(s@, r@),
{
    let t: &str = trim(s);
    if t.as_bytes().len() <= 7 {
        owned(t)
    } else {
        let (head, _) = t.split_at(7);
        assert(encode_utf8(head@) =~= encode_utf8(trimmed(s@)).take(7));
        owned(head)
    }
}

/// What the answers of `git` say of a work tree: the revision, the branch, and the
/// listing of changed files. A question that was not answered counts as an empty
/// answer.
pub fn git_info(rev: Option<&str>, branch: Option<&str>, changes: Option<&str>) -> (r: GitInfo)
    requires
        rev matches Some(s) ==> can_be_cut(s@),
    ensures
        match rev {
            Some(s) => short_revision(s@, r.rev@),
            None => r.rev@ == Seq::<char>::empty(),
        },
        r.branch@ == (match branch {
            Some(s) => trimmed(s@),
            None => Seq::empty(),
        }),
        r.dirty == (changes matches Some(s) && s@.len() > 0),
{
    let rev: String = match rev {
        Some(s) => shorten(s),
        None => String::new(),
    };
    let branch: String = match branch {
        Some(s) => owned(trim(s)),
        None => String::new(),
    };
    let dirty: bool = match changes {
        Some(s) => s.unicode_len() > 0,
        None => false,
    };
    GitInfo { rev, branch, dirty }
}

/// The object of a work tree.
pub open spec fn git_state_tree(git: GitInfo) -> JsonTree {
    JsonTree::Object(
        json_tree::no_members()
            .push(("rev"@, JsonTree::Text(git.rev@)))
            .push(("branch"@, JsonTree::Text(git.branch@)))
            .push(("dirty"@, JsonTree::Flag(git.dirty))),
    )
}

pub fn git_state(git: &GitInfo) -> (r: Json)
    ensures
        r@ == git_state_tree(*git),
{
    let mut document = Members::new();
    document.put_text("rev", git.rev.as_str());
    document.put_text("branch", git.branch.as_str());
    document.put("dirty", Json::Flag(git.dirty));
    document.done()
}

/// The machine that a run was made on.
#[derive(Debug)]
pub struct HostFacts {
    pub machine: String,
    pub os: String,
    pub cpu_model: String,
    pub cpu_count_logical: i64,
}

/// The object of a machine.
pub open spec fn host_state_tree(host: HostFacts) -> JsonTree {
    JsonTree::Object(
        json_tree::no_members()
            .push(("machine"@, JsonTree::Text(host.machine@)))
            .push(("os"@, JsonTree::Text(host.os@)))
            .push(("cpu_model"@, JsonTree::Text(host.cpu_model@)))
            .push(("cpu_count_logical"@, JsonTree::Whole(host.cpu_count_logical)))
            .push(("memory_gb"@, JsonTree::Whole(-1i64 as i64)))
            .push(("container"@, JsonTree::Null))
            .push(("low_perturbation"@, JsonTree::Flag(true))),
    )
}

pub fn host_state(host: &HostFacts) -> (r: Json)
    ensures
        r@ == host_state_tree(*host),
{
    let mut document = Members::new();
    document.put_text("machine", host.machine.as_str());
    document.put_text("os", host.os.as_str());
    document.put_text("cpu_model", host.cpu_model.as_str());
    document.put("cpu_count_logical", Json::Whole(host.cpu_count_logical));
    document.put("memory_gb", Json::Whole(-1));
    document.put("container", Json::Null);
    document.put("low_perturbation", Json::Flag(true));
    document.done()
}

/// The object of the work trees of a run.
pub open spec fn repositories_tree(git: GitInfo) -> JsonTree {
    JsonTree::Object(
        json_tree::no_members()
            .push(("opendata"@, JsonTree::Null))
            .push(("opendata-go"@, JsonTree::Null))
            .push(("opendata-contrib"@, git_state_tree(git))),
    )
}

pub fn repositories(git: &GitInfo) -> (r: Json)
    ensures
        r@ == repositories_tree(*git),
{
    let mut document = Members::new();
    document.put("opendata", Json::Null);
    document.put("opendata-go", Json::Null);
    document.put("opendata-contrib", git_state(git));
    document.done()
}

/// The object of the store behind the buffer.
pub open spec fn object_store_tree() -> JsonTree {
    JsonTree::Object(
        json_tree::no_members()
            .push(("kind"@, JsonTree::Text("in-memory"@)))
            .push(("endpoint"@, JsonTree::Null))
            .push(("region"@, JsonTree::Null))
            .push(("bucket"@, JsonTree::Null))
            .push(("container_image"@, JsonTree::Null)),
    )
}

pub fn object_store() -> (r: Json)
    ensures
        r@ == object_store_tree(),
{
    let mut document = Members::new();
    document.put_text("kind", "in-memory");
    document.put("endpoint", Json::Null);
    document.put("region", Json::Null);
    document.put("bucket", Json::Null);
    document.put("container_image", Json::Null);
    document.done()
}

/// The file of the samples of an iteration, below the directory of raw files.
pub open spec fn raw_file_text(iteration: nat) -> Seq<char> {
    "run-"@ + text::decimal(iteration) + ".metrics.jsonl"@
}

pub fn raw_file(iteration: usize) -> (r: String)
    ensures
        r@ == raw_file_text(iteration as nat),
{
    let mut out = owned("run-");
    push_decimal(&mut out, iteration as u64);
    out.append(".metrics.jsonl");
    out
}

/// The file of the samples of an iteration, below the run directory.
pub fn raw_path(iteration: usize) -> (r: String)
    ensures
        r@ == "raw/"@ + raw_file_text(iteration as nat),
{
    let mut out = owned("raw/");
    out.append(raw_file(iteration).as_str());
    out
}

/// The metric that holds the latencies of the stages.
pub const STAGE_LATENCY_SECONDS: &'static str = "runtime_stage_latency_seconds";

/// The latencies of each stage, as the bits of seconds.
#[derive(Debug)]
pub struct StageSamples {
    pub source: Vec<u64>,
    pub fetch: Vec<u64>,
    pub decode: Vec<u64>,
    pub sink_dispatch: Vec<u64>,
}

/// The latencies of a stage.
pub open spec fn samples_of(samples: StageSamples, stage: Stage) -> Seq<u64> {
    match stage {
        Stage::Source => samples.source@,
        Stage::Fetch => samples.fetch@,
        Stage::Decode => samples.decode@,
        Stage::SinkDispatch => samples.sink_dispatch@,
    }
}

impl StageSamples {
    pub fn new() -> (r: Self)
        ensures
            forall|s: Stage| #[trigger] samples_of(r, s) == Seq::<u64>::empty(),
    {
        let r = StageSamples {
            source: Vec::new(),
            fetch: Vec::new(),
            decode: Vec::new(),
            sink_dispatch: Vec::new(),
        };
        assert forall|s: Stage| #[trigger] samples_of(r, s) == Seq::<u64>::empty() by {
            assert(samples_of(r, s) =~= Seq::<u64>::empty());
        }
        r
    }

    pub fn get(&self, stage: Stage) -> (r: &Vec<u64>)
        ensures
            r@ == samples_of(*self, stage),
    {
        match stage {
            Stage::Source => &self.source,
            Stage::Fetch => &self.fetch,
            Stage::Decode => &self.decode,
            Stage::SinkDispatch => &self.sink_dispatch,
        }
    }

    fn extend(&mut self, stage: Stage, values: &Vec<u64>)
        ensures
            forall|s: Stage| #[trigger]
                samples_of(*final(self), s) == if s == stage {
                    samples_of(*old(self), s) + values@
                } else {
                    samples_of(*old(self), s)
                },
    {
        match stage {
            Stage::Source => extend_values(&mut self.source, values),
            Stage::Fetch => extend_values(&mut self.fetch, values),
            Stage::Decode => extend_values(&mut self.decode, values),
            Stage::SinkDispatch => extend_values(&mut self.sink_dispatch, values),
        }
    }
}

fn extend_values(out: &mut Vec<u64>, values: &Vec<u64>)
    ensures
        final(out)@ == old(out)@ + values@,
{
    let mut i: usize = 0;
    while i < values.len()
        invariant
            i <= values@.len(),
            out@ == old(out)@ + values@.take(i as int),
        decreases values@.len() - i,
    {
        out.push(values[i]);
        i = i + 1;
        assert(values@.take(i as int) =~= values@.take(i - 1).push(values@[i - 1]));
    }
    assert(values@.take(i as int) =~= values@);
}

/// A series of a snapshot of the metrics: its name, its labels and, if it is a
/// histogram, its samples.
#[derive(Debug)]
pub struct MetricSeries {
    pub name: String,
    pub labels: Vec<(String, String)>,
    pub samples: Option<Vec<u64>>,
}

/// The first label of a name.
pub open spec fn label_of(labels: Seq<(String, String)>, name: Seq<char>) -> Option<Seq<char>>
    decreases labels.len(),
{
    if labels.len() == 0 {
        None
    } else if labels[0].0@ == name {
        Some(labels[0].1@)
    } else {
        label_of(labels.drop_first(), name)
    }
}

fn find_label<'a>(labels: &'a Vec<(String, String)>, name: &str) -> (r: Option<&'a str>)
    ensures
        match r {
            Some(s) => label_of(labels@, name@) == Some(s@),
            None => label_of(labels@, name@) is None,
        },
{
    let mut i: usize = 0;
    assert(labels@.skip(0) =~= labels@);
    while i < labels.len()
        invariant
            i <= labels@.len(),
            label_of(labels@, name@) == label_of(labels@.skip(i as int), name@),
        decreases labels@.len() - i,
    {
        assert(labels@.skip(i as int).drop_first() =~= labels@.skip(i + 1));
        if same_text(labels[i].0.as_str(), name) {
            return Some(labels[i].1.as_str());
        }
        i = i + 1;
    }
    None
}

/// Whether a series holds the latencies of a stage.
pub open spec fn holds_latencies(series: MetricSeries, stage: Stage) -> bool {
    &&& series.name@ == STAGE_LATENCY_SECONDS@
    &&& series.samples is Some
    &&& label_of(series.labels@, "stage"@) == Some(stage::stage_label(stage)@)
}

/// The latencies of a stage in the first `n` series, in their order.
pub open spec fn collected(series: Seq<MetricSeries>, stage: Stage, n: nat) -> Seq<u64>
    decreases n,
{
    if n == 0 {
        Seq::empty()
    } else {
        let front = collected(series, stage, (n - 1) as nat);
        if holds_latencies(series[n - 1], stage) {
            front + series[n - 1].samples->0@
        } else {
            front
        }
    }
}

/// Picks the latencies of the stages out of a snapshot.
pub fn collect_stage_samples(series: &Vec<MetricSeries>) -> (r: StageSamples)
    ensures
        forall|s: Stage| #[trigger] samples_of(r, s) == collected(series@, s, series@.len()),
{
    let mut r = StageSamples::new();
    let mut i: usize = 0;
    while i < series.len()
        invariant
            i <= series@.len(),
            forall|s: Stage| #[trigger] samples_of(r, s) == collected(series@, s, i as nat),
        decreases series@.len() - i,
    {
        let ghost before = r;
        let one: &MetricSeries = &series[i];
        if same_text(one.name.as_str(), STAGE_LATENCY_SECONDS) {
            if let Some(values) = &one.samples {
                if let Some(label) = find_label(&one.labels, "stage") {
                    if let Some(stage) = Stage::parse(label) {
                        r.extend(stage, values);
                        proof {
                            assert forall|s: Stage| s != stage implies !#[trigger] holds_latencies(
                                *one,
                                s,
                            ) by {
                                if holds_latencies(*one, s) {
                                    stage::law_stage_labels_distinct(s, stage);
                                }
                            }
                        }
                    }
                }
            }
        }
        i = i + 1;
        assert forall|s: Stage| #[trigger] samples_of(r, s) == collected(series@, s, i as nat) by {
            assert(samples_of(before, s) == collected(series@, s, (i - 1) as nat));
        }
    }
    r
}

/// The samples of the first `n` series of a name, in their order.
pub open spec fn named_samples(series: Seq<MetricSeries>, name: Seq<char>, n: nat) -> Seq<u64>
    decreases n,
{
    if n == 0 {
        Seq::empty()
    } else {
        let front = named_samples(series, name, (n - 1) as nat);
        if series[n - 1].name@ == name && series[n - 1].samples is Some {
            front + series[n - 1].samples->0@
        } else {
            front
        }
    }
}

/// Picks the samples of one metric out of a snapshot.
pub fn collect_samples(series: &Vec<MetricSeries>, name: &str) -> (r: Vec<u64>)
    ensures
        r@ == named_samples(series@, name@, series@.len()),
{
    let mut r: Vec<u64> = Vec::new();
    let mut i: usize = 0;
    while i < series.len()
        invariant
            i <= series@.len(),
            r@ == named_samples(series@, name@, i as nat),
        decreases series@.len() - i,
    {
        if same_text(series[i].name.as_str(), name) {
            if let Some(values) = &series[i].samples {
                extend_values(&mut r, values);
            }
        }
        i = i + 1;
    }
    r
}

/// A series is counted for one stage at most: the samples of a snapshot are
/// shared out between the stages, and none of them twice.
pub proof fn law_samples_have_one_stage(series: MetricSeries, a: Stage, b: Stage)
    requires
        holds_latencies(series, a),
        holds_latencies(series, b),
    ensures
        a == b,
{
    stage::law_stage_labels_distinct(a, b);
}

/// The samples at one place of each iteration, of those that are long enough.
pub open spec fn column(per_iteration: Seq<Vec<u64>>, place: nat, n: nat) -> Seq<u64>
    decreases n,
{
    if n == 0 {
        Seq::empty()
    } else {
        let front = column(per_iteration, place, (n - 1) as nat);
        if place < per_iteration[n - 1]@.len() {
            front.push(per_iteration[n - 1]@[place as int])
        } else {
            front
        }
    }
}

/// Lines the iterations up by the place of a sample.
pub fn sample_column(per_iteration: &Vec<Vec<u64>>, place: usize) -> (r: Vec<u64>)
    ensures
        r@ == column(per_iteration@, place as nat, per_iteration@.len()),
{
    let mut r: Vec<u64> = Vec::new();
    let mut i: usize = 0;
    while i < per_iteration.len()
        invariant
            i <= per_iteration@.len(),
            r@ == column(per_iteration@, place as nat, i as nat),
        decreases per_iteration@.len() - i,
    {
        if place < per_iteration[i].len() {
            r.push(per_iteration[i][place]);
        }
        i = i + 1;
    }
    r
}

/// What is said of the samples at one place.
#[derive(Debug, Clone, Copy, PartialEq, Eq, Structural)]
pub struct PlaceFigures {
    pub sample_index: usize,
    pub median: u64,
    pub p90: u64,
    pub max: u64,
    pub n: usize,
}

/// The object of one place.
pub open spec fn place_figures_tree(p: PlaceFigures) -> JsonTree {
    JsonTree::Object(
        json_tree::no_members()
            .push(("sample_index"@, JsonTree::Whole(p.sample_index as i64)))
            .push(("median"@, JsonTree::Real(p.median)))
            .push(("p90"@, JsonTree::Real(p.p90)))
            .push(("max"@, JsonTree::Real(p.max)))
            .push(("n"@, JsonTree::Whole(p.n as i64))),
    )
}

pub fn place_figures(p: &PlaceFigures) -> (r: Json)
    ensures
        r@ == place_figures_tree(*p),
{
    let mut document = Members::new();
    document.put("sample_index", Json::Whole(p.sample_index as i64));
    document.put("median", Json::Real(p.median));
    document.put("p90", Json::Real(p.p90));
    document.put("max", Json::Real(p.max));
    document.put("n", Json::Whole(p.n as i64));
    document.done()
}

/// The objects of all places.
pub open spec fn places_tree(places: Seq<PlaceFigures>) -> JsonTree {
    JsonTree::List(Seq::new(places.len(), |i: int| place_figures_tree(places[i])))
}

fn places(figures: &Vec<PlaceFigures>) -> (r: Json)
    ensures
        r@ == places_tree(figures@),
{
    let mut items = Items::new();
    let mut i: usize = 0;
    while i < figures.len()
        invariant
            i <= figures@.len(),
            items@ == Seq::new(i as nat, |j: int| place_figures_tree(figures@[j])),
        decreases figures@.len() - i,
    {
        items.push(place_figures(&figures[i]));
        i = i + 1;
        assert(items@ =~= Seq::new(i as nat, |j: int| place_figures_tree(figures@[j])));
    }
    items.done()
}

/// The series of a stage.
pub open spec fn stage_series_tree(stage: Stage, figures: Seq<PlaceFigures>) -> JsonTree {
    JsonTree::Object(
        json_tree::no_members()
            .push(("metric"@, JsonTree::Text(STAGE_LATENCY_SECONDS@)))
            .push(("labels"@, JsonTree::Object(
                json_tree::no_members()
                    .push(("alignment"@, JsonTree::Text("sample_index"@)))
                    .push(("stage"@, JsonTree::Text(stage::stage_label(stage)@))),
            )))
            .push(("samples"@, places_tree(figures))),
    )
}

pub fn stage_series(stage: Stage, figures: &Vec<PlaceFigures>) -> (r: Json)
    ensures
        r@ == stage_series_tree(stage, figures@),
{
    let mut document = Members::new();
    document.put_text("metric", STAGE_LATENCY_SECONDS);
    let mut labels = Members::new();
    labels.put_text("alignment", "sample_index");
    labels.put_text("stage", stage.as_label());
    document.put("labels", labels.done());
    document.put("samples", places(figures));
    document.done()
}

/// The figures of the four stages, place by place.
#[derive(Debug)]
pub struct StageFigures {
    pub source: Vec<PlaceFigures>,
    pub fetch: Vec<PlaceFigures>,
    pub decode: Vec<PlaceFigures>,
    pub sink_dispatch: Vec<PlaceFigures>,
}

/// A list of numbers.
pub open spec fn counts_tree(values: Seq<u64>) -> JsonTree {
    JsonTree::List(Seq::new(values.len(), |i: int| JsonTree::Count(values[i])))
}

fn counts(values: &Vec<u64>) -> (r: Json)
    ensures
        r@ == counts_tree(values@),
{
    let mut items = Items::new();
    let mut i: usize = 0;
    while i < values.len()
        invariant
            i <= values@.len(),
            items@ == Seq::new(i as nat, |j: int| JsonTree::Count(values@[j])),
        decreases values@.len() - i,
    {
        items.push(Json::Count(values[i]));
        i = i + 1;
        assert(items@ =~= Seq::new(i as nat, |j: int| JsonTree::Count(values@[j])));
    }
    items.done()
}

/// The bits of the number one.
pub const ONE_BITS: u64 = 0x3ff0_0000_0000_0000;

/// How the latencies of a run went.
pub open spec fn timeseries_tree(starts_unix_ms: Seq<u64>, figures: StageFigures) -> JsonTree {
    JsonTree::Object(
        json_tree::no_members()
            .push(("schema_version"@, JsonTree::Count(2)))
            .push(("window_seconds"@, JsonTree::Real(ONE_BITS)))
            .push(("iterations_aggregated"@, JsonTree::Whole(starts_unix_ms.len() as i64)))
            .push(("iteration_starts_unix_ms"@, counts_tree(starts_unix_ms)))
            .push(("series"@, JsonTree::List(
                json_tree::no_items()
                    .push(stage_series_tree(Stage::Source, figures.source@))
                    .push(stage_series_tree(Stage::Fetch, figures.fetch@))
                    .push(stage_series_tree(Stage::Decode, figures.decode@))
                    .push(stage_series_tree(Stage::SinkDispatch, figures.sink_dispatch@)),
            ))),
    )
}

/// The document of how the latencies went, sample by sample: when each iteration
/// started, and the series of each stage.
pub fn timeseries(starts_unix_ms: &Vec<u64>, figures: &StageFigures) -> (r: Json)
    ensures
        r@ == timeseries_tree(starts_unix_ms@, *figures),
{
    let mut document = Members::new();
    document.put("schema_version", Json::Count(2));
    document.put("window_seconds", Json::Real(ONE_BITS));
    document.put("iterations_aggregated", Json::Whole(starts_unix_ms.len() as i64));
    document.put("iteration_starts_unix_ms", counts(starts_unix_ms));
    let mut series = Items::new();
    series.push(stage_series(Stage::Source, &figures.source));
    series.push(stage_series(Stage::Fetch, &figures.fetch));
    series.push(stage_series(Stage::Decode, &figures.decode));
    series.push(stage_series(Stage::SinkDispatch, &figures.sink_dispatch));
    document.put("series", series.done());
    document.done()
}

/// The line of one sample. Samples are dated a millisecond apart.
pub open spec fn sample_line_tree(
    started_unix_ms: u64,
    iteration: usize,
    stage: Stage,
    index: int,
    value: u64,
) -> JsonTree {
    JsonTree::Object(
        json_tree::no_members()
            .push(("ts_unix_ms"@, JsonTree::Count((started_unix_ms + index) as u64)))
            .push(("metric"@, JsonTree::Text(STAGE_LATENCY_SECONDS@)))
            .push(("value"@, JsonTree::Real(value)))
            .push(("labels"@, JsonTree::Object(
                json_tree::no_members()
                    .push(("iteration"@, JsonTree::Count(iteration as u64)))
                    .push(("stage"@, JsonTree::Text(stage::stage_label(stage)@)))
                    .push(("sample_index"@, JsonTree::Count(index as u64))),
            ))),
    )
}

fn sample_line(
    started_unix_ms: u64,
    iteration: usize,
    stage: Stage,
    index: usize,
    value: u64,
) -> (r: Json)
    requires
        started_unix_ms + index <= u64::MAX,
    ensures
        r@ == sample_line_tree(started_unix_ms, iteration, stage, index as int, value),
{
    let mut document = Members::new();
    document.put("ts_unix_ms", Json::Count(started_unix_ms + index as u64));
    document.put_text("metric", STAGE_LATENCY_SECONDS);
    document.put("value", Json::Real(value));
    let mut labels = Members::new();
    labels.put("iteration", Json::Count(iteration as u64));
    labels.put_text("stage", stage.as_label());
    labels.put("sample_index", Json::Count(index as u64));
    document.put("labels", labels.done());
    document.done()
}

/// The lines of a stage.
pub open spec fn stage_lines(
    started_unix_ms: u64,
    iteration: usize,
    stage: Stage,
    values: Seq<u64>,
) -> Seq<JsonTree> {
    Seq::new(
        values.len(),
        |i: int| sample_line_tree(started_unix_ms, iteration, stage, i, values[i]),
    )
}

/// The lines of all stages, in their order.
pub open spec fn raw_lines(started_unix_ms: u64, iteration: usize, samples: StageSamples) -> Seq<
    JsonTree,
> {
    stage_lines(started_unix_ms, iteration, Stage::Source, samples.source@) + stage_lines(
        started_unix_ms,
        iteration,
        Stage::Fetch,
        samples.fetch@,
    ) + stage_lines(started_unix_ms, iteration, Stage::Decode, samples.decode@) + stage_lines(
        started_unix_ms,
        iteration,
        Stage::SinkDispatch,
        samples.sink_dispatch@,
    )
}

/// The values of a list of documents.
pub open spec fn trees(documents: Seq<Json>) -> Seq<JsonTree> {
    Seq::new(documents.len(), |i: int| documents[i]@)
}

fn push_stage_lines(
    out: &mut Vec<Json>,
    started_unix_ms: u64,
    iteration: usize,
    stage: Stage,
    values: &Vec<u64>,
)
    requires
        started_unix_ms + values@.len() <= u64::MAX + 1,
    ensures
        trees(final(out)@) == trees(old(out)@) + stage_lines(
            started_unix_ms,
            iteration,
            stage,
            values@,
        ),
{
    let ghost before = out@;
    let mut i: usize = 0;
    assert(trees(out@) =~= trees(before) + stage_lines(
        started_unix_ms,
        iteration,
        stage,
        values@,
    ).take(0));
    while i < values.len()
        invariant
            i <= values@.len(),
            started_unix_ms + values@.len() <= u64::MAX + 1,
            trees(out@) == trees(before) + stage_lines(
                started_unix_ms,
                iteration,
                stage,
                values@,
            ).take(i as int),
        decreases values@.len() - i,
    {
        let ghost prior = out@;
        let ghost lines = stage_lines(started_unix_ms, iteration, stage, values@);
        let line = sample_line(started_unix_ms, iteration, stage, i, values[i]);
        out.push(line);
        assert(trees(out@) =~= trees(prior).push(line@));
        assert(lines.take(i + 1) =~= lines.take(i as int).push(lines[i as int]));
        i = i + 1;
        assert(trees(out@) =~= trees(before) + stage_lines(
            started_unix_ms,
            iteration,
            stage,
            values@,
        ).take(i as int));
    }
    assert(stage_lines(started_unix_ms, iteration, stage, values@).take(i as int) =~= stage_lines(
        started_unix_ms,
        iteration,
        stage,
        values@,
    ));
}

/// Whether every sample can be dated.
pub open spec fn datable(started_unix_ms: u64, samples: StageSamples) -> bool {
    forall|s: Stage| started_unix_ms + (#[trigger] samples_of(samples, s)).len() <= u64::MAX + 1
}

/// The lines of the file of the samples of an iteration.
pub fn render_raw_metrics(
    started_unix_ms: u64,
    iteration: usize,
    samples: &StageSamples,
) -> (r: Vec<
    Json,
>)
    requires
        datable(started_unix_ms, *samples),
    ensures
        trees(r@) == raw_lines(started_unix_ms, iteration, *samples),
{
    proof {
        assert(samples_of(*samples, Stage::Source) == samples.source@);
        assert(samples_of(*samples, Stage::Fetch) == samples.fetch@);
        assert(samples_of(*samples, Stage::Decode) == samples.decode@);
        assert(samples_of(*samples, Stage::SinkDispatch) == samples.sink_dispatch@);
    }
    let mut out: Vec<Json> = Vec::new();
    assert(trees(out@) =~= Seq::<JsonTree>::empty());
    push_stage_lines(&mut out, started_unix_ms, iteration, Stage::Source, &samples.source);
    push_stage_lines(&mut out, started_unix_ms, iteration, Stage::Fetch, &samples.fetch);
    push_stage_lines(&mut out, started_unix_ms, iteration, Stage::Decode, &samples.decode);
    push_stage_lines(&mut out, started_unix_ms, iteration, Stage::SinkDispatch, &samples.sink_dispatch);
    assert(trees(out@) =~= raw_lines(started_unix_ms, iteration, *samples));
    out
}

/// What is said of a stage over a whole run.
#[derive(Debug, Clone, Copy, PartialEq, Eq, Structural)]
pub struct StageSummary {
    pub worker_utilization: Agg,
    pub service_time: Agg,
    pub median_ms: u64,
    pub p10_ms: u64,
    pub p90_ms: u64,
    pub ops_per_sec: u64,
    pub samples: usize,
}

/// The object of a stage.
pub open spec fn stage_summary_tree(stage: Stage, worker_count: u32, f: StageSummary) -> JsonTree {
    JsonTree::Object(
        json_tree::no_members()
            .push(("name"@, JsonTree::Text(stage::stage_label(stage)@)))
            .push(("median_ms_per_op"@, JsonTree::Real(f.median_ms)))
            .push(("p10"@, JsonTree::Real(f.p10_ms)))
            .push(("p90"@, JsonTree::Real(f.p90_ms)))
            .push(("ops_per_sec"@, JsonTree::Real(f.ops_per_sec)))
            .push(("worker_count"@, JsonTree::Count(worker_count as u64)))
            .push(("samples"@, JsonTree::Count(f.samples as u64))),
    )
}

pub fn stage_summary(stage: Stage, worker_count: u32, f: &StageSummary) -> (r: Json)
    ensures
        r@ == stage_summary_tree(stage, worker_count, *f),
{
    let mut document = Members::new();
    document.put_text("name", stage.as_label());
    document.put("median_ms_per_op", Json::Real(f.median_ms));
    document.put("p10", Json::Real(f.p10_ms));
    document.put("p90", Json::Real(f.p90_ms));
    document.put("ops_per_sec", Json::Real(f.ops_per_sec));
    document.put("worker_count", Json::Count(worker_count as u64));
    document.put("samples", Json::Count(f.samples as u64));
    document.done()
}

/// What is said of a stage in one iteration.
#[derive(Debug, Clone, Copy, PartialEq, Eq, Structural)]
pub struct StageInIteration {
    pub median_ms: u64,
    pub p10_ms: u64,
    pub p90_ms: u64,
    pub ops_per_sec: u64,
    pub samples: usize,
    pub worker_utilization: u64,
    pub service_time: u64,
}

/// The object of a stage in one iteration.
pub open spec fn stage_in_iteration_tree(
    stage: Stage,
    worker_count: u32,
    f: StageInIteration,
) -> JsonTree {
    JsonTree::Object(
        json_tree::no_members()
            .push(("name"@, JsonTree::Text(stage::stage_label(stage)@)))
            .push(("median_ms_per_op"@, JsonTree::Real(f.median_ms)))
            .push(("p10"@, JsonTree::Real(f.p10_ms)))
            .push(("p90"@, JsonTree::Real(f.p90_ms)))
            .push(("ops_per_sec"@, JsonTree::Real(f.ops_per_sec)))
            .push(("worker_count"@, JsonTree::Count(worker_count as u64)))
            .push(("samples"@, JsonTree::Count(f.samples as u64)))
            .push(("worker_utilization"@, JsonTree::Real(f.worker_utilization)))
            .push(("per_record_service_time_seconds"@, JsonTree::Real(f.service_time))),
    )
}

pub fn stage_in_iteration(stage: Stage, worker_count: u32, f: &StageInIteration) -> (r: Json)
    ensures
        r@ == stage_in_iteration_tree(stage, worker_count, *f),
{
    let mut document = Members::new();
    document.put_text("name", stage.as_label());
    document.put("median_ms_per_op", Json::Real(f.median_ms));
    document.put("p10", Json::Real(f.p10_ms));
    document.put("p90", Json::Real(f.p90_ms));
    document.put("ops_per_sec", Json::Real(f.ops_per_sec));
    document.put("worker_count", Json::Count(worker_count as u64));
    document.put("samples", Json::Count(f.samples as u64));
    document.put("worker_utilization", Json::Real(f.worker_utilization));
    document.put("per_record_service_time_seconds", Json::Real(f.service_time));
    document.done()
}

/// One of something for each stage.
#[derive(Debug)]
pub struct PerStage<T> {
    pub source: T,
    pub fetch: T,
    pub decode: T,
    pub sink_dispatch: T,
}

/// The objects of the stages over a run.
pub open spec fn stage_summaries_tree(
    workers: PerStage<u32>,
    figures: PerStage<StageSummary>,
) -> JsonTree {
    JsonTree::List(
        json_tree::no_items()
            .push(stage_summary_tree(Stage::Source, workers.source, figures.source))
            .push(stage_summary_tree(Stage::Fetch, workers.fetch, figures.fetch))
            .push(stage_summary_tree(Stage::Decode, workers.decode, figures.decode))
            .push(stage_summary_tree(Stage::SinkDispatch, workers.sink_dispatch, figures.sink_dispatch)),
    )
}

pub fn stage_summaries(workers: &PerStage<u32>, figures: &PerStage<StageSummary>) -> (r: Json)
    ensures
        r@ == stage_summaries_tree(*workers, *figures),
{
    let mut items = Items::new();
    items.push(stage_summary(Stage::Source, workers.source, &figures.source));
    items.push(stage_summary(Stage::Fetch, workers.fetch, &figures.fetch));
    items.push(stage_summary(Stage::Decode, workers.decode, &figures.decode));
    items.push(stage_summary(Stage::SinkDispatch, workers.sink_dispatch, &figures.sink_dispatch));
    items.done()
}

/// The objects of the stages in one iteration.
pub open spec fn stages_in_iteration_tree(
    workers: PerStage<u32>,
    figures: PerStage<StageInIteration>,
) -> JsonTree {
    JsonTree::List(
        json_tree::no_items()
            .push(stage_in_iteration_tree(Stage::Source, workers.source, figures.source))
            .push(stage_in_iteration_tree(Stage::Fetch, workers.fetch, figures.fetch))
            .push(stage_in_iteration_tree(Stage::Decode, workers.decode, figures.decode))
            .push(
                stage_in_iteration_tree(
                    Stage::SinkDispatch,
                    workers.sink_dispatch,
                    figures.sink_dispatch,
                ),
            ),
    )
}

pub fn stages_in_iteration(
    workers: &PerStage<u32>,
    figures: &PerStage<StageInIteration>,
) -> (r: Json)
    ensures
        r@ == stages_in_iteration_tree(*workers, *figures),
{
    let mut items = Items::new();
    items.push(stage_in_iteration(Stage::Source, workers.source, &figures.source));
    items.push(stage_in_iteration(Stage::Fetch, workers.fetch, &figures.fetch));
    items.push(stage_in_iteration(Stage::Decode, workers.decode, &figures.decode));
    items.push(
        stage_in_iteration(Stage::SinkDispatch, workers.sink_dispatch, &figures.sink_dispatch),
    );
    items.done()
}

/// The scalars of the stages, added to those before.
pub open spec fn with_stage_scalars(
    scalars: Seq<(Seq<char>, JsonTree)>,
    f: PerStage<StageSummary>,
) -> Seq<(Seq<char>, JsonTree)> {
    scalars
        .push(("worker_utilization_source"@, agg_tree(f.source.worker_utilization)))
        .push(("per_record_service_time_source"@, agg_tree(f.source.service_time)))
        .push(("worker_utilization_fetch"@, agg_tree(f.fetch.worker_utilization)))
        .push(("per_record_service_time_fetch"@, agg_tree(f.fetch.service_time)))
        .push(("worker_utilization_decode"@, agg_tree(f.decode.worker_utilization)))
        .push(("per_record_service_time_decode"@, agg_tree(f.decode.service_time)))
        .push(("worker_utilization_sink_dispatch"@, agg_tree(f.sink_dispatch.worker_utilization)))
        .push(("per_record_service_time_sink_dispatch"@, agg_tree(f.sink_dispatch.service_time)))
}

pub fn put_stage_scalars(scalars: &mut Members, f: &PerStage<StageSummary>)
    ensures
        final(scalars)@ == with_stage_scalars(old(scalars)@, *f),
{
    scalars.put("worker_utilization_source", agg(&f.source.worker_utilization));
    scalars.put("per_record_service_time_source", agg(&f.source.service_time));
    scalars.put("worker_utilization_fetch", agg(&f.fetch.worker_utilization));
    scalars.put("per_record_service_time_fetch", agg(&f.fetch.service_time));
    scalars.put("worker_utilization_decode", agg(&f.decode.worker_utilization));
    scalars.put("per_record_service_time_decode", agg(&f.decode.service_time));
    scalars.put("worker_utilization_sink_dispatch", agg(&f.sink_dispatch.worker_utilization));
    scalars.put("per_record_service_time_sink_dispatch", agg(&f.sink_dispatch.service_time));
}

/// The workers of each stage.
pub open spec fn workers_per_stage(counts: StageWorkerCounts) -> PerStage<u32> {
    PerStage {
        source: counts.source,
        fetch: counts.fetch,
        decode: counts.decode,
        sink_dispatch: counts.sink_dispatch,
    }
}

pub fn per_stage_workers(counts: &StageWorkerCounts) -> (r: PerStage<u32>)
    ensures
        r == workers_per_stage(*counts),
{
    PerStage {
        source: counts.get(Stage::Source),
        fetch: counts.get(Stage::Fetch),
        decode: counts.get(Stage::Decode),
        sink_dispatch: counts.get(Stage::SinkDispatch),
    }
}

/// A document of results: the scalars of the run, its stages and its iterations.
pub open spec fn results_tree(
    scalars: JsonTree,
    stages: JsonTree,
    iterations: Seq<JsonTree>,
) -> JsonTree {
    JsonTree::Object(
        json_tree::no_members()
            .push(("schema_version"@, JsonTree::Count(2)))
            .push(("scalars"@, scalars))
            .push(("stages"@, stages))
            .push(("histograms"@, JsonTree::Object(json_tree::no_members())))
            .push(("iterations"@, JsonTree::List(iterations))),
    )
}

pub fn results(scalars: Json, stages: Json, iterations: Items) -> (r: Json)
    ensures
        r@ == results_tree(scalars@, stages@, iterations@),
{
    let mut document = Members::new();
    document.put("schema_version", Json::Count(2));
    document.put("scalars", scalars);
    document.put("stages", stages);
    document.put("histograms", Members::new().done());
    document.put("iterations", iterations.done());
    document.done()
}

/// A run of figures is reported with each of them under its own name.
pub proof fn law_figures_are_reported(a: &Agg, r: Json)
    requires
        call_ensures(agg, (a,), r),
    ensures
        json_tree::says(r@, seq!["median"@], JsonTree::Real(a.median)),
        json_tree::says(r@, seq!["p10"@], JsonTree::Real(a.p10)),
        json_tree::says(r@, seq!["p90"@], JsonTree::Real(a.p90)),
        json_tree::says(r@, seq!["n"@], JsonTree::Whole(a.n as i64)),
{
    json_tree::lemma_says_member(r@, 0);
    json_tree::lemma_says_member(r@, 1);
    json_tree::lemma_says_member(r@, 2);
    json_tree::lemma_says_member(r@, 3);
}

/// The state of a work tree is reported as it was found.
pub proof fn law_work_tree_is_reported(git: &GitInfo, r: Json, all: Json)
    requires
        call_ensures(git_state, (git,), r),
        call_ensures(repositories, (git,), all),
    ensures
        json_tree::says(r@, seq!["rev"@], JsonTree::Text(git.rev@)),
        json_tree::says(r@, seq!["branch"@], JsonTree::Text(git.branch@)),
        json_tree::says(r@, seq!["dirty"@], JsonTree::Flag(git.dirty)),
        json_tree::says(all@, seq!["opendata-contrib"@], r@),
{
    json_tree::lemma_says_member(all@, 2);
    json_tree::lemma_says_member(r@, 0);
    json_tree::lemma_says_member(r@, 1);
    json_tree::lemma_says_member(r@, 2);
}

/// The machine of a run is reported as it was found.
pub proof fn law_machine_is_reported(host: &HostFacts, r: Json)
    requires
        call_ensures(host_state, (host,), r),
    ensures
        json_tree::says(r@, seq!["machine"@], JsonTree::Text(host.machine@)),
        json_tree::says(r@, seq!["os"@], JsonTree::Text(host.os@)),
        json_tree::says(r@, seq!["cpu_model"@], JsonTree::Text(host.cpu_model@)),
        json_tree::says(r@, seq!["cpu_count_logical"@], JsonTree::Whole(host.cpu_count_logical)),
        json_tree::says(r@, seq!["memory_gb"@], JsonTree::Whole(-1i64 as i64)),
        json_tree::says(r@, seq!["container"@], JsonTree::Null),
        json_tree::says(r@, seq!["low_perturbation"@], JsonTree::Flag(true)),
{
    json_tree::lemma_says_member(r@, 0);
    json_tree::lemma_says_member(r@, 1);
    json_tree::lemma_says_member(r@, 2);
    json_tree::lemma_says_member(r@, 3);
    json_tree::lemma_says_member(r@, 4);
    json_tree::lemma_says_member(r@, 5);
    json_tree::lemma_says_member(r@, 6);
}

/// A work tree is dirty where `git` lists a changed file. Its revision is cut after seven
/// bytes and is what the full one starts with; one that is no longer is kept.
pub proof fn law_work_tree_is_read(
    rev: &str,
    branch: &str,
    changes: &str,
    r: GitInfo,
    unanswered: GitInfo,
)
    requires
        can_be_cut(rev@),
        call_ensures(git_info, (Some(rev), Some(branch), Some(changes)), r),
        call_ensures(git_info, (None::<&str>, None::<&str>, None::<&str>), unanswered),
    ensures
        r.dirty <==> changes@.len() > 0,
        encode_utf8(r.rev@).len() <= 7,
        encode_utf8(r.rev@) == encode_utf8(trimmed(rev@)).take(
            encode_utf8(r.rev@).len() as int,
        ),
        encode_utf8(trimmed(rev@)).len() >= 7 ==> encode_utf8(r.rev@).len() == 7,
        encode_utf8(trimmed(rev@)).len() <= 7 ==> encode_utf8(r.rev@) == encode_utf8(trimmed(rev@)),
        r.branch@.len() > 0 ==> !text::is_white_space(r.branch@[0]) && !text::is_white_space(
            r.branch@.last(),
        ),
        unanswered.rev@.len() == 0,
        unanswered.branch@.len() == 0,
        !unanswered.dirty,
{
    let full = encode_utf8(trimmed(rev@));
    assert(full.take(full.len() as int) =~= full);
    assert(full.len() == 7 ==> full.take(7) =~= full);
    text::law_trim_takes_white_space_only(branch@);
}

/// The samples of a snapshot are shared out by name and by label: a series of stage
/// latencies goes, behind those before it, to the stage that it is labelled with, and to
/// no other. Any other series is passed over, and so is one without samples.
pub proof fn law_samples_go_to_their_stage(
    series: &Vec<MetricSeries>,
    longer: &Vec<MetricSeries>,
    r: StageSamples,
    s: StageSamples,
    values: Seq<u64>,
)
    requires
        call_ensures(collect_stage_samples, (series,), r),
        call_ensures(collect_stage_samples, (longer,), s),
        longer@.len() == series@.len() + 1,
        longer@.drop_last() == series@,
        longer@.last().samples is Some ==> longer@.last().samples->0@ == values,
    ensures
        series@.len() == 0 ==> r.source@.len() == 0 && r.fetch@.len() == 0 && r.decode@.len() == 0
            && r.sink_dispatch@.len() == 0,
        longer@.last().name@ != "runtime_stage_latency_seconds"@ || longer@.last().samples is None
            || longer@.last().labels@.len() == 0 ==> s.source@ == r.source@ && s.fetch@ == r.fetch@
            && s.decode@ == r.decode@ && s.sink_dispatch@ == r.sink_dispatch@,
        longer@.last().name@ == "runtime_stage_latency_seconds"@ && longer@.last().samples is Some
            && longer@.last().labels@.len() == 1 && longer@.last().labels@[0].0@ == "stage"@ ==> {
            let label = longer@.last().labels@[0].1@;
            &&& label == "source"@ ==> s.source@ == r.source@ + values && s.fetch@ == r.fetch@
                && s.decode@ == r.decode@ && s.sink_dispatch@ == r.sink_dispatch@
            &&& label == "fetch"@ ==> s.source@ == r.source@ && s.fetch@ == r.fetch@ + values
                && s.decode@ == r.decode@ && s.sink_dispatch@ == r.sink_dispatch@
            &&& label == "decode"@ ==> s.source@ == r.source@ && s.fetch@ == r.fetch@ && s.decode@
                == r.decode@ + values && s.sink_dispatch@ == r.sink_dispatch@
            &&& label == "sink_dispatch"@ ==> s.source@ == r.source@ && s.fetch@ == r.fetch@
                && s.decode@ == r.decode@ && s.sink_dispatch@ == r.sink_dispatch@ + values
        },
{
    let n = series@.len();
    let last = longer@.last();
    reveal_with_fuel(label_of, 2);
    assert forall|stage: Stage|
        #[trigger] samples_of(s, stage) == if holds_latencies(last, stage) {
            samples_of(r, stage) + last.samples->0@
        } else {
            samples_of(r, stage)
        } by {
        lemma_collected_of_prefix(series@, longer@, stage, n);
        assert(collected(longer@, stage, (n + 1) as nat) == samples_of(s, stage));
    }
    assert forall|a: Stage, b: Stage|
        #[trigger] holds_latencies(last, a) && #[trigger] holds_latencies(last, b) implies a == b by {
        law_samples_have_one_stage(last, a, b);
    }
    assert(samples_of(r, Stage::Source) == r.source@ && samples_of(s, Stage::Source) == s.source@);
    assert(samples_of(r, Stage::Fetch) == r.fetch@ && samples_of(s, Stage::Fetch) == s.fetch@);
    assert(samples_of(r, Stage::Decode) == r.decode@ && samples_of(s, Stage::Decode) == s.decode@);
    assert(samples_of(r, Stage::SinkDispatch) == r.sink_dispatch@ && samples_of(
        s,
        Stage::SinkDispatch,
    ) == s.sink_dispatch@);
    if last.name@ == "runtime_stage_latency_seconds"@ && last.samples is Some
        && last.labels@.len() == 1 && last.labels@[0].0@ == "stage"@ {
        let label = last.labels@[0].1@;
        assert(label_of(last.labels@, "stage"@) == Some(label));
        if label == "source"@ {
            assert(holds_latencies(last, Stage::Source));
        } else if label == "fetch"@ {
            assert(holds_latencies(last, Stage::Fetch));
        } else if label == "decode"@ {
            assert(holds_latencies(last, Stage::Decode));
        } else if label == "sink_dispatch"@ {
            assert(holds_latencies(last, Stage::SinkDispatch));
        }
    }
}

proof fn lemma_collected_of_prefix(
    a: Seq<MetricSeries>,
    b: Seq<MetricSeries>,
    stage: Stage,
    n: nat,
)
    requires
        n <= a.len() <= b.len(),
        b.take(a.len() as int) == a,
    ensures
        collected(a, stage, n) == collected(b, stage, n),
    decreases n,
{
    if n > 0 {
        lemma_collected_of_prefix(a, b, stage, (n - 1) as nat);
        assert(b.take(a.len() as int)[n - 1] == b[n - 1]);
    }
}

/// The samples of a metric are those of its series, one series behind the other.
pub proof fn law_samples_go_by_name(
    series: &Vec<MetricSeries>,
    longer: &Vec<MetricSeries>,
    name: &str,
    r: Vec<u64>,
    s: Vec<u64>,
)
    requires
        call_ensures(collect_samples, (series, name), r),
        call_ensures(collect_samples, (longer, name), s),
        longer@.len() == series@.len() + 1,
        longer@.drop_last() == series@,
    ensures
        series@.len() == 0 ==> r@.len() == 0,
        longer@.last().name@ == name@ && longer@.last().samples is Some ==> s@ == r@
            + longer@.last().samples->0@,
        longer@.last().name@ != name@ || longer@.last().samples is None ==> s@ == r@,
{
    lemma_named_of_prefix(series@, longer@, name@, series@.len());
}

proof fn lemma_named_of_prefix(
    a: Seq<MetricSeries>,
    b: Seq<MetricSeries>,
    name: Seq<char>,
    n: nat,
)
    requires
        n <= a.len() <= b.len(),
        b.take(a.len() as int) == a,
    ensures
        named_samples(a, name, n) == named_samples(b, name, n),
    decreases n,
{
    if n > 0 {
        lemma_named_of_prefix(a, b, name, (n - 1) as nat);
        assert(b.take(a.len() as int)[n - 1] == b[n - 1]);
    }
}

/// The samples at a place are one of each iteration that has as many, in the order of
/// the iterations. One that is shorter is passed over.
pub proof fn law_places_line_up(
    iterations: &Vec<Vec<u64>>,
    longer: &Vec<Vec<u64>>,
    place: usize,
    r: Vec<u64>,
    s: Vec<u64>,
)
    requires
        call_ensures(sample_column, (iterations, place), r),
        call_ensures(sample_column, (longer, place), s),
        longer@.len() == iterations@.len() + 1,
        longer@.drop_last() == iterations@,
    ensures
        iterations@.len() == 0 ==> r@.len() == 0,
        place < longer@.last()@.len() ==> s@ == r@.push(longer@.last()@[place as int]),
        place >= longer@.last()@.len() ==> s@ == r@,
{
    lemma_column_of_prefix(iterations@, longer@, place as nat, iterations@.len());
}

proof fn lemma_column_of_prefix(a: Seq<Vec<u64>>, b: Seq<Vec<u64>>, place: nat, n: nat)
    requires
        n <= a.len() <= b.len(),
        b.take(a.len() as int) == a,
    ensures
        column(a, place, n) == column(b, place, n),
    decreases n,
{
    if n > 0 {
        lemma_column_of_prefix(a, b, place, (n - 1) as nat);
        assert(b.take(a.len() as int)[n - 1] == b[n - 1]);
    }
}

/// The file of the samples of an iteration is named by its number, and stands in the
/// directory of raw files.
pub proof fn law_raw_file_is_named_by_its_iteration(iteration: usize, file: String, path: String)
    requires
        call_ensures(raw_file, (iteration,), file),
        call_ensures(raw_path, (iteration,), path),
    ensures
        file@ == "run-"@ + text::decimal(iteration as nat) + ".metrics.jsonl"@,
        path@ == "raw/"@ + file@,
{
}

/// Every sample of an iteration has a line: those of the source first, then those of
/// fetching, decoding and dispatching, each in the order in which they came.
pub proof fn law_every_sample_has_a_line(
    started: u64,
    iteration: usize,
    samples: &StageSamples,
    r: Vec<Json>,
    i: int,
)
    requires
        datable(started, *samples),
        call_ensures(render_raw_metrics, (started, iteration, samples), r),
    ensures
        r@.len() == samples.source@.len() + samples.fetch@.len() + samples.decode@.len()
            + samples.sink_dispatch@.len(),
        0 <= i < samples.source@.len() ==> tells_sample(
            r@[i]@,
            started,
            iteration,
            "source"@,
            i,
            samples.source@[i],
        ),
        0 <= i < samples.fetch@.len() ==> tells_sample(
            r@[samples.source@.len() + i]@,
            started,
            iteration,
            "fetch"@,
            i,
            samples.fetch@[i],
        ),
        0 <= i < samples.decode@.len() ==> tells_sample(
            r@[samples.source@.len() + samples.fetch@.len() + i]@,
            started,
            iteration,
            "decode"@,
            i,
            samples.decode@[i],
        ),
        0 <= i < samples.sink_dispatch@.len() ==> tells_sample(
            r@[samples.source@.len() + samples.fetch@.len() + samples.decode@.len() + i]@,
            started,
            iteration,
            "sink_dispatch"@,
            i,
            samples.sink_dispatch@[i],
        ),
{
    let a = samples.source@;
    let b = samples.fetch@;
    let c = samples.decode@;
    let d = samples.sink_dispatch@;
    let lines = trees(r@);
    assert(lines == raw_lines(started, iteration, *samples));
    assert(lines.len() == r@.len());
    if 0 <= i < a.len() {
        assert(lines[i] == sample_line_tree(started, iteration, Stage::Source, i, a[i]));
        lemma_line_tells_sample(started, iteration, Stage::Source, i, a[i]);
    }
    if 0 <= i < b.len() {
        assert(lines[a.len() + i] == sample_line_tree(started, iteration, Stage::Fetch, i, b[i]));
        lemma_line_tells_sample(started, iteration, Stage::Fetch, i, b[i]);
    }
    if 0 <= i < c.len() {
        assert(lines[a.len() + b.len() + i] == sample_line_tree(
            started,
            iteration,
            Stage::Decode,
            i,
            c[i],
        ));
        lemma_line_tells_sample(started, iteration, Stage::Decode, i, c[i]);
    }
    if 0 <= i < d.len() {
        assert(lines[a.len() + b.len() + c.len() + i] == sample_line_tree(
            started,
            iteration,
            Stage::SinkDispatch,
            i,
            d[i],
        ));
        lemma_line_tells_sample(started, iteration, Stage::SinkDispatch, i, d[i]);
    }
}

/// Whether a line tells of a sample: which it is, its value, and a time that is a
/// millisecond later for each sample before it.
pub open spec fn tells_sample(
    line: JsonTree,
    started: u64,
    iteration: usize,
    stage: Seq<char>,
    i: int,
    value: u64,
) -> bool {
    &&& json_tree::says(line, seq!["ts_unix_ms"@], JsonTree::Count((started + i) as u64))
    &&& json_tree::says(
        line,
        seq!["metric"@],
        JsonTree::Text("runtime_stage_latency_seconds"@),
    )
    &&& json_tree::says(line, seq!["value"@], JsonTree::Real(value))
    &&& json_tree::says(line, seq!["labels"@, "iteration"@], JsonTree::Count(iteration as u64))
    &&& json_tree::says(line, seq!["labels"@, "stage"@], JsonTree::Text(stage))
    &&& json_tree::says(line, seq!["labels"@, "sample_index"@], JsonTree::Count(i as u64))
}

proof fn lemma_line_tells_sample(
    started: u64,
    iteration: usize,
    stage: Stage,
    i: int,
    value: u64,
)
    ensures
        tells_sample(
            sample_line_tree(started, iteration, stage, i, value),
            started,
            iteration,
            stage::stage_label(stage)@,
            i,
            value,
        ),
{
    let line = sample_line_tree(started, iteration, stage, i, value);
    json_tree::lemma_says_member(line, 0);
    json_tree::lemma_says_member(line, 1);
    json_tree::lemma_says_member(line, 2);
    json_tree::lemma_says_second(line, 3, 0);
    json_tree::lemma_says_second(line, 3, 1);
    json_tree::lemma_says_second(line, 3, 2);
}

/// What is said of the samples at one place stands under its own names.
pub proof fn law_place_is_reported(p: &PlaceFigures, r: Json)
    requires
        call_ensures(place_figures, (p,), r),
    ensures
        json_tree::says(r@, seq!["sample_index"@], JsonTree::Whole(p.sample_index as i64)),
        json_tree::says(r@, seq!["median"@], JsonTree::Real(p.median)),
        json_tree::says(r@, seq!["p90"@], JsonTree::Real(p.p90)),
        json_tree::says(r@, seq!["max"@], JsonTree::Real(p.max)),
        json_tree::says(r@, seq!["n"@], JsonTree::Whole(p.n as i64)),
{
    json_tree::lemma_says_member(r@, 0);
    json_tree::lemma_says_member(r@, 1);
    json_tree::lemma_says_member(r@, 2);
    json_tree::lemma_says_member(r@, 3);
    json_tree::lemma_says_member(r@, 4);
}

/// The series of a stage is labelled with it, and holds what is said of each place in
/// their order.
pub proof fn law_series_names_its_stage(
    stage: Stage,
    figures: &Vec<PlaceFigures>,
    r: Json,
    label: &'static str,
    i: int,
    place: Json,
)
    requires
        call_ensures(stage_series, (stage, figures), r),
        call_ensures(Stage::as_label, (stage,), label),
        0 <= i < figures@.len(),
        call_ensures(place_figures, (&figures@[i],), place),
    ensures
        json_tree::says(r@, seq!["metric"@], JsonTree::Text("runtime_stage_latency_seconds"@)),
        json_tree::says(r@, seq!["labels"@, "alignment"@], JsonTree::Text("sample_index"@)),
        json_tree::says(r@, seq!["labels"@, "stage"@], JsonTree::Text(label@)),
        exists|places: Seq<JsonTree>|
            places.len() == figures@.len() && places[i] == place@ && #[trigger] json_tree::says(
                r@,
                seq!["samples"@],
                JsonTree::List(places),
            ),
{
    let places = places_tree(figures@)->List_0;
    json_tree::lemma_says_member(r@, 2);
    assert(places.len() == figures@.len() && places[i] == place@);
    assert(json_tree::says(r@, seq!["samples"@], JsonTree::List(places)));
    json_tree::lemma_says_member(r@, 0);
    json_tree::lemma_says_second(r@, 1, 0);
    json_tree::lemma_says_second(r@, 1, 1);
}

/// The document of how the latencies went says when each iteration started, and holds
/// the series of the four stages in the order in which a batch passes them.
pub proof fn law_course_of_a_run_is_reported(
    starts: &Vec<u64>,
    figures: &StageFigures,
    r: Json,
    series: (Json, Json, Json, Json),
)
    requires
        call_ensures(timeseries, (starts, figures), r),
        call_ensures(stage_series, (Stage::Source, &figures.source), series.0),
        call_ensures(stage_series, (Stage::Fetch, &figures.fetch), series.1),
        call_ensures(stage_series, (Stage::Decode, &figures.decode), series.2),
        call_ensures(stage_series, (Stage::SinkDispatch, &figures.sink_dispatch), series.3),
    ensures
        json_tree::says(r@, seq!["schema_version"@], JsonTree::Count(2)),
        json_tree::says(r@, seq!["window_seconds"@], JsonTree::Real(0x3ff0_0000_0000_0000)),
        json_tree::says(r@, seq!["iterations_aggregated"@], JsonTree::Whole(starts@.len() as i64)),
        json_tree::says(
            r@,
            seq!["iteration_starts_unix_ms"@],
            JsonTree::List(Seq::new(starts@.len(), |i: int| JsonTree::Count(starts@[i]))),
        ),
        json_tree::says(
            r@,
            seq!["series"@],
            JsonTree::List(seq![series.0@, series.1@, series.2@, series.3@]),
        ),
{
    json_tree::lemma_says_member(r@, 4);
    assert(r@->Object_0[4].1->List_0 =~= seq![series.0@, series.1@, series.2@, series.3@]);
    json_tree::lemma_says_member(r@, 0);
    json_tree::lemma_says_member(r@, 1);
    json_tree::lemma_says_member(r@, 2);
    json_tree::lemma_says_member(r@, 3);
}

/// A stage is reported under its label, with its workers and each of its figures.
pub proof fn law_stage_is_reported(
    stage: Stage,
    workers: u32,
    f: &StageSummary,
    label: &'static str,
    r: Json,
)
    requires
        call_ensures(Stage::as_label, (stage,), label),
        call_ensures(stage_summary, (stage, workers, f), r),
    ensures
        json_tree::says(r@, seq!["name"@], JsonTree::Text(label@)),
        json_tree::says(r@, seq!["median_ms_per_op"@], JsonTree::Real(f.median_ms)),
        json_tree::says(r@, seq!["p10"@], JsonTree::Real(f.p10_ms)),
        json_tree::says(r@, seq!["p90"@], JsonTree::Real(f.p90_ms)),
        json_tree::says(r@, seq!["ops_per_sec"@], JsonTree::Real(f.ops_per_sec)),
        json_tree::says(r@, seq!["worker_count"@], JsonTree::Count(workers as u64)),
        json_tree::says(r@, seq!["samples"@], JsonTree::Count(f.samples as u64)),
{
    json_tree::lemma_says_member(r@, 0);
    json_tree::lemma_says_member(r@, 1);
    json_tree::lemma_says_member(r@, 2);
    json_tree::lemma_says_member(r@, 3);
    json_tree::lemma_says_member(r@, 4);
    json_tree::lemma_says_member(r@, 5);
    json_tree::lemma_says_member(r@, 6);
}

/// A stage of an iteration is reported likewise, and with how busy its workers were.
pub proof fn law_stage_of_an_iteration_is_reported(
    stage: Stage,
    workers: u32,
    f: &StageInIteration,
    label: &'static str,
    r: Json,
)
    requires
        call_ensures(Stage::as_label, (stage,), label),
        call_ensures(stage_in_iteration, (stage, workers, f), r),
    ensures
        json_tree::says(r@, seq!["name"@], JsonTree::Text(label@)),
        json_tree::says(r@, seq!["median_ms_per_op"@], JsonTree::Real(f.median_ms)),
        json_tree::says(r@, seq!["p10"@], JsonTree::Real(f.p10_ms)),
        json_tree::says(r@, seq!["p90"@], JsonTree::Real(f.p90_ms)),
        json_tree::says(r@, seq!["ops_per_sec"@], JsonTree::Real(f.ops_per_sec)),
        json_tree::says(r@, seq!["worker_count"@], JsonTree::Count(workers as u64)),
        json_tree::says(r@, seq!["samples"@], JsonTree::Count(f.samples as u64)),
        json_tree::says(r@, seq!["worker_utilization"@], JsonTree::Real(f.worker_utilization)),
        json_tree::says(
            r@,
            seq!["per_record_service_time_seconds"@],
            JsonTree::Real(f.service_time),
        ),
{
    json_tree::lemma_says_member(r@, 0);
    json_tree::lemma_says_member(r@, 1);
    json_tree::lemma_says_member(r@, 2);
    json_tree::lemma_says_member(r@, 3);
    json_tree::lemma_says_member(r@, 4);
    json_tree::lemma_says_member(r@, 5);
    json_tree::lemma_says_member(r@, 6);
    json_tree::lemma_says_member(r@, 7);
    json_tree::lemma_says_member(r@, 8);
}

/// The stages of a run are reported in the order in which a batch passes them, each with
/// its own workers and figures.
pub proof fn law_stages_are_reported_in_order(
    counts: &StageWorkerCounts,
    workers: PerStage<u32>,
    run: &PerStage<StageSummary>,
    one: &PerStage<StageInIteration>,
    r: Json,
    s: Json,
    of_run: (Json, Json, Json, Json),
    of_one: (Json, Json, Json, Json),
)
    requires
        call_ensures(per_stage_workers, (counts,), workers),
        call_ensures(stage_summaries, (&workers, run), r),
        call_ensures(stages_in_iteration, (&workers, one), s),
        call_ensures(stage_summary, (Stage::Source, counts.source, &run.source), of_run.0),
        call_ensures(stage_summary, (Stage::Fetch, counts.fetch, &run.fetch), of_run.1),
        call_ensures(stage_summary, (Stage::Decode, counts.decode, &run.decode), of_run.2),
        call_ensures(
            stage_summary,
            (Stage::SinkDispatch, counts.sink_dispatch, &run.sink_dispatch),
            of_run.3,
        ),
        call_ensures(stage_in_iteration, (Stage::Source, counts.source, &one.source), of_one.0),
        call_ensures(stage_in_iteration, (Stage::Fetch, counts.fetch, &one.fetch), of_one.1),
        call_ensures(stage_in_iteration, (Stage::Decode, counts.decode, &one.decode), of_one.2),
        call_ensures(
            stage_in_iteration,
            (Stage::SinkDispatch, counts.sink_dispatch, &one.sink_dispatch),
            of_one.3,
        ),
    ensures
        r@ == JsonTree::List(seq![of_run.0@, of_run.1@, of_run.2@, of_run.3@]),
        s@ == JsonTree::List(seq![of_one.0@, of_one.1@, of_one.2@, of_one.3@]),
{
    assert(r@->List_0 =~= seq![of_run.0@, of_run.1@, of_run.2@, of_run.3@]);
    assert(s@->List_0 =~= seq![of_one.0@, of_one.1@, of_one.2@, of_one.3@]);
}

/// The scalars of a run get two for each stage, under names that end in its label, and
/// keep what was there.
pub proof fn law_stage_scalars_are_added(
    before: Seq<(Seq<char>, JsonTree)>,
    f: PerStage<StageSummary>,
    i: int,
)
    requires
        0 <= i < before.len(),
    ensures
        json_tree::says(
            JsonTree::Object(with_stage_scalars(before, f)),
            seq![before[i].0],
            before[i].1,
        ),
        json_tree::says(
            JsonTree::Object(with_stage_scalars(before, f)),
            seq!["worker_utilization_source"@],
            agg_tree(f.source.worker_utilization),
        ),
        json_tree::says(
            JsonTree::Object(with_stage_scalars(before, f)),
            seq!["per_record_service_time_source"@],
            agg_tree(f.source.service_time),
        ),
        json_tree::says(
            JsonTree::Object(with_stage_scalars(before, f)),
            seq!["worker_utilization_fetch"@],
            agg_tree(f.fetch.worker_utilization),
        ),
        json_tree::says(
            JsonTree::Object(with_stage_scalars(before, f)),
            seq!["per_record_service_time_fetch"@],
            agg_tree(f.fetch.service_time),
        ),
        json_tree::says(
            JsonTree::Object(with_stage_scalars(before, f)),
            seq!["worker_utilization_decode"@],
            agg_tree(f.decode.worker_utilization),
        ),
        json_tree::says(
            JsonTree::Object(with_stage_scalars(before, f)),
            seq!["per_record_service_time_decode"@],
            agg_tree(f.decode.service_time),
        ),
        json_tree::says(
            JsonTree::Object(with_stage_scalars(before, f)),
            seq!["worker_utilization_sink_dispatch"@],
            agg_tree(f.sink_dispatch.worker_utilization),
        ),
        json_tree::says(
            JsonTree::Object(with_stage_scalars(before, f)),
            seq!["per_record_service_time_sink_dispatch"@],
            agg_tree(f.sink_dispatch.service_time),
        ),
{
    let all = JsonTree::Object(with_stage_scalars(before, f));
    let n = before.len() as int;
    json_tree::lemma_says_member(all, i);
    json_tree::lemma_says_member(all, n);
    json_tree::lemma_says_member(all, n + 1);
    json_tree::lemma_says_member(all, n + 2);
    json_tree::lemma_says_member(all, n + 3);
    json_tree::lemma_says_member(all, n + 4);
    json_tree::lemma_says_member(all, n + 5);
    json_tree::lemma_says_member(all, n + 6);
    json_tree::lemma_says_member(all, n + 7);
}

/// A document of results holds its scalars, its stages and its iterations.
pub proof fn law_results_hold_their_parts(scalars: Json, stages: Json, iterations: Items, r: Json)
    requires
        call_ensures(results, (scalars, stages, iterations), r),
    ensures
        json_tree::says(r@, seq!["schema_version"@], JsonTree::Count(2)),
        json_tree::says(r@, seq!["scalars"@], scalars@),
        json_tree::says(r@, seq!["stages"@], stages@),
        json_tree::says(r@, seq!["iterations"@], JsonTree::List(iterations@)),
{
    json_tree::lemma_says_member(r@, 0);
    json_tree::lemma_says_member(r@, 1);
    json_tree::lemma_says_member(r@, 2);
    json_tree::lemma_says_member(r@, 4);
}

} // verus!
