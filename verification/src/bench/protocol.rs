//! The steps of one iteration of a throughput run, and what is counted in it.
use std::time::Duration;
use vstd::prelude::*;

use crate::bench::stage::StageWorkerCounts;
use crate::text;
use crate::text::{owned, push_decimal};
use crate::time;
use crate::time::duration_text;

verus! {

/// What an iteration runs: against a ClickHouse server or in memory, and how many
/// payloads before and in the timed window.
#[derive(Debug, Clone, Copy, PartialEq, Eq, Structural)]
pub struct IterationPlan {
    pub against_clickhouse: bool,
    pub warmup_payloads: u64,
    pub timed_payloads: u64,
}

/// A step of an iteration.
#[derive(Debug, Clone, Copy, PartialEq, Eq, Structural)]
pub enum IterationStep {
    /// Empty the table.
    TruncateTable,
    /// Throw away what the metrics still hold.
    DrainResidue,
    /// Make a buffer of the iteration's own.
    BuildSource,
    StartRuntime,
    ProduceWarmup,
    /// Wait until the warm-up is acknowledged.
    DrainWarmup,
    /// Throw away the metrics of the warm-up, note how much was written, and start
    /// the clock.
    Baseline,
    ProduceTimed,
    CloseProducer,
    /// Wait until everything is acknowledged.
    DrainTimed,
    /// Stop the clock, refuse a window that is too short, and note how much was
    /// written.
    CheckWindow,
    Shutdown,
    /// Take the metrics of the timed window.
    FinalSnapshot,
    /// Ask the server what it holds.
    CountRows,
    Finished,
}

/// Whether a step belongs to a plan. A phase without payloads is left out, and so is
/// what only a server can do when there is none.
pub open spec fn included(plan: IterationPlan, step: IterationStep) -> bool {
    match step {
        IterationStep::TruncateTable => plan.against_clickhouse,
        IterationStep::CountRows => plan.against_clickhouse,
        IterationStep::ProduceWarmup => plan.warmup_payloads > 0,
        IterationStep::DrainWarmup => plan.warmup_payloads > 0,
        IterationStep::ProduceTimed => plan.timed_payloads > 0,
        _ => true,
    }
}

/// The place of a step among all steps.
pub open spec fn rank(step: IterationStep) -> int {
    match step {
        IterationStep::TruncateTable => 0,
        IterationStep::DrainResidue => 1,
        IterationStep::BuildSource => 2,
        IterationStep::StartRuntime => 3,
        IterationStep::ProduceWarmup => 4,
        IterationStep::DrainWarmup => 5,
        IterationStep::Baseline => 6,
        IterationStep::ProduceTimed => 7,
        IterationStep::CloseProducer => 8,
        IterationStep::DrainTimed => 9,
        IterationStep::CheckWindow => 10,
        IterationStep::Shutdown => 11,
        IterationStep::FinalSnapshot => 12,
        IterationStep::CountRows => 13,
        IterationStep::Finished => 14,
    }
}

/// Whether a step is the first of a plan.
pub open spec fn comes_first(plan: IterationPlan, step: IterationStep) -> bool {
    included(plan, step) && forall|s: IterationStep| #[trigger]
        included(plan, s) ==> rank(step) <= rank(s)
}

/// Whether step `b` is the next of a plan after step `a`.
pub open spec fn comes_next(plan: IterationPlan, a: IterationStep, b: IterationStep) -> bool {
    &&& included(plan, b)
    &&& rank(a) < rank(b)
    &&& forall|s: IterationStep| #[trigger]
        included(plan, s) && rank(a) < rank(s) ==> rank(b) <= rank(s)
}

/// Whether steps are those of an iteration, one after the other, up to some point.
pub open spec fn walked(plan: IterationPlan, steps: Seq<IterationStep>) -> bool {
    &&& steps.len() > 0
    &&& comes_first(plan, steps[0])
    &&& forall|i: int, j: int|
        0 <= i && j == i + 1 && j < steps.len() ==> comes_next(
            plan,
            #[trigger] steps[i],
            #[trigger] steps[j],
        )
}

/// The steps come in one order, whatever the plan: the warm-up is acknowledged
/// before the clock starts, everything is acknowledged before it stops, and rows
/// are counted after the pipeline has shut down. No step comes twice.
pub proof fn law_steps_are_ordered(
    plan: IterationPlan,
    steps: Seq<IterationStep>,
    i: int,
    j: int,
)
    requires
        walked(plan, steps),
        0 <= i < j < steps.len(),
    ensures
        rank(steps[i]) < rank(steps[j]),
    decreases j - i,
{
    if i + 1 < j {
        law_steps_are_ordered(plan, steps, i, j - 1);
    }
    assert(comes_next(plan, steps[j - 1], steps[j]));
}

/// No step of the plan is left out: whatever belongs to it and does not come after
/// the last step that was taken has been taken.
pub proof fn law_no_step_is_skipped(
    plan: IterationPlan,
    steps: Seq<IterationStep>,
    step: IterationStep,
)
    requires
        walked(plan, steps),
        included(plan, step),
        rank(step) <= rank(steps.last()),
    ensures
        steps.contains(step),
    decreases steps.len(),
{
    let last = steps.len() - 1;
    if rank(step) == rank(steps.last()) {
        assert(steps[last] == step);
    } else if last == 0 {
        assert(rank(steps[0]) <= rank(step));
    } else {
        let front = steps.drop_last();
        assert(comes_next(plan, steps[last - 1], steps[last]));
        assert(walked(plan, front)) by {
            assert forall|i: int, j: int|
                0 <= i && j == i + 1 && j < front.len() implies comes_next(
                plan,
                #[trigger] front[i],
                #[trigger] front[j],
            ) by {
                assert(comes_next(plan, steps[i], steps[j]));
            }
        }
        law_no_step_is_skipped(plan, front, step);
        let k = choose|k: int| 0 <= k < front.len() && front[k] == step;
        assert(steps[k] == step);
    }
}

/// The first step.
pub fn first_step(plan: &IterationPlan) -> (r: IterationStep)
    ensures
        comes_first(*plan, r),
{
    if plan.against_clickhouse {
        IterationStep::TruncateTable
    } else {
        IterationStep::DrainResidue
    }
}

/// The step after a step of the plan. The last is its own successor.
pub fn next_step(plan: &IterationPlan, step: IterationStep) -> (r: IterationStep)
    ensures
        included(*plan, step) && step != IterationStep::Finished ==> comes_next(*plan, step, r),
        step == IterationStep::Finished ==> r == IterationStep::Finished,
{
    match step {
        IterationStep::TruncateTable => IterationStep::DrainResidue,
        IterationStep::DrainResidue => IterationStep::BuildSource,
        IterationStep::BuildSource => IterationStep::StartRuntime,
        IterationStep::StartRuntime => if plan.warmup_payloads > 0 {
            IterationStep::ProduceWarmup
        } else {
            IterationStep::Baseline
        },
        IterationStep::ProduceWarmup => IterationStep::DrainWarmup,
        IterationStep::DrainWarmup => IterationStep::Baseline,
        IterationStep::Baseline => if plan.timed_payloads > 0 {
            IterationStep::ProduceTimed
        } else {
            IterationStep::CloseProducer
        },
        IterationStep::ProduceTimed => IterationStep::CloseProducer,
        IterationStep::CloseProducer => IterationStep::DrainTimed,
        IterationStep::DrainTimed => IterationStep::CheckWindow,
        IterationStep::CheckWindow => IterationStep::Shutdown,
        IterationStep::Shutdown => IterationStep::FinalSnapshot,
        IterationStep::FinalSnapshot => if plan.against_clickhouse {
            IterationStep::CountRows
        } else {
            IterationStep::Finished
        },
        IterationStep::CountRows => IterationStep::Finished,
        IterationStep::Finished => IterationStep::Finished,
    }
}

/// The sequences of the payloads of a step: the first of them, and how many.
pub open spec fn produced_by(plan: IterationPlan, step: IterationStep) -> (u64, u64) {
    match step {
        IterationStep::ProduceWarmup => (0, plan.warmup_payloads),
        IterationStep::ProduceTimed => (plan.warmup_payloads, plan.timed_payloads),
        _ => (0, 0),
    }
}

pub fn payloads_of(plan: &IterationPlan, step: IterationStep) -> (r: (u64, u64))
    ensures
        r == produced_by(*plan, step),
{
    match step {
        IterationStep::ProduceWarmup => (0, plan.warmup_payloads),
        IterationStep::ProduceTimed => (plan.warmup_payloads, plan.timed_payloads),
        _ => (0, 0),
    }
}

/// Every sequence of the load is produced in exactly one of the two phases.
pub proof fn law_phases_share_out_the_load(plan: IterationPlan, sequence: u64)
    requires
        plan.warmup_payloads + plan.timed_payloads <= u64::MAX,
        sequence < plan.warmup_payloads + plan.timed_payloads,
    ensures
        ({
            let warmup = produced_by(plan, IterationStep::ProduceWarmup);
            let timed = produced_by(plan, IterationStep::ProduceTimed);
            (warmup.0 <= sequence < warmup.0 + warmup.1) != (timed.0 <= sequence < timed.0
                + timed.1)
        }),
{
}

/// The sequence whose acknowledgement ends a wait.
pub open spec fn awaited(plan: IterationPlan, step: IterationStep) -> int {
    let payloads = match step {
        IterationStep::DrainWarmup => plan.warmup_payloads as int,
        _ => plan.warmup_payloads + plan.timed_payloads,
    };
    if payloads > 0 {
        payloads - 1
    } else {
        0
    }
}

pub fn drain_target(plan: &IterationPlan, step: IterationStep) -> (r: u64)
    requires
        plan.warmup_payloads + plan.timed_payloads <= u64::MAX,
    ensures
        r == awaited(*plan, step),
{
    match step {
        IterationStep::DrainWarmup => plan.warmup_payloads.saturating_sub(1),
        _ => (plan.warmup_payloads + plan.timed_payloads).saturating_sub(1),
    }
}

/// What to do while waiting for an acknowledgement.
#[derive(Debug, Clone, Copy, PartialEq, Eq, Structural)]
pub enum DrainStep {
    Drained,
    TimedOut,
    /// Wait for news, but no longer than this.
    Wait { millis: u64 },
}

/// Decides a wait: it is over once the target is acknowledged, and given up when
/// it has lasted longer than the deadline.
pub fn drain_step(
    last_acked: Option<u64>,
    target: u64,
    elapsed: Duration,
    deadline: Duration,
) -> (r:
    DrainStep)
    ensures
        r == if last_acked matches Some(s) && s >= target {
            DrainStep::Drained
        } else if time::duration_nanos(elapsed) > time::duration_nanos(deadline) {
            DrainStep::TimedOut
        } else {
            DrainStep::Wait { millis: 50 }
        },
{
    if let Some(s) = last_acked {
        if s >= target {
            return DrainStep::Drained;
        }
    }
    if elapsed.as_nanos() > deadline.as_nanos() {
        DrainStep::TimedOut
    } else {
        DrainStep::Wait { millis: 50 }
    }
}

/// What `Debug` prints of an optional number.
pub open spec fn optional_text(n: Option<u64>) -> Seq<char> {
    match n {
        Some(n) => "Some("@ + text::decimal(n as nat) + ")"@,
        None => "None"@,
    }
}

/// What is said of a wait that was given up.
pub open spec fn not_drained_text(
    phase: Seq<char>,
    deadline: Duration,
    last_acked: Option<u64>,
    target: u64,
) -> Seq<char> {
    phase + " did not drain within "@ + time::duration_debug(time::duration_nanos(deadline))
        + " (last_acked="@ + optional_text(last_acked) + ", target="@ + text::decimal(
        target as nat,
    ) + ")"@
}

pub fn not_drained(phase: &str, deadline: Duration, last_acked: Option<u64>, target: u64) -> (r:
    String)
    ensures
        r@ == not_drained_text(phase@, deadline, last_acked, target),
{
    let mut out = owned(phase);
    out.append(" did not drain within ");
    out.append(duration_text(deadline).as_str());
    out.append(" (last_acked=");
    match last_acked {
        Some(n) => {
            out.append("Some(");
            push_decimal(&mut out, n);
            out.append(")");
        },
        None => {
            out.append("None");
        },
    }
    out.append(", target=");
    push_decimal(&mut out, target);
    out.append(")");
    assert(out@ =~= not_drained_text(phase@, deadline, last_acked, target));
    out
}

/// What was counted in an iteration.
#[derive(Debug, Clone, Copy, PartialEq, Eq, Structural)]
pub struct IterationCounts {
    pub iteration: usize,
    pub timed_started_unix_ms: u64,
    /// Records written in the timed window.
    pub records_processed: u64,
    /// Records written since the pipeline started.
    pub records_processed_cumulative: u64,
    pub worker_counts: StageWorkerCounts,
    pub records_visible: u64,
    pub records_raw: u64,
    pub pre_dedupe_dupes: u64,
    pub post_dedupe_dupes: u64,
}

/// What the server holds at the end of an iteration.
#[derive(Debug, Clone, Copy, PartialEq, Eq, Structural)]
pub struct TableCounts {
    pub raw: u64,
    pub visible: u64,
    pub pre_dedupe_dupes: u64,
    pub post_dedupe_dupes: u64,
}

/// How much of what was written before the clock started is left out of the count.
/// Without a server nothing is: the count runs from the start of the pipeline.
pub fn counted_baseline(plan: &IterationPlan, records_written: u64) -> (r: u64)
    ensures
        r == if plan.against_clickhouse {
            records_written
        } else {
            0
        },
{
    if plan.against_clickhouse {
        records_written
    } else {
        0
    }
}

/// Closes the books of an iteration: what was written before the clock started
/// does not count for the timed window.
pub fn close_iteration(
    iteration: usize,
    timed_started_unix_ms: u64,
    baseline_records_written: u64,
    final_records_written: u64,
    worker_counts: StageWorkerCounts,
    table: TableCounts,
) -> (r: IterationCounts)
    ensures
        r == (IterationCounts {
            iteration,
            timed_started_unix_ms,
            records_processed: if final_records_written >= baseline_records_written {
                (final_records_written - baseline_records_written) as u64
            } else {
                0
            },
            records_processed_cumulative: final_records_written,
            worker_counts,
            records_visible: table.visible,
            records_raw: table.raw,
            pre_dedupe_dupes: table.pre_dedupe_dupes,
            post_dedupe_dupes: table.post_dedupe_dupes,
        }),
        r.records_processed <= r.records_processed_cumulative,
{
    IterationCounts {
        iteration,
        timed_started_unix_ms,
        records_processed: final_records_written.saturating_sub(baseline_records_written),
        records_processed_cumulative: final_records_written,
        worker_counts,
        records_visible: table.visible,
        records_raw: table.raw,
        pre_dedupe_dupes: table.pre_dedupe_dupes,
        post_dedupe_dupes: table.post_dedupe_dupes,
    }
}

/// Whether an iteration is good: something was written, all of it is visible, and
/// nothing twice.
pub open spec fn iteration_good(c: IterationCounts) -> bool {
    c.records_visible == c.records_processed_cumulative && c.post_dedupe_dupes == 0
        && c.records_processed_cumulative > 0
}

pub fn iteration_passed(c: &IterationCounts) -> (r: bool)
    ensures
        r == iteration_good(*c),
{
    c.records_visible == c.records_processed_cumulative && c.post_dedupe_dupes == 0
        && c.records_processed_cumulative > 0
}

/// The records that were written and are not visible.
pub open spec fn missing(c: IterationCounts) -> u64 {
    if c.records_processed_cumulative >= c.records_visible {
        (c.records_processed_cumulative - c.records_visible) as u64
    } else {
        0
    }
}

pub fn records_missing(c: &IterationCounts) -> (r: u64)
    ensures
        r == missing(*c),
{
    c.records_processed_cumulative.saturating_sub(c.records_visible)
}

/// Nothing is missing after a good iteration.
pub proof fn law_good_iteration_misses_nothing(c: IterationCounts)
    requires
        iteration_good(c),
    ensures
        missing(c) == 0,
{
}

/// Whether every iteration of a run is good.
pub open spec fn run_good(reports: Seq<IterationCounts>) -> bool {
    forall|i: int| 0 <= i < reports.len() ==> iteration_good(#[trigger] reports[i])
}

pub fn run_passed(reports: &Vec<IterationCounts>) -> (r: bool)
    ensures
        r == run_good(reports@),
{
    let mut i: usize = 0;
    while i < reports.len()
        invariant
            i <= reports@.len(),
            forall|j: int| 0 <= j < i ==> iteration_good(#[trigger] reports@[j]),
        decreases reports@.len() - i,
    {
        if !iteration_passed(&reports[i]) {
            return false;
        }
        i = i + 1;
    }
    true
}

/// When the timed window of the first iteration started; 0 if there was none.
pub open spec fn run_started(reports: Seq<IterationCounts>) -> u64 {
    if reports.len() == 0 {
        0
    } else {
        reports[0].timed_started_unix_ms
    }
}

pub fn started_unix_ms(reports: &Vec<IterationCounts>) -> (r: u64)
    ensures
        r == run_started(reports@),
{
    if reports.len() == 0 {
        0
    } else {
        reports[0].timed_started_unix_ms
    }
}

/// The workers of a run, as its first iteration has them; one each if there was
/// none.
pub open spec fn run_workers(reports: Seq<IterationCounts>) -> StageWorkerCounts {
    if reports.len() == 0 {
        StageWorkerCounts { source: 1, fetch: 1, decode: 1, sink_dispatch: 1 }
    } else {
        reports[0].worker_counts
    }
}

pub fn workers(reports: &Vec<IterationCounts>) -> (r: StageWorkerCounts)
    ensures
        r == run_workers(reports@),
{
    if reports.len() == 0 {
        StageWorkerCounts { source: 1, fetch: 1, decode: 1, sink_dispatch: 1 }
    } else {
        reports[0].worker_counts
    }
}

/// Whether steps are what an iteration takes from its first step to its end, each the
/// successor of the one before.
pub open spec fn is_run(plan: &IterationPlan, steps: Seq<IterationStep>) -> bool {
    &&& steps.len() > 0
    &&& call_ensures(first_step, (plan,), steps[0])
    &&& forall|i: int, j: int|
        0 <= i && j == i + 1 && j < steps.len() ==> call_ensures(
            next_step,
            (plan, #[trigger] steps[i]),
            #[trigger] steps[j],
        )
    &&& forall|i: int| 0 <= i < steps.len() ==> (#[trigger] steps[i] == IterationStep::Finished
        <==> i == steps.len() - 1)
}

/// Whether a step, where it comes at all, comes before another.
pub open spec fn precedes(
    steps: Seq<IterationStep>,
    a: IterationStep,
    b: IterationStep,
) -> bool {
    forall|i: int, j: int|
        0 <= i < steps.len() && 0 <= j < steps.len() && #[trigger] steps[i] == a
            && #[trigger] steps[j] == b ==> i < j
}

proof fn lemma_run_is_walked(plan: &IterationPlan, steps: Seq<IterationStep>, n: int)
    requires
        is_run(plan, steps),
        0 < n <= steps.len(),
    ensures
        walked(*plan, steps.take(n)),
        included(*plan, steps[n - 1]),
    decreases n,
{
    if n > 1 {
        lemma_run_is_walked(plan, steps, n - 1);
        let front = steps.take(n);
        assert(call_ensures(next_step, (plan, steps[n - 2]), steps[n - 1]));
        assert(steps[n - 2] != IterationStep::Finished);
        assert forall|i: int, j: int|
            0 <= i && j == i + 1 && j < front.len() implies comes_next(
            *plan,
            #[trigger] front[i],
            #[trigger] front[j],
        ) by {
            if j < n - 1 {
                assert(comes_next(*plan, steps.take(n - 1)[i], steps.take(n - 1)[j]));
            }
        }
        assert(steps.take(n - 1)[0] == front[0]);
    }
}

proof fn lemma_step_is_taken(plan: &IterationPlan, steps: Seq<IterationStep>, step: IterationStep)
    requires
        is_run(plan, steps),
    ensures
        steps.contains(step) <==> included(*plan, step),
        walked(*plan, steps),
{
    let n = steps.len() as int;
    lemma_run_is_walked(plan, steps, n);
    assert(steps.take(n) =~= steps);
    assert(steps[n - 1] == IterationStep::Finished);
    if included(*plan, step) {
        law_no_step_is_skipped(*plan, steps, step);
    }
    if steps.contains(step) {
        let k = choose|k: int| 0 <= k < n && steps[k] == step;
        lemma_run_is_walked(plan, steps, k + 1);
    }
}

/// What an iteration does, and in which order. The table is emptied before the pipeline
/// starts and the rows are counted after it has shut down, both only where there is a
/// server. The warm-up, where there is one, is produced and acknowledged before the
/// clock starts. The timed payloads are produced after that, and all of them are
/// acknowledged before the clock stops.
pub proof fn law_iteration_runs_in_order(plan: &IterationPlan, steps: Seq<IterationStep>)
    requires
        is_run(plan, steps),
    ensures
        steps.contains(IterationStep::TruncateTable) <==> plan.against_clickhouse,
        steps.contains(IterationStep::CountRows) <==> plan.against_clickhouse,
        steps.contains(IterationStep::ProduceWarmup) <==> plan.warmup_payloads > 0,
        steps.contains(IterationStep::DrainWarmup) <==> plan.warmup_payloads > 0,
        steps.contains(IterationStep::ProduceTimed) <==> plan.timed_payloads > 0,
        steps.contains(IterationStep::DrainResidue),
        steps.contains(IterationStep::BuildSource),
        steps.contains(IterationStep::StartRuntime),
        steps.contains(IterationStep::Baseline),
        steps.contains(IterationStep::CloseProducer),
        steps.contains(IterationStep::DrainTimed),
        steps.contains(IterationStep::CheckWindow),
        steps.contains(IterationStep::Shutdown),
        steps.contains(IterationStep::FinalSnapshot),
        precedes(steps, IterationStep::TruncateTable, IterationStep::StartRuntime),
        precedes(steps, IterationStep::DrainResidue, IterationStep::StartRuntime),
        precedes(steps, IterationStep::BuildSource, IterationStep::StartRuntime),
        precedes(steps, IterationStep::StartRuntime, IterationStep::ProduceWarmup),
        precedes(steps, IterationStep::ProduceWarmup, IterationStep::DrainWarmup),
        precedes(steps, IterationStep::DrainWarmup, IterationStep::Baseline),
        precedes(steps, IterationStep::StartRuntime, IterationStep::Baseline),
        precedes(steps, IterationStep::Baseline, IterationStep::ProduceTimed),
        precedes(steps, IterationStep::ProduceTimed, IterationStep::CloseProducer),
        precedes(steps, IterationStep::CloseProducer, IterationStep::DrainTimed),
        precedes(steps, IterationStep::DrainTimed, IterationStep::CheckWindow),
        precedes(steps, IterationStep::CheckWindow, IterationStep::Shutdown),
        precedes(steps, IterationStep::Shutdown, IterationStep::FinalSnapshot),
        precedes(steps, IterationStep::Shutdown, IterationStep::CountRows),
        precedes(steps, IterationStep::FinalSnapshot, IterationStep::CountRows),
{
    lemma_step_is_taken(plan, steps, IterationStep::TruncateTable);
    lemma_step_is_taken(plan, steps, IterationStep::DrainResidue);
    lemma_step_is_taken(plan, steps, IterationStep::BuildSource);
    lemma_step_is_taken(plan, steps, IterationStep::StartRuntime);
    lemma_step_is_taken(plan, steps, IterationStep::ProduceWarmup);
    lemma_step_is_taken(plan, steps, IterationStep::DrainWarmup);
    lemma_step_is_taken(plan, steps, IterationStep::Baseline);
    lemma_step_is_taken(plan, steps, IterationStep::ProduceTimed);
    lemma_step_is_taken(plan, steps, IterationStep::CloseProducer);
    lemma_step_is_taken(plan, steps, IterationStep::DrainTimed);
    lemma_step_is_taken(plan, steps, IterationStep::CheckWindow);
    lemma_step_is_taken(plan, steps, IterationStep::Shutdown);
    lemma_step_is_taken(plan, steps, IterationStep::FinalSnapshot);
    lemma_step_is_taken(plan, steps, IterationStep::CountRows);
    lemma_step_is_taken(plan, steps, IterationStep::Finished);
    assert forall|a: IterationStep, b: IterationStep| rank(a) < rank(b) implies #[trigger] precedes(
        steps,
        a,
        b,
    ) by {
        assert forall|i: int, j: int|
            0 <= i < steps.len() && 0 <= j < steps.len() && #[trigger] steps[i] == a
                && #[trigger] steps[j] == b implies i < j by {
            if j < i {
                law_steps_are_ordered(*plan, steps, j, i);
            }
        }
    }
}

/// The warm-up takes the first sequences, and the timed payloads the ones right behind
/// it. A wait ends at the last sequence that was produced before it.
pub proof fn law_waits_end_at_the_last_sequence(
    plan: &IterationPlan,
    warmup: (u64, u64),
    timed: (u64, u64),
    after_warmup: u64,
    after_all: u64,
)
    requires
        plan.warmup_payloads + plan.timed_payloads <= u64::MAX,
        call_ensures(payloads_of, (plan, IterationStep::ProduceWarmup), warmup),
        call_ensures(payloads_of, (plan, IterationStep::ProduceTimed), timed),
        call_ensures(drain_target, (plan, IterationStep::DrainWarmup), after_warmup),
        call_ensures(drain_target, (plan, IterationStep::DrainTimed), after_all),
    ensures
        warmup.0 == 0,
        warmup.1 == plan.warmup_payloads,
        timed.0 == warmup.0 + warmup.1,
        timed.1 == plan.timed_payloads,
        warmup.1 > 0 ==> after_warmup + 1 == warmup.0 + warmup.1,
        warmup.1 + timed.1 > 0 ==> after_all + 1 == timed.0 + timed.1,
        warmup.1 + timed.1 == 0 ==> after_all == 0,
{
}

/// A wait is over once the target or a later sequence is acknowledged, however long it
/// took. Until then it goes on as long as the deadline has not passed.
pub proof fn law_wait_is_over_when_acknowledged(
    last_acked: Option<u64>,
    target: u64,
    elapsed: Duration,
    deadline: Duration,
    r: DrainStep,
)
    requires
        call_ensures(drain_step, (last_acked, target, elapsed, deadline), r),
    ensures
        r == DrainStep::Drained <==> last_acked is Some && last_acked->0 >= target,
        r == DrainStep::TimedOut <==> r != DrainStep::Drained && time::duration_nanos(elapsed)
            > time::duration_nanos(deadline),
        r is Wait <==> r != DrainStep::Drained && time::duration_nanos(elapsed)
            <= time::duration_nanos(deadline),
        r is Wait ==> r->millis == 50,
{
}

/// What an iteration counts. Against a server the records from before the clock started
/// are left out of the window, and what is in it and what was before it make up all
/// that was written. What the server holds is reported as it was asked.
pub proof fn law_window_leaves_the_warmup_out(
    plan: &IterationPlan,
    before: u64,
    baseline: u64,
    all: u64,
    iteration: usize,
    started: u64,
    counts: StageWorkerCounts,
    table: TableCounts,
    r: IterationCounts,
)
    requires
        before <= all,
        call_ensures(counted_baseline, (plan, before), baseline),
        call_ensures(close_iteration, (iteration, started, baseline, all, counts, table), r),
    ensures
        plan.against_clickhouse ==> r.records_processed + before == all,
        !plan.against_clickhouse ==> r.records_processed == all,
        r.records_processed_cumulative == all,
        r.iteration == iteration,
        r.timed_started_unix_ms == started,
        r.worker_counts == counts,
        r.records_visible == table.visible,
        r.records_raw == table.raw,
        r.pre_dedupe_dupes == table.pre_dedupe_dupes,
        r.post_dedupe_dupes == table.post_dedupe_dupes,
{
}

/// An iteration fails if a written record is not visible, if more is visible than was
/// written, if a record is there twice, or if nothing was written at all. Otherwise it
/// passes, however often a record was stored before replaced rows were taken out.
/// Records that are missing and those that are visible make up what was written.
pub proof fn law_every_written_record_is_visible(c: &IterationCounts, passed: bool, gone: u64)
    requires
        call_ensures(iteration_passed, (c,), passed),
        call_ensures(records_missing, (c,), gone),
    ensures
        c.records_visible != c.records_processed_cumulative ==> !passed,
        c.post_dedupe_dupes > 0 ==> !passed,
        c.records_processed_cumulative == 0 ==> !passed,
        c.records_visible == c.records_processed_cumulative && c.post_dedupe_dupes == 0
            && c.records_visible > 0 ==> passed,
        c.records_visible <= c.records_processed_cumulative ==> gone + c.records_visible
            == c.records_processed_cumulative,
        c.records_visible > c.records_processed_cumulative ==> gone == 0,
{
}

/// One iteration that does not pass fails the run, and a run of iterations that all
/// pass is good. It started when its first window did.
pub proof fn law_one_bad_iteration_fails_the_run(
    reports: &Vec<IterationCounts>,
    i: int,
    passed: bool,
    run: bool,
    started: u64,
    counts: StageWorkerCounts,
)
    requires
        0 <= i < reports@.len(),
        call_ensures(iteration_passed, (&reports@[i],), passed),
        call_ensures(run_passed, (reports,), run),
        call_ensures(started_unix_ms, (reports,), started),
        call_ensures(workers, (reports,), counts),
    ensures
        !passed ==> !run,
        (forall|k: int|
            0 <= k < reports@.len() ==> (#[trigger] reports@[k]).records_visible > 0
                && reports@[k].records_visible == reports@[k].records_processed_cumulative
                && reports@[k].post_dedupe_dupes == 0) ==> run,
        started == reports@[0].timed_started_unix_ms,
        counts == reports@[0].worker_counts,
{
}

} // verus!
