//! The scenarios as a whole: how each is set up, and what is concluded from what it
//! has left behind.
use vstd::prelude::*;

use crate::bench::checks;
use crate::bench::checks::{
    end_maybe_committed_replay_idempotent, end_multi_source_ack_isolation,
    end_no_ack_before_sink_commit, end_out_of_order_completion_no_frontier_hole,
    end_sink_outage_backpressure_bounded, out_of_order_latency_ms, outage_latency_ms,
    replayed_sequences, CheckName, ReplayWrite,
};
use crate::bench::options::{
    inflight_bound, outage_options, pipelined_options, RuntimeOptions, SourceBackpressureOptions,
};
use crate::bench::options;
use crate::bench::output::{AckInvariantCheck, PerSourceCorrectness};
use crate::text::owned;

verus! {

/// The scenarios in the order in which they run.
pub open spec fn running_order() -> Seq<CheckName> {
    seq![
        CheckName::NoAckBeforeSinkCommit,
        CheckName::OutOfOrderCompletionNoFrontierHole,
        CheckName::MaybeCommittedReplayIdempotent,
        CheckName::MultiSourceAckIsolation,
        CheckName::SinkOutageBackpressureBounded,
    ]
}

pub fn all_scenarios() -> (r: [CheckName; 5])
    ensures
        r@ == running_order(),
{
    [
        CheckName::NoAckBeforeSinkCommit,
        CheckName::OutOfOrderCompletionNoFrontierHole,
        CheckName::MaybeCommittedReplayIdempotent,
        CheckName::MultiSourceAckIsolation,
        CheckName::SinkOutageBackpressureBounded,
    ]
}

/// Every scenario runs, and runs once.
pub proof fn law_every_scenario_runs_once(name: CheckName)
    ensures
        running_order().contains(name),
        running_order().no_duplicates(),
{
    match name {
        CheckName::NoAckBeforeSinkCommit => assert(running_order()[0] == name),
        CheckName::OutOfOrderCompletionNoFrontierHole => assert(running_order()[1] == name),
        CheckName::MaybeCommittedReplayIdempotent => assert(running_order()[2] == name),
        CheckName::MultiSourceAckIsolation => assert(running_order()[3] == name),
        CheckName::SinkOutageBackpressureBounded => assert(running_order()[4] == name),
    }
}

/// The name under which a scenario keeps its buffer.
pub open spec fn buffer_name(name: CheckName) -> &'static str {
    match name {
        CheckName::NoAckBeforeSinkCommit => "no-ack-before-commit",
        CheckName::OutOfOrderCompletionNoFrontierHole => "out-of-order",
        CheckName::MaybeCommittedReplayIdempotent => "maybe-committed",
        CheckName::MultiSourceAckIsolation => "multi-source",
        CheckName::SinkOutageBackpressureBounded => "sink-outage",
    }
}

/// A path of the buffer of a scenario.
pub open spec fn buffer_path(name: CheckName, part: Seq<char>) -> Seq<char> {
    "ingest/bench/"@ + buffer_name(name)@ + "/"@ + part
}

fn path_of(name: CheckName, part: &str) -> (r: String)
    ensures
        r@ == buffer_path(name, part@),
{
    let mut r = owned("ingest/bench/");
    r.append(
        match name {
            CheckName::NoAckBeforeSinkCommit => "no-ack-before-commit",
            CheckName::OutOfOrderCompletionNoFrontierHole => "out-of-order",
            CheckName::MaybeCommittedReplayIdempotent => "maybe-committed",
            CheckName::MultiSourceAckIsolation => "multi-source",
            CheckName::SinkOutageBackpressureBounded => "sink-outage",
        },
    );
    r.append("/");
    r.append(part);
    r
}

/// No two scenarios share a buffer.
pub proof fn law_scenarios_are_isolated(a: CheckName, b: CheckName, part: Seq<char>)
    requires
        buffer_path(a, part) == buffer_path(b, part),
    ensures
        a == b,
{
    reveal_strlit("no-ack-before-commit");
    reveal_strlit("out-of-order");
    reveal_strlit("maybe-committed");
    reveal_strlit("multi-source");
    reveal_strlit("sink-outage");
    let head = "ingest/bench/"@;
    let p = buffer_name(a)@;
    let q = buffer_name(b)@;
    assert(buffer_path(a, part).len() == head.len() + p.len() + "/"@.len() + part.len());
    assert(p.len() == q.len());
    assert(p =~= buffer_path(a, part).subrange(head.len() as int, (head.len() + p.len()) as int));
    assert(q =~= buffer_path(b, part).subrange(head.len() as int, (head.len() + q.len()) as int));
    assert("no-ack-before-commit"@.len() == 20);
    assert("out-of-order"@.len() == 12);
    assert("out-of-order"@[0] == 'o');
    assert("maybe-committed"@.len() == 15);
    assert("multi-source"@.len() == 12);
    assert("multi-source"@[0] == 'm');
    assert("sink-outage"@.len() == 11);
}

/// The file of the witness of a scenario, below the directory of witnesses.
pub open spec fn witness_text(name: CheckName) -> Seq<char> {
    checks::check_text(name)@ + "_witness.jsonl"@
}

/// The evidence of a check is the path of its witness relative to the run
/// directory, wherever that directory is: its parts from `raw` on.
pub proof fn law_evidence_is_relative_to_the_run(name: CheckName, path: Seq<String>, start: int)
    requires
        path.len() >= 3,
        path[path.len() - 3]@ == "raw"@,
        path[path.len() - 2]@ == "correctness"@,
        path[path.len() - 1]@ == witness_text(name),
        checks::starts_at(path, start),
    ensures
        checks::joined(path.subrange(start, path.len() as int)) == "raw/correctness/"@
            + witness_text(name),
{
    reveal_strlit("raw");
    reveal_strlit("correctness");
    reveal_strlit("raw/correctness/");
    reveal_strlit("/");
    reveal_strlit("_witness.jsonl");
    let n = path.len() as int;
    assert("raw"@.len() == 3 && "correctness"@.len() == 11 && "_witness.jsonl"@.len() == 14);
    assert(path[n - 2]@ != "raw"@);
    assert(path[n - 1]@ != "raw"@);
    assert(start == n - 3);
    let tail = path.subrange(start, n);
    reveal_with_fuel(checks::joined, 3);
    assert(tail.drop_last().drop_last().len() == 1);
    assert(checks::joined(tail) == "raw"@ + "/"@ + "correctness"@ + "/"@ + witness_text(name));
    assert("raw"@ + "/"@ + "correctness"@ + "/"@ =~= "raw/correctness/"@);
}

/// How a scenario is set up.
#[derive(Debug)]
pub struct ScenarioPlan {
    pub manifest_path: String,
    pub data_prefix: String,
    /// The file of its witness.
    pub witness_file: String,
    /// How long it may take.
    pub deadline_secs: u64,
    pub options: RuntimeOptions,
}

/// The settings under which a scenario runs, on the defaults of a source.
pub open spec fn settings_of(name: CheckName, base: SourceBackpressureOptions) -> RuntimeOptions {
    match name {
        CheckName::SinkOutageBackpressureBounded => options::outage_settings(base),
        CheckName::OutOfOrderCompletionNoFrontierHole => options::pipelined_settings(4, base),
        _ => options::pipelined_settings(2, base),
    }
}

/// How long a scenario may take, in seconds.
pub open spec fn deadline_of(name: CheckName) -> u64 {
    match name {
        CheckName::SinkOutageBackpressureBounded => 30,
        _ => 15,
    }
}

pub fn scenario_plan(name: CheckName, base: SourceBackpressureOptions) -> (p: ScenarioPlan)
    ensures
        p.manifest_path@ == buffer_path(name, "manifest"@),
        p.data_prefix@ == buffer_path(name, "data"@),
        p.witness_file@ == witness_text(name),
        p.deadline_secs == deadline_of(name),
        p.options == settings_of(name, base),
{
    let mut witness_file = owned(name.as_str());
    witness_file.append("_witness.jsonl");
    let (deadline_secs, options) = match name {
        CheckName::SinkOutageBackpressureBounded => (30u64, outage_options(base)),
        CheckName::OutOfOrderCompletionNoFrontierHole => (15u64, pipelined_options(4, base)),
        _ => (15u64, pipelined_options(2, base)),
    };
    ScenarioPlan {
        manifest_path: path_of(name, "manifest"),
        data_prefix: path_of(name, "data"),
        witness_file,
        deadline_secs,
        options,
    }
}

/// How long the sink of a scenario sleeps on a sequence.
pub fn latency_ms(name: CheckName, sequence: u64) -> (r: Option<u64>)
    ensures
        r == match name {
            CheckName::OutOfOrderCompletionNoFrontierHole if sequence == 0 => Some(150u64),
            CheckName::SinkOutageBackpressureBounded if sequence == 5 => Some(1500u64),
            _ => None,
        },
{
    match name {
        CheckName::OutOfOrderCompletionNoFrontierHole => out_of_order_latency_ms(sequence),
        CheckName::SinkOutageBackpressureBounded => outage_latency_ms(sequence),
        _ => None,
    }
}

/// The sequences whose first write a scenario ends in doubt.
pub fn doubted_sequences(name: CheckName) -> (r: Vec<u64>)
    ensures
        r@ == if name == CheckName::MaybeCommittedReplayIdempotent {
            seq![3u64, 12u64]
        } else {
            seq![]
        },
{
    let mut r: Vec<u64> = Vec::new();
    if name == CheckName::MaybeCommittedReplayIdempotent {
        let doubted = replayed_sequences();
        r.push(doubted[0]);
        r.push(doubted[1]);
    }
    r
}

/// What a scenario has left behind.
#[derive(Debug)]
pub struct Observed {
    /// The acknowledged sequences, in the order of the calls.
    pub acks: Vec<u64>,
    /// The sequences that were let in.
    pub admitted: Vec<u64>,
    /// The writes that reached the sink.
    pub writes: Vec<ReplayWrite>,
    /// The bytes in flight, sample by sample.
    pub in_flight_bytes: Vec<u64>,
}

/// The sequences of writes.
pub open spec fn written(writes: Seq<ReplayWrite>) -> Seq<u64> {
    writes.map_values(|w: ReplayWrite| w.sequence)
}

pub fn written_sequences(writes: &Vec<ReplayWrite>) -> (r: Vec<u64>)
    ensures
        r@ == written(writes@),
{
    let mut r: Vec<u64> = Vec::new();
    let mut i: usize = 0;
    while i < writes.len()
        invariant
            i <= writes@.len(),
            r@ == written(writes@).take(i as int),
        decreases writes@.len() - i,
    {
        r.push(writes[i].sequence);
        i = i + 1;
        assert(written(writes@).take(i as int) =~= written(writes@).take(i - 1).push(
            written(writes@)[i - 1],
        ));
    }
    assert(written(writes@).take(i as int) =~= written(writes@));
    r
}

/// Whether what a scenario of `batch_count` batches is about holds of what was seen.
pub open spec fn scenario_holds(name: CheckName, batch_count: u64, seen: Observed) -> bool {
    match name {
        CheckName::NoAckBeforeSinkCommit => checks::acks_follow_writes(
            seen.acks@,
            written(seen.writes@),
        ),
        CheckName::OutOfOrderCompletionNoFrontierHole => checks::frontier_has_no_hole(
            seen.acks@,
            batch_count,
        ),
        CheckName::MaybeCommittedReplayIdempotent => checks::saw_replay(seen.writes@)
            && checks::identities_stable(seen.writes@),
        CheckName::MultiSourceAckIsolation => checks::acks_within_admitted(
            seen.acks@,
            seen.admitted@,
        ),
        CheckName::SinkOutageBackpressureBounded => checks::stays_within(
            seen.in_flight_bytes@,
            options::inflight_bound_of(options::outage_budget()) as u64,
        ),
    }
}

/// The acknowledgement that a scenario reports. Two of them do not record any, and
/// report the one that ended them.
pub open spec fn reported_ack(name: CheckName, batch_count: u64, seen: Observed) -> Option<u64> {
    match name {
        CheckName::MaybeCommittedReplayIdempotent => Some((batch_count - 1) as u64),
        CheckName::SinkOutageBackpressureBounded => Some((batch_count - 1) as u64),
        _ => checks::last_ack(seen.acks@),
    }
}

/// The end of a scenario whose last batch was acknowledged.
pub fn end_scenario(name: CheckName, batch_count: u64, seen: &Observed, evidence: String) -> (r: (
    AckInvariantCheck,
    PerSourceCorrectness,
))
    requires
        batch_count > 0,
    ensures
        checks::concluded(r.0, name, scenario_holds(name, batch_count, *seen), evidence@),
        checks::source_outcome(
            r.1,
            batch_count,
            (batch_count - 1) as u64,
            reported_ack(name, batch_count, *seen),
        ),
{
    match name {
        CheckName::NoAckBeforeSinkCommit => {
            let writes = written_sequences(&seen.writes);
            end_no_ack_before_sink_commit(batch_count, &seen.acks, &writes, evidence)
        },
        CheckName::OutOfOrderCompletionNoFrontierHole => {
            end_out_of_order_completion_no_frontier_hole(batch_count, &seen.acks, evidence)
        },
        CheckName::MaybeCommittedReplayIdempotent => {
            end_maybe_committed_replay_idempotent(batch_count, &seen.writes, evidence)
        },
        CheckName::MultiSourceAckIsolation => {
            end_multi_source_ack_isolation(batch_count, &seen.acks, &seen.admitted, evidence)
        },
        CheckName::SinkOutageBackpressureBounded => {
            let budget = SourceBackpressureOptions {
                max_inflight_batches: 4,
                max_inflight_bytes: 4096,
                estimated_max_batch_bytes: 1024,
                fetch_concurrency: 2,
                decode_concurrency: 2,
                oversize_fault_multiplier: 4,
            };
            assert(options::inflight_bound_of(budget) == 10240) by (nonlinear_arith)
                requires
                    budget == options::outage_budget(),
            ;
            let bound: u64 = inflight_bound(&budget);
            end_sink_outage_backpressure_bounded(batch_count, &seen.in_flight_bytes, bound, evidence)
        },
    }
}

/// A scenario is set up under a buffer of its own, with the witness that its check is
/// judged by. Only the outage scenario makes no second attempt and may take longer, and
/// only the out-of-order scenario fetches four at a time.
pub proof fn law_scenario_is_set_up(
    name: CheckName,
    base: SourceBackpressureOptions,
    p: ScenarioPlan,
)
    requires
        call_ensures(scenario_plan, (name, base), p),
    ensures
        p.manifest_path@ == "ingest/bench/"@ + buffer_name(name)@ + "/"@ + "manifest"@,
        p.data_prefix@ == "ingest/bench/"@ + buffer_name(name)@ + "/"@ + "data"@,
        p.witness_file@ == checks::check_text(name)@ + "_witness.jsonl"@,
        p.deadline_secs == 30 <==> name == CheckName::SinkOutageBackpressureBounded,
        p.deadline_secs == 15 <==> name != CheckName::SinkOutageBackpressureBounded,
        p.options.sink.retry_max_attempts == 0 <==> name
            == CheckName::SinkOutageBackpressureBounded,
        p.options.source_defaults.max_inflight_bytes == 4096 && p.options.source_defaults
            .max_inflight_batches == 4 || name != CheckName::SinkOutageBackpressureBounded,
        p.options.source_defaults.fetch_concurrency == 4 <==> name
            == CheckName::OutOfOrderCompletionNoFrontierHole,
        p.options.source_defaults.fetch_concurrency == 2 <==> name
            != CheckName::OutOfOrderCompletionNoFrontierHole,
        !p.options.dry_run,
{
}

/// Whether a sequence is among the writes.
pub open spec fn is_written(writes: Seq<ReplayWrite>, s: u64) -> bool {
    exists|k: int| 0 <= k < writes.len() && (#[trigger] writes[k]).sequence == s
}

/// Whether every sequence up to `upto` is among the writes.
pub open spec fn all_written(writes: Seq<ReplayWrite>, upto: u64) -> bool {
    forall|s: u64| s <= upto ==> #[trigger] is_written(writes, s)
}

/// What each scenario concludes from what it has seen. The verdict of one scenario does
/// not look at what only another records.
pub proof fn law_scenario_verdicts(
    name: CheckName,
    n: u64,
    seen: &Observed,
    evidence: String,
    r: (AckInvariantCheck, PerSourceCorrectness),
)
    requires
        n > 0,
        call_ensures(end_scenario, (name, n, seen, evidence), r),
    ensures
        r.0.name@ == checks::check_text(name)@,
        r.0.evidence@ == evidence@,
        r.1.records_visible_in_sink == n,
        r.1.records_missing_from_sink == 0,
        r.1.highest_generated_sequence + 1 == n,
        name == CheckName::NoAckBeforeSinkCommit ==> (r.0.passed <==> seen.acks@.len() > 0 && (
        forall|i: int|
            0 <= i < seen.acks@.len() ==> all_written(seen.writes@, #[trigger] seen.acks@[i]))),
        name == CheckName::OutOfOrderCompletionNoFrontierHole ==> (r.0.passed ==> seen.acks@.len()
            > 0 && seen.acks@[seen.acks@.len() - 1] + 1 == n),
        name == CheckName::OutOfOrderCompletionNoFrontierHole ==> (r.0.passed ==> forall|
            i: int,
            j: int,
        |
            0 <= i < j < seen.acks@.len() ==> #[trigger] seen.acks@[i]
                < #[trigger] seen.acks@[j]),
        name == CheckName::MaybeCommittedReplayIdempotent ==> (r.0.passed ==> exists|
            i: int,
            j: int,
        |
            0 <= i < j < seen.writes@.len() && (#[trigger] seen.writes@[i]).sequence == (
            #[trigger] seen.writes@[j]).sequence && seen.writes@[i].identity@
                == seen.writes@[j].identity@),
        name == CheckName::MultiSourceAckIsolation ==> (r.0.passed ==> forall|i: int|
            0 <= i < seen.acks@.len() && #[trigger] seen.acks@[i] > 0 ==> exists|k: int|
                0 <= k < seen.admitted@.len() && seen.acks@[i] <= #[trigger] seen.admitted@[k]),
        name == CheckName::SinkOutageBackpressureBounded ==> (r.0.passed <==> forall|i: int|
            0 <= i < seen.in_flight_bytes@.len() ==> #[trigger] seen.in_flight_bytes@[i]
                <= 4096 + 2 * 3 * 1024),
        name == CheckName::MaybeCommittedReplayIdempotent || name
            == CheckName::SinkOutageBackpressureBounded ==> r.1.highest_acked_sequence + 1 == n,
        name != CheckName::MaybeCommittedReplayIdempotent && name
            != CheckName::SinkOutageBackpressureBounded && seen.acks@.len() > 0
            ==> r.1.highest_acked_sequence == seen.acks@[seen.acks@.len() - 1],
{
    let budget = options::outage_budget();
    assert(options::inflight_bound_of(budget) == 10240) by (nonlinear_arith)
        requires
            budget == options::outage_budget(),
    ;
    let sequences = written(seen.writes@);
    assert forall|s: u64|
        #![trigger sequences.contains(s)]
        #![trigger is_written(seen.writes@, s)]
        sequences.contains(s) <==> is_written(seen.writes@, s) by {
        if sequences.contains(s) {
            let k = choose|k: int| 0 <= k < sequences.len() && sequences[k] == s;
            assert(seen.writes@[k].sequence == s);
        }
        if is_written(seen.writes@, s) {
            let k = choose|k: int|
                0 <= k < seen.writes@.len() && (#[trigger] seen.writes@[k]).sequence == s;
            assert(sequences[k] == s);
        }
    }
    if name == CheckName::NoAckBeforeSinkCommit {
        assert forall|i: int| 0 <= i < seen.acks@.len() implies (all_written(
            seen.writes@,
            #[trigger] seen.acks@[i],
        ) <==> (forall|s: u64| s <= seen.acks@[i] ==> #[trigger] sequences.contains(s))) by {
            let a = seen.acks@[i];
            if all_written(seen.writes@, a) {
                assert forall|s: u64| s <= a implies #[trigger] sequences.contains(s) by {}
            }
            if forall|s: u64| s <= a ==> #[trigger] sequences.contains(s) {
                assert forall|s: u64| s <= a implies #[trigger] is_written(seen.writes@, s) by {
                    assert(sequences.contains(s));
                }
            }
        }
    }
    if name == CheckName::OutOfOrderCompletionNoFrontierHole && r.0.passed {
        assert forall|i: int, j: int| 0 <= i < j < seen.acks@.len() implies #[trigger] seen.acks@[i]
            < #[trigger] seen.acks@[j] by {
            checks::law_frontier_stays_in_range(seen.acks@, n, i, j);
        }
    }
    if name == CheckName::MaybeCommittedReplayIdempotent && r.0.passed {
        let (i, j) = choose|i: int, j: int|
            0 <= i < j < seen.writes@.len() && (#[trigger] seen.writes@[i]).sequence == (
            #[trigger] seen.writes@[j]).sequence;
        assert(seen.writes@[i].identity@ == seen.writes@[j].identity@);
    }
    if name == CheckName::MultiSourceAckIsolation && r.0.passed {
        checks::law_greatest_bounds(seen.admitted@);
        assert forall|i: int| 0 <= i < seen.acks@.len() && #[trigger] seen.acks@[i]
            > 0 implies exists|k: int|
            0 <= k < seen.admitted@.len() && seen.acks@[i] <= #[trigger] seen.admitted@[k] by {
            let g = checks::greatest(seen.admitted@);
            assert(seen.admitted@.contains(g));
            let k = choose|k: int| 0 <= k < seen.admitted@.len() && seen.admitted@[k] == g;
            assert(seen.acks@[i] <= seen.admitted@[k]);
        }
    }
}

/// The faults of the scenarios: a slow write of the first sequence lets later ones
/// complete before it, a slow write of the sixth is the outage, and the writes of two
/// sequences end in doubt. The other scenarios have none.
pub proof fn law_faults_of_the_scenarios(
    name: CheckName,
    sequence: u64,
    slow: Option<u64>,
    doubted: Vec<u64>,
)
    requires
        call_ensures(latency_ms, (name, sequence), slow),
        call_ensures(doubted_sequences, (name,), doubted),
    ensures
        slow is Some <==> name == CheckName::OutOfOrderCompletionNoFrontierHole && sequence == 0
            || name == CheckName::SinkOutageBackpressureBounded && sequence == 5,
        name == CheckName::OutOfOrderCompletionNoFrontierHole && slow is Some ==> slow->0 == 150,
        name == CheckName::SinkOutageBackpressureBounded && slow is Some ==> slow->0 == 1500,
        doubted@.contains(sequence) <==> name == CheckName::MaybeCommittedReplayIdempotent && (
        sequence == 3 || sequence == 12),
{
    if name == CheckName::MaybeCommittedReplayIdempotent {
        assert(doubted@[0] == 3 && doubted@[1] == 12);
    }
}

} // verus!
