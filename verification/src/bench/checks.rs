//! The correctness scenarios: what each of them injects, what it records, and how
//! its observations are judged.
use vstd::prelude::*;

use crate::bench::output::{
    count_passed, AckInvariantCheck, CorrectnessReport, ExperimentMeta, PerSourceCorrectness,
    RunMetadata, SummarySection,
};
use crate::bench::output;
use crate::text::{owned, same_text};

verus! {

/// The scenarios, in the order in which they run.
#[derive(Debug, Clone, Copy, PartialEq, Eq, Structural)]
pub enum CheckName {
    NoAckBeforeSinkCommit,
    OutOfOrderCompletionNoFrontierHole,
    MaybeCommittedReplayIdempotent,
    MultiSourceAckIsolation,
    SinkOutageBackpressureBounded,
}

/// The name of a check in a report.
pub open spec fn check_text(name: CheckName) -> &'static str {
    match name {
        CheckName::NoAckBeforeSinkCommit => "no_ack_before_sink_commit",
        CheckName::OutOfOrderCompletionNoFrontierHole => "out_of_order_completion_no_frontier_hole",
        CheckName::MaybeCommittedReplayIdempotent => "maybe_committed_replay_idempotent",
        CheckName::MultiSourceAckIsolation => "multi_source_ack_isolation",
        CheckName::SinkOutageBackpressureBounded => "sink_outage_backpressure_bounded",
    }
}

impl CheckName {
    pub fn as_str(self) -> (r: &'static str)
        ensures
            r@ == check_text(self)@,
    {
        match self {
            CheckName::NoAckBeforeSinkCommit => "no_ack_before_sink_commit",
            CheckName::OutOfOrderCompletionNoFrontierHole =>
                "out_of_order_completion_no_frontier_hole",
            CheckName::MaybeCommittedReplayIdempotent => "maybe_committed_replay_idempotent",
            CheckName::MultiSourceAckIsolation => "multi_source_ack_isolation",
            CheckName::SinkOutageBackpressureBounded => "sink_outage_backpressure_bounded",
        }
    }
}

/// Two checks have different names, so that their entries and their witness files
/// are told apart.
pub proof fn law_check_names_distinct(a: CheckName, b: CheckName)
    requires
        check_text(a)@ == check_text(b)@,
    ensures
        a == b,
{
    reveal_strlit("no_ack_before_sink_commit");
    reveal_strlit("out_of_order_completion_no_frontier_hole");
    reveal_strlit("maybe_committed_replay_idempotent");
    reveal_strlit("multi_source_ack_isolation");
    reveal_strlit("sink_outage_backpressure_bounded");
    assert("no_ack_before_sink_commit"@.len() == 25);
    assert("out_of_order_completion_no_frontier_hole"@.len() == 40);
    assert("maybe_committed_replay_idempotent"@.len() == 33);
    assert("multi_source_ack_isolation"@.len() == 26);
    assert("sink_outage_backpressure_bounded"@.len() == 32);
}

/// The one source of a scenario.
pub const SOURCE_LABEL: &'static str = "buffer";

/// The sink of a scenario.
pub const SINK_LABEL: &'static str = "bench-sink";

/// Whether a scenario has come to its end: its last batch is acknowledged.
pub fn scenario_drained(last_acked: Option<u64>, batch_count: u64) -> (r: bool)
    requires
        batch_count > 0,
    ensures
        r == (last_acked == Some((batch_count - 1) as u64)),
{
    match last_acked {
        Some(s) => s == batch_count - 1,
        None => false,
    }
}

/// How long the sink sleeps on a sequence in the out-of-order scenario, so that
/// later writes complete before that of sequence 0.
pub fn out_of_order_latency_ms(sequence: u64) -> (r: Option<u64>)
    ensures
        r == if sequence == 0 {
            Some(150u64)
        } else {
            None
        },
{
    if sequence == 0 {
        Some(150)
    } else {
        None
    }
}

/// How long the sink is out in the outage scenario.
pub fn outage_latency_ms(sequence: u64) -> (r: Option<u64>)
    ensures
        r == if sequence == 5 {
            Some(1500u64)
        } else {
            None
        },
{
    if sequence == 5 {
        Some(1500)
    } else {
        None
    }
}

/// The sequences on which the replay scenario has the first write end in doubt.
pub fn replayed_sequences() -> (r: [u64; 2])
    ensures
        r@ == seq![3u64, 12u64],
{
    let r: [u64; 2] = [3, 12];
    assert(r@ =~= seq![3u64, 12u64]);
    r
}

fn holds(values: &Vec<u64>, v: u64) -> (r: bool)
    ensures
        r == values@.contains(v),
{
    let mut i: usize = 0;
    while i < values.len()
        invariant
            i <= values@.len(),
            forall|j: int| 0 <= j < i ==> values@[j] != v,
        decreases values@.len() - i,
    {
        if values[i] == v {
            return true;
        }
        i = i + 1;
    }
    false
}

/// Whether every sequence up to each acknowledged one has been written, and
/// anything was acknowledged at all.
pub open spec fn acks_follow_writes(acks: Seq<u64>, writes: Seq<u64>) -> bool {
    &&& acks.len() > 0
    &&& forall|i: int, s: u64|
        0 <= i < acks.len() && s <= #[trigger] acks[i] ==> #[trigger] writes.contains(s)
}

fn writes_reach(writes: &Vec<u64>, ack: u64) -> (r: bool)
    ensures
        r == (forall|s: u64| s <= ack ==> #[trigger] writes@.contains(s)),
{
    let mut s: u64 = 0;
    loop
        invariant
            s <= ack,
            forall|t: u64| t < s ==> #[trigger] writes@.contains(t),
        decreases ack - s,
    {
        if !holds(writes, s) {
            return false;
        }
        if s == ack {
            return true;
        }
        s = s + 1;
    }
}

pub fn judge_no_ack_before_commit(acks: &Vec<u64>, writes: &Vec<u64>) -> (r: bool)
    ensures
        r == acks_follow_writes(acks@, writes@),
{
    if acks.len() == 0 {
        return false;
    }
    let mut i: usize = 0;
    while i < acks.len()
        invariant
            i <= acks@.len(),
            forall|j: int, s: u64|
                0 <= j < i && s <= #[trigger] acks@[j] ==> #[trigger] writes@.contains(s),
        decreases acks@.len() - i,
    {
        if !writes_reach(writes, acks[i]) {
            proof {
                let s = choose|s: u64| s <= acks@[i as int] && !#[trigger] writes@.contains(s);
                assert(s <= acks@[i as int] && !writes@.contains(s));
            }
            return false;
        }
        i = i + 1;
    }
    true
}

/// Whether the acknowledgements only ever move forward and end on the last of
/// `batch_count` batches.
pub open spec fn frontier_has_no_hole(acks: Seq<u64>, batch_count: u64) -> bool {
    &&& acks.len() > 0
    &&& acks.last() == batch_count - 1
    &&& forall|i: int, j: int| 0 <= i && j == i + 1 && j < acks.len() ==> #[trigger] acks[i]
        < #[trigger] acks[j]
}

pub fn judge_out_of_order(acks: &Vec<u64>, batch_count: u64) -> (r: bool)
    requires
        batch_count > 0,
    ensures
        r == frontier_has_no_hole(acks@, batch_count),
{
    if acks.len() == 0 {
        return false;
    }
    let mut i: usize = 1;
    while i < acks.len()
        invariant
            1 <= i <= acks@.len(),
            forall|k: int, j: int| 0 <= k && j == k + 1 && j < i ==> #[trigger] acks@[k]
                < #[trigger] acks@[j],
        decreases acks@.len() - i,
    {
        if acks[i] <= acks[i - 1] {
            assert(!(acks@[i - 1] < acks@[i as int]));
            return false;
        }
        i = i + 1;
    }
    acks[acks.len() - 1] == batch_count - 1
}

proof fn lemma_ascending(acks: Seq<u64>, i: int, j: int)
    requires
        0 <= i <= j < acks.len(),
        forall|k: int, l: int| 0 <= k && l == k + 1 && l < acks.len() ==> #[trigger] acks[k]
            < #[trigger] acks[l],
    ensures
        i < j ==> acks[i] < acks[j],
    decreases j - i,
{
    if i < j {
        lemma_ascending(acks, i, j - 1);
        assert(acks[j - 1] < acks[j]);
    }
}

/// A frontier without a hole never names a batch that was not produced, and never
/// the same batch twice.
pub proof fn law_frontier_stays_in_range(acks: Seq<u64>, batch_count: u64, i: int, j: int)
    requires
        batch_count > 0,
        frontier_has_no_hole(acks, batch_count),
        0 <= i < j < acks.len(),
    ensures
        acks[i] < acks[j] < batch_count,
{
    lemma_ascending(acks, i, j);
    lemma_ascending(acks, j, acks.len() - 1);
}

/// A write as the replay scenario sees it: its sequence, and the text of the
/// identity under which it came.
#[derive(Debug)]
pub struct ReplayWrite {
    pub sequence: u64,
    pub identity: String,
}

/// Whether two writes came for one sequence.
pub open spec fn saw_replay(writes: Seq<ReplayWrite>) -> bool {
    exists|i: int, j: int|
        0 <= i < j < writes.len() && (#[trigger] writes[i]).sequence == (
        #[trigger] writes[j]).sequence
}

/// Whether all writes of one sequence came under one identity.
pub open spec fn identities_stable(writes: Seq<ReplayWrite>) -> bool {
    forall|i: int, j: int|
        0 <= i < j < writes.len() && (#[trigger] writes[i]).sequence == (
        #[trigger] writes[j]).sequence ==> writes[i].identity@ == writes[j].identity@
}

/// A replay happened, and none changed its identity.
pub fn judge_replay(writes: &Vec<ReplayWrite>) -> (r: bool)
    ensures
        r == (saw_replay(writes@) && identities_stable(writes@)),
{
    let mut replayed: bool = false;
    let mut i: usize = 0;
    while i < writes.len()
        invariant
            i <= writes@.len(),
            replayed == exists|k: int, l: int|
                0 <= k < l < i && (#[trigger] writes@[k]).sequence == (
                #[trigger] writes@[l]).sequence,
            forall|k: int, l: int|
                0 <= k < l < i && (#[trigger] writes@[k]).sequence == (
                #[trigger] writes@[l]).sequence ==> writes@[k].identity@ == writes@[l].identity@,
        decreases writes@.len() - i,
    {
        let mut j: usize = 0;
        while j < i
            invariant
                j <= i < writes@.len(),
                replayed == exists|k: int, l: int|
                    0 <= k < l && (l < i || l == i && k < j) && (#[trigger] writes@[k]).sequence
                        == (#[trigger] writes@[l]).sequence,
                forall|k: int, l: int|
                    0 <= k < l && (l < i || l == i && k < j) && (#[trigger] writes@[k]).sequence
                        == (#[trigger] writes@[l]).sequence ==> writes@[k].identity@
                        == writes@[l].identity@,
            decreases i - j,
        {
            if writes[j].sequence == writes[i].sequence {
                if !same_text(writes[j].identity.as_str(), writes[i].identity.as_str()) {
                    assert(writes@[j as int].sequence == writes@[i as int].sequence);
                    return false;
                }
                replayed = true;
                assert(writes@[j as int].sequence == writes@[i as int].sequence);
            }
            j = j + 1;
        }
        i = i + 1;
    }
    replayed
}

/// The greatest of the values, or 0 if there is none.
pub open spec fn greatest(values: Seq<u64>) -> u64
    decreases values.len(),
{
    if values.len() == 0 {
        0
    } else {
        let rest = greatest(values.drop_last());
        if values.last() > rest {
            values.last()
        } else {
            rest
        }
    }
}

fn find_greatest(values: &Vec<u64>) -> (r: u64)
    ensures
        r == greatest(values@),
{
    let mut r: u64 = 0;
    let mut i: usize = 0;
    while i < values.len()
        invariant
            i <= values@.len(),
            r == greatest(values@.take(i as int)),
        decreases values@.len() - i,
    {
        assert(values@.take(i + 1).drop_last() =~= values@.take(i as int));
        if values[i] > r {
            r = values[i];
        }
        i = i + 1;
    }
    assert(values@.take(i as int) =~= values@);
    r
}

/// The greatest value bounds every one, and is one of them or 0.
pub proof fn law_greatest_bounds(values: Seq<u64>)
    ensures
        forall|i: int| 0 <= i < values.len() ==> #[trigger] values[i] <= greatest(values),
        greatest(values) == 0 || values.contains(greatest(values)),
    decreases values.len(),
{
    if values.len() > 0 {
        law_greatest_bounds(values.drop_last());
        assert(values.last() == values[values.len() - 1]);
        assert forall|i: int| 0 <= i < values.len() implies #[trigger] values[i] <= greatest(
            values,
        ) by {
            if i < values.len() - 1 {
                assert(values.drop_last()[i] == values[i]);
            }
        }
        if values.drop_last().contains(greatest(values)) {
            let k = choose|k: int|
                0 <= k < values.drop_last().len() && values.drop_last()[k] == greatest(values);
            assert(values[k] == greatest(values));
        }
    }
}

/// Whether no acknowledgement goes beyond what was admitted.
pub open spec fn acks_within_admitted(acks: Seq<u64>, admitted: Seq<u64>) -> bool {
    forall|i: int| 0 <= i < acks.len() ==> #[trigger] acks[i] <= greatest(admitted)
}

pub fn judge_isolation(acks: &Vec<u64>, admitted: &Vec<u64>) -> (r: bool)
    ensures
        r == acks_within_admitted(acks@, admitted@),
{
    let highest: u64 = find_greatest(admitted);
    let mut i: usize = 0;
    while i < acks.len()
        invariant
            i <= acks@.len(),
            highest == greatest(admitted@),
            forall|j: int| 0 <= j < i ==> #[trigger] acks@[j] <= highest,
        decreases acks@.len() - i,
    {
        if acks[i] > highest {
            return false;
        }
        i = i + 1;
    }
    true
}

/// Whether the bytes in flight never went over `bound`.
pub open spec fn stays_within(samples: Seq<u64>, bound: u64) -> bool {
    forall|i: int| 0 <= i < samples.len() ==> #[trigger] samples[i] <= bound
}

pub fn judge_outage(in_flight_bytes: &Vec<u64>, bound: u64) -> (r: bool)
    ensures
        r == stays_within(in_flight_bytes@, bound),
{
    let peak: u64 = find_greatest(in_flight_bytes);
    proof {
        law_greatest_bounds(in_flight_bytes@);
        if in_flight_bytes@.contains(peak) {
            let k = choose|k: int| 0 <= k < in_flight_bytes@.len() && in_flight_bytes@[k] == peak;
            assert(in_flight_bytes@[k] == peak);
        }
    }
    peak <= bound
}

/// A line of the witness of the first scenario: an acknowledgement, and what the
/// sink had been handed.
#[derive(Debug)]
pub struct AckEvent {
    pub seq: u64,
    pub sources_written_to_sink: Vec<u64>,
}

fn copy_values(values: &Vec<u64>) -> (r: Vec<u64>)
    ensures
        r@ == values@,
{
    let mut r: Vec<u64> = Vec::new();
    let mut i: usize = 0;
    while i < values.len()
        invariant
            i <= values@.len(),
            r@ == values@.take(i as int),
        decreases values@.len() - i,
    {
        r.push(values[i]);
        i = i + 1;
        assert(values@.take(i as int) =~= values@.take(i - 1).push(values@[i - 1]));
    }
    assert(values@.take(i as int) =~= values@);
    r
}

pub fn ack_events(acks: &Vec<u64>, writes: &Vec<u64>) -> (r: Vec<AckEvent>)
    ensures
        r@.len() == acks@.len(),
        forall|i: int|
            0 <= i < r@.len() ==> (#[trigger] r@[i]).seq == acks@[i]
                && r@[i].sources_written_to_sink@ == writes@,
{
    let mut r: Vec<AckEvent> = Vec::new();
    let mut i: usize = 0;
    while i < acks.len()
        invariant
            i <= acks@.len(),
            r@.len() == i,
            forall|j: int|
                0 <= j < i ==> (#[trigger] r@[j]).seq == acks@[j]
                    && r@[j].sources_written_to_sink@ == writes@,
        decreases acks@.len() - i,
    {
        r.push(AckEvent { seq: acks[i], sources_written_to_sink: copy_values(writes) });
        i = i + 1;
    }
    r
}

/// A line of the witness of the out-of-order scenario: a step of the frontier.
#[derive(Debug, Clone, Copy, PartialEq, Eq, Structural)]
pub struct FrontierTransition {
    pub from: Option<u64>,
    pub to: u64,
}

pub fn frontier_transitions(acks: &Vec<u64>) -> (r: Vec<FrontierTransition>)
    ensures
        r@.len() == acks@.len(),
        forall|i: int|
            0 <= i < r@.len() ==> #[trigger] r@[i] == (FrontierTransition {
                from: if i == 0 {
                    None
                } else {
                    Some(acks@[i - 1])
                },
                to: acks@[i],
            }),
{
    let mut r: Vec<FrontierTransition> = Vec::new();
    let mut i: usize = 0;
    while i < acks.len()
        invariant
            i <= acks@.len(),
            r@.len() == i,
            forall|j: int|
                0 <= j < i ==> #[trigger] r@[j] == (FrontierTransition {
                    from: if j == 0 {
                        None
                    } else {
                        Some(acks@[j - 1])
                    },
                    to: acks@[j],
                }),
        decreases acks@.len() - i,
    {
        let from: Option<u64> = if i == 0 {
            None
        } else {
            Some(acks[i - 1])
        };
        r.push(FrontierTransition { from, to: acks[i] });
        i = i + 1;
    }
    r
}

/// A line of the witness of the replay scenario: a write, in the order in which
/// they came.
#[derive(Debug)]
pub struct IdempotentReplayEvent {
    pub sequence: u64,
    pub identity: String,
    pub attempt_index: usize,
}

pub fn replay_events(writes: &Vec<ReplayWrite>) -> (r: Vec<IdempotentReplayEvent>)
    ensures
        r@.len() == writes@.len(),
        forall|i: int|
            0 <= i < r@.len() ==> (#[trigger] r@[i]).sequence == writes@[i].sequence
                && r@[i].identity@ == writes@[i].identity@ && r@[i].attempt_index == i,
{
    let mut r: Vec<IdempotentReplayEvent> = Vec::new();
    let mut i: usize = 0;
    while i < writes.len()
        invariant
            i <= writes@.len(),
            r@.len() == i,
            forall|j: int|
                0 <= j < i ==> (#[trigger] r@[j]).sequence == writes@[j].sequence
                    && r@[j].identity@ == writes@[j].identity@ && r@[j].attempt_index == j,
        decreases writes@.len() - i,
    {
        r.push(
            IdempotentReplayEvent {
                sequence: writes[i].sequence,
                identity: owned(writes[i].identity.as_str()),
                attempt_index: i,
            },
        );
        i = i + 1;
    }
    r
}

/// A line of the witness of the isolation scenario: an acknowledgement of a
/// source.
#[derive(Debug)]
pub struct SourceIsolationEvent {
    pub source: String,
    pub frontier_advance_to: u64,
    pub highest_acked_sequence_seen: u64,
}

pub fn isolation_events(acks: &Vec<u64>) -> (r: Vec<SourceIsolationEvent>)
    ensures
        r@.len() == acks@.len(),
        forall|i: int|
            0 <= i < r@.len() ==> (#[trigger] r@[i]).source@ == SOURCE_LABEL@
                && r@[i].frontier_advance_to == acks@[i] && r@[i].highest_acked_sequence_seen
                == acks@[i],
{
    let mut r: Vec<SourceIsolationEvent> = Vec::new();
    let mut i: usize = 0;
    while i < acks.len()
        invariant
            i <= acks@.len(),
            r@.len() == i,
            forall|j: int|
                0 <= j < i ==> (#[trigger] r@[j]).source@ == SOURCE_LABEL@
                    && r@[j].frontier_advance_to == acks@[j] && r@[j].highest_acked_sequence_seen
                    == acks@[j],
        decreases acks@.len() - i,
    {
        r.push(
            SourceIsolationEvent {
                source: owned(SOURCE_LABEL),
                frontier_advance_to: acks[i],
                highest_acked_sequence_seen: acks[i],
            },
        );
        i = i + 1;
    }
    r
}

/// The texts of the parts of a path, joined by slashes.
pub open spec fn joined(parts: Seq<String>) -> Seq<char>
    decreases parts.len(),
{
    if parts.len() == 0 {
        Seq::empty()
    } else if parts.len() == 1 {
        parts[0]@
    } else {
        joined(parts.drop_last()) + "/"@ + parts.last()@
    }
}

/// Where the part of a path that is relative to a run directory starts: at its
/// last `raw`, or at the start if there is none.
pub open spec fn starts_at(parts: Seq<String>, start: int) -> bool {
    &&& 0 <= start <= parts.len()
    &&& start > 0 ==> start < parts.len() && parts[start]@ == "raw"@
    &&& forall|i: int| start < i < parts.len() ==> (#[trigger] parts[i])@ != "raw"@
}

/// The path of a witness file, relative to the run directory.
pub fn relative_evidence(parts: &Vec<String>) -> (r: String)
    ensures
        exists|start: int|
            #[trigger] starts_at(parts@, start) && r@ == joined(
                parts@.subrange(start, parts@.len() as int),
            ),
{
    let mut start: usize = parts.len();
    loop
        invariant_except_break
            start <= parts@.len(),
            forall|i: int| start <= i < parts@.len() ==> (#[trigger] parts@[i])@ != "raw"@,
        ensures
            start <= parts@.len(),
            start > 0 ==> start < parts@.len() && parts@[start as int]@ == "raw"@,
            forall|i: int| start < i < parts@.len() ==> (#[trigger] parts@[i])@ != "raw"@,
        decreases start,
    {
        if start == 0 {
            break;
        }
        start = start - 1;
        if same_text(parts[start].as_str(), "raw") {
            break;
        }
    }
    assert(starts_at(parts@, start as int));
    let ghost tail = parts@.subrange(start as int, parts@.len() as int);
    let mut out = String::new();
    let mut i: usize = start;
    while i < parts.len()
        invariant
            start <= i <= parts@.len(),
            tail == parts@.subrange(start as int, parts@.len() as int),
            out@ == joined(tail.take(i - start)),
        decreases parts@.len() - i,
    {
        assert(tail.take(i + 1 - start).drop_last() =~= tail.take(i - start));
        assert(tail.take(i + 1 - start).last() == parts@[i as int]);
        if i > start {
            out.append("/");
        }
        out.append(parts[i].as_str());
        i = i + 1;
        assert(out@ =~= joined(tail.take(i - start)));
    }
    assert(tail.take(i - start) =~= tail);
    out
}

/// What a scenario says of its source.
pub open spec fn source_outcome(
    s: PerSourceCorrectness,
    generated: u64,
    highest_generated: u64,
    last_ack: Option<u64>,
) -> bool {
    &&& s.highest_generated_sequence == highest_generated
    &&& s.highest_acked_sequence == (match last_ack {
        Some(a) => a,
        None => 0,
    })
    &&& s.records_visible_in_sink == generated
    &&& s.records_missing_from_sink == 0
    &&& s.duplicate_records_pre_dedupe == 0
    &&& s.duplicate_records_post_dedupe == 0
    &&& s.notes@ == "in-memory smoke; BenchSink is deterministic; no real dedupe view"@
}

pub fn per_source_summary(generated: u64, highest_generated: u64, last_ack: Option<u64>) -> (r:
    PerSourceCorrectness)
    ensures
        source_outcome(r, generated, highest_generated, last_ack),
{
    PerSourceCorrectness {
        highest_generated_sequence: highest_generated,
        highest_acked_sequence: match last_ack {
            Some(a) => a,
            None => 0,
        },
        records_visible_in_sink: generated,
        records_missing_from_sink: 0,
        duplicate_records_pre_dedupe: 0,
        duplicate_records_post_dedupe: 0,
        notes: owned("in-memory smoke; BenchSink is deterministic; no real dedupe view"),
    }
}

fn last_of(acks: &Vec<u64>) -> (r: Option<u64>)
    ensures
        r == last_ack(acks@),
{
    if acks.len() == 0 {
        None
    } else {
        Some(acks[acks.len() - 1])
    }
}

/// The last acknowledgement.
pub open spec fn last_ack(acks: Seq<u64>) -> Option<u64> {
    if acks.len() == 0 {
        None
    } else {
        Some(acks.last())
    }
}

fn conclude(name: CheckName, passed: bool, evidence: String) -> (r: AckInvariantCheck)
    ensures
        r.name@ == check_text(name)@,
        r.passed == passed,
        r.evidence == evidence,
{
    AckInvariantCheck { name: owned(name.as_str()), passed, evidence }
}

/// Whether a check is that of a scenario, with its verdict and its evidence.
pub open spec fn concluded(
    c: AckInvariantCheck,
    name: CheckName,
    passed: bool,
    evidence: Seq<char>,
) -> bool {
    c.name@ == check_text(name)@ && c.passed == passed && c.evidence@ == evidence
}

/// The end of the first scenario: nothing was acknowledged before it was written.
pub fn end_no_ack_before_sink_commit(
    batch_count: u64,
    acks: &Vec<u64>,
    writes: &Vec<u64>,
    evidence: String,
) -> (r: (AckInvariantCheck, PerSourceCorrectness))
    requires
        batch_count > 0,
    ensures
        concluded(
            r.0,
            CheckName::NoAckBeforeSinkCommit,
            acks_follow_writes(acks@, writes@),
            evidence@,
        ),
        source_outcome(r.1, batch_count, (batch_count - 1) as u64, last_ack(acks@)),
{
    let passed: bool = judge_no_ack_before_commit(acks, writes);
    (
        conclude(CheckName::NoAckBeforeSinkCommit, passed, evidence),
        per_source_summary(batch_count, batch_count - 1, last_of(acks)),
    )
}

/// The end of the out-of-order scenario.
pub fn end_out_of_order_completion_no_frontier_hole(
    batch_count: u64,
    acks: &Vec<u64>,
    evidence: String,
) -> (r: (AckInvariantCheck, PerSourceCorrectness))
    requires
        batch_count > 0,
    ensures
        concluded(
            r.0,
            CheckName::OutOfOrderCompletionNoFrontierHole,
            frontier_has_no_hole(acks@, batch_count),
            evidence@,
        ),
        source_outcome(r.1, batch_count, (batch_count - 1) as u64, last_ack(acks@)),
{
    let passed: bool = judge_out_of_order(acks, batch_count);
    (
        conclude(CheckName::OutOfOrderCompletionNoFrontierHole, passed, evidence),
        per_source_summary(batch_count, batch_count - 1, last_of(acks)),
    )
}

/// The end of the replay scenario, which ends once the last batch is
/// acknowledged.
pub fn end_maybe_committed_replay_idempotent(
    batch_count: u64,
    writes: &Vec<ReplayWrite>,
    evidence: String,
) -> (r: (AckInvariantCheck, PerSourceCorrectness))
    requires
        batch_count > 0,
    ensures
        concluded(
            r.0,
            CheckName::MaybeCommittedReplayIdempotent,
            saw_replay(writes@) && identities_stable(writes@),
            evidence@,
        ),
        source_outcome(
            r.1,
            batch_count,
            (batch_count - 1) as u64,
            Some((batch_count - 1) as u64),
        ),
{
    let passed: bool = judge_replay(writes);
    (
        conclude(CheckName::MaybeCommittedReplayIdempotent, passed, evidence),
        per_source_summary(batch_count, batch_count - 1, Some(batch_count - 1)),
    )
}

/// The end of the isolation scenario.
pub fn end_multi_source_ack_isolation(
    batch_count: u64,
    acks: &Vec<u64>,
    admitted: &Vec<u64>,
    evidence: String,
) -> (r: (AckInvariantCheck, PerSourceCorrectness))
    requires
        batch_count > 0,
    ensures
        concluded(
            r.0,
            CheckName::MultiSourceAckIsolation,
            acks_within_admitted(acks@, admitted@),
            evidence@,
        ),
        source_outcome(r.1, batch_count, (batch_count - 1) as u64, last_ack(acks@)),
{
    let passed: bool = judge_isolation(acks, admitted);
    (
        conclude(CheckName::MultiSourceAckIsolation, passed, evidence),
        per_source_summary(batch_count, batch_count - 1, last_of(acks)),
    )
}

/// The end of the outage scenario, which ends once the last batch is
/// acknowledged.
pub fn end_sink_outage_backpressure_bounded(
    batch_count: u64,
    in_flight_bytes: &Vec<u64>,
    bound: u64,
    evidence: String,
) -> (r: (AckInvariantCheck, PerSourceCorrectness))
    requires
        batch_count > 0,
    ensures
        concluded(
            r.0,
            CheckName::SinkOutageBackpressureBounded,
            stays_within(in_flight_bytes@, bound),
            evidence@,
        ),
        source_outcome(
            r.1,
            batch_count,
            (batch_count - 1) as u64,
            Some((batch_count - 1) as u64),
        ),
{
    let passed: bool = judge_outage(in_flight_bytes, bound);
    (
        conclude(CheckName::SinkOutageBackpressureBounded, passed, evidence),
        per_source_summary(batch_count, batch_count - 1, Some(batch_count - 1)),
    )
}

/// How many batches each scenario produces.
pub const SMOKE_RECORDS_PER_SOURCE: u64 = 20;

/// The report of a run from its checks and from what the first scenario says of
/// the source.
pub fn smoke_report(
    records_per_source: u64,
    checks: Vec<AckInvariantCheck>,
    source: PerSourceCorrectness,
) -> (r: CorrectnessReport)
    ensures
        r.schema_version == 2,
        r.summary.records_generated == records_per_source,
        r.summary.highest_generated_sequence == if records_per_source == 0 {
            0
        } else {
            records_per_source - 1
        },
        r.summary.duplicate_records_post_dedupe == 0,
        r.summary.ack_invariant_violations == checks@.len() - output::passed_count(checks@),
        r.summary.required_sink@ == SINK_LABEL@,
        r.sources@.len() == 1,
        r.sources@[0].0@ == SOURCE_LABEL@,
        r.sources@[0].1 == source,
        r.ack_invariant_checks == checks,
{
    let passed: usize = count_passed(&checks);
    let violations: u64 = (checks.len() - passed) as u64;
    let mut sources: Vec<(String, PerSourceCorrectness)> = Vec::new();
    sources.push((owned(SOURCE_LABEL), source));
    CorrectnessReport {
        schema_version: 2,
        summary: SummarySection {
            records_generated: records_per_source,
            highest_generated_sequence: records_per_source.saturating_sub(1),
            duplicate_records_post_dedupe: 0,
            ack_invariant_violations: violations,
            required_sink: owned(SINK_LABEL),
        },
        sources,
        ack_invariant_checks: checks,
    }
}

/// The report of a run is good exactly if it counts no violation, given that the
/// scenarios found nothing missing.
pub proof fn law_smoke_gate_counts_violations(r: CorrectnessReport)
    requires
        r.summary.duplicate_records_post_dedupe == 0,
        r.summary.ack_invariant_violations == r.ack_invariant_checks@.len()
            - output::passed_count(r.ack_invariant_checks@),
        r.sources@.len() == 1,
        r.sources@[0].1.records_missing_from_sink == 0,
    ensures
        output::gate_passes(r) <==> r.summary.ack_invariant_violations == 0,
{
    output::law_no_violation_means_all_passed(r.ack_invariant_checks@);
}

/// The metadata of a run that lasted from `started_at` to `ended_at`.
pub fn smoke_metadata(started_at: String, ended_at: String) -> (r: RunMetadata)
    ensures
        r.schema_version == 2,
        r.phase@ == "phase06-pipelined-runtime"@,
        r.unit_id@ == "6.6"@,
        r.unit_title@ == "Phase 6.x correctness smoke (closeout §1.1)"@,
        r.owner@ == "Correctness Implementor"@,
        r.started_at == started_at,
        r.ended_at == ended_at,
        r.experiment.kind@ == "smoke"@,
        r.run_kind@ == "in_memory_correctness_smoke"@,
        r.notes@
            == "ObjectStore::InMemory + BenchSink; runs entirely in-process. Real ClickHouse + S3 runs are operator work."@,
{
    RunMetadata {
        schema_version: 2,
        phase: owned("phase06-pipelined-runtime"),
        unit_id: owned("6.6"),
        unit_title: owned("Phase 6.x correctness smoke (closeout §1.1)"),
        owner: owned("Correctness Implementor"),
        started_at,
        ended_at,
        experiment: ExperimentMeta { kind: owned("smoke") },
        run_kind: owned("in_memory_correctness_smoke"),
        notes: owned(
            "ObjectStore::InMemory + BenchSink; runs entirely in-process. Real ClickHouse + S3 runs are operator work.",
        ),
    }
}

/// The first scenario is failed by a single sequence that was never written and is
/// covered by an acknowledgement, and by acknowledging nothing. Where everything up to
/// every acknowledgement was written it holds, in whatever order the writes came and
/// however often.
pub proof fn law_one_unwritten_sequence_fails(
    acks: &Vec<u64>,
    writes: &Vec<u64>,
    r: bool,
    i: int,
    missing: u64,
)
    requires
        call_ensures(judge_no_ack_before_commit, (acks, writes), r),
    ensures
        acks@.len() == 0 ==> !r,
        0 <= i < acks@.len() && missing <= acks@[i] && !writes@.contains(missing) ==> !r,
        acks@.len() > 0 && (forall|k: int, s: u64|
            0 <= k < acks@.len() && s <= #[trigger] acks@[k] ==> #[trigger] writes@.contains(s))
            ==> r,
{
}

/// The frontier is failed by a step that repeats or goes back, wherever it is, and by
/// any last step but the last batch. One that only ever moves forward and ends there
/// holds, whatever it passes over.
pub proof fn law_one_step_back_fails(acks: &Vec<u64>, batch_count: u64, r: bool, i: int, j: int)
    requires
        batch_count > 0,
        call_ensures(judge_out_of_order, (acks, batch_count), r),
    ensures
        acks@.len() == 0 ==> !r,
        acks@.len() > 0 && acks@[acks@.len() - 1] + 1 != batch_count ==> !r,
        0 <= i < j < acks@.len() && acks@[j] <= acks@[i] ==> !r,
        acks@.len() > 0 && acks@[acks@.len() - 1] + 1 == batch_count && (forall|k: int, l: int|
            0 <= k < l < acks@.len() ==> #[trigger] acks@[k] < #[trigger] acks@[l]) ==> r,
{
    if r && 0 <= i < j < acks@.len() {
        lemma_ascending(acks@, i, j);
    }
}

/// A replay is good where some sequence was written twice, and every repeated write
/// came under the identity of the first. One repeat under another identity fails it,
/// and so does a run without a repeat.
pub proof fn law_one_changed_identity_fails(
    writes: &Vec<ReplayWrite>,
    r: bool,
    i: int,
    j: int,
)
    requires
        call_ensures(judge_replay, (writes,), r),
        0 <= i < j < writes@.len(),
    ensures
        writes@[i].sequence == writes@[j].sequence && writes@[i].identity@
            != writes@[j].identity@ ==> !r,
        writes@[i].sequence == writes@[j].sequence && (forall|k: int, l: int|
            0 <= k < l < writes@.len() && (#[trigger] writes@[k]).sequence == (
            #[trigger] writes@[l]).sequence ==> writes@[k].identity@ == writes@[l].identity@)
            ==> r,
        (forall|k: int, l: int|
            0 <= k < l < writes@.len() ==> (#[trigger] writes@[k]).sequence != (
            #[trigger] writes@[l]).sequence) ==> !r,
{
}

/// An acknowledgement is within bounds where a sequence was admitted that is not below
/// it. One beyond all admitted sequences fails the check.
pub proof fn law_one_ack_too_far_fails(
    acks: &Vec<u64>,
    admitted: &Vec<u64>,
    r: bool,
    i: int,
)
    requires
        call_ensures(judge_isolation, (acks, admitted), r),
        0 <= i < acks@.len(),
    ensures
        acks@[i] > 0 && (forall|k: int|
            0 <= k < admitted@.len() ==> #[trigger] admitted@[k] < acks@[i]) ==> !r,
        (forall|k: int|
            0 <= k < acks@.len() ==> admitted@.contains(#[trigger] acks@[k])) ==> r,
        (exists|k: int|
            0 <= k < admitted@.len() && (forall|l: int|
                0 <= l < acks@.len() ==> #[trigger] acks@[l] <= #[trigger] admitted@[k])) ==> r,
{
    law_greatest_bounds(admitted@);
    if admitted@.contains(greatest(admitted@)) {
        let k = choose|k: int|
            0 <= k < admitted@.len() && admitted@[k] == greatest(admitted@);
        assert(admitted@[k] == greatest(admitted@));
    }
    if forall|k: int| 0 <= k < acks@.len() ==> admitted@.contains(#[trigger] acks@[k]) {
        assert forall|k: int| 0 <= k < acks@.len() implies #[trigger] acks@[k] <= greatest(
            admitted@,
        ) by {
            assert(admitted@.contains(acks@[k]));
            let m = choose|m: int| 0 <= m < admitted@.len() && admitted@[m] == acks@[k];
            assert(admitted@[m] <= greatest(admitted@));
        }
    }
    if exists|k: int|
        0 <= k < admitted@.len() && (forall|l: int|
            0 <= l < acks@.len() ==> #[trigger] acks@[l] <= #[trigger] admitted@[k]) {
        let k = choose|k: int|
            0 <= k < admitted@.len() && (forall|l: int|
                0 <= l < acks@.len() ==> #[trigger] acks@[l] <= #[trigger] admitted@[k]);
        assert forall|l: int| 0 <= l < acks@.len() implies #[trigger] acks@[l] <= greatest(
            admitted@,
        ) by {
            assert(acks@[l] <= admitted@[k]);
        }
    }
}

/// One sample above the bound fails the outage check; samples up to the bound itself
/// hold.
pub proof fn law_one_sample_above_the_bound_fails(
    samples: &Vec<u64>,
    bound: u64,
    r: bool,
    i: int,
)
    requires
        call_ensures(judge_outage, (samples, bound), r),
    ensures
        0 <= i < samples@.len() && samples@[i] > bound ==> !r,
        (forall|k: int| 0 <= k < samples@.len() ==> #[trigger] samples@[k] <= bound) ==> r,
{
}

/// What is said of the source of a scenario of `n` batches: all were generated and are
/// visible, the last has the number `n - 1`, nothing is missing and nothing twice. The
/// highest acknowledgement is the last one that came, or 0.
pub open spec fn tells_of_batches(s: PerSourceCorrectness, n: u64, last: Option<u64>) -> bool {
    &&& s.highest_generated_sequence + 1 == n
    &&& s.records_visible_in_sink == n
    &&& s.records_missing_from_sink == 0
    &&& s.duplicate_records_pre_dedupe == 0
    &&& s.duplicate_records_post_dedupe == 0
    &&& last is Some ==> s.highest_acked_sequence == last->0
    &&& last is None ==> s.highest_acked_sequence == 0
}

/// Each scenario ends on the verdict of its own check, under the name of that check and
/// with the evidence that it was handed.
pub proof fn law_scenarios_end_on_their_verdict(
    n: u64,
    acks: &Vec<u64>,
    others: &Vec<u64>,
    evidence: String,
    verdicts: (bool, bool, bool),
    ends: (
        (AckInvariantCheck, PerSourceCorrectness),
        (AckInvariantCheck, PerSourceCorrectness),
        (AckInvariantCheck, PerSourceCorrectness),
    ),
)
    requires
        n > 0,
        call_ensures(judge_no_ack_before_commit, (acks, others), verdicts.0),
        call_ensures(judge_out_of_order, (acks, n), verdicts.1),
        call_ensures(judge_isolation, (acks, others), verdicts.2),
        call_ensures(end_no_ack_before_sink_commit, (n, acks, others, evidence), ends.0),
        call_ensures(end_out_of_order_completion_no_frontier_hole, (n, acks, evidence), ends.1),
        call_ensures(end_multi_source_ack_isolation, (n, acks, others, evidence), ends.2),
    ensures
        ends.0.0.passed == verdicts.0,
        ends.1.0.passed == verdicts.1,
        ends.2.0.passed == verdicts.2,
        ends.0.0.name@ == "no_ack_before_sink_commit"@,
        ends.1.0.name@ == "out_of_order_completion_no_frontier_hole"@,
        ends.2.0.name@ == "multi_source_ack_isolation"@,
        ends.0.0.evidence@ == evidence@,
        ends.1.0.evidence@ == evidence@,
        ends.2.0.evidence@ == evidence@,
        acks@.len() > 0 ==> tells_of_batches(ends.0.1, n, Some(acks@[acks@.len() - 1]))
            && tells_of_batches(ends.1.1, n, Some(acks@[acks@.len() - 1])) && tells_of_batches(
            ends.2.1,
            n,
            Some(acks@[acks@.len() - 1]),
        ),
        acks@.len() == 0 ==> tells_of_batches(ends.0.1, n, None) && tells_of_batches(
            ends.1.1,
            n,
            None,
        ) && tells_of_batches(ends.2.1, n, None),
{
}

/// The two scenarios that record no acknowledgements end on the verdict of their own
/// check too, and report the last batch as acknowledged, on which they waited.
pub proof fn law_awaited_scenarios_end_on_their_verdict(
    n: u64,
    writes: &Vec<ReplayWrite>,
    samples: &Vec<u64>,
    bound: u64,
    evidence: String,
    verdicts: (bool, bool),
    ends: ((AckInvariantCheck, PerSourceCorrectness), (AckInvariantCheck, PerSourceCorrectness)),
)
    requires
        n > 0,
        call_ensures(judge_replay, (writes,), verdicts.0),
        call_ensures(judge_outage, (samples, bound), verdicts.1),
        call_ensures(end_maybe_committed_replay_idempotent, (n, writes, evidence), ends.0),
        call_ensures(
            end_sink_outage_backpressure_bounded,
            (n, samples, bound, evidence),
            ends.1,
        ),
    ensures
        ends.0.0.passed == verdicts.0,
        ends.1.0.passed == verdicts.1,
        ends.0.0.name@ == "maybe_committed_replay_idempotent"@,
        ends.1.0.name@ == "sink_outage_backpressure_bounded"@,
        ends.0.0.evidence@ == evidence@,
        ends.1.0.evidence@ == evidence@,
        tells_of_batches(ends.0.1, n, Some((n - 1) as u64)),
        tells_of_batches(ends.1.1, n, Some((n - 1) as u64)),
{
}

/// A scenario has drained at the acknowledgement of its last batch, and at no other.
pub proof fn law_drained_at_the_last_batch(n: u64, ack: u64, r: bool, s: bool)
    requires
        n > 0,
        call_ensures(scenario_drained, (Some(ack), n), r),
        call_ensures(scenario_drained, (None::<u64>, n), s),
    ensures
        r <==> ack + 1 == n,
        !s,
{
}

/// The sink is slow on the first sequence of the out-of-order scenario and on the sixth
/// of the outage scenario, for longer there, and on no other.
pub proof fn law_one_sequence_is_slow(sequence: u64, r: Option<u64>, s: Option<u64>)
    requires
        call_ensures(out_of_order_latency_ms, (sequence,), r),
        call_ensures(outage_latency_ms, (sequence,), s),
    ensures
        r == Some(150u64) <==> sequence == 0,
        r is None <==> sequence != 0,
        s == Some(1500u64) <==> sequence == 5,
        s is None <==> sequence != 5,
{
}

/// The report of a run names what was generated, keeps the checks and the source as
/// they are, and counts as violations the checks that did not pass: none exactly if
/// all passed.
pub proof fn law_report_keeps_its_checks(
    n: u64,
    checks: Vec<AckInvariantCheck>,
    source: PerSourceCorrectness,
    r: CorrectnessReport,
    passed: usize,
)
    requires
        call_ensures(smoke_report, (n, checks, source), r),
        call_ensures(count_passed, (&checks,), passed),
    ensures
        r.schema_version == 2,
        r.ack_invariant_checks@ == checks@,
        r.sources@.len() == 1,
        r.sources@[0].0@ == "buffer"@,
        r.sources@[0].1 == source,
        r.summary.required_sink@ == "bench-sink"@,
        r.summary.records_generated == n,
        n > 0 ==> r.summary.highest_generated_sequence + 1 == n,
        n == 0 ==> r.summary.highest_generated_sequence == 0,
        r.summary.duplicate_records_post_dedupe == 0,
        r.summary.ack_invariant_violations + passed == checks@.len(),
        r.summary.ack_invariant_violations == 0 <==> (forall|i: int|
            0 <= i < checks@.len() ==> (#[trigger] checks@[i]).passed),
{
    output::law_no_violation_means_all_passed(checks@);
}

/// The evidence of a path is what stands from its last `raw` on: earlier parts do not
/// matter, not even another `raw`. A path without one is kept whole.
pub proof fn law_evidence_starts_at_the_last_raw(
    parts: &Vec<String>,
    r: String,
    head: Seq<String>,
    tail: Seq<String>,
)
    requires
        call_ensures(relative_evidence, (parts,), r),
        parts@ == head + tail,
        forall|i: int| 1 <= i < tail.len() ==> (#[trigger] tail[i])@ != "raw"@,
        tail.len() > 0,
        tail[0]@ == "raw"@ || head.len() == 0,
    ensures
        tail.len() == 1 ==> r@ == tail[0]@,
        tail.len() == 2 ==> r@ == tail[0]@ + "/"@ + tail[1]@,
        tail.len() == 3 ==> r@ == tail[0]@ + "/"@ + tail[1]@ + "/"@ + tail[2]@,
        r@.len() >= tail[0]@.len(),
        r@.take(tail[0]@.len() as int) == tail[0]@,
{
    let start = choose|start: int|
        #[trigger] starts_at(parts@, start) && r@ == joined(
            parts@.subrange(start, parts@.len() as int),
        );
    let n = parts@.len() as int;
    let h = head.len() as int;
    assert(parts@[h] == tail[0]);
    assert(start >= h) by {
        if start < h {
            assert(parts@[h]@ != "raw"@);
        }
    }
    assert(start == h) by {
        if start > h {
            assert(parts@[start] == tail[start - h]);
            assert(tail[start - h]@ != "raw"@);
        }
    }
    assert(parts@.subrange(start, n) =~= tail);
    reveal_with_fuel(joined, 4);
    if tail.len() == 2 {
        assert(tail.drop_last().len() == 1);
    }
    if tail.len() == 3 {
        assert(tail.drop_last().drop_last().len() == 1);
    }
    lemma_joined_starts_with_first(tail);
}

proof fn lemma_joined_starts_with_first(parts: Seq<String>)
    requires
        parts.len() > 0,
    ensures
        joined(parts).len() >= parts[0]@.len(),
        joined(parts).take(parts[0]@.len() as int) == parts[0]@,
    decreases parts.len(),
{
    if parts.len() == 1 {
        assert(parts[0]@.take(parts[0]@.len() as int) =~= parts[0]@);
    } else {
        lemma_joined_starts_with_first(parts.drop_last());
        assert(joined(parts).take(parts[0]@.len() as int) =~= joined(parts.drop_last()).take(
            parts[0]@.len() as int,
        ));
    }
}

} // verus!
