//! The sink that stands alone and answers by a script, and what every scripted
//! sink needs: the scripts, and the record of the answers.
use std::collections::HashMap;
use vstd::prelude::*;

use crate::runtime::{
    CommitIdentity, CommitStatus, SinkCommitFailure, SinkCommitResult,
};
use crate::runtime;
use crate::text;
use crate::text::{owned, push_decimal};

verus! {

broadcast use vstd::std_specs::hash::group_hash_axioms;

/// What the next writes of a sequence are made to do.
#[derive(Debug, Clone, Copy, PartialEq, Eq, Structural)]
pub enum ScriptedWrite {
    /// The first attempt succeeds.
    Success,
    /// The first attempt ends in doubt without a commit, the second succeeds.
    MaybeCommittedThenOk,
    /// The first attempt commits and is reported as in doubt; the second commits
    /// again, and the sink has to drop the copy.
    CommitButReportMaybeCommittedThenRetry,
}

/// Which failure a write reported.
#[derive(Debug, Clone, Copy, PartialEq, Eq, Structural)]
pub enum SinkCommitFailureKind {
    NotCommitted,
    MaybeCommitted,
    Fatal,
}

/// What a write reported.
#[derive(Debug, Clone, Copy, PartialEq, Eq, Structural)]
pub enum WriteOutcome {
    Committed { rows: u64 },
    Failure(SinkCommitFailureKind),
}

/// A write and what it reported.
#[derive(Debug)]
pub struct CapturedWrite {
    pub identity: CommitIdentity,
    pub outcome: WriteOutcome,
}

/// The values of a captured write.
pub struct CapturedView {
    pub identity: runtime::IdentityView,
    pub outcome: WriteOutcome,
}

impl View for CapturedWrite {
    type V = CapturedView;

    open spec fn view(&self) -> CapturedView {
        CapturedView { identity: self.identity@, outcome: self.outcome }
    }
}

/// The values of captured writes.
pub open spec fn captured_views(writes: Seq<CapturedWrite>) -> Seq<CapturedView> {
    Seq::new(writes.len(), |i: int| writes[i]@)
}

/// The kind of a failure.
pub open spec fn kind_of(e: SinkCommitFailure) -> SinkCommitFailureKind {
    match e {
        SinkCommitFailure::NotCommitted(_) => SinkCommitFailureKind::NotCommitted,
        SinkCommitFailure::MaybeCommitted(_) => SinkCommitFailureKind::MaybeCommitted,
        SinkCommitFailure::Fatal(_) => SinkCommitFailureKind::Fatal,
    }
}

/// The outcome that a result stands for.
pub open spec fn outcome_of(r: Result<SinkCommitResult, SinkCommitFailure>) -> WriteOutcome {
    match r {
        Ok(done) => WriteOutcome::Committed { rows: done.rows_written },
        Err(e) => WriteOutcome::Failure(kind_of(e)),
    }
}

fn failure_kind(e: &SinkCommitFailure) -> (r: SinkCommitFailureKind)
    ensures
        r == kind_of(*e),
{
    match e {
        SinkCommitFailure::NotCommitted(_) => SinkCommitFailureKind::NotCommitted,
        SinkCommitFailure::MaybeCommitted(_) => SinkCommitFailureKind::MaybeCommitted,
        SinkCommitFailure::Fatal(_) => SinkCommitFailureKind::Fatal,
    }
}

pub fn write_outcome(result: &Result<SinkCommitResult, SinkCommitFailure>) -> (r: WriteOutcome)
    ensures
        r == outcome_of(*result),
{
    match result {
        Ok(done) => WriteOutcome::Committed { rows: done.rows_written },
        Err(e) => WriteOutcome::Failure(failure_kind(e)),
    }
}

/// The attempts that are still scripted, by sequence.
#[derive(Debug)]
pub struct Scripts<A> {
    queues: HashMap<u64, Vec<A>>,
}

impl<A> Scripts<A> {
    /// The attempts scripted for a sequence.
    pub closed spec fn queue(&self, sequence: u64) -> Seq<A> {
        if self.queues@.contains_key(sequence) {
            self.queues@[sequence]@
        } else {
            Seq::empty()
        }
    }

    pub fn new() -> (r: Self)
        ensures
            forall|s: u64| #[trigger] r.queue(s) == Seq::<A>::empty(),
    {
        Scripts { queues: HashMap::new() }
    }

    /// Scripts the attempts of a sequence, in place of those scripted before.
    pub fn set(&mut self, sequence: u64, attempts: Vec<A>)
        ensures
            final(self).queue(sequence) == attempts@,
            forall|s: u64| s != sequence ==> #[trigger] final(self).queue(s) == old(self).queue(s),
    {
        self.queues.insert(sequence, attempts);
    }

    /// Takes the next attempt of a sequence off its script.
    pub fn next(&mut self, sequence: u64) -> (r: Option<A>)
        ensures
            old(self).queue(sequence).len() == 0 ==> r is None && final(self).queue(sequence).len()
                == 0,
            old(self).queue(sequence).len() > 0 ==> r == Some(old(self).queue(sequence)[0])
                && final(self).queue(sequence) == old(self).queue(sequence).drop_first(),
            forall|s: u64| s != sequence ==> #[trigger] final(self).queue(s) == old(self).queue(s),
    {
        match self.queues.remove(&sequence) {
            None => None,
            Some(mut queue) => {
                if queue.len() == 0 {
                    None
                } else {
                    let first = queue.remove(0);
                    assert(queue@ =~= old(self).queue(sequence).drop_first());
                    self.queues.insert(sequence, queue);
                    Some(first)
                }
            },
        }
    }
}

/// The message of a write that a script ends in doubt.
pub open spec fn in_doubt_text(sequence: u64) -> Seq<char> {
    "scripted MaybeCommitted on seq="@ + text::decimal(sequence as nat)
}

pub fn in_doubt(sequence: u64) -> (r: String)
    ensures
        r@ == in_doubt_text(sequence),
{
    let mut out = owned("scripted MaybeCommitted on seq=");
    push_decimal(&mut out, sequence);
    out
}

/// The message of a commit that a script reports as in doubt.
pub open spec fn hidden_commit_text(sequence: u64) -> Seq<char> {
    "scripted CommitThenReportMaybeCommitted on seq="@ + text::decimal(sequence as nat)
        + " (inner committed; reporting MaybeCommitted to drive retry path)"@
}

pub fn hidden_commit(sequence: u64) -> (r: String)
    ensures
        r@ == hidden_commit_text(sequence),
{
    let mut out = owned("scripted CommitThenReportMaybeCommitted on seq=");
    push_decimal(&mut out, sequence);
    out.append(" (inner committed; reporting MaybeCommitted to drive retry path)");
    out
}

/// What a sink answered a write with, and whether the write was committed, which
/// a commit observer is told of before the answer is passed on.
#[derive(Debug)]
pub struct SinkReply {
    pub committed: bool,
    pub result: Result<SinkCommitResult, SinkCommitFailure>,
}

/// One attempt of the script of a [`BenchSink`].
#[derive(Debug)]
pub enum BenchAttempt {
    Success { rows_written: u64 },
    MaybeCommitted { message: String },
    CommittedInDoubt { message: String },
}

/// Whether an answer is that of an attempt.
pub open spec fn answers(attempt: BenchAttempt, reply: SinkReply) -> bool {
    match attempt {
        BenchAttempt::Success { rows_written } => reply.committed && reply.result == Ok::<
            SinkCommitResult,
            SinkCommitFailure,
        >(SinkCommitResult { bytes_written: 0, rows_written }),
        BenchAttempt::MaybeCommitted { message } => !reply.committed && (
        reply.result matches Err(SinkCommitFailure::MaybeCommitted(text)) && text@ == message@),
        BenchAttempt::CommittedInDoubt { message } => reply.committed && (
        reply.result matches Err(SinkCommitFailure::MaybeCommitted(text)) && text@ == message@),
    }
}

/// The attempt of an unscripted write.
pub open spec fn plain_attempt() -> BenchAttempt {
    BenchAttempt::Success { rows_written: 1 }
}

/// Whether the attempts are those of a script for a sequence.
pub open spec fn bench_script(
    script: ScriptedWrite,
    sequence: u64,
    attempts: Seq<BenchAttempt>,
) -> bool {
    match script {
        ScriptedWrite::Success => attempts == seq![plain_attempt()],
        ScriptedWrite::MaybeCommittedThenOk => attempts.len() == 2 && (
        attempts[0] matches BenchAttempt::MaybeCommitted { message } && message@ == in_doubt_text(
            sequence,
        )) && attempts[1] == plain_attempt(),
        ScriptedWrite::CommitButReportMaybeCommittedThenRetry => attempts.len() == 2 && (
        attempts[0] matches BenchAttempt::CommittedInDoubt { message } && message@
            == hidden_commit_text(sequence)) && attempts[1] == plain_attempt(),
    }
}

/// Whether a sink differs only by the script of a sequence, which is now that of
/// `outcome`.
pub open spec fn bench_forced(
    before: BenchSink,
    after: BenchSink,
    sequence: u64,
    outcome: ScriptedWrite,
) -> bool {
    &&& bench_script(outcome, sequence, after.script(sequence))
    &&& forall|s: u64| s != sequence ==> #[trigger] after.script(s) == before.script(s)
    &&& after.name() == before.name()
    &&& after.captured() == before.captured()
    &&& after.check_response() == before.check_response()
}

/// Whether a sink answered a write by the script of the last sequence of its
/// range, took the attempt off the script and captured the answer.
pub open spec fn bench_written(
    before: BenchSink,
    after: BenchSink,
    identity: CommitIdentity,
    reply: SinkReply,
) -> bool {
    let sequence = identity.range.high;
    let script = before.script(sequence);
    &&& if script.len() == 0 {
        answers(plain_attempt(), reply) && after.script(sequence).len() == 0
    } else {
        answers(script[0], reply) && after.script(sequence) == script.drop_first()
    }
    &&& forall|s: u64| s != sequence ==> #[trigger] after.script(s) == before.script(s)
    &&& after.captured() == before.captured().push(
        (CapturedView { identity: identity@, outcome: outcome_of(reply.result) }),
    )
    &&& after.name() == before.name()
    &&& after.check_response() == before.check_response()
}

/// A write that a script ends in doubt succeeds when it is repeated: the first
/// answer is `MaybeCommitted`, and it is a commit only if the script says so; the
/// second is a commit that is reported. Each answer is captured once. Other
/// sequences may be written and scripted between the two.
pub proof fn law_doubted_write_succeeds_again(
    sinks: (BenchSink, BenchSink, BenchSink, BenchSink, BenchSink),
    outcome: ScriptedWrite,
    identity: CommitIdentity,
    replies: (SinkReply, SinkReply),
)
    requires
        outcome != ScriptedWrite::Success,
        bench_forced(sinks.0, sinks.1, identity.range.high, outcome),
        bench_written(sinks.1, sinks.2, identity, replies.0),
        sinks.3.script(identity.range.high) == sinks.2.script(identity.range.high),
        bench_written(sinks.3, sinks.4, identity, replies.1),
    ensures
        replies.0.result matches Err(SinkCommitFailure::MaybeCommitted(_)),
        replies.0.committed <==> outcome == ScriptedWrite::CommitButReportMaybeCommittedThenRetry,
        replies.1.result is Ok,
        replies.1.committed,
        sinks.2.captured() == sinks.0.captured().push(
            (CapturedView { identity: identity@, outcome: outcome_of(replies.0.result) }),
        ),
        sinks.4.captured() == sinks.3.captured().push(
            (CapturedView { identity: identity@, outcome: outcome_of(replies.1.result) }),
        ),
{
}

/// A sink that writes nothing and answers by its script, with success where none
/// is left. It can be asked what it was handed.
#[derive(Debug)]
pub struct BenchSink {
    id: String,
    scripts: Scripts<BenchAttempt>,
    write_calls: Vec<CapturedWrite>,
    check_committed_response: CommitStatus,
}

impl BenchSink {
    /// The name of the sink.
    pub closed spec fn name(&self) -> Seq<char> {
        self.id@
    }

    /// The attempts scripted for a sequence.
    pub closed spec fn script(&self, sequence: u64) -> Seq<BenchAttempt> {
        self.scripts.queue(sequence)
    }

    /// What was captured since the last drain.
    pub closed spec fn captured(&self) -> Seq<CapturedView> {
        captured_views(self.write_calls@)
    }

    /// What the sink answers when asked whether a commit is in.
    pub closed spec fn check_response(&self) -> CommitStatus {
        self.check_committed_response
    }

    pub fn new(id: &str) -> (r: Self)
        ensures
            r.name() == id@,
            forall|s: u64| #[trigger] r.script(s) == Seq::<BenchAttempt>::empty(),
            r.captured() == Seq::<CapturedView>::empty(),
            r.check_response() == CommitStatus::Unknown,
    {
        let r = BenchSink {
            id: owned(id),
            scripts: Scripts::new(),
            write_calls: Vec::new(),
            check_committed_response: CommitStatus::Unknown,
        };
        assert(r.captured() =~= Seq::<CapturedView>::empty());
        assert forall|s: u64| #[trigger] r.script(s) == Seq::<BenchAttempt>::empty() by {
            assert(r.scripts.queue(s) == Seq::<BenchAttempt>::empty());
        }
        r
    }

    pub fn id(&self) -> (r: &str)
        ensures
            r@ == self.name(),
    {
        self.id.as_str()
    }

    pub fn set_check_committed_response(&mut self, response: CommitStatus)
        ensures
            final(self).check_response() == response,
            final(self).name() == old(self).name(),
            final(self).captured() == old(self).captured(),
            forall|s: u64| #[trigger] final(self).script(s) == old(self).script(s),
    {
        self.check_committed_response = response;
    }

    /// Scripts the next writes of a sequence, in place of an earlier script.
    pub fn set_per_sequence_forced_outcome(&mut self, sequence: u64, outcome: ScriptedWrite)
        ensures
            bench_forced(*old(self), *final(self), sequence, outcome),
    {
        let mut attempts: Vec<BenchAttempt> = Vec::new();
        match outcome {
            ScriptedWrite::Success => {},
            ScriptedWrite::MaybeCommittedThenOk => {
                attempts.push(BenchAttempt::MaybeCommitted { message: in_doubt(sequence) });
            },
            ScriptedWrite::CommitButReportMaybeCommittedThenRetry => {
                attempts.push(BenchAttempt::CommittedInDoubt { message: hidden_commit(sequence) });
            },
        }
        attempts.push(BenchAttempt::Success { rows_written: 1 });
        assert(bench_script(outcome, sequence, attempts@));
        self.scripts.set(sequence, attempts);
        assert forall|s: u64| s != sequence implies #[trigger] self.script(s) == old(self).script(
            s,
        ) by {
            assert(self.scripts.queue(s) == old(self).scripts.queue(s));
        }
    }

    /// Takes the next attempt of a sequence off its script.
    fn next_attempt(&mut self, sequence: u64) -> (r: BenchAttempt)
        ensures
            old(self).script(sequence).len() == 0 ==> r == plain_attempt() && final(self).script(
                sequence,
            ).len() == 0,
            old(self).script(sequence).len() > 0 ==> r == old(self).script(sequence)[0]
                && final(self).script(sequence) == old(self).script(sequence).drop_first(),
            forall|s: u64| s != sequence ==> #[trigger] final(self).script(s) == old(self).script(s),
            final(self).name() == old(self).name(),
            final(self).captured() == old(self).captured(),
            final(self).check_response() == old(self).check_response(),
    {
        let next = self.scripts.next(sequence);
        assert forall|s: u64| s != sequence implies #[trigger] self.script(s) == old(self).script(
            s,
        ) by {
            assert(self.scripts.queue(s) == old(self).scripts.queue(s));
        }
        match next {
            Some(attempt) => attempt,
            None => BenchAttempt::Success { rows_written: 1 },
        }
    }

    /// Answers a write by the script of the last sequence of its range, and
    /// captures the answer.
    pub fn write(&mut self, identity: &CommitIdentity) -> (r: SinkReply)
        ensures
            bench_written(*old(self), *final(self), *identity, r),
    {
        let attempt = self.next_attempt(identity.range.high);
        let reply = match attempt {
            BenchAttempt::Success { rows_written } => SinkReply {
                committed: true,
                result: Ok(SinkCommitResult { bytes_written: 0, rows_written }),
            },
            BenchAttempt::MaybeCommitted { message } => SinkReply {
                committed: false,
                result: Err(SinkCommitFailure::MaybeCommitted(message)),
            },
            BenchAttempt::CommittedInDoubt { message } => SinkReply {
                committed: true,
                result: Err(SinkCommitFailure::MaybeCommitted(message)),
            },
        };
        let ghost before = *self;
        self.write_calls.push(
            CapturedWrite { identity: identity.clone(), outcome: write_outcome(&reply.result) },
        );
        assert(self.captured() =~= before.captured().push(
            (CapturedView { identity: identity@, outcome: outcome_of(reply.result) }),
        ));
        assert forall|s: u64| #[trigger] self.script(s) == before.script(s) by {}
        reply
    }

    /// Hands out what was captured since the last drain.
    pub fn drain_captured_writes(&mut self) -> (r: Vec<CapturedWrite>)
        ensures
            captured_views(r@) == old(self).captured(),
            final(self).captured() == Seq::<CapturedView>::empty(),
            forall|s: u64| #[trigger] final(self).script(s) == old(self).script(s),
            final(self).name() == old(self).name(),
            final(self).check_response() == old(self).check_response(),
    {
        let mut drained: Vec<CapturedWrite> = Vec::new();
        std::mem::swap(&mut drained, &mut self.write_calls);
        assert(self.captured() =~= Seq::<CapturedView>::empty());
        drained
    }

    pub fn check_committed(&self, identity: &CommitIdentity) -> (r: CommitStatus)
        ensures
            r == self.check_response(),
    {
        self.check_committed_response
    }
}

/// A result is captured for what it is: a commit with its rows, and each failure as
/// its own kind.
pub proof fn law_outcome_tells_results_apart(
    result: &Result<SinkCommitResult, SinkCommitFailure>,
    r: WriteOutcome,
)
    requires
        call_ensures(write_outcome, (result,), r),
    ensures
        result matches Ok(done) ==> r == (WriteOutcome::Committed { rows: done.rows_written }),
        result matches Err(SinkCommitFailure::NotCommitted(_)) ==> r == WriteOutcome::Failure(
            SinkCommitFailureKind::NotCommitted,
        ),
        result matches Err(SinkCommitFailure::MaybeCommitted(_)) ==> r == WriteOutcome::Failure(
            SinkCommitFailureKind::MaybeCommitted,
        ),
        result matches Err(SinkCommitFailure::Fatal(_)) ==> r == WriteOutcome::Failure(
            SinkCommitFailureKind::Fatal,
        ),
{
}

/// A write goes by the script of the last sequence of its range, and takes one attempt
/// off it. Where none is left it commits one row. The scripts of all other sequences,
/// the first of the range among them, stay as they are, and so do earlier captures.
pub proof fn law_write_goes_by_its_last_sequence(
    before: BenchSink,
    after: BenchSink,
    identity: CommitIdentity,
    reply: SinkReply,
    other: u64,
)
    requires
        bench_written(before, after, identity, reply),
        other != identity.range.high,
    ensures
        after.script(other) == before.script(other),
        before.script(identity.range.high).len() > 0 ==> after.script(identity.range.high).len()
            == before.script(identity.range.high).len() - 1,
        before.script(identity.range.high).len() == 0 ==> {
            &&& reply.committed
            &&& reply.result is Ok
            &&& reply.result->Ok_0.rows_written == 1
            &&& reply.result->Ok_0.bytes_written == 0
            &&& after.script(identity.range.high).len() == 0
        },
        after.captured().len() == before.captured().len() + 1,
        after.captured().drop_last() == before.captured(),
        after.captured().last().identity.range == identity.range,
        after.captured().last().identity.source == identity.source@,
        after.captured().last().identity.sink == identity.sink@,
        after.captured().last().identity.schema_version == identity.schema_version,
        reply.result is Ok <==> after.captured().last().outcome is Committed,
{
    assert(after.captured().drop_last() =~= before.captured());
}

/// A script of plain success commits the next write, and leaves nothing scripted.
pub proof fn law_scripted_success_commits(
    sinks: (BenchSink, BenchSink, BenchSink),
    identity: CommitIdentity,
    reply: SinkReply,
)
    requires
        bench_forced(sinks.0, sinks.1, identity.range.high, ScriptedWrite::Success),
        bench_written(sinks.1, sinks.2, identity, reply),
    ensures
        reply.committed,
        reply.result is Ok,
        reply.result->Ok_0.rows_written == 1,
        sinks.2.script(identity.range.high).len() == 0,
{
}

/// The two messages in doubt name the sequence, and are told apart.
pub proof fn law_messages_name_the_sequence(sequence: u64, doubt: String, hidden: String)
    requires
        call_ensures(in_doubt, (sequence,), doubt),
        call_ensures(hidden_commit, (sequence,), hidden),
    ensures
        doubt@ == "scripted MaybeCommitted on seq="@ + text::decimal(sequence as nat),
        hidden@ == "scripted CommitThenReportMaybeCommitted on seq="@ + text::decimal(
            sequence as nat,
        ) + " (inner committed; reporting MaybeCommitted to drive retry path)"@,
{
}

/// A sink that was told to doubt a write answers it with `MaybeCommitted`, and as a
/// commit only if it was told to commit it; one that was told to succeed commits it. The
/// scripts of other sequences, and what was captured, are not touched by the telling.
pub proof fn law_sink_does_as_it_is_told(
    sink: &mut BenchSink,
    sequence: u64,
    outcome: ScriptedWrite,
    next: &mut BenchSink,
    identity: &CommitIdentity,
    reply: SinkReply,
    other: u64,
)
    requires
        call_ensures(
            BenchSink::set_per_sequence_forced_outcome,
            (sink, sequence, outcome),
            (),
        ),
        *old(next) == *final(sink),
        identity.range.high == sequence,
        call_ensures(BenchSink::write, (next, identity), reply),
        other != sequence,
    ensures
        final(sink).captured() == old(sink).captured(),
        final(sink).script(other) == old(sink).script(other),
        final(sink).name() == old(sink).name(),
        final(sink).check_response() == old(sink).check_response(),
        outcome == ScriptedWrite::Success <==> reply.result is Ok,
        reply.committed <==> outcome != ScriptedWrite::MaybeCommittedThenOk,
        reply.result is Err ==> (reply.result matches Err(SinkCommitFailure::MaybeCommitted(_))),
        final(next).captured().len() == old(next).captured().len() + 1,
        final(next).script(other) == old(next).script(other),
{
}

/// What was captured is handed out once, in the order in which it came. The scripts are
/// not touched.
pub proof fn law_captures_are_handed_out_once(
    sink: &mut BenchSink,
    r: Vec<CapturedWrite>,
    i: int,
    sequence: u64,
)
    requires
        call_ensures(BenchSink::drain_captured_writes, (sink,), r),
        0 <= i < r@.len(),
    ensures
        r@.len() == old(sink).captured().len(),
        r@[i].outcome == old(sink).captured()[i].outcome,
        r@[i].identity@ == old(sink).captured()[i].identity,
        final(sink).captured().len() == 0,
        final(sink).script(sequence) == old(sink).script(sequence),
{
    assert(captured_views(r@)[i] == r@[i]@);
    assert(captured_views(r@).len() == r@.len());
}

} // verus!
