//! The ClickHouse sink under a script.
use vstd::prelude::*;

use crate::bench::scripted_sink::{
    hidden_commit, in_doubt, write_outcome, CapturedView, CapturedWrite, ScriptedWrite, Scripts,
    SinkReply,
};
use crate::bench::scripted_sink;
use crate::logs_adapter::OtlpLogsClickHouseAdapter;
use crate::runtime::{CommitIdentity, CommitStatus, SinkCommitFailure, SinkCommitResult};
use crate::sink::ClickHouseSink;
use crate::text::owned;

verus! {

/// One scripted attempt. An unscripted one is handed on.
#[derive(Debug, Clone, Copy, PartialEq, Eq, Structural)]
pub enum Attempt {
    /// The write is handed to the sink behind.
    DelegateOk,
    /// The write ends in doubt without reaching the sink behind.
    MaybeCommitted,
    /// The write is handed to the sink behind and, if it commits, reported as in
    /// doubt.
    CommitThenReportMaybeCommitted,
}

/// The attempts of a script.
pub open spec fn attempts_of(script: ScriptedWrite) -> Seq<Attempt> {
    match script {
        ScriptedWrite::Success => seq![Attempt::DelegateOk],
        ScriptedWrite::MaybeCommittedThenOk => seq![Attempt::MaybeCommitted, Attempt::DelegateOk],
        ScriptedWrite::CommitButReportMaybeCommittedThenRetry => seq![
            Attempt::CommitThenReportMaybeCommitted,
            Attempt::DelegateOk,
        ],
    }
}

/// Every script ends with a write that is handed on as it is, and holds at most
/// one attempt before it: a retry always reaches the sink behind.
pub proof fn law_script_ends_in_delegation(script: ScriptedWrite)
    ensures
        1 <= attempts_of(script).len() <= 2,
        attempts_of(script).last() == Attempt::DelegateOk,
{
}

/// What a write has to do next.
#[derive(Debug)]
pub enum Interposition {
    /// Answer without writing.
    Answer(SinkReply),
    /// Write to the sink behind, and end the write with its result.
    Delegate { in_doubt: bool },
}

/// The attempt at the head of a script.
pub open spec fn head(script: Seq<Attempt>) -> Attempt {
    if script.len() == 0 {
        Attempt::DelegateOk
    } else {
        script[0]
    }
}

/// Whether a reply is what a write that was handed on ends with.
pub open spec fn delegated(
    sequence: u64,
    in_doubt: bool,
    inner: Result<SinkCommitResult, SinkCommitFailure>,
    reply: SinkReply,
) -> bool {
    &&& reply.committed == (inner is Ok)
    &&& if in_doubt && inner is Ok {
        reply.result matches Err(SinkCommitFailure::MaybeCommitted(message)) && message@
            == scripted_sink::hidden_commit_text(sequence)
    } else {
        reply.result == inner
    }
}

/// A commit behind the script is never hidden from the observer, and a failure
/// is never turned into a success: what is reported as committed was committed.
pub proof fn law_reported_commit_is_a_commit(
    sequence: u64,
    in_doubt: bool,
    inner: Result<SinkCommitResult, SinkCommitFailure>,
    reply: SinkReply,
)
    requires
        delegated(sequence, in_doubt, inner, reply),
    ensures
        reply.committed <==> inner is Ok,
        reply.result is Ok ==> reply.committed && reply.result == inner,
        inner is Err ==> reply.result == inner,
{
}

/// Whether a sink differs only by the script of a sequence, which is now that of
/// `outcome`.
pub open spec fn forced(
    before: RealClickHouseSink,
    after: RealClickHouseSink,
    sequence: u64,
    outcome: ScriptedWrite,
) -> bool {
    &&& after.script(sequence) == attempts_of(outcome)
    &&& forall|s: u64| s != sequence ==> #[trigger] after.script(s) == before.script(s)
    &&& after.name() == before.name()
    &&& after.behind() == before.behind()
    &&& after.captured() == before.captured()
}

/// The record of an answer.
pub open spec fn capture_of(
    identity: CommitIdentity,
    result: Result<SinkCommitResult, SinkCommitFailure>,
) -> CapturedView {
    CapturedView { identity: identity@, outcome: scripted_sink::outcome_of(result) }
}

/// Whether a write was begun with `step`: the next attempt of the last sequence of
/// its range was taken off the script, and answered and captured at once if it
/// does not reach the sink behind.
pub open spec fn begun(
    before: RealClickHouseSink,
    after: RealClickHouseSink,
    identity: CommitIdentity,
    step: Interposition,
) -> bool {
    let sequence = identity.range.high;
    &&& match head(before.script(sequence)) {
        Attempt::DelegateOk => step == (Interposition::Delegate { in_doubt: false })
            && after.captured() == before.captured(),
        Attempt::CommitThenReportMaybeCommitted => step == (Interposition::Delegate {
            in_doubt: true,
        }) && after.captured() == before.captured(),
        Attempt::MaybeCommitted => (step matches Interposition::Answer(reply) && !reply.committed
            && (reply.result matches Err(SinkCommitFailure::MaybeCommitted(message)) && message@
            == scripted_sink::in_doubt_text(sequence))) && after.captured()
            == before.captured().push(capture_of(identity, step->Answer_0.result)),
    }
    &&& before.script(sequence).len() == 0 ==> after.script(sequence).len() == 0
    &&& before.script(sequence).len() > 0 ==> after.script(sequence) == before.script(
        sequence,
    ).drop_first()
    &&& forall|s: u64| s != sequence ==> #[trigger] after.script(s) == before.script(s)
    &&& after.name() == before.name()
    &&& after.behind() == before.behind()
}

/// Whether a write that was handed on was ended with `reply`, which was captured.
pub open spec fn ended(
    before: RealClickHouseSink,
    after: RealClickHouseSink,
    identity: CommitIdentity,
    in_doubt: bool,
    inner: Result<SinkCommitResult, SinkCommitFailure>,
    reply: SinkReply,
) -> bool {
    &&& delegated(identity.range.high, in_doubt, inner, reply)
    &&& after.captured() == before.captured().push(capture_of(identity, reply.result))
    &&& forall|s: u64| #[trigger] after.script(s) == before.script(s)
    &&& after.name() == before.name()
    &&& after.behind() == before.behind()
}

/// Whether a whole write was answered with `reply`: it was begun with `step` and,
/// if it was handed on, ended with the result `inner` of the sink behind.
pub open spec fn written(
    before: RealClickHouseSink,
    after: RealClickHouseSink,
    identity: CommitIdentity,
    step: Interposition,
    inner: Result<SinkCommitResult, SinkCommitFailure>,
    reply: SinkReply,
) -> bool {
    match step {
        Interposition::Answer(answer) => begun(before, after, identity, step) && reply == answer,
        Interposition::Delegate { in_doubt } => exists|between: RealClickHouseSink|
            #[trigger] begun(before, between, identity, step) && ended(
                between,
                after,
                identity,
                in_doubt,
                inner,
                reply,
            ),
    }
}

/// A write is captured once, with what it was answered.
pub proof fn law_every_write_is_captured(
    before: RealClickHouseSink,
    after: RealClickHouseSink,
    identity: CommitIdentity,
    step: Interposition,
    inner: Result<SinkCommitResult, SinkCommitFailure>,
    reply: SinkReply,
)
    requires
        written(before, after, identity, step, inner, reply),
    ensures
        after.captured() == before.captured().push(capture_of(identity, reply.result)),
        after.behind() == before.behind(),
{
}

/// Under a script that hides a commit both writes reach the sink behind. The
/// first, if it commits there, is told to the observer and reported as
/// `MaybeCommitted`; the second is reported as it ended behind. Other sequences
/// may be written and scripted between the two.
pub proof fn law_hidden_commit_is_written_again(
    sinks: (
        RealClickHouseSink,
        RealClickHouseSink,
        RealClickHouseSink,
        RealClickHouseSink,
        RealClickHouseSink,
    ),
    identity: CommitIdentity,
    steps: (Interposition, Interposition),
    inner: (Result<SinkCommitResult, SinkCommitFailure>, Result<SinkCommitResult, SinkCommitFailure>),
    replies: (SinkReply, SinkReply),
)
    requires
        forced(
            sinks.0,
            sinks.1,
            identity.range.high,
            ScriptedWrite::CommitButReportMaybeCommittedThenRetry,
        ),
        written(sinks.1, sinks.2, identity, steps.0, inner.0, replies.0),
        sinks.3.script(identity.range.high) == sinks.2.script(identity.range.high),
        written(sinks.3, sinks.4, identity, steps.1, inner.1, replies.1),
    ensures
        steps.0 is Delegate,
        replies.0.committed <==> inner.0 is Ok,
        inner.0 is Ok ==> (replies.0.result matches Err(SinkCommitFailure::MaybeCommitted(_))),
        inner.0 is Err ==> replies.0.result == inner.0,
        steps.1 is Delegate,
        replies.1.committed <==> inner.1 is Ok,
        replies.1.result == inner.1,
        sinks.2.captured() == sinks.0.captured().push(capture_of(identity, replies.0.result)),
        sinks.4.captured() == sinks.3.captured().push(capture_of(identity, replies.1.result)),
{
    let script = attempts_of(ScriptedWrite::CommitButReportMaybeCommittedThenRetry);
    assert(script.drop_first() =~= seq![Attempt::DelegateOk]);
}

/// Under a script that doubts a write the first write does not reach the sink
/// behind and is no commit, yet is reported as `MaybeCommitted`; the second is
/// handed on and reported as it ended behind. Other sequences may be written and
/// scripted between the two.
pub proof fn law_doubted_write_is_handed_on_next(
    sinks: (
        RealClickHouseSink,
        RealClickHouseSink,
        RealClickHouseSink,
        RealClickHouseSink,
        RealClickHouseSink,
    ),
    identity: CommitIdentity,
    steps: (Interposition, Interposition),
    inner: (Result<SinkCommitResult, SinkCommitFailure>, Result<SinkCommitResult, SinkCommitFailure>),
    replies: (SinkReply, SinkReply),
)
    requires
        forced(sinks.0, sinks.1, identity.range.high, ScriptedWrite::MaybeCommittedThenOk),
        written(sinks.1, sinks.2, identity, steps.0, inner.0, replies.0),
        sinks.3.script(identity.range.high) == sinks.2.script(identity.range.high),
        written(sinks.3, sinks.4, identity, steps.1, inner.1, replies.1),
    ensures
        steps.0 == Interposition::Answer(replies.0),
        !replies.0.committed,
        replies.0.result matches Err(SinkCommitFailure::MaybeCommitted(_)),
        steps.1 is Delegate,
        replies.1.committed <==> inner.1 is Ok,
        replies.1.result == inner.1,
        sinks.2.captured() == sinks.0.captured().push(capture_of(identity, replies.0.result)),
        sinks.4.captured() == sinks.3.captured().push(capture_of(identity, replies.1.result)),
{
    let script = attempts_of(ScriptedWrite::MaybeCommittedThenOk);
    assert(script.drop_first() =~= seq![Attempt::DelegateOk]);
}

/// The ClickHouse sink, with a script in front and a record of its answers.
#[derive(Debug)]
pub struct RealClickHouseSink {
    inner: ClickHouseSink<OtlpLogsClickHouseAdapter>,
    id: String,
    scripts: Scripts<Attempt>,
    captured: Vec<CapturedWrite>,
}

impl RealClickHouseSink {
    /// The name of the sink.
    pub closed spec fn name(&self) -> Seq<char> {
        self.id@
    }

    /// The sink behind.
    pub closed spec fn behind(&self) -> ClickHouseSink<OtlpLogsClickHouseAdapter> {
        self.inner
    }

    /// The attempts scripted for a sequence.
    pub closed spec fn script(&self, sequence: u64) -> Seq<Attempt> {
        self.scripts.queue(sequence)
    }

    /// What was captured since the last drain.
    pub closed spec fn captured(&self) -> Seq<CapturedView> {
        scripted_sink::captured_views(self.captured@)
    }

    pub fn new(id: &str, inner: ClickHouseSink<OtlpLogsClickHouseAdapter>) -> (r: Self)
        ensures
            r.name() == id@,
            r.behind() == inner,
            forall|s: u64| #[trigger] r.script(s) == Seq::<Attempt>::empty(),
            r.captured() == Seq::<CapturedView>::empty(),
    {
        let r = RealClickHouseSink {
            inner,
            id: owned(id),
            scripts: Scripts::new(),
            captured: Vec::new(),
        };
        assert(r.captured() =~= Seq::<CapturedView>::empty());
        assert forall|s: u64| #[trigger] r.script(s) == Seq::<Attempt>::empty() by {
            assert(r.scripts.queue(s) == Seq::<Attempt>::empty());
        }
        r
    }

    pub fn id(&self) -> (r: &str)
        ensures
            r@ == self.name(),
    {
        self.id.as_str()
    }

    pub fn inner(&self) -> (r: &ClickHouseSink<OtlpLogsClickHouseAdapter>)
        ensures
            *r == self.behind(),
    {
        &self.inner
    }

    /// Scripts the next writes of a sequence, in place of an earlier script.
    pub fn set_per_sequence_forced_outcome(&mut self, sequence: u64, outcome: ScriptedWrite)
        ensures
            forced(*old(self), *final(self), sequence, outcome),
    {
        let mut attempts: Vec<Attempt> = Vec::new();
        match outcome {
            ScriptedWrite::Success => {},
            ScriptedWrite::MaybeCommittedThenOk => {
                attempts.push(Attempt::MaybeCommitted);
            },
            ScriptedWrite::CommitButReportMaybeCommittedThenRetry => {
                attempts.push(Attempt::CommitThenReportMaybeCommitted);
            },
        }
        attempts.push(Attempt::DelegateOk);
        assert(attempts@ =~= attempts_of(outcome));
        self.scripts.set(sequence, attempts);
        assert forall|s: u64| s != sequence implies #[trigger] self.script(s) == old(self).script(
            s,
        ) by {
            assert(self.scripts.queue(s) == old(self).scripts.queue(s));
        }
    }

    fn capture(&mut self, identity: &CommitIdentity, result: &Result<
        SinkCommitResult,
        SinkCommitFailure,
    >)
        ensures
            final(self).captured() == old(self).captured().push(capture_of(*identity, *result)),
            forall|s: u64| #[trigger] final(self).script(s) == old(self).script(s),
            final(self).name() == old(self).name(),
            final(self).behind() == old(self).behind(),
    {
        self.captured.push(
            CapturedWrite { identity: identity.clone(), outcome: write_outcome(result) },
        );
        assert(self.captured() =~= old(self).captured().push(capture_of(*identity, *result)));
    }

    /// Begins a write: takes the next attempt of the last sequence of its range
    /// off the script, and answers at once if the attempt says so.
    pub fn begin_write(&mut self, identity: &CommitIdentity) -> (r: Interposition)
        ensures
            begun(*old(self), *final(self), *identity, r),
    {
        let sequence: u64 = identity.range.high;
        let next = self.scripts.next(sequence);
        assert forall|s: u64| s != sequence implies #[trigger] self.script(s) == old(self).script(
            s,
        ) by {
            assert(self.scripts.queue(s) == old(self).scripts.queue(s));
        }
        match next {
            None => Interposition::Delegate { in_doubt: false },
            Some(Attempt::DelegateOk) => Interposition::Delegate { in_doubt: false },
            Some(Attempt::CommitThenReportMaybeCommitted) => Interposition::Delegate {
                in_doubt: true,
            },
            Some(Attempt::MaybeCommitted) => {
                let result: Result<SinkCommitResult, SinkCommitFailure> = Err(
                    SinkCommitFailure::MaybeCommitted(in_doubt(sequence)),
                );
                let ghost before = *self;
                self.capture(identity, &result);
                assert forall|s: u64| #[trigger] self.script(s) == before.script(s) by {}
                Interposition::Answer(SinkReply { committed: false, result })
            },
        }
    }

    /// Ends a write that was handed on: captures what is reported of the result
    /// of the sink behind.
    pub fn end_write(
        &mut self,
        identity: &CommitIdentity,
        in_doubt: bool,
        inner: Result<SinkCommitResult, SinkCommitFailure>,
    ) -> (r: SinkReply)
        ensures
            ended(*old(self), *final(self), *identity, in_doubt, inner, r),
    {
        let committed: bool = inner.is_ok();
        let result: Result<SinkCommitResult, SinkCommitFailure> = if in_doubt && committed {
            Err(SinkCommitFailure::MaybeCommitted(hidden_commit(identity.range.high)))
        } else {
            inner
        };
        self.capture(identity, &result);
        SinkReply { committed, result }
    }

    /// Hands out what was captured since the last drain.
    pub fn drain_captured_writes(&mut self) -> (r: Vec<CapturedWrite>)
        ensures
            scripted_sink::captured_views(r@) == old(self).captured(),
            final(self).captured() == Seq::<CapturedView>::empty(),
            forall|s: u64| #[trigger] final(self).script(s) == old(self).script(s),
            final(self).name() == old(self).name(),
            final(self).behind() == old(self).behind(),
    {
        let mut drained: Vec<CapturedWrite> = Vec::new();
        std::mem::swap(&mut drained, &mut self.captured);
        assert(self.captured() =~= Seq::<CapturedView>::empty());
        drained
    }

    /// The sink behind is asked.
    pub fn check_committed(&self, identity: &CommitIdentity) -> (r: CommitStatus)
        ensures
            r == CommitStatus::Unknown,
    {
        self.inner.check_committed(identity)
    }
}

/// A write without a script is handed on and answered with what the sink behind made of
/// it, success or failure.
pub proof fn law_unscripted_write_is_handed_on(
    before: RealClickHouseSink,
    after: RealClickHouseSink,
    identity: CommitIdentity,
    step: Interposition,
    inner: Result<SinkCommitResult, SinkCommitFailure>,
    reply: SinkReply,
    other: u64,
)
    requires
        written(before, after, identity, step, inner, reply),
        before.script(identity.range.high).len() == 0,
        other != identity.range.high,
    ensures
        step == (Interposition::Delegate { in_doubt: false }),
        reply.result == inner,
        reply.committed <==> inner is Ok,
        after.script(other) == before.script(other),
        after.script(identity.range.high).len() == 0,
        after.captured().len() == before.captured().len() + 1,
        after.captured().drop_last() == before.captured(),
        after.captured().last().identity.range == identity.range,
        after.captured().last().identity.source == identity.source@,
        after.captured().last().identity.sink == identity.sink@,
        after.captured().last().identity.schema_version == identity.schema_version,
        inner matches Ok(done) ==> after.captured().last().outcome == (
            scripted_sink::WriteOutcome::Committed { rows: done.rows_written }),
        inner is Err ==> after.captured().last().outcome is Failure,
{
    assert(after.captured().drop_last() =~= before.captured());
}

/// A write goes by the script of the last sequence of its range alone: one attempt is
/// taken off it, and the scripts of other sequences, the first of the range among them,
/// stay as they are.
pub proof fn law_script_goes_by_the_last_sequence(
    before: RealClickHouseSink,
    after: RealClickHouseSink,
    identity: CommitIdentity,
    step: Interposition,
    inner: Result<SinkCommitResult, SinkCommitFailure>,
    reply: SinkReply,
    other: u64,
)
    requires
        written(before, after, identity, step, inner, reply),
        other != identity.range.high,
    ensures
        after.script(other) == before.script(other),
        before.script(identity.range.high).len() > 0 ==> after.script(identity.range.high).len()
            == before.script(identity.range.high).len() - 1,
        before.script(identity.range.high).len() > 0 && step is Answer ==> before.script(
            identity.range.high,
        )[0] == Attempt::MaybeCommitted,
        after.name() == before.name(),
{
}

/// A sink that was told to doubt a write answers it without the sink behind; otherwise
/// the write is handed on, and in doubt only if the sink was told so.
pub proof fn law_sink_does_as_it_is_told(
    sink: &mut RealClickHouseSink,
    sequence: u64,
    outcome: ScriptedWrite,
    next: &mut RealClickHouseSink,
    identity: &CommitIdentity,
    step: Interposition,
    other: u64,
)
    requires
        call_ensures(
            RealClickHouseSink::set_per_sequence_forced_outcome,
            (sink, sequence, outcome),
            (),
        ),
        *old(next) == *final(sink),
        identity.range.high == sequence,
        call_ensures(RealClickHouseSink::begin_write, (next, identity), step),
        other != sequence,
    ensures
        final(sink).captured() == old(sink).captured(),
        final(sink).script(other) == old(sink).script(other),
        final(sink).behind() == old(sink).behind(),
        outcome == ScriptedWrite::MaybeCommittedThenOk <==> step is Answer,
        step matches Interposition::Answer(reply) ==> !reply.committed && (
        reply.result matches Err(SinkCommitFailure::MaybeCommitted(_))) && final(
            next).captured().len() == old(next).captured().len() + 1,
        step matches Interposition::Delegate { in_doubt } ==> (in_doubt <==> outcome
            == ScriptedWrite::CommitButReportMaybeCommittedThenRetry) && final(next).captured()
            == old(next).captured(),
        final(next).script(other) == old(next).script(other),
{
}

/// A write that was handed on is told to the observer as what it was behind: a commit
/// exactly if it was one. It is answered with what came back, but for a commit in doubt,
/// which is answered with `MaybeCommitted`. The answer is captured.
pub proof fn law_handed_on_write_is_ended(
    sink: &mut RealClickHouseSink,
    identity: &CommitIdentity,
    in_doubt: bool,
    inner: Result<SinkCommitResult, SinkCommitFailure>,
    reply: SinkReply,
    sequence: u64,
)
    requires
        call_ensures(
            RealClickHouseSink::end_write,
            (sink, identity, in_doubt, inner),
            reply,
        ),
    ensures
        reply.committed <==> inner is Ok,
        inner is Err || !in_doubt ==> reply.result == inner,
        inner is Ok && in_doubt ==> (reply.result matches Err(SinkCommitFailure::MaybeCommitted(
            _,
        ))),
        final(sink).captured().len() == old(sink).captured().len() + 1,
        final(sink).captured().drop_last() == old(sink).captured(),
        final(sink).captured().last().outcome is Committed <==> reply.result is Ok,
        final(sink).captured().last().identity == identity@,
        final(sink).script(sequence) == old(sink).script(sequence),
        final(sink).behind() == old(sink).behind(),
{
    assert(final(sink).captured().drop_last() =~= old(sink).captured());
}

} // verus!
