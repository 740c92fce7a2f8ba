//! Commit groups: decoded records of several batches, gathered until one of
//! three thresholds trips.
//!
//! [`CommitGroup::append`] takes one batch at a time. Input progress does not
//! depend on output rows: appending advances the high watermark even when a
//! batch decoded to nothing. The age of a group runs from its first append, and
//! [`CommitGroup::time_until_max_age`] says how long the caller may wait before
//! the group has to be flushed anyway.
use std::time::{Duration, Instant};
use vstd::prelude::*;

use crate::time;
use crate::time::clock_now;

verus! {

/// When a group is due.
#[derive(Debug, Clone, Copy)]
pub struct CommitGroupThresholds {
    pub max_rows: usize,
    pub max_bytes: usize,
    pub max_age: Duration,
}

impl Default for CommitGroupThresholds {
    fn default() -> (t: Self)
        ensures
            t.max_rows == 100_000,
            t.max_bytes == 32 * 1024 * 1024,
            time::duration_nanos(t.max_age) == 1_000_000_000,
    {
        CommitGroupThresholds {
            max_rows: 100_000,
            max_bytes: 32 * 1024 * 1024,
            max_age: Duration::from_secs(1),
        }
    }
}

/// Records report their own size, so that a group can measure what it holds
/// without knowing the payload format.
pub trait RecordSize {
    /// The size that the record reports.
    closed spec fn size(&self) -> nat {
        arbitrary()
    }

    fn approx_size_bytes(&self) -> (n: usize)
        ensures
            n as nat == self.size(),
    ;
}

/// Sum of the sizes of a run of records.
pub open spec fn total_size<R: RecordSize>(records: Seq<R>) -> nat
    decreases records.len(),
{
    if records.len() == 0 {
        0
    } else {
        total_size(records.drop_last()) + records.last().size()
    }
}

/// What a group holds.
#[verifier::ext_equal]
pub struct GroupState<R> {
    pub records: Seq<R>,
    pub low: Option<u64>,
    pub high: Option<u64>,
    pub opened: Option<Instant>,
    pub thresholds: CommitGroupThresholds,
}

/// The empty group.
pub open spec fn empty_group<R>(thresholds: CommitGroupThresholds) -> GroupState<R> {
    GroupState { records: Seq::empty(), low: None, high: None, opened: None, thresholds }
}

/// A group after one more batch, absorbed at `now`. The first batch sets the low
/// watermark and starts the clock; every batch sets the high watermark.
pub open spec fn appended<R>(
    group: GroupState<R>,
    records: Seq<R>,
    sequence: u64,
    now: Instant,
) -> GroupState<R> {
    GroupState {
        records: group.records + records,
        low: if group.low is Some {
            group.low
        } else {
            Some(sequence)
        },
        high: Some(sequence),
        opened: if group.opened is Some {
            group.opened
        } else {
            Some(now)
        },
        thresholds: group.thresholds,
    }
}

/// Whether a group is due at `now`: it has absorbed something, and it is full by
/// rows, full by bytes, or old enough.
pub open spec fn flush_due<R: RecordSize>(group: GroupState<R>, now: Instant) -> bool {
    group.high is Some && (group.records.len() >= group.thresholds.max_rows || total_size(
        group.records,
    ) >= group.thresholds.max_bytes || (group.opened is Some && time::elapsed_nanos(
        now,
        group.opened->0,
    ) >= time::duration_nanos(group.thresholds.max_age)))
}

/// The time left at `now` before a group is due by age.
pub open spec fn age_left<R>(group: GroupState<R>, now: Instant) -> nat
    recommends
        group.opened is Some,
{
    time::nanos_less(
        time::duration_nanos(group.thresholds.max_age),
        time::elapsed_nanos(now, group.opened->0),
    )
}

/// Records absorbed since the group was last drained.
#[derive(Debug)]
pub struct CommitGroup<R> {
    records: Vec<R>,
    low_sequence: Option<u64>,
    high_sequence: Option<u64>,
    bytes: usize,
    opened_at: Option<Instant>,
    thresholds: CommitGroupThresholds,
}

impl<R> View for CommitGroup<R> {
    type V = GroupState<R>;

    closed spec fn view(&self) -> GroupState<R> {
        GroupState {
            records: self.records@,
            low: self.low_sequence,
            high: self.high_sequence,
            opened: self.opened_at,
            thresholds: self.thresholds,
        }
    }
}

impl<R: RecordSize> CommitGroup<R> {
    /// The byte count is the size of the records; the watermarks and the clock
    /// are set together; a group that has absorbed nothing holds no record.
    pub closed spec fn wf(&self) -> bool {
        &&& self.bytes as nat == total_size(self.records@)
        &&& self.low_sequence is Some <==> self.high_sequence is Some
        &&& self.opened_at is Some <==> self.high_sequence is Some
        &&& self.high_sequence is None ==> self.records@.len() == 0
    }

    /// The watermarks and the clock of a group are set together, by the first
    /// batch, and before it the group holds no record.
    pub proof fn law_watermarks_and_clock_agree(&self)
        requires
            self.wf(),
        ensures
            self@.high is Some <==> self@.low is Some,
            self@.high is Some <==> self@.opened is Some,
            self@.high is None ==> self@.records.len() == 0,
    {
    }

    pub fn new(thresholds: CommitGroupThresholds) -> (group: Self)
        ensures
            group.wf(),
            group@ == empty_group::<R>(thresholds),
    {
        CommitGroup {
            records: Vec::new(),
            low_sequence: None,
            high_sequence: None,
            bytes: 0,
            opened_at: None,
            thresholds,
        }
    }

    /// Absorbs one batch at `now`.
    pub fn append_at(&mut self, records: Vec<R>, sequence: u64, now: Instant)
        requires
            old(self).wf(),
            total_size(old(self)@.records) + total_size(records@) <= usize::MAX,
        ensures
            final(self).wf(),
            final(self)@ == appended(old(self)@, records@, sequence, now),
    {
        let mut batch: Vec<R> = records;
        if self.opened_at.is_none() {
            self.opened_at = Some(now);
        }
        if self.low_sequence.is_none() {
            self.low_sequence = Some(sequence);
        }
        self.high_sequence = Some(sequence);
        let mut i: usize = 0;
        let mut bytes: usize = self.bytes;
        while i < batch.len()
            invariant
                i <= batch@.len(),
                batch@ == records@,
                bytes as nat == total_size(old(self)@.records) + total_size(batch@.take(i as int)),
                total_size(old(self)@.records) + total_size(records@) <= usize::MAX,
            decreases batch.len() - i,
        {
            proof {
                lemma_total_size_prefix(batch@, i as int + 1);
                assert(batch@.take(i + 1).drop_last() =~= batch@.take(i as int));
            }
            bytes = bytes + batch[i].approx_size_bytes();
            i = i + 1;
        }
        proof {
            assert(batch@.take(i as int) =~= batch@);
            lemma_total_size_concat(old(self)@.records, batch@);
        }
        self.bytes = bytes;
        self.records.append(&mut batch);
    }

    /// Absorbs one batch now. The high watermark advances even when `records` is
    /// empty.
    pub fn append(&mut self, records: Vec<R>, sequence: u64)
        requires
            old(self).wf(),
            total_size(old(self)@.records) + total_size(records@) <= usize::MAX,
        ensures
            final(self).wf(),
            exists|now: Instant| final(self)@ == #[trigger] appended(
                old(self)@,
                records@,
                sequence,
                now,
            ),
    {
        let now = clock_now();
        self.append_at(records, sequence, now);
    }

    pub fn is_empty(&self) -> (b: bool)
        requires
            self.wf(),
        ensures
            b == (self@.records.len() == 0 && self@.high is None),
            b == (self@ == empty_group::<R>(self@.thresholds)),
    {
        let b = self.records.is_empty() && self.high_sequence.is_none();
        assert(b ==> self@.records =~= Seq::<R>::empty());
        b
    }

    pub fn rows(&self) -> (n: usize)
        ensures
            n == self@.records.len(),
    {
        self.records.len()
    }

    pub fn bytes(&self) -> (n: usize)
        requires
            self.wf(),
        ensures
            n as nat == total_size(self@.records),
    {
        self.bytes
    }

    pub fn opened_at(&self) -> (t: Option<Instant>)
        ensures
            t == self@.opened,
    {
        self.opened_at
    }

    pub fn high_watermark(&self) -> (s: Option<u64>)
        ensures
            s == self@.high,
    {
        self.high_sequence
    }

    pub fn low_watermark(&self) -> (s: Option<u64>)
        ensures
            s == self@.low,
    {
        self.low_sequence
    }

    /// Whether the group is due now.
    pub fn should_flush(&self) -> (b: bool)
        requires
            self.wf(),
        ensures
            exists|now: Instant| b == #[trigger] flush_due(self@, now),
    {
        let now = clock_now();
        self.should_flush_at(now)
    }

    /// Whether the group is due at `now`.
    pub fn should_flush_at(&self, now: Instant) -> (b: bool)
        requires
            self.wf(),
        ensures
            b == flush_due(self@, now),
    {
        if self.high_sequence.is_none() {
            return false;
        }
        if self.records.len() >= self.thresholds.max_rows {
            return true;
        }
        if self.bytes >= self.thresholds.max_bytes {
            return true;
        }
        if let Some(opened) = self.opened_at {
            let elapsed = now.saturating_duration_since(opened);
            if elapsed.as_nanos() >= self.thresholds.max_age.as_nanos() {
                return true;
            }
        }
        false
    }

    /// The time left until the group is due by age, or `None` if it has absorbed
    /// nothing yet.
    pub fn time_until_max_age(&self, now: Instant) -> (left: Option<Duration>)
        ensures
            left is Some <==> self@.opened is Some,
            left matches Some(d) ==> time::duration_nanos(d) == age_left(self@, now),
    {
        match self.opened_at {
            None => None,
            Some(opened) => {
                let elapsed = now.saturating_duration_since(opened);
                Some(self.thresholds.max_age.saturating_sub(elapsed))
            },
        }
    }

    /// Hands out what the group holds and leaves it empty.
    pub fn drain(&mut self) -> (batch: CommitGroupBatch<R>)
        requires
            old(self).wf(),
            old(self)@.high is Some,
        ensures
            final(self).wf(),
            final(self)@ == empty_group::<R>(old(self)@.thresholds),
            batch.records@ == old(self)@.records,
            Some(batch.low_sequence) == old(self)@.low,
            Some(batch.high_sequence) == old(self)@.high,
            batch.bytes as nat == total_size(old(self)@.records),
    {
        let mut records: Vec<R> = Vec::new();
        std::mem::swap(&mut records, &mut self.records);
        let low: u64 = self.low_sequence.unwrap();
        let high: u64 = self.high_sequence.unwrap();
        let bytes: usize = self.bytes;
        self.low_sequence = None;
        self.high_sequence = None;
        self.bytes = 0;
        self.opened_at = None;
        CommitGroupBatch { records, low_sequence: low, high_sequence: high, bytes }
    }
}

/// What [`CommitGroup::drain`] hands out.
#[derive(Debug)]
pub struct CommitGroupBatch<R> {
    pub records: Vec<R>,
    pub low_sequence: u64,
    pub high_sequence: u64,
    /// Sum of the record sizes.
    pub bytes: usize,
}

impl<R> CommitGroupBatch<R> {
    pub fn rows(&self) -> (n: usize)
        ensures
            n == self.records@.len(),
    {
        self.records.len()
    }
}

/// The size of two runs together is the sum of their sizes.
pub proof fn lemma_total_size_concat<R: RecordSize>(a: Seq<R>, b: Seq<R>)
    ensures
        total_size(a + b) == total_size(a) + total_size(b),
    decreases b.len(),
{
    if b.len() == 0 {
        assert(a + b =~= a);
    } else {
        lemma_total_size_concat(a, b.drop_last());
        assert((a + b).drop_last() =~= a + b.drop_last());
    }
}

proof fn lemma_total_size_prefix<R: RecordSize>(s: Seq<R>, k: int)
    requires
        0 <= k <= s.len(),
    ensures
        total_size(s.take(k)) <= total_size(s),
{
    lemma_total_size_concat(s.take(k), s.skip(k));
    assert(s.take(k) + s.skip(k) =~= s);
}

/// A group that has absorbed nothing is never due, whatever its thresholds and
/// the time.
pub proof fn law_empty_group_never_due<R: RecordSize>(
    thresholds: CommitGroupThresholds,
    now: Instant,
)
    ensures
        !flush_due(empty_group::<R>(thresholds), now),
{
}

/// Input progress is independent of output rows: appending, even an empty
/// batch, leaves the group with that batch's sequence as its high watermark,
/// keeps the low watermark once it is set, and never makes the group look empty.
pub proof fn law_append_progresses<R>(
    group: GroupState<R>,
    records: Seq<R>,
    sequence: u64,
    now: Instant,
)
    ensures
        ({
            let next = appended(group, records, sequence, now);
            &&& next.high == Some(sequence)
            &&& next.low is Some
            &&& group.low is Some ==> next.low == group.low
            &&& next.opened is Some
            &&& group.opened is Some ==> next.opened == group.opened
            &&& next.records.len() == group.records.len() + records.len()
            &&& next != empty_group::<R>(group.thresholds)
        }),
{
}

/// Once a group is due it stays due, whatever is appended to it.
pub proof fn law_due_is_stable<R: RecordSize>(
    group: GroupState<R>,
    records: Seq<R>,
    sequence: u64,
    at: Instant,
    now: Instant,
)
    requires
        flush_due(group, now),
    ensures
        flush_due(appended(group, records, sequence, at), now),
{
    lemma_total_size_concat(group.records, records);
}

/// The timer agrees with the flush decision: when no time is left before a
/// group that has absorbed something is due by age, it is due; and while time is
/// left, it is due only by rows or bytes.
pub proof fn law_timer_agrees<R: RecordSize>(group: GroupState<R>, now: Instant)
    requires
        group.high is Some,
        group.opened is Some,
    ensures
        age_left(group, now) == 0 ==> flush_due(group, now),
        flush_due(group, now) && age_left(group, now) > 0 ==> group.records.len()
            >= group.thresholds.max_rows || total_size(group.records) >= group.thresholds.max_bytes,
{
}

/// The timer does not oversleep: a group that has absorbed something is due as
/// soon as the time that was left at `now` has passed.
pub proof fn law_timer_does_not_oversleep<R: RecordSize>(
    group: GroupState<R>,
    now: Instant,
    later: Instant,
)
    requires
        group.high is Some,
        group.opened is Some,
        time::elapsed_nanos(later, group.opened->0) >= time::elapsed_nanos(now, group.opened->0)
            + age_left(group, now),
    ensures
        flush_due(group, later),
        age_left(group, later) == 0,
{
}

/// The timer does not wake early: below the thresholds of rows and bytes a group
/// is due exactly when no time is left.
pub proof fn law_timer_does_not_wake_early<R: RecordSize>(group: GroupState<R>, now: Instant)
    requires
        group.high is Some,
        group.opened is Some,
        group.records.len() < group.thresholds.max_rows,
        total_size(group.records) < group.thresholds.max_bytes,
    ensures
        flush_due(group, now) <==> age_left(group, now) == 0,
{
}

/// One batch on its way into a group.
pub struct Absorbed<R> {
    pub records: Seq<R>,
    pub sequence: u64,
    pub at: Instant,
}

/// A fresh group after a run of appends.
pub open spec fn absorb_all<R>(
    thresholds: CommitGroupThresholds,
    batches: Seq<Absorbed<R>>,
) -> GroupState<R>
    decreases batches.len(),
{
    if batches.len() == 0 {
        empty_group(thresholds)
    } else {
        let last = batches.last();
        appended(absorb_all(thresholds, batches.drop_last()), last.records, last.sequence, last.at)
    }
}

/// The records of a run of batches, one batch after the other.
pub open spec fn all_records<R>(batches: Seq<Absorbed<R>>) -> Seq<R>
    decreases batches.len(),
{
    if batches.len() == 0 {
        Seq::empty()
    } else {
        all_records(batches.drop_last()) + batches.last().records
    }
}

/// Whatever was appended to a fresh group is in it, nothing else and in order,
/// under the range from the first sequence to the last; its age runs from the
/// first append.
pub proof fn law_group_keeps_everything<R>(
    thresholds: CommitGroupThresholds,
    batches: Seq<Absorbed<R>>,
)
    requires
        batches.len() > 0,
    ensures
        ({
            let group = absorb_all(thresholds, batches);
            &&& group.records == all_records(batches)
            &&& group.low == Some(batches[0].sequence)
            &&& group.high == Some(batches.last().sequence)
            &&& group.opened == Some(batches[0].at)
            &&& group.thresholds == thresholds
        }),
    decreases batches.len(),
{
    let front = batches.drop_last();
    if front.len() > 0 {
        law_group_keeps_everything(thresholds, front);
        assert(front[0] == batches[0]);
    } else {
        reveal_with_fuel(absorb_all, 2);
        reveal_with_fuel(all_records, 2);
    }
}

/// A group that has absorbed something is due as soon as it reaches one of its
/// limits, of rows, of bytes or of age, and is not due while it is below all three.
pub proof fn law_due_at_each_limit<R: RecordSize>(group: GroupState<R>, now: Instant)
    requires
        group.high is Some,
        group.opened is Some,
    ensures
        group.records.len() >= group.thresholds.max_rows ==> flush_due(group, now),
        total_size(group.records) >= group.thresholds.max_bytes ==> flush_due(group, now),
        time::elapsed_nanos(now, group.opened->0) >= time::duration_nanos(group.thresholds.max_age)
            ==> flush_due(group, now),
        group.records.len() < group.thresholds.max_rows && total_size(group.records)
            < group.thresholds.max_bytes && time::elapsed_nanos(now, group.opened->0)
            < time::duration_nanos(group.thresholds.max_age) ==> !flush_due(group, now),
{
}

/// The size of a run of records is the sum of their sizes.
pub proof fn law_total_size_is_the_sum<R: RecordSize>(a: Seq<R>, b: Seq<R>, r: R)
    ensures
        total_size(a + b) == total_size(a) + total_size(b),
        total_size(seq![r]) == r.size(),
        total_size(Seq::<R>::empty()) == 0,
{
    lemma_total_size_concat(a, b);
    reveal_with_fuel(total_size, 2);
    assert(seq![r].drop_last() =~= Seq::<R>::empty());
}

/// What is appended comes behind what the group holds; its first batch sets where
/// the range starts and when the clock starts, its last where the range ends.
pub proof fn law_append_adds_behind<R>(
    group: GroupState<R>,
    records: Seq<R>,
    sequence: u64,
    now: Instant,
)
    ensures
        ({
            let next = appended(group, records, sequence, now);
            &&& next.records.take(group.records.len() as int) == group.records
            &&& next.records.skip(group.records.len() as int) == records
            &&& group.low is None ==> next.low == Some(sequence)
            &&& group.low is Some ==> next.low == group.low
            &&& next.high == Some(sequence)
            &&& group.opened is None ==> next.opened == Some(now)
            &&& group.opened is Some ==> next.opened == group.opened
            &&& next.thresholds == group.thresholds
        }),
{
    let next = appended(group, records, sequence, now);
    assert(next.records.take(group.records.len() as int) =~= group.records);
    assert(next.records.skip(group.records.len() as int) =~= records);
}

/// What is absorbed comes behind what the group holds. The first batch sets where the
/// range starts and starts the clock, and every batch sets where the range ends.
pub proof fn law_group_absorbs_batches<R: RecordSize>(
    group: &mut CommitGroup<R>,
    records: Vec<R>,
    sequence: u64,
    now: Instant,
)
    requires
        old(group).wf(),
        total_size(old(group)@.records) + total_size(records@) <= usize::MAX,
        call_ensures(CommitGroup::<R>::append_at, (group, records, sequence, now), ()),
    ensures
        final(group)@.records == old(group)@.records + records@,
        old(group)@.low is None ==> final(group)@.low == Some(sequence),
        old(group)@.low is Some ==> final(group)@.low == old(group)@.low,
        final(group)@.high == Some(sequence),
        old(group)@.opened is None ==> final(group)@.opened == Some(now),
        old(group)@.opened is Some ==> final(group)@.opened == old(group)@.opened,
        final(group)@.thresholds == old(group)@.thresholds,
{
}

/// Draining hands out everything that the group holds, under the range that it covers,
/// and leaves a group like a new one.
pub proof fn law_drain_hands_out_everything<R: RecordSize>(
    group: &mut CommitGroup<R>,
    batch: CommitGroupBatch<R>,
    fresh: CommitGroup<R>,
)
    requires
        old(group).wf(),
        old(group)@.high is Some,
        call_ensures(CommitGroup::<R>::drain, (group,), batch),
        call_ensures(CommitGroup::<R>::new, (old(group)@.thresholds,), fresh),
    ensures
        batch.records@ == old(group)@.records,
        old(group)@.low == Some(batch.low_sequence),
        old(group)@.high == Some(batch.high_sequence),
        batch.bytes == total_size(old(group)@.records),
        final(group)@.records.len() == 0,
        final(group)@.low is None,
        final(group)@.high is None,
        final(group)@.opened is None,
        final(group)@.thresholds == old(group)@.thresholds,
        final(group)@ == fresh@,
{
}

/// What a group is asked, it answers of what it holds. It is due once it has reached one
/// of its limits, and not before; the time that is left is what is missing to its age
/// limit.
pub proof fn law_group_answers_of_itself<R: RecordSize>(
    group: &CommitGroup<R>,
    now: Instant,
    rows: usize,
    bytes: usize,
    due: bool,
    left: Option<Duration>,
    empty: bool,
)
    requires
        group.wf(),
        call_ensures(CommitGroup::<R>::rows, (group,), rows),
        call_ensures(CommitGroup::<R>::bytes, (group,), bytes),
        call_ensures(CommitGroup::<R>::should_flush_at, (group, now), due),
        call_ensures(CommitGroup::<R>::time_until_max_age, (group, now), left),
        call_ensures(CommitGroup::<R>::is_empty, (group,), empty),
    ensures
        rows == group@.records.len(),
        bytes == total_size(group@.records),
        empty ==> rows == 0 && !due,
        due ==> group@.high is Some,
        group@.high is Some && rows >= group@.thresholds.max_rows ==> due,
        group@.high is Some && bytes >= group@.thresholds.max_bytes ==> due,
        group@.high is Some && group@.opened is Some && time::elapsed_nanos(now, group@.opened->0)
            >= time::duration_nanos(group@.thresholds.max_age) ==> due,
        due ==> rows >= group@.thresholds.max_rows || bytes >= group@.thresholds.max_bytes || (
        group@.opened is Some && time::elapsed_nanos(now, group@.opened->0) >= time::duration_nanos(
            group@.thresholds.max_age,
        )),
        left is Some <==> group@.opened is Some,
        left matches Some(d) ==> {
            let passed = time::elapsed_nanos(now, group@.opened->0);
            let limit = time::duration_nanos(group@.thresholds.max_age);
            &&& passed <= limit ==> time::duration_nanos(d) + passed == limit
            &&& passed > limit ==> time::duration_nanos(d) == 0
        },
{
}

} // verus!
