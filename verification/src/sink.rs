//! ClickHouse sink: what a commit turns into, and what its outcome means.
//!
//! A commit is planned into chunks, and only a plan that holds every record of
//! the commit is written. Success is reported when every chunk is in. A failure
//! after which something may have been written is reported as such, so that the
//! commit can be tried again under the same tokens.
use std::time::Duration;
use vstd::prelude::*;

use crate::adapter::{Adapter, AdapterResult, ClickHouseAdapterBatch, InsertChunk};
use crate::logs_adapter;
use crate::logs_adapter::OtlpLogsClickHouseAdapter;
use crate::logs::{sum_sizes, DecodedLogRecord, OTLP_LOGS_SCHEMA_NAME};
use crate::otlp;
use crate::runtime::{
    CommitIdentity, CommitStatus, DecodedRecords, SequenceRange, SinkCommit, SinkCommitFailure,
    SinkCommitResult, TypedSchema,
};
use crate::text;
use crate::text::{debug_text, push_decimal, push_wide};
use crate::writer;
use crate::writer::{
    ClickHouseWriter, RetryStep, WriteAction, WriteRun, WriterConfig, WriterError, WriterErrorClass,
};

verus! {

/// The message about a commit whose range is not that of its batch.
pub open spec fn range_mismatch_text(commit: SinkCommit) -> Seq<char> {
    "SinkCommit identity range "@ + text::decimal(commit.identity.range.low as nat) + "..="@
        + text::decimal(commit.identity.range.high as nat)
        + " disagrees with DecodedBatch range "@ + text::decimal(commit.batch.low_sequence as nat)
        + "..="@ + text::decimal(commit.batch.high_sequence as nat)
}

/// Whether the range of a commit is that of its batch.
pub open spec fn range_agrees(commit: SinkCommit) -> bool {
    commit.identity.range.low == commit.batch.low_sequence && commit.identity.range.high
        == commit.batch.high_sequence
}

fn range_mismatch(commit: &SinkCommit) -> (s: String)
    ensures
        s@ == range_mismatch_text(*commit),
{
    let mut out = String::from_str("SinkCommit identity range ");
    push_decimal(&mut out, commit.identity.range.low);
    out.append("..=");
    push_decimal(&mut out, commit.identity.range.high);
    out.append(" disagrees with DecodedBatch range ");
    push_decimal(&mut out, commit.batch.low_sequence);
    out.append("..=");
    push_decimal(&mut out, commit.batch.high_sequence);
    out
}

/// The message about records of another schema.
pub open spec fn foreign_schema_text(schema: TypedSchema) -> Seq<char> {
    "ClickHouseSink expects TypedDecodedLogs (schema "@ + OTLP_LOGS_SCHEMA_NAME@ + "), got "@
        + "TypedSchema { name: "@ + text::str_debug(schema.name@) + ", version: SchemaVersion("@
        + text::decimal(schema.version.0 as nat) + ") }"@
}

fn foreign_schema(schema: &TypedSchema) -> (s: String)
    ensures
        s@ == foreign_schema_text(*schema),
{
    let mut out = String::from_str("ClickHouseSink expects TypedDecodedLogs (schema ");
    out.append(OTLP_LOGS_SCHEMA_NAME);
    out.append("), got ");
    out.append("TypedSchema { name: ");
    let name = debug_text(schema.name.as_str());
    out.append(name.as_str());
    out.append(", version: SchemaVersion(");
    push_decimal(&mut out, schema.version.0 as u64);
    out.append(") }");
    out
}

/// The number of rows of the first `n` chunks.
pub open spec fn planned_rows(chunks: Seq<InsertChunk>, n: nat) -> nat
    decreases n,
{
    if n == 0 {
        0
    } else {
        planned_rows(chunks, (n - 1) as nat) + chunks[n - 1].rows@.len()
    }
}

/// The number of cells of the first `n` rows.
pub open spec fn row_cells(chunk: InsertChunk, n: nat) -> nat
    decreases n,
{
    if n == 0 {
        0
    } else {
        row_cells(chunk, (n - 1) as nat) + chunk.rows@[n - 1]@.len()
    }
}

/// The number of cells of the first `n` chunks.
pub open spec fn planned_cells(chunks: Seq<InsertChunk>, n: nat) -> nat
    decreases n,
{
    if n == 0 {
        0
    } else {
        planned_cells(chunks, (n - 1) as nat) + row_cells(
            chunks[n - 1],
            chunks[n - 1].rows@.len(),
        )
    }
}

/// A count that stops at the largest 64-bit number.
pub open spec fn capped_count(n: nat) -> nat {
    if n <= u64::MAX {
        n
    } else {
        u64::MAX as nat
    }
}

fn count_rows(chunks: &Vec<InsertChunk>) -> (n: u128)
    ensures
        n as nat == planned_rows(chunks@, chunks@.len()),
{
    let mut total: u128 = 0;
    let mut i: usize = 0;
    while i < chunks.len()
        invariant
            i <= chunks@.len(),
            total as nat == planned_rows(chunks@, i as nat),
            total <= i * usize::MAX,
        decreases chunks.len() - i,
    {
        let rows: usize = chunks[i].rows_count();
        assert((i + 1) * usize::MAX == i * usize::MAX + usize::MAX) by (nonlinear_arith);
        assert((i + 1) * usize::MAX <= u64::MAX * u64::MAX) by (nonlinear_arith)
            requires
                i + 1 <= usize::MAX,
                usize::MAX <= u64::MAX,
        ;
        total = total + rows as u128;
        i = i + 1;
    }
    total
}

fn count_cells(chunks: &Vec<InsertChunk>) -> (n: u64)
    ensures
        n as nat == capped_count(planned_cells(chunks@, chunks@.len())),
{
    let mut total: u64 = 0;
    let mut i: usize = 0;
    while i < chunks.len()
        invariant
            i <= chunks@.len(),
            total as nat == capped_count(planned_cells(chunks@, i as nat)),
        decreases chunks.len() - i,
    {
        let chunk = &chunks[i];
        let ghost before = planned_cells(chunks@, i as nat);
        let mut j: usize = 0;
        while j < chunk.rows.len()
            invariant
                j <= chunk.rows@.len(),
                total as nat == capped_count(before + row_cells(*chunk, j as nat)),
            decreases chunk.rows.len() - j,
        {
            total = total.saturating_add(chunk.rows[j].len() as u64);
            j = j + 1;
        }
        i = i + 1;
    }
    total
}

/// A commit that is ready to be written.
#[derive(Debug)]
pub struct PreparedCommit {
    pub chunks: Vec<InsertChunk>,
    pub result: SinkCommitResult,
}

/// The message about a plan that does not hold every record.
pub open spec fn dropped_rows_text(planned: nat, held: nat) -> Seq<char> {
    "adapter plan covered "@ + text::decimal(planned) + " rows but commit held "@ + text::decimal(
        held,
    ) + "; refusing to insert and ack a partial/dropped chunking"@
}

/// What a plan of a commit with `held` records leads to: it is written if it has
/// as many rows as there are records, and refused for good otherwise. What is
/// reported as written are the rows and, as `bytes_written`, their cells.
pub open spec fn plan_admitted(
    held: nat,
    plan: AdapterResult<Vec<InsertChunk>>,
    r: Result<PreparedCommit, SinkCommitFailure>,
) -> bool {
    match plan {
        Err(e) => r matches Err(SinkCommitFailure::Fatal(message)) && message@ == e.message@,
        Ok(chunks) => {
            let rows = planned_rows(chunks@, chunks@.len());
            if rows != held {
                r matches Err(SinkCommitFailure::Fatal(message)) && message@ == dropped_rows_text(
                    rows,
                    held,
                )
            } else {
                r matches Ok(p) && p.chunks@ == chunks@ && p.result.rows_written == held
                    && p.result.bytes_written as nat == capped_count(
                    planned_cells(chunks@, chunks@.len()),
                )
            }
        },
    }
}

/// Takes the plan of a commit with `held` records.
pub fn admit_plan(held: usize, plan: AdapterResult<Vec<InsertChunk>>) -> (r: Result<
    PreparedCommit,
    SinkCommitFailure,
>)
    ensures
        plan_admitted(held as nat, plan, r),
{
    let chunks = match plan {
        Ok(chunks) => chunks,
        Err(e) => return Err(SinkCommitFailure::Fatal(e.message)),
    };
    let rows: u128 = count_rows(&chunks);
    if rows != held as u128 {
        let mut message = String::from_str("adapter plan covered ");
        push_wide(&mut message, rows);
        message.append(" rows but commit held ");
        push_decimal(&mut message, held as u64);
        message.append("; refusing to insert and ack a partial/dropped chunking");
        return Err(SinkCommitFailure::Fatal(message));
    }
    let bytes_written: u64 = count_cells(&chunks);
    Ok(
        PreparedCommit {
            chunks,
            result: SinkCommitResult { bytes_written, rows_written: held as u64 },
        },
    )
}

/// What the end of the write of a commit means.
pub open spec fn write_means(
    result: SinkCommitResult,
    written: Result<(), WriterError>,
    r: Result<SinkCommitResult, SinkCommitFailure>,
) -> bool {
    match written {
        Ok(_) => r == Ok::<SinkCommitResult, SinkCommitFailure>(result),
        Err(e) => match writer::class_of(e) {
            WriterErrorClass::NonRetryable => r matches Err(SinkCommitFailure::Fatal(message))
                && message@ == writer::writer_error_text(e),
            _ => r matches Err(SinkCommitFailure::MaybeCommitted(message)) && message@
                == writer::writer_error_text(e),
        },
    }
}

/// Reads the end of the write of a commit. A failure that may pass can have come
/// after the server had committed, whether or not attempts are left, so it is
/// reported as a possible commit.
pub fn settle(result: SinkCommitResult, written: Result<(), WriterError>) -> (r: Result<
    SinkCommitResult,
    SinkCommitFailure,
>)
    ensures
        write_means(result, written, r),
{
    match written {
        Ok(()) => Ok(result),
        Err(e) => match e.class() {
            WriterErrorClass::Retryable => Err(SinkCommitFailure::MaybeCommitted(e.message())),
            WriterErrorClass::RetryBudgetExhausted => Err(
                SinkCommitFailure::MaybeCommitted(e.message()),
            ),
            WriterErrorClass::NonRetryable => Err(SinkCommitFailure::Fatal(e.message())),
        },
    }
}

/// What the write of a commit does next.
#[derive(Debug)]
pub enum CommitAction {
    /// Serialize this chunk and send it.
    Send { chunk: usize },
    /// Wait, then send this chunk again as it was serialized.
    Resend { chunk: usize, wait: Duration },
    /// Report this.
    Settled { outcome: Result<SinkCommitResult, SinkCommitFailure> },
}

/// The write of a prepared commit.
#[derive(Debug)]
pub struct CommitRun {
    run: WriteRun,
    result: SinkCommitResult,
}

impl CommitRun {
    /// Where the write stands.
    pub closed spec fn state(&self) -> writer::WriteState {
        self.run.state()
    }

    /// What is reported when every chunk is in.
    pub closed spec fn promised(&self) -> SinkCommitResult {
        self.result
    }

    /// Starts the write of a commit. One without chunks is written at once.
    pub fn start(config: &WriterConfig, prepared: &PreparedCommit) -> (r: (CommitRun, CommitAction))
        ensures
            r.0.state() == writer::write_start(*config, prepared.chunks@.len()),
            r.0.promised() == prepared.result,
            prepared.chunks@.len() == 0 ==> r.1 == (CommitAction::Settled {
                outcome: Ok(prepared.result),
            }),
            prepared.chunks@.len() > 0 ==> r.1 == (CommitAction::Send { chunk: 0 }),
    {
        let (run, action) = WriteRun::start(config, prepared.chunks.len());
        let result = prepared.result;
        let action = match action {
            WriteAction::Send { chunk } => CommitAction::Send { chunk },
            _ => CommitAction::Settled { outcome: settle(result, Ok(())) },
        };
        (CommitRun { run, result }, action)
    }

    /// Takes the outcome of the attempt at the chunk at the write's position: that
    /// of the request, or of the serialization where there was none.
    pub fn after_attempt(&mut self, config: &WriterConfig, r: Result<(), WriterError>) -> (action:
        CommitAction)
        requires
            old(self).state().position < old(self).state().chunks,
            !old(self).state().failed,
        ensures
            final(self).promised() == old(self).promised(),
            final(self).state() == writer::write_next(
                *config,
                old(self).state(),
                writer::attempt_end(r),
            ),
            ({
                let before = old(self).state();
                let after = final(self).state();
                match action {
                    CommitAction::Send { chunk } => r is Ok && chunk == after.position
                        && after.position < after.chunks,
                    CommitAction::Resend { chunk, wait } => !after.failed && writer::step_follows(
                        before.retry,
                        r,
                        RetryStep::Retry { wait },
                    ) && chunk == before.position,
                    CommitAction::Settled { outcome } => if after.failed {
                        exists|error: WriterError| #[trigger]
                            writer::step_follows(before.retry, r, RetryStep::Fail { error })
                                && write_means(old(self).promised(), Err(error), outcome)
                    } else {
                        r is Ok && after.position == after.chunks && outcome == Ok::<
                            SinkCommitResult,
                            SinkCommitFailure,
                        >(
                            old(self).promised(),
                        )
                    },
                }
            }),
    {
        match self.run.after_attempt(config, r) {
            WriteAction::Send { chunk } => CommitAction::Send { chunk },
            WriteAction::Resend { chunk, wait } => CommitAction::Resend { chunk, wait },
            WriteAction::Finished => CommitAction::Settled { outcome: settle(self.result, Ok(())) },
            WriteAction::Failed { error } => {
                let ghost failed = error;
                let outcome = settle(self.result, Err(error));
                assert(writer::step_follows(
                    old(self).state().retry,
                    r,
                    RetryStep::Fail { error: failed },
                ));
                CommitAction::Settled { outcome }
            },
        }
    }
}

/// The batch that the adapter plans for a commit of log records.
pub open spec fn adapter_batch(
    commit: SinkCommit,
    records: Seq<DecodedLogRecord>,
    batch: ClickHouseAdapterBatch<DecodedLogRecord>,
) -> bool {
    batch.identity == commit.identity && batch.records@ == records && batch.bytes as nat
        == crate::logs::capped(crate::logs::records_bytes(records))
}

/// A sink: its name, its adapter and its writer.
#[derive(Debug)]
pub struct ClickHouseSink<A> {
    id: String,
    adapter: A,
    writer: ClickHouseWriter,
}

impl<A: Adapter<Input = DecodedLogRecord>> ClickHouseSink<A> {
    /// The adapter of the sink.
    pub closed spec fn adapter(&self) -> A {
        self.adapter
    }

    /// The name of the sink.
    pub closed spec fn name(&self) -> Seq<char> {
        self.id@
    }

    /// The configuration of the sink's writer.
    pub closed spec fn config(&self) -> writer::WriterConfig {
        self.writer@
    }

    pub fn new(id: String, adapter: A, writer: ClickHouseWriter) -> (s: Self)
        ensures
            s.name() == id@,
            s.adapter() == adapter,
            s.config() == writer@,
    {
        ClickHouseSink { id, adapter, writer }
    }

    pub fn id(&self) -> (s: &str)
        ensures
            s@ == self.name(),
    {
        self.id.as_str()
    }

    pub fn writer(&self) -> (w: &ClickHouseWriter)
        ensures
            w@ == self.config(),
    {
        &self.writer
    }

    /// Checks and plans a commit. A range that is not that of the batch, records
    /// of another schema, and a plan that fails or does not hold every record are
    /// fatal; nothing is sent then.
    pub fn prepare(&self, commit: SinkCommit) -> (r: Result<PreparedCommit, SinkCommitFailure>)
        ensures
            !range_agrees(commit) ==> (r matches Err(SinkCommitFailure::Fatal(message)) && message@
                == range_mismatch_text(commit)),
            range_agrees(commit) ==> match commit.batch.records {
                DecodedRecords::Foreign(records) => r matches Err(SinkCommitFailure::Fatal(message))
                    && message@ == foreign_schema_text(records.schema),
                DecodedRecords::Logs(logs) => exists|
                    batch: ClickHouseAdapterBatch<DecodedLogRecord>,
                    plan: AdapterResult<Vec<InsertChunk>>,
                |
                    adapter_batch(commit, logs@, batch) && #[trigger] call_ensures(
                        A::plan,
                        (&self.adapter(), batch),
                        plan,
                    ) && plan_admitted(logs@.len(), plan, r),
            },
    {
        if commit.identity.range.low != commit.batch.low_sequence || commit.identity.range.high
            != commit.batch.high_sequence {
            return Err(SinkCommitFailure::Fatal(range_mismatch(&commit)));
        }
        let logs = match commit.batch.records {
            DecodedRecords::Logs(logs) => logs,
            DecodedRecords::Foreign(records) => {
                return Err(SinkCommitFailure::Fatal(foreign_schema(&records.schema)));
            },
        };
        let records = logs.into_records();
        let held: usize = records.len();
        let bytes: usize = sum_sizes(&records);
        let batch = ClickHouseAdapterBatch { identity: commit.identity, records, bytes };
        assert(adapter_batch(commit, logs@, batch));
        let plan = self.adapter.plan(batch);
        assert(call_ensures(A::plan, (&self.adapter(), batch), plan));
        let r = admit_plan(held, plan);
        assert(plan_admitted(logs@.len(), plan, r));
        r
    }

    /// Whether a commit is known to be in: the tokens that would tell are kept
    /// for a short time only, so this is never known.
    pub fn check_committed(&self, identity: &CommitIdentity) -> (s: CommitStatus)
        ensures
            s == CommitStatus::Unknown,
    {
        CommitStatus::Unknown
    }
}

/// A sink that stands in for another in a dry run, where nothing is written. It
/// only lends its name; a write is a mistake of the caller.
#[derive(Debug)]
pub struct DryRunSink {
    id: String,
}

impl DryRunSink {
    /// The name of the sink.
    pub closed spec fn name(&self) -> Seq<char> {
        self.id@
    }

    pub fn new(id: String) -> (s: Self)
        ensures
            s.name() == id@,
    {
        DryRunSink { id }
    }

    pub fn id(&self) -> (s: &str)
        ensures
            s@ == self.name(),
    {
        self.id.as_str()
    }

    pub fn write(&self, commit: SinkCommit) -> (r: Result<SinkCommitResult, SinkCommitFailure>)
        ensures
            r matches Err(SinkCommitFailure::Fatal(message)) && message@
                == "DryRunSink::write called; runtime should have short-circuited via dry_run=true"@,
    {
        Err(
            SinkCommitFailure::Fatal(
                String::from_str(
                    "DryRunSink::write called; runtime should have short-circuited via dry_run=true",
                ),
            ),
        )
    }

    pub fn check_committed(&self, identity: &CommitIdentity) -> (s: CommitStatus)
        ensures
            s == CommitStatus::Unknown,
    {
        CommitStatus::Unknown
    }
}

/// A commit is acknowledged only if every record of it was planned and every
/// chunk was written: success after any plan and any end of the write means that
/// the plan held as many rows as there were records and that the write succeeded.
pub proof fn law_success_means_everything_written(
    held: nat,
    plan: AdapterResult<Vec<InsertChunk>>,
    prepared: Result<PreparedCommit, SinkCommitFailure>,
    written: Result<(), WriterError>,
    r: Result<SinkCommitResult, SinkCommitFailure>,
)
    requires
        plan_admitted(held, plan, prepared),
        prepared is Ok,
        write_means(prepared->Ok_0.result, written, r),
        r is Ok,
    ensures
        plan is Ok,
        planned_rows(plan->Ok_0@, plan->Ok_0@.len()) == held,
        prepared->Ok_0.chunks@ == plan->Ok_0@,
        written is Ok,
        r->Ok_0.rows_written == held,
{
}

/// A commit is acknowledged only when every chunk of it was accepted: in the state
/// in which its write settles with success, as many attempts were accepted as the
/// plan has chunks, and the plan has a row for each of its records.
pub proof fn law_acknowledged_commit_is_complete(
    config: WriterConfig,
    held: nat,
    plan: AdapterResult<Vec<InsertChunk>>,
    prepared: Result<PreparedCommit, SinkCommitFailure>,
    ends: Seq<writer::AttemptEnd>,
)
    requires
        plan_admitted(held, plan, prepared),
        prepared is Ok,
        ({
            let s = writer::write_after(config, prepared->Ok_0.chunks@.len(), ends);
            !s.failed && s.position == s.chunks
        }),
    ensures
        plan is Ok,
        writer::accepted(ends) == plan->Ok_0@.len(),
        planned_rows(plan->Ok_0@, plan->Ok_0@.len()) == held,
{
    writer::law_finished_means_all_accepted(config, prepared->Ok_0.chunks@.len(), ends);
}

/// After a write was begun, only a failure that will not pass is fatal: whenever
/// the server may have committed, the sink says so.
pub proof fn law_possible_commit_is_reported(
    result: SinkCommitResult,
    e: WriterError,
    r: Result<SinkCommitResult, SinkCommitFailure>,
)
    requires
        write_means(result, Err(e), r),
    ensures
        writer::class_of(e) == WriterErrorClass::NonRetryable <==> r matches Err(
            SinkCommitFailure::Fatal(_),
        ),
        writer::class_of(e) != WriterErrorClass::NonRetryable <==> r matches Err(
            SinkCommitFailure::MaybeCommitted(_),
        ),
{
}

proof fn lemma_planned_rows(
    c: logs_adapter::ConfigView,
    range: SequenceRange,
    ordered: Seq<crate::logs::RecordView>,
    chunks: Seq<InsertChunk>,
    n: nat,
)
    requires
        logs_adapter::chunks_are(c, range, ordered, chunks),
        n <= chunks.len(),
    ensures
        planned_rows(chunks, n) == logs_adapter::rows_before(
            logs_adapter::chunk_spans(c, ordered),
            n,
        ),
    decreases n,
{
    if n > 0 {
        lemma_planned_rows(c, range, ordered, chunks, (n - 1) as nat);
        let spans = logs_adapter::chunk_spans(c, ordered);
        logs_adapter::law_chunks_cover_records(
            logs_adapter::record_sizes(ordered),
            logs_adapter::at_least_one(c.max_chunk_rows),
            logs_adapter::at_least_one(c.max_chunk_bytes),
        );
        logs_adapter::lemma_span_bounds(spans, ordered.len() as int, n - 1);
        assert(logs_adapter::chunk_is(
            c,
            range,
            ordered,
            spans[n - 1],
            logs_adapter::chunk_number(n - 1),
            chunks[n - 1],
        ));
        logs_adapter::law_planned_chunk_serializes(
            c,
            range,
            ordered,
            spans[n - 1],
            logs_adapter::chunk_number(n - 1),
            chunks[n - 1],
        );
    }
}

/// The planner of log inserts always passes the sink's guard: its chunks have as
/// many rows as the commit has records.
pub proof fn law_log_plans_are_admitted(
    c: logs_adapter::ConfigView,
    range: SequenceRange,
    records: Seq<crate::logs::RecordView>,
    order: Seq<usize>,
    chunks: Vec<InsertChunk>,
    r: Result<PreparedCommit, SinkCommitFailure>,
)
    requires
        logs_adapter::plans_to(c, range, records, order, Ok(chunks)),
        records.len() <= u64::MAX,
        plan_admitted(records.len(), Ok(chunks), r),
    ensures
        r is Ok,
        r->Ok_0.chunks@ == chunks@,
        r->Ok_0.result.rows_written == records.len(),
{
    let ordered = logs_adapter::reordered(records, order);
    lemma_planned_rows(c, range, ordered, chunks@, chunks@.len());
    logs_adapter::law_plan_keeps_row_count(
        logs_adapter::record_sizes(ordered),
        logs_adapter::at_least_one(c.max_chunk_rows),
        logs_adapter::at_least_one(c.max_chunk_bytes),
    );
}

/// A commit of log records is ready to be written exactly when its records come
/// from one manifest, and then with a row for each of them; otherwise it is
/// refused for good.
pub proof fn law_log_commits_are_prepared(
    adapter: OtlpLogsClickHouseAdapter,
    commit: SinkCommit,
    records: Seq<DecodedLogRecord>,
    batch: ClickHouseAdapterBatch<DecodedLogRecord>,
    plan: AdapterResult<Vec<InsertChunk>>,
    r: Result<PreparedCommit, SinkCommitFailure>,
)
    requires
        adapter_batch(commit, records, batch),
        call_ensures(<OtlpLogsClickHouseAdapter as Adapter>::plan, (&adapter, batch), plan),
        plan_admitted(records.len(), plan, r),
        records.len() <= u64::MAX,
    ensures
        r is Ok <==> logs_adapter::one_manifest(otlp::views(records)),
        r is Ok ==> r->Ok_0.result.rows_written == records.len(),
        r is Ok ==> exists|order: Seq<usize>|
            logs_adapter::chunks_are(
                adapter@,
                commit.identity.range,
                #[trigger] logs_adapter::reordered(otlp::views(records), order),
                r->Ok_0.chunks@,
            ),
        r is Err ==> r->Err_0 is Fatal,
{
    let range = batch.identity.range;
    let order = choose|order: Seq<usize>| #[trigger]
        logs_adapter::plans_to(adapter@, range, otlp::views(batch.records@), order, plan);
    assert(logs_adapter::plans_to(adapter@, range, otlp::views(records), order, plan));
    match plan {
        Ok(chunks) => {
            law_log_plans_are_admitted(adapter@, range, otlp::views(records), order, chunks, r);
            assert(logs_adapter::chunks_are(
                adapter@,
                range,
                logs_adapter::reordered(otlp::views(records), order),
                r->Ok_0.chunks@,
            ));
        },
        Err(e) => {},
    }
}

/// What the end of a write means is told by its error: success is reported with
/// what was promised; an error that may pass, with or without attempts left, is a
/// possible commit; an error that will not pass, or rows that could not be
/// serialized, end the commit for good. No failure is reported as a commit.
pub proof fn law_end_is_told_by_the_error(
    result: SinkCommitResult,
    written: Result<(), WriterError>,
    r: Result<SinkCommitResult, SinkCommitFailure>,
)
    requires
        write_means(result, written, r),
    ensures
        r is Ok <==> written is Ok,
        r matches Ok(done) ==> done == result,
        (r matches Err(SinkCommitFailure::MaybeCommitted(_))) <==> (written matches Err(
            WriterError::Retryable { .. },
        )) || (written matches Err(WriterError::RetryBudgetExhausted { .. })),
        (r matches Err(SinkCommitFailure::Fatal(_))) <==> (written matches Err(
            WriterError::NonRetryable { .. },
        )) || (written matches Err(WriterError::Serialization(_))),
        !(r matches Err(SinkCommitFailure::NotCommitted(_))),
{
}

/// A plan is written only if it has as many rows as there are records: with fewer,
/// or with more, it is refused for good, and so is a plan that failed.
pub proof fn law_partial_plan_is_refused(
    held: nat,
    plan: AdapterResult<Vec<InsertChunk>>,
    r: Result<PreparedCommit, SinkCommitFailure>,
)
    requires
        plan_admitted(held, plan, r),
    ensures
        r is Ok <==> plan is Ok && planned_rows(plan->Ok_0@, plan->Ok_0@.len()) == held,
        r is Err ==> (r matches Err(SinkCommitFailure::Fatal(_))),
        r matches Ok(p) ==> p.chunks@ == plan->Ok_0@ && p.result.rows_written == held,
{
}

/// The rows of a plan are those of its chunks together.
pub proof fn law_planned_rows_add_up(a: Seq<InsertChunk>, b: Seq<InsertChunk>)
    ensures
        planned_rows(a + b, (a + b).len()) == planned_rows(a, a.len()) + planned_rows(b, b.len()),
        a.len() == 1 ==> planned_rows(a, 1) == a[0].rows@.len(),
        planned_rows(a, 0) == 0,
    decreases b.len(),
{
    reveal_with_fuel(planned_rows, 2);
    if b.len() == 0 {
        assert(a + b =~= a);
    } else {
        let c = b.drop_last();
        law_planned_rows_add_up(a, c);
        lemma_planned_prefix(a + b, a + c, (a + c).len());
        lemma_planned_prefix(b, c, c.len());
        assert((a + b)[(a + b).len() - 1] == b[b.len() - 1]);
    }
}

proof fn lemma_planned_prefix(a: Seq<InsertChunk>, b: Seq<InsertChunk>, n: nat)
    requires
        n <= a.len(),
        n <= b.len(),
        forall|i: int| 0 <= i < n ==> #[trigger] a[i] == b[i],
    ensures
        planned_rows(a, n) == planned_rows(b, n),
    decreases n,
{
    if n > 0 {
        lemma_planned_prefix(a, b, (n - 1) as nat);
    }
}

/// Where every row of a plan has the same number of cells, as in a plan for one
/// table, what is counted as written is that number for each row.
pub proof fn law_cells_are_counted(chunks: Seq<InsertChunk>, n: nat, width: nat)
    requires
        n <= chunks.len(),
        forall|i: int, j: int|
            0 <= i < chunks.len() && 0 <= j < chunks[i].rows@.len()
                ==> (#[trigger] chunks[i].rows@[j])@.len() == width,
    ensures
        planned_cells(chunks, n) == planned_rows(chunks, n) * width,
    decreases n,
{
    if n > 0 {
        law_cells_are_counted(chunks, (n - 1) as nat, width);
        let chunk = chunks[n - 1];
        lemma_row_cells(chunk, chunk.rows@.len(), width);
        let before = planned_rows(chunks, (n - 1) as nat);
        let more = chunk.rows@.len();
        assert((before + more) * width == before * width + more * width) by (nonlinear_arith);
    } else {
        assert(0 * width == 0) by (nonlinear_arith);
    }
}

proof fn lemma_row_cells(chunk: InsertChunk, n: nat, width: nat)
    requires
        n <= chunk.rows@.len(),
        forall|j: int|
            0 <= j < chunk.rows@.len() ==> (#[trigger] chunk.rows@[j])@.len() == width,
    ensures
        row_cells(chunk, n) == n * width,
    decreases n,
{
    if n > 0 {
        lemma_row_cells(chunk, (n - 1) as nat, width);
        assert(n * width == (n - 1) * width + width) by (nonlinear_arith)
            requires
                n > 0,
        ;
    } else {
        assert(0 * width == 0) by (nonlinear_arith);
    }
}

/// The range of a commit agrees with its batch only if both ends do.
pub proof fn law_both_ends_of_the_range_agree(commit: SinkCommit)
    ensures
        range_agrees(commit) <==> commit.identity.range == (SequenceRange {
            low: commit.batch.low_sequence,
            high: commit.batch.high_sequence,
        }),
{
}

/// A commit succeeds exactly if all of it was written, and then with the result that was
/// promised. A failure that may pass is reported as a possible commit, also when the
/// attempts are used up; any other is final.
pub proof fn law_write_is_settled(
    result: SinkCommitResult,
    written: Result<(), WriterError>,
    r: Result<SinkCommitResult, SinkCommitFailure>,
)
    requires
        call_ensures(settle, (result, written), r),
    ensures
        written is Ok ==> r == Ok::<SinkCommitResult, SinkCommitFailure>(result),
        written is Err ==> r is Err,
        (written matches Err(WriterError::Retryable { .. })) || (written matches Err(
            WriterError::RetryBudgetExhausted { .. },
        )) <==> (r matches Err(SinkCommitFailure::MaybeCommitted(_))),
        (written matches Err(WriterError::NonRetryable { .. })) || (written matches Err(
            WriterError::Serialization(_),
        )) <==> (r matches Err(SinkCommitFailure::Fatal(_))),
{
}

/// A plan is taken exactly if it has a row for every record. What is then promised are
/// those rows and, as far as they can be counted, their cells.
pub proof fn law_whole_plan_is_taken(
    held: usize,
    chunks: Vec<InsertChunk>,
    r: Result<PreparedCommit, SinkCommitFailure>,
)
    requires
        call_ensures(admit_plan, (held, Ok(chunks)), r),
    ensures
        r is Ok <==> planned_rows(chunks@, chunks@.len()) == held,
        r is Err ==> (r matches Err(SinkCommitFailure::Fatal(message)) && message@
            == "adapter plan covered "@ + text::decimal(planned_rows(chunks@, chunks@.len()))
            + " rows but commit held "@ + text::decimal(held as nat)
            + "; refusing to insert and ack a partial/dropped chunking"@),
        r matches Ok(p) ==> {
            &&& p.chunks@ == chunks@
            &&& p.result.rows_written == held
            &&& planned_cells(chunks@, chunks@.len()) <= u64::MAX ==> p.result.bytes_written
                == planned_cells(chunks@, chunks@.len())
            &&& planned_cells(chunks@, chunks@.len()) > u64::MAX ==> p.result.bytes_written
                == u64::MAX
        },
{
}

/// A commit without chunks is settled at once with what was promised; any other starts
/// with its first chunk.
pub proof fn law_commit_starts_with_the_first_chunk(
    config: &WriterConfig,
    prepared: &PreparedCommit,
    r: (CommitRun, CommitAction),
)
    requires
        call_ensures(CommitRun::start, (config, prepared), r),
    ensures
        r.0.promised() == prepared.result,
        r.0.state().chunks == prepared.chunks@.len(),
        r.0.state().position == 0,
        !r.0.state().failed,
        prepared.chunks@.len() == 0 ==> (r.1 matches CommitAction::Settled { outcome } && outcome
            == Ok::<SinkCommitResult, SinkCommitFailure>(prepared.result)),
        prepared.chunks@.len() > 0 ==> (r.1 matches CommitAction::Send { chunk } && chunk == 0),
{
}

/// A commit is settled with success only when the last of its chunks was accepted. Until
/// then every accepted chunk is followed by the next, and one that failed is sent again
/// or settles the commit with a failure: a possible commit where the failure may have
/// come after the server had committed.
pub proof fn law_commit_goes_chunk_by_chunk(
    run: &mut CommitRun,
    config: &WriterConfig,
    r: Result<(), WriterError>,
    action: CommitAction,
)
    requires
        old(run).state().position < old(run).state().chunks,
        !old(run).state().failed,
        call_ensures(CommitRun::after_attempt, (run, config, r), action),
    ensures
        final(run).promised() == old(run).promised(),
        final(run).state().chunks == old(run).state().chunks,
        r is Ok ==> final(run).state().position == old(run).state().position + 1,
        r is Err ==> final(run).state().position == old(run).state().position,
        r is Ok && old(run).state().position + 1 < old(run).state().chunks ==> (
        action matches CommitAction::Send { chunk } && chunk == old(run).state().position + 1),
        r is Ok && old(run).state().position + 1 == old(run).state().chunks ==> (
        action matches CommitAction::Settled { outcome } && outcome == Ok::<
            SinkCommitResult,
            SinkCommitFailure,
        >(old(run).promised())),
        (r matches Err(WriterError::Retryable { .. })) && old(run).state().retry.attempts + 1 < old(
            run).state().retry.max_attempts <==> action is Resend,
        action matches CommitAction::Resend { chunk, wait } ==> chunk == old(run).state().position,
        (r matches Err(WriterError::Retryable { .. })) && !(action is Resend) ==> (
        action matches CommitAction::Settled { outcome } && (outcome matches Err(
            SinkCommitFailure::MaybeCommitted(_),
        ))),
        (r matches Err(WriterError::RetryBudgetExhausted { .. })) ==> (
        action matches CommitAction::Settled { outcome } && (outcome matches Err(
            SinkCommitFailure::MaybeCommitted(_),
        ))),
        (r matches Err(WriterError::NonRetryable { .. })) || (r matches Err(
            WriterError::Serialization(_),
        )) ==> (action matches CommitAction::Settled { outcome } && (outcome matches Err(
            SinkCommitFailure::Fatal(_),
        ))),
{
}

/// The adapter is handed the commit as it is: under its identity, with all its records
/// and their size.
pub proof fn law_adapter_gets_the_commit(
    commit: SinkCommit,
    records: &Vec<DecodedLogRecord>,
    batch: ClickHouseAdapterBatch<DecodedLogRecord>,
    size: usize,
)
    requires
        adapter_batch(commit, records@, batch),
        call_ensures(sum_sizes, (records,), size),
    ensures
        batch.identity == commit.identity,
        batch.records@ == records@,
        batch.bytes == size,
{
}

/// A commit whose range is not that of its batch is refused for good, and so are records
/// that are no logs: nothing is planned for either.
pub proof fn law_foreign_commit_is_refused<A: Adapter<Input = DecodedLogRecord>>(
    sink: &ClickHouseSink<A>,
    commit: SinkCommit,
    r: Result<PreparedCommit, SinkCommitFailure>,
)
    requires
        call_ensures(ClickHouseSink::<A>::prepare, (sink, commit), r),
    ensures
        commit.identity.range.low != commit.batch.low_sequence ==> (r matches Err(
            SinkCommitFailure::Fatal(_),
        )),
        commit.identity.range.high != commit.batch.high_sequence ==> (r matches Err(
            SinkCommitFailure::Fatal(_),
        )),
        commit.batch.records is Foreign ==> (r matches Err(SinkCommitFailure::Fatal(_))),
        r matches Ok(p) ==> commit.batch.records is Logs && p.result.rows_written
            == commit.batch.records->Logs_0@.len() && planned_rows(p.chunks@, p.chunks@.len())
            == commit.batch.records->Logs_0@.len(),
        r is Err ==> (r matches Err(SinkCommitFailure::Fatal(_))),
{
}

} // verus!
