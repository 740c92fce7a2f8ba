//! Names and labels of the metrics that the writer and the sink emit.
use vstd::prelude::*;

verus! {

/// Histogram, one sample per chunk.
pub const SERIALIZATION_DURATION_SECONDS: &'static str = "clickhouse_serialization_duration_seconds";

/// Histogram of the length of serialized chunk bodies.
pub const SERIALIZED_BYTES: &'static str = "clickhouse_serialized_bytes";

/// Histogram of the number of rows of chunks.
pub const CHUNK_ROWS: &'static str = "clickhouse_chunk_rows";

/// Histogram, one sample per insert attempt.
pub const INSERT_DURATION_SECONDS: &'static str = "clickhouse_insert_duration_seconds";

/// Gauge of the requests in flight.
pub const HTTP_CONCURRENT_INFLIGHT: &'static str = "clickhouse_http_concurrent_inflight";

/// Counter of committed rows, by run.
pub const ROWS_COMMITTED_TOTAL: &'static str = "clickhouse_ingestor_rows_committed_total";

/// Counter of committed bytes.
pub const COMMIT_BYTES_TOTAL: &'static str = "ingestor_commit_bytes_total";

/// Counter of insert errors, by status code.
pub const INSERT_ERRORS_TOTAL: &'static str = "clickhouse_insert_errors_total";

/// Counter of retries, by reason.
pub const RETRY_COUNT_TOTAL: &'static str = "ingestor_retry_count_total";

/// How an insert attempt ended.
#[derive(Debug, Clone, Copy, PartialEq, Eq, Structural)]
pub enum InsertResult {
    Success,
    Retryable,
    NonRetryable,
    RetryBudgetExhausted,
}

/// The label of an outcome.
pub open spec fn insert_result_label(r: InsertResult) -> &'static str {
    match r {
        InsertResult::Success => "ok",
        InsertResult::Retryable => "retryable",
        InsertResult::NonRetryable => "non_retryable",
        InsertResult::RetryBudgetExhausted => "retry_budget_exhausted",
    }
}

impl InsertResult {
    pub fn as_label(self) -> (s: &'static str)
        ensures
            s@ == insert_result_label(self)@,
    {
        match self {
            InsertResult::Success => "ok",
            InsertResult::Retryable => "retryable",
            InsertResult::NonRetryable => "non_retryable",
            InsertResult::RetryBudgetExhausted => "retry_budget_exhausted",
        }
    }
}

/// Labels of [`ROWS_COMMITTED_TOTAL`].
#[derive(Debug)]
pub struct RunIdLabels {
    pub run_id: String,
}

/// Labels of the per-chunk histograms.
#[derive(Debug)]
pub struct FormatLabels {
    pub format: String,
}

/// Labels of [`INSERT_DURATION_SECONDS`].
#[derive(Debug)]
pub struct FormatHttpResultLabels {
    pub format: String,
    pub http_mode: String,
    pub result: String,
}

/// Labels of [`RETRY_COUNT_TOTAL`].
#[derive(Debug)]
pub struct ReasonLabels {
    pub reason: String,
}

/// Labels of [`HTTP_CONCURRENT_INFLIGHT`].
#[derive(Debug)]
pub struct HttpModeLabels {
    pub http_mode: String,
}

/// Labels of [`INSERT_ERRORS_TOTAL`].
#[derive(Debug)]
pub struct StatusCodeLabels {
    pub status_code: String,
}

/// The metric families that the writer and the sink register.
#[derive(Debug, Clone, Copy, PartialEq, Eq, Structural)]
pub enum MetricFamily {
    RowsCommitted,
    CommitBytes,
    RetryCount,
    InsertErrors,
    HttpConcurrentInflight,
    SerializationDurationSeconds,
    SerializedBytes,
    ChunkRows,
    InsertDurationSeconds,
}

/// The name under which a family is registered. A counter is exported with
/// `_total` behind it.
pub open spec fn family_name(f: MetricFamily) -> &'static str {
    match f {
        MetricFamily::RowsCommitted => "clickhouse_ingestor_rows_committed",
        MetricFamily::CommitBytes => "ingestor_commit_bytes",
        MetricFamily::RetryCount => "ingestor_retry_count",
        MetricFamily::InsertErrors => "clickhouse_insert_errors",
        MetricFamily::HttpConcurrentInflight => "clickhouse_http_concurrent_inflight",
        MetricFamily::SerializationDurationSeconds => "clickhouse_serialization_duration_seconds",
        MetricFamily::SerializedBytes => "clickhouse_serialized_bytes",
        MetricFamily::ChunkRows => "clickhouse_chunk_rows",
        MetricFamily::InsertDurationSeconds => "clickhouse_insert_duration_seconds",
    }
}

/// What is said of a family.
pub open spec fn family_help(f: MetricFamily) -> &'static str {
    match f {
        MetricFamily::RowsCommitted =>
            "Rows successfully committed to ClickHouse, labeled by _odb_run_id.",
        MetricFamily::CommitBytes =>
            "Bytes successfully committed to ClickHouse (sum of serialized row lengths).",
        MetricFamily::RetryCount => "Per-chunk retry attempts, labeled by reason.",
        MetricFamily::InsertErrors =>
            "ClickHouse insert errors labeled by HTTP status_code (or 'timeout'/'connect'/'network').",
        MetricFamily::HttpConcurrentInflight =>
            "Concurrent HTTP requests in flight from the ClickHouse writer.",
        MetricFamily::SerializationDurationSeconds =>
            "Per-chunk serialization latency, labeled by format.",
        MetricFamily::SerializedBytes =>
            "Per-chunk serialized body size in bytes, labeled by format.",
        MetricFamily::ChunkRows => "Per-chunk row count, labeled by format.",
        MetricFamily::InsertDurationSeconds =>
            "Per-attempt ClickHouse insert latency, labeled by format, http_mode, and result.",
    }
}

impl MetricFamily {
    pub fn name(self) -> (s: &'static str)
        ensures
            s@ == family_name(self)@,
    {
        match self {
            MetricFamily::RowsCommitted => "clickhouse_ingestor_rows_committed",
            MetricFamily::CommitBytes => "ingestor_commit_bytes",
            MetricFamily::RetryCount => "ingestor_retry_count",
            MetricFamily::InsertErrors => "clickhouse_insert_errors",
            MetricFamily::HttpConcurrentInflight => "clickhouse_http_concurrent_inflight",
            MetricFamily::SerializationDurationSeconds =>
                "clickhouse_serialization_duration_seconds",
            MetricFamily::SerializedBytes => "clickhouse_serialized_bytes",
            MetricFamily::ChunkRows => "clickhouse_chunk_rows",
            MetricFamily::InsertDurationSeconds => "clickhouse_insert_duration_seconds",
        }
    }

    pub fn help(self) -> (s: &'static str)
        ensures
            s@ == family_help(self)@,
    {
        match self {
            MetricFamily::RowsCommitted =>
                "Rows successfully committed to ClickHouse, labeled by _odb_run_id.",
            MetricFamily::CommitBytes =>
                "Bytes successfully committed to ClickHouse (sum of serialized row lengths).",
            MetricFamily::RetryCount => "Per-chunk retry attempts, labeled by reason.",
            MetricFamily::InsertErrors =>
                "ClickHouse insert errors labeled by HTTP status_code (or 'timeout'/'connect'/'network').",
            MetricFamily::HttpConcurrentInflight =>
                "Concurrent HTTP requests in flight from the ClickHouse writer.",
            MetricFamily::SerializationDurationSeconds =>
                "Per-chunk serialization latency, labeled by format.",
            MetricFamily::SerializedBytes =>
                "Per-chunk serialized body size in bytes, labeled by format.",
            MetricFamily::ChunkRows => "Per-chunk row count, labeled by format.",
            MetricFamily::InsertDurationSeconds =>
                "Per-attempt ClickHouse insert latency, labeled by format, http_mode, and result.",
        }
    }
}

/// Families are registered under different names.
pub proof fn law_family_names_distinct(a: MetricFamily, b: MetricFamily)
    requires
        family_name(a)@ == family_name(b)@,
    ensures
        a == b,
{
    reveal_strlit("clickhouse_ingestor_rows_committed");
    reveal_strlit("ingestor_commit_bytes");
    reveal_strlit("ingestor_retry_count");
    reveal_strlit("clickhouse_insert_errors");
    reveal_strlit("clickhouse_http_concurrent_inflight");
    reveal_strlit("clickhouse_serialization_duration_seconds");
    reveal_strlit("clickhouse_serialized_bytes");
    reveal_strlit("clickhouse_chunk_rows");
    reveal_strlit("clickhouse_insert_duration_seconds");
    assert("clickhouse_ingestor_rows_committed"@.len() == 34);
    assert("clickhouse_ingestor_rows_committed"@[13] == 'g');
    assert("ingestor_commit_bytes"@.len() == 21);
    assert("ingestor_commit_bytes"@[0] == 'i');
    assert("ingestor_retry_count"@.len() == 20);
    assert("clickhouse_insert_errors"@.len() == 24);
    assert("clickhouse_http_concurrent_inflight"@.len() == 35);
    assert("clickhouse_serialization_duration_seconds"@.len() == 41);
    assert("clickhouse_serialized_bytes"@.len() == 27);
    assert("clickhouse_chunk_rows"@.len() == 21);
    assert("clickhouse_chunk_rows"@[0] == 'c');
    assert("clickhouse_insert_duration_seconds"@.len() == 34);
    assert("clickhouse_insert_duration_seconds"@[13] == 's');
}

/// The names of the counters, as they are exported, are those of their families.
pub proof fn law_counters_are_exported_as_totals()
    ensures
        ROWS_COMMITTED_TOTAL@ == family_name(MetricFamily::RowsCommitted)@ + "_total"@,
        COMMIT_BYTES_TOTAL@ == family_name(MetricFamily::CommitBytes)@ + "_total"@,
        RETRY_COUNT_TOTAL@ == family_name(MetricFamily::RetryCount)@ + "_total"@,
        INSERT_ERRORS_TOTAL@ == family_name(MetricFamily::InsertErrors)@ + "_total"@,
{
    reveal_strlit("_total");
    reveal_strlit("clickhouse_ingestor_rows_committed");
    reveal_strlit("clickhouse_ingestor_rows_committed_total");
    reveal_strlit("ingestor_commit_bytes");
    reveal_strlit("ingestor_commit_bytes_total");
    reveal_strlit("ingestor_retry_count");
    reveal_strlit("ingestor_retry_count_total");
    reveal_strlit("clickhouse_insert_errors");
    reveal_strlit("clickhouse_insert_errors_total");
    assert(ROWS_COMMITTED_TOTAL@ =~= "clickhouse_ingestor_rows_committed"@ + "_total"@);
    assert(COMMIT_BYTES_TOTAL@ =~= "ingestor_commit_bytes"@ + "_total"@);
    assert(RETRY_COUNT_TOTAL@ =~= "ingestor_retry_count"@ + "_total"@);
    assert(INSERT_ERRORS_TOTAL@ =~= "clickhouse_insert_errors"@ + "_total"@);
}

/// The labels of outcomes are different.
pub proof fn law_result_labels_distinct(a: InsertResult, b: InsertResult)
    requires
        insert_result_label(a)@ == insert_result_label(b)@,
    ensures
        a == b,
{
    reveal_strlit("ok");
    reveal_strlit("retryable");
    reveal_strlit("non_retryable");
    reveal_strlit("retry_budget_exhausted");
    assert("ok"@.len() == 2);
    assert("retryable"@.len() == 9);
    assert("non_retryable"@.len() == 13);
    assert("retry_budget_exhausted"@.len() == 22);
}

/// Each outcome of an attempt is counted under its own label.
pub proof fn law_outcomes_are_labelled(outcome: InsertResult, label: &'static str)
    requires
        call_ensures(InsertResult::as_label, (outcome,), label),
    ensures
        label@ == "ok"@ <==> outcome == InsertResult::Success,
        label@ == "retryable"@ <==> outcome == InsertResult::Retryable,
        label@ == "non_retryable"@ <==> outcome == InsertResult::NonRetryable,
        label@ == "retry_budget_exhausted"@ <==> outcome == InsertResult::RetryBudgetExhausted,
{
    if label@ == "ok"@ {
        law_result_labels_distinct(outcome, InsertResult::Success);
    }
    if label@ == "retryable"@ {
        law_result_labels_distinct(outcome, InsertResult::Retryable);
    }
    if label@ == "non_retryable"@ {
        law_result_labels_distinct(outcome, InsertResult::NonRetryable);
    }
    if label@ == "retry_budget_exhausted"@ {
        law_result_labels_distinct(outcome, InsertResult::RetryBudgetExhausted);
    }
}

/// A family that is no counter is registered under the name that it is exported with.
pub proof fn law_families_carry_their_names(f: MetricFamily, name: &'static str)
    requires
        call_ensures(MetricFamily::name, (f,), name),
    ensures
        f == MetricFamily::HttpConcurrentInflight ==> name@ == HTTP_CONCURRENT_INFLIGHT@,
        f == MetricFamily::SerializationDurationSeconds ==> name@
            == SERIALIZATION_DURATION_SECONDS@,
        f == MetricFamily::SerializedBytes ==> name@ == SERIALIZED_BYTES@,
        f == MetricFamily::ChunkRows ==> name@ == CHUNK_ROWS@,
        f == MetricFamily::InsertDurationSeconds ==> name@ == INSERT_DURATION_SECONDS@,
{
}

} // verus!
