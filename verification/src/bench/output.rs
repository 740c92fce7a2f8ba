//! The report and the metadata of a correctness run.
use vstd::prelude::*;

verus! {

/// What a correctness run found.
#[derive(Debug)]
pub struct CorrectnessReport {
    pub schema_version: u32,
    pub summary: SummarySection,
    pub sources: Vec<(String, PerSourceCorrectness)>,
    pub ack_invariant_checks: Vec<AckInvariantCheck>,
}

#[derive(Debug)]
pub struct SummarySection {
    pub records_generated: u64,
    pub highest_generated_sequence: u64,
    pub duplicate_records_post_dedupe: u64,
    pub ack_invariant_violations: u64,
    pub required_sink: String,
}

#[derive(Debug)]
pub struct PerSourceCorrectness {
    pub highest_generated_sequence: u64,
    pub highest_acked_sequence: u64,
    pub records_visible_in_sink: u64,
    pub records_missing_from_sink: u64,
    pub duplicate_records_pre_dedupe: u64,
    pub duplicate_records_post_dedupe: u64,
    pub notes: String,
}

/// One check, and the file that holds what it was judged by.
#[derive(Debug)]
pub struct AckInvariantCheck {
    pub name: String,
    pub passed: bool,
    pub evidence: String,
}

/// What a run was.
#[derive(Debug)]
pub struct RunMetadata {
    pub schema_version: u32,
    pub phase: String,
    pub unit_id: String,
    pub unit_title: String,
    pub owner: String,
    pub started_at: String,
    pub ended_at: String,
    pub experiment: ExperimentMeta,
    pub run_kind: String,
    pub notes: String,
}

#[derive(Debug)]
pub struct ExperimentMeta {
    pub kind: String,
}

/// How many of the first `n` checks passed.
pub open spec fn passed_among(checks: Seq<AckInvariantCheck>, n: nat) -> nat
    decreases n,
{
    if n == 0 {
        0
    } else {
        passed_among(checks, (n - 1) as nat) + if checks[n - 1].passed {
            1nat
        } else {
            0nat
        }
    }
}

/// How many checks passed.
pub open spec fn passed_count(checks: Seq<AckInvariantCheck>) -> nat {
    passed_among(checks, checks.len())
}

pub fn count_passed(checks: &Vec<AckInvariantCheck>) -> (r: usize)
    ensures
        r == passed_count(checks@),
        r <= checks@.len(),
{
    let mut n: usize = 0;
    let mut i: usize = 0;
    while i < checks.len()
        invariant
            n <= i <= checks@.len(),
            n == passed_among(checks@, i as nat),
        decreases checks@.len() - i,
    {
        if checks[i].passed {
            n = n + 1;
        }
        i = i + 1;
    }
    n
}

/// Whether the run is good: every check passed, nothing is left twice in the
/// sink and nothing is missing from it.
pub open spec fn gate_passes(report: CorrectnessReport) -> bool {
    &&& forall|i: int|
        0 <= i < report.ack_invariant_checks@.len() ==> (
        #[trigger] report.ack_invariant_checks@[i]).passed
    &&& report.summary.duplicate_records_post_dedupe == 0
    &&& forall|i: int|
        0 <= i < report.sources@.len() ==> (
        #[trigger] report.sources@[i]).1.records_missing_from_sink == 0
}

proof fn lemma_all_passed(checks: Seq<AckInvariantCheck>, n: nat)
    requires
        n <= checks.len(),
    ensures
        passed_among(checks, n) <= n,
        passed_among(checks, n) == n <==> forall|i: int|
            0 <= i < n ==> (#[trigger] checks[i]).passed,
    decreases n,
{
    if n > 0 {
        lemma_all_passed(checks, (n - 1) as nat);
        if passed_among(checks, n) == n {
            assert(checks[n - 1].passed);
        }
    }
}

/// Judges a report.
pub fn gate(report: &CorrectnessReport) -> (r: bool)
    ensures
        r == gate_passes(*report),
{
    let passed: usize = count_passed(&report.ack_invariant_checks);
    proof {
        lemma_all_passed(report.ack_invariant_checks@, report.ack_invariant_checks@.len());
    }
    if passed != report.ack_invariant_checks.len() {
        return false;
    }
    if report.summary.duplicate_records_post_dedupe != 0 {
        return false;
    }
    let mut i: usize = 0;
    while i < report.sources.len()
        invariant
            i <= report.sources@.len(),
            forall|j: int|
                0 <= j < i ==> (#[trigger] report.sources@[j]).1.records_missing_from_sink == 0,
        decreases report.sources@.len() - i,
    {
        if report.sources[i].1.records_missing_from_sink != 0 {
            return false;
        }
        i = i + 1;
    }
    true
}

/// A report whose violations are the checks that did not pass has none exactly
/// if every check passed.
pub proof fn law_no_violation_means_all_passed(checks: Seq<AckInvariantCheck>)
    ensures
        checks.len() - passed_count(checks) == 0 <==> forall|i: int|
            0 <= i < checks.len() ==> (#[trigger] checks[i]).passed,
{
    lemma_all_passed(checks, checks.len());
}

/// One check more is counted if it passed, and not if it did not: the count goes by
/// the verdicts alone.
pub proof fn law_each_check_counts_once(
    checks: &Vec<AckInvariantCheck>,
    longer: &Vec<AckInvariantCheck>,
    n: usize,
    m: usize,
)
    requires
        call_ensures(count_passed, (checks,), n),
        call_ensures(count_passed, (longer,), m),
        longer@.len() == checks@.len() + 1,
        longer@.drop_last() == checks@,
    ensures
        checks@.len() == 0 ==> n == 0,
        longer@.last().passed ==> m == n + 1,
        !longer@.last().passed ==> m == n,
{
    lemma_passed_of_prefix(checks@, longer@, checks@.len());
}

proof fn lemma_passed_of_prefix(
    a: Seq<AckInvariantCheck>,
    b: Seq<AckInvariantCheck>,
    n: nat,
)
    requires
        n <= a.len() <= b.len(),
        forall|i: int| 0 <= i < a.len() ==> #[trigger] a[i] == b[i],
    ensures
        passed_among(a, n) == passed_among(b, n),
    decreases n,
{
    if n > 0 {
        lemma_passed_of_prefix(a, b, (n - 1) as nat);
        assert(a[n - 1] == b[n - 1]);
    }
}

/// One failed check, one record that is left twice, or one record that is missing from
/// a source fails the run. Without any of them it is good.
pub proof fn law_one_failure_fails_the_run(report: &CorrectnessReport, r: bool, i: int)
    requires
        call_ensures(gate, (report,), r),
    ensures
        0 <= i < report.ack_invariant_checks@.len() && !report.ack_invariant_checks@[i].passed
            ==> !r,
        report.summary.duplicate_records_post_dedupe > 0 ==> !r,
        0 <= i < report.sources@.len() && report.sources@[i].1.records_missing_from_sink > 0
            ==> !r,
        report.summary.duplicate_records_post_dedupe == 0 && (forall|k: int|
            0 <= k < report.ack_invariant_checks@.len() ==> (
            #[trigger] report.ack_invariant_checks@[k]).passed) && (forall|k: int|
            0 <= k < report.sources@.len() ==> (
            #[trigger] report.sources@[k]).1.records_missing_from_sink == 0) ==> r,
{
}

} // verus!
