use clickhouse_ingestor::bench::checks::{
    ack_events, end_maybe_committed_replay_idempotent, end_multi_source_ack_isolation,
    end_no_ack_before_sink_commit, end_out_of_order_completion_no_frontier_hole,
    end_sink_outage_backpressure_bounded, frontier_transitions, isolation_events, judge_isolation,
    judge_no_ack_before_commit, judge_out_of_order, judge_outage, judge_replay,
    out_of_order_latency_ms, outage_latency_ms, relative_evidence, replay_events,
    replayed_sequences, scenario_drained, smoke_metadata, smoke_report, CheckName, ReplayWrite,
    SMOKE_RECORDS_PER_SOURCE,
};
use clickhouse_ingestor::bench::options::{
    default_runtime_options, inflight_bound, outage_options, pipelined_options, run_options,
    AckFlushPolicy, SourceBackpressureOptions,
};
use clickhouse_ingestor::bench::output::{count_passed, gate};
use clickhouse_ingestor::bench::scenarios::{
    all_scenarios, doubted_sequences, end_scenario, latency_ms, scenario_plan, written_sequences,
    Observed,
};

fn base() -> SourceBackpressureOptions {
    SourceBackpressureOptions {
        max_inflight_batches: 64,
        max_inflight_bytes: 1 << 20,
        estimated_max_batch_bytes: 1 << 10,
        fetch_concurrency: 8,
        decode_concurrency: 4,
        oversize_fault_multiplier: 4,
    }
}

fn w(sequence: u64, identity: &str) -> ReplayWrite {
    ReplayWrite { sequence, identity: identity.into() }
}

#[test]
fn acks_must_follow_writes() {
    assert!(judge_no_ack_before_commit(&vec![1, 2], &vec![2, 0, 1]));
    assert!(!judge_no_ack_before_commit(&vec![1, 2], &vec![0, 2]));
    assert!(!judge_no_ack_before_commit(&vec![3], &vec![0, 1, 2]));
    assert!(!judge_no_ack_before_commit(&vec![], &vec![0, 1, 2]));
}

#[test]
fn frontier_must_move_forward_to_the_end() {
    assert!(judge_out_of_order(&vec![0, 3, 4], 5));
    assert!(!judge_out_of_order(&vec![0, 3, 3, 4], 5));
    assert!(!judge_out_of_order(&vec![0, 3], 5));
    assert!(!judge_out_of_order(&vec![], 1));
    assert!(judge_out_of_order(&vec![0], 1));
}

#[test]
fn replays_must_keep_their_identity() {
    assert!(judge_replay(&vec![w(1, "a"), w(2, "b"), w(1, "a")]));
    assert!(!judge_replay(&vec![w(1, "a"), w(2, "b"), w(1, "c")]));
    // Without a replay the scenario has shown nothing.
    assert!(!judge_replay(&vec![w(1, "a"), w(2, "b")]));
    assert!(!judge_replay(&vec![]));
}

#[test]
fn acks_must_stay_within_what_was_admitted() {
    assert!(judge_isolation(&vec![0, 4], &vec![3, 4, 1]));
    assert!(!judge_isolation(&vec![0, 5], &vec![3, 4, 1]));
    assert!(judge_isolation(&vec![0], &vec![]));
    assert!(!judge_isolation(&vec![1], &vec![]));
    assert!(judge_isolation(&vec![], &vec![]));
}

#[test]
fn outage_must_stay_under_its_bound() {
    let options = outage_options(base());
    let bound = inflight_bound(&options.source_defaults);
    assert_eq!(bound, 4096 + 2 * 3 * 1024);
    assert!(judge_outage(&vec![0, bound, 17], bound));
    assert!(!judge_outage(&vec![0, bound + 1], bound));
    assert!(judge_outage(&vec![], 0));
}

#[test]
fn scenario_options_are_fixed() {
    let o = pipelined_options(2, base());
    assert_eq!(o.source_defaults.fetch_concurrency, 2);
    assert_eq!(o.source_defaults.decode_concurrency, 2);
    assert_eq!(o.source_defaults.max_inflight_batches, 16);
    assert_eq!(o.source_defaults.max_inflight_bytes, 1 << 20);
    assert_eq!(o.sink.max_concurrent_commits, 4);
    assert_eq!(o.max_retry_attempts, 3);
    assert!(!o.dry_run);
    let o = outage_options(base());
    assert_eq!(o.sink.retry_max_attempts, 0);
    assert_eq!(o.source_defaults.max_inflight_batches, 4);
    assert_eq!(out_of_order_latency_ms(0), Some(150));
    assert_eq!(out_of_order_latency_ms(1), None);
    assert_eq!(outage_latency_ms(5), Some(1500));
    assert_eq!(outage_latency_ms(4), None);
    assert_eq!(replayed_sequences(), [3, 12]);
}

#[test]
fn scenario_is_over_with_its_last_batch() {
    assert!(scenario_drained(Some(19), SMOKE_RECORDS_PER_SOURCE));
    assert!(!scenario_drained(Some(18), SMOKE_RECORDS_PER_SOURCE));
    assert!(!scenario_drained(None, SMOKE_RECORDS_PER_SOURCE));
}

#[test]
fn witness_lines_repeat_what_was_seen() {
    let events = ack_events(&vec![4, 5], &vec![1, 2]);
    assert_eq!(events.len(), 2);
    assert_eq!(events[1].seq, 5);
    assert_eq!(events[1].sources_written_to_sink, vec![1, 2]);
    let steps = frontier_transitions(&vec![4, 9]);
    assert_eq!((steps[0].from, steps[0].to), (None, 4));
    assert_eq!((steps[1].from, steps[1].to), (Some(4), 9));
    let replays = replay_events(&vec![w(3, "x"), w(3, "x")]);
    assert_eq!((replays[1].sequence, replays[1].attempt_index), (3, 1));
    assert_eq!(replays[1].identity, "x");
    let iso = isolation_events(&vec![7]);
    assert_eq!(iso[0].source, "buffer");
    assert_eq!(iso[0].frontier_advance_to, 7);
    assert_eq!(iso[0].highest_acked_sequence_seen, 7);
}

fn parts(p: &str) -> Vec<String> {
    p.split('/').map(|s| s.to_string()).collect()
}

#[test]
fn evidence_is_relative_to_the_run() {
    assert_eq!(
        relative_evidence(&parts("bench-results/run/raw/correctness/no_ack_witness.jsonl")),
        "raw/correctness/no_ack_witness.jsonl"
    );
    assert_eq!(relative_evidence(&parts("raw/run/raw/x.jsonl")), "raw/x.jsonl");
    assert_eq!(relative_evidence(&parts("a/b")), "a/b");
    assert_eq!(relative_evidence(&vec![]), "");
}

#[test]
fn every_witness_is_evidence_below_the_run() {
    for check in all_scenarios() {
        let file = scenario_plan(check, base()).witness_file;
        assert_eq!(file, format!("{}_witness.jsonl", check.as_str()));
        let want = format!("raw/correctness/{file}");
        assert_eq!(relative_evidence(&parts(&format!("/tmp/raw/run/{want}"))), want);
    }
}

#[test]
fn runs_poll_often_unless_told_otherwise() {
    let mut defaults = outage_options(base());
    defaults.dry_run = true;
    defaults.poll_interval_ms = 100;
    let options = default_runtime_options(defaults);
    assert!(!options.dry_run);
    assert_eq!(options.ack_flush_policy, AckFlushPolicy::EveryCommitGroup);
    assert_eq!(options.poll_interval_ms, 5);
    assert_eq!(options.sink, defaults.sink);
    assert_eq!(options.source_defaults, defaults.source_defaults);
    assert_eq!(options.max_descriptors_per_poll, defaults.max_descriptors_per_poll);
    assert_eq!(run_options(None, defaults), options);
    assert_eq!(run_options(Some(defaults), options), defaults);
}

#[test]
fn smoke_of_good_scenarios_passes_its_gate() {
    let n = SMOKE_RECORDS_PER_SOURCE;
    let acks: Vec<u64> = (0..n).collect();
    let (c1, source) = end_no_ack_before_sink_commit(n, &acks, &acks, "raw/1".into());
    let (c2, _) = end_out_of_order_completion_no_frontier_hole(n, &acks, "raw/2".into());
    let replays = vec![w(3, "i"), w(3, "i")];
    let (c3, s3) = end_maybe_committed_replay_idempotent(n, &replays, "raw/3".into());
    let (c4, _) = end_multi_source_ack_isolation(n, &acks, &acks, "raw/4".into());
    let (c5, _) = end_sink_outage_backpressure_bounded(n, &vec![1, 2], 2, "raw/5".into());
    assert_eq!(source.highest_generated_sequence, 19);
    assert_eq!(source.highest_acked_sequence, 19);
    assert_eq!(source.records_visible_in_sink, 20);
    assert_eq!(s3.highest_acked_sequence, 19);
    assert_eq!(c1.name, "no_ack_before_sink_commit");
    assert_eq!(c5.evidence, "raw/5");
    let checks = vec![c1, c2, c3, c4, c5];
    assert_eq!(count_passed(&checks), 5);
    let report = smoke_report(n, checks, source);
    assert_eq!(report.schema_version, 2);
    assert_eq!(report.summary.records_generated, 20);
    assert_eq!(report.summary.ack_invariant_violations, 0);
    assert_eq!(report.summary.required_sink, "bench-sink");
    assert_eq!(report.sources[0].0, "buffer");
    assert!(gate(&report));
}

#[test]
fn smoke_with_a_violation_fails_its_gate() {
    let (bad, source) = end_no_ack_before_sink_commit(2, &vec![], &vec![], "raw/1".into());
    assert!(!bad.passed);
    assert_eq!(source.highest_acked_sequence, 0);
    let mut report = smoke_report(2, vec![bad], source);
    assert_eq!(report.summary.ack_invariant_violations, 1);
    assert!(!gate(&report));
    report.ack_invariant_checks[0].passed = true;
    assert!(gate(&report));
    report.sources[0].1.records_missing_from_sink = 1;
    assert!(!gate(&report));
    report.sources[0].1.records_missing_from_sink = 0;
    report.summary.duplicate_records_post_dedupe = 1;
    assert!(!gate(&report));
}

#[test]
fn check_names_are_distinct() {
    let names = [
        CheckName::NoAckBeforeSinkCommit.as_str(),
        CheckName::OutOfOrderCompletionNoFrontierHole.as_str(),
        CheckName::MaybeCommittedReplayIdempotent.as_str(),
        CheckName::MultiSourceAckIsolation.as_str(),
        CheckName::SinkOutageBackpressureBounded.as_str(),
    ];
    let distinct: std::collections::HashSet<&str> = names.iter().copied().collect();
    assert_eq!(distinct.len(), 5);
    assert_eq!(names[4], "sink_outage_backpressure_bounded");
}

#[test]
fn smoke_metadata_names_the_run() {
    let m = smoke_metadata("a".into(), "b".into());
    assert_eq!(m.schema_version, 2);
    assert_eq!(m.phase, "phase06-pipelined-runtime");
    assert_eq!((m.started_at.as_str(), m.ended_at.as_str()), ("a", "b"));
    assert_eq!(m.experiment.kind, "smoke");
}

#[test]
fn scenarios_run_in_order_under_paths_of_their_own() {
    let names: Vec<&str> = all_scenarios().iter().map(|c| c.as_str()).collect();
    assert_eq!(
        names,
        vec![
            "no_ack_before_sink_commit",
            "out_of_order_completion_no_frontier_hole",
            "maybe_committed_replay_idempotent",
            "multi_source_ack_isolation",
            "sink_outage_backpressure_bounded",
        ]
    );
    let plan = scenario_plan(CheckName::MultiSourceAckIsolation, base());
    assert_eq!(plan.manifest_path, "ingest/bench/multi-source/manifest");
    assert_eq!(plan.data_prefix, "ingest/bench/multi-source/data");
    assert_eq!(plan.witness_file, "multi_source_ack_isolation_witness.jsonl");
    assert_eq!(plan.deadline_secs, 15);
    assert_eq!(plan.options, pipelined_options(2, base()));
    let plan = scenario_plan(CheckName::OutOfOrderCompletionNoFrontierHole, base());
    assert_eq!(plan.options, pipelined_options(4, base()));
    let plan = scenario_plan(CheckName::SinkOutageBackpressureBounded, base());
    assert_eq!(plan.deadline_secs, 30);
    assert_eq!(plan.options, outage_options(base()));
    let paths: Vec<String> =
        all_scenarios().iter().map(|c| scenario_plan(*c, base()).manifest_path).collect();
    for i in 0..paths.len() {
        for j in 0..i {
            assert_ne!(paths[i], paths[j]);
        }
    }
}

#[test]
fn scenarios_inject_only_what_is_theirs() {
    assert_eq!(latency_ms(CheckName::OutOfOrderCompletionNoFrontierHole, 0), Some(150));
    assert_eq!(latency_ms(CheckName::OutOfOrderCompletionNoFrontierHole, 5), None);
    assert_eq!(latency_ms(CheckName::SinkOutageBackpressureBounded, 5), Some(1500));
    assert_eq!(latency_ms(CheckName::NoAckBeforeSinkCommit, 0), None);
    assert_eq!(doubted_sequences(CheckName::MaybeCommittedReplayIdempotent), vec![3, 12]);
    assert_eq!(doubted_sequences(CheckName::NoAckBeforeSinkCommit), Vec::<u64>::new());
}

#[test]
fn each_scenario_is_judged_by_its_own_rule() {
    let seen = Observed {
        acks: vec![0, 1],
        admitted: vec![0],
        writes: vec![w(0, "a"), w(1, "b"), w(1, "b")],
        in_flight_bytes: vec![10_240],
    };
    assert_eq!(written_sequences(&seen.writes), vec![0, 1, 1]);
    let passed: Vec<bool> = all_scenarios()
        .iter()
        .map(|c| end_scenario(*c, 2, &seen, "raw/x".into()).0.passed)
        .collect();
    assert_eq!(passed, vec![true, true, true, false, true]);
    let over = Observed { in_flight_bytes: vec![10_241], ..seen };
    let (check, source) =
        end_scenario(CheckName::SinkOutageBackpressureBounded, 2, &over, "raw/y".into());
    assert!(!check.passed);
    assert_eq!(check.name, "sink_outage_backpressure_bounded");
    assert_eq!(check.evidence, "raw/y");
    assert_eq!(source.highest_acked_sequence, 1);
}
