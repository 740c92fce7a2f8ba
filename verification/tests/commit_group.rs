use std::time::Duration;

use clickhouse_ingestor::commit_group::{CommitGroup, CommitGroupThresholds, RecordSize};

/// A record that carries a known size, to drive byte thresholds directly.
struct TestRecord {
    size: usize,
}

impl RecordSize for TestRecord {
    fn approx_size_bytes(&self) -> usize {
        self.size
    }
}

fn rec(size: usize) -> TestRecord {
    TestRecord { size }
}

fn thresholds(rows: usize, bytes: usize, age_ms: u64) -> CommitGroupThresholds {
    CommitGroupThresholds {
        max_rows: rows,
        max_bytes: bytes,
        max_age: Duration::from_millis(age_ms),
    }
}

#[test]
fn empty_group_does_not_flush() {
    let g = CommitGroup::<TestRecord>::new(thresholds(10, 1024, 1000));
    assert!(!g.should_flush());
    assert!(g.high_watermark().is_none());
    assert!(g.is_empty());
}

#[test]
fn append_advances_high_watermark_even_when_empty() {
    let mut g = CommitGroup::<TestRecord>::new(thresholds(10, 1024, 1000));
    g.append(vec![], 5);
    assert_eq!(g.low_watermark(), Some(5));
    assert_eq!(g.high_watermark(), Some(5));
    g.append(vec![], 6);
    assert_eq!(g.low_watermark(), Some(5));
    assert_eq!(g.high_watermark(), Some(6));
    assert_eq!(g.rows(), 0);
    assert!(!g.is_empty(), "group must not look empty just because rows=0");
}

#[test]
fn row_threshold_triggers_flush() {
    let mut g = CommitGroup::<TestRecord>::new(thresholds(2, 10_000, 60_000));
    g.append(vec![rec(10), rec(10)], 1);
    assert!(g.should_flush());
}

#[test]
fn byte_threshold_triggers_flush() {
    let mut g = CommitGroup::<TestRecord>::new(thresholds(100, 50, 60_000));
    g.append(vec![rec(40)], 1);
    assert!(!g.should_flush());
    g.append(vec![rec(20)], 2);
    assert!(g.should_flush());
}

#[test]
fn age_threshold_triggers_flush() {
    let mut g = CommitGroup::<TestRecord>::new(thresholds(100, 10_000, 50));
    g.append(vec![rec(10)], 1);
    // Synthesize a clock advance.
    let opened = g.opened_at().unwrap();
    let later = opened + Duration::from_millis(60);
    assert!(g.should_flush_at(later));
    // And the timer reports zero remaining.
    assert_eq!(g.time_until_max_age(later), Some(Duration::ZERO));
}

#[test]
fn time_until_max_age_decreases_with_clock_advance() {
    let mut g = CommitGroup::<TestRecord>::new(thresholds(100, 10_000, 1000));
    g.append(vec![rec(10)], 1);
    let opened = g.opened_at().unwrap();
    let halfway = opened + Duration::from_millis(400);
    let remaining = g.time_until_max_age(halfway).unwrap();
    assert!(remaining >= Duration::from_millis(599));
    assert!(remaining <= Duration::from_millis(601));
}

#[test]
fn drain_returns_records_and_resets() {
    let mut g = CommitGroup::<TestRecord>::new(thresholds(2, 10_000, 1000));
    g.append(vec![rec(5), rec(7)], 9);
    let drained = g.drain();
    assert_eq!(drained.records.len(), 2);
    assert_eq!(drained.low_sequence, 9);
    assert_eq!(drained.high_sequence, 9);
    assert!(g.is_empty());
    assert_eq!(g.bytes(), 0);
    assert!(g.high_watermark().is_none());
}

#[test]
fn drain_after_zero_row_appends_returns_empty_batch_with_progress() {
    // Batches absorbed without any decoded rows still flush a batch with
    // low/high set, so that the source can be acknowledged past them.
    let mut g = CommitGroup::<TestRecord>::new(thresholds(10, 10_000, 0));
    g.append(vec![], 3);
    g.append(vec![], 4);
    // An age threshold of 0 always trips after any append.
    assert!(g.should_flush_at(g.opened_at().unwrap() + Duration::from_millis(1)));
    let drained = g.drain();
    assert!(drained.records.is_empty());
    assert_eq!(drained.low_sequence, 3);
    assert_eq!(drained.high_sequence, 4);
}

#[test]
fn default_thresholds_are_large() {
    let t = CommitGroupThresholds::default();
    assert_eq!(t.max_rows, 100_000);
    assert_eq!(t.max_bytes, 32 * 1024 * 1024);
    assert_eq!(t.max_age, Duration::from_secs(1));
}

#[test]
fn empty_group_has_no_timer_and_is_never_due() {
    let g = CommitGroup::<TestRecord>::new(thresholds(0, 0, 0));
    let now = std::time::Instant::now();
    assert!(!g.should_flush_at(now));
    assert_eq!(g.time_until_max_age(now), None);
    assert_eq!(g.opened_at(), None);
}

#[test]
fn due_group_stays_due() {
    let mut g = CommitGroup::<TestRecord>::new(thresholds(1, 10_000, 60_000));
    g.append(vec![rec(1)], 1);
    assert!(g.should_flush());
    g.append(vec![], 2);
    assert!(g.should_flush());
}

#[test]
fn group_keeps_everything_between_drains() {
    let mut g = CommitGroup::<TestRecord>::new(thresholds(100, 10_000, 60_000));
    g.append(vec![rec(1), rec(2)], 10);
    g.append(vec![], 11);
    g.append(vec![rec(3)], 12);
    assert_eq!(g.rows(), 3);
    assert_eq!(g.bytes(), 6);
    let drained = g.drain();
    let sizes: Vec<usize> = drained.records.iter().map(|r| r.size).collect();
    assert_eq!(sizes, vec![1, 2, 3]);
    assert_eq!(drained.rows(), 3);
    assert_eq!(drained.bytes, 6);
    assert_eq!((drained.low_sequence, drained.high_sequence), (10, 12));
    g.append(vec![rec(4)], 13);
    assert_eq!(g.low_watermark(), Some(13));
}

#[test]
fn watermarks_and_clock_are_set_together() {
    let mut g = CommitGroup::<TestRecord>::new(thresholds(100, 10_000, 60_000));
    assert!(g.low_watermark().is_none() && g.high_watermark().is_none());
    assert!(g.opened_at().is_none());
    g.append(vec![], 4);
    assert_eq!((g.low_watermark(), g.high_watermark()), (Some(4), Some(4)));
    assert!(g.opened_at().is_some());
}

#[test]
fn timer_neither_wakes_early_nor_oversleeps() {
    let mut g = CommitGroup::<TestRecord>::new(thresholds(100, 10_000, 1000));
    g.append(vec![rec(10)], 1);
    let now = g.opened_at().unwrap() + Duration::from_millis(400);
    let left = g.time_until_max_age(now).unwrap();
    assert_eq!(left, Duration::from_millis(600));
    assert!(!g.should_flush_at(now));
    assert!(!g.should_flush_at(now + left - Duration::from_nanos(1)));
    assert!(g.should_flush_at(now + left));
    assert_eq!(g.time_until_max_age(now + left), Some(Duration::ZERO));
}
