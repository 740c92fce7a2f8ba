//! The settings under which the benches run the pipeline.
use vstd::prelude::*;

use crate::envelope::{ConfiguredEnvelope, PayloadEncoding, SignalType};

verus! {

/// When acknowledgements are flushed to the source.
#[derive(Debug, Clone, Copy, PartialEq, Eq, Structural)]
pub enum AckFlushPolicy {
    EveryCommitGroup,
}

/// How far a source may run ahead of the sink.
#[derive(Debug, Clone, Copy, PartialEq, Eq, Structural)]
pub struct SourceBackpressureOptions {
    pub max_inflight_batches: u32,
    pub max_inflight_bytes: u64,
    pub estimated_max_batch_bytes: u64,
    pub fetch_concurrency: u32,
    pub decode_concurrency: u32,
    pub oversize_fault_multiplier: u32,
}

/// How commits are handed to the sink.
#[derive(Debug, Clone, Copy, PartialEq, Eq, Structural)]
pub struct SinkPoolOptions {
    pub max_concurrent_commits: u32,
    pub retry_max_attempts: u32,
    pub retry_initial_backoff_ms: u64,
}

/// The settings of a pipeline run.
#[derive(Debug, Clone, Copy, PartialEq, Eq, Structural)]
pub struct RuntimeOptions {
    pub configured_envelope: ConfiguredEnvelope,
    pub ack_flush_policy: AckFlushPolicy,
    pub dry_run: bool,
    pub poll_interval_ms: u64,
    pub max_descriptors_per_poll: u32,
    pub max_retry_attempts: u32,
    pub retry_backoff_ms: u64,
    pub source_defaults: SourceBackpressureOptions,
    pub sink: SinkPoolOptions,
}

/// The settings under which the latency benches run a pipeline: nothing is left
/// out as in a dry run, every commit group is acknowledged, and the source is
/// polled often. The rest are the pipeline's own defaults.
pub open spec fn bench_settings(defaults: RuntimeOptions) -> RuntimeOptions {
    RuntimeOptions {
        dry_run: false,
        ack_flush_policy: AckFlushPolicy::EveryCommitGroup,
        poll_interval_ms: 5,
        ..defaults
    }
}

pub fn default_runtime_options(defaults: RuntimeOptions) -> (r: RuntimeOptions)
    ensures
        r == bench_settings(defaults),
{
    RuntimeOptions {
        dry_run: false,
        ack_flush_policy: AckFlushPolicy::EveryCommitGroup,
        poll_interval_ms: 5,
        ..defaults
    }
}

/// The settings of a run: those it was given, or else those of the benches.
pub open spec fn run_settings(
    given: Option<RuntimeOptions>,
    defaults: RuntimeOptions,
) -> RuntimeOptions {
    match given {
        Some(options) => options,
        None => bench_settings(defaults),
    }
}

pub fn run_options(given: Option<RuntimeOptions>, defaults: RuntimeOptions) -> (r: RuntimeOptions)
    ensures
        r == run_settings(given, defaults),
{
    match given {
        Some(options) => options,
        None => default_runtime_options(defaults),
    }
}

/// The settings of the correctness scenarios. What they leave open is taken from
/// `base`.
pub open spec fn pipelined_settings(
    fetch_concurrency: u32,
    base: SourceBackpressureOptions,
) -> RuntimeOptions {
    RuntimeOptions {
        configured_envelope: ConfiguredEnvelope {
            version: 1,
            signal_type: SignalType::Logs,
            encoding: PayloadEncoding::OtlpProtobuf,
        },
        ack_flush_policy: AckFlushPolicy::EveryCommitGroup,
        dry_run: false,
        poll_interval_ms: 2,
        max_descriptors_per_poll: 1,
        max_retry_attempts: 3,
        retry_backoff_ms: 2,
        source_defaults: SourceBackpressureOptions {
            max_inflight_batches: 16,
            max_inflight_bytes: base.max_inflight_bytes,
            estimated_max_batch_bytes: base.estimated_max_batch_bytes,
            fetch_concurrency,
            decode_concurrency: 2,
            oversize_fault_multiplier: base.oversize_fault_multiplier,
        },
        sink: SinkPoolOptions {
            max_concurrent_commits: 4,
            retry_max_attempts: 3,
            retry_initial_backoff_ms: 2,
        },
    }
}

pub fn pipelined_options(fetch_concurrency: u32, base: SourceBackpressureOptions) -> (r:
    RuntimeOptions)
    ensures
        r == pipelined_settings(fetch_concurrency, base),
{
    RuntimeOptions {
        configured_envelope: ConfiguredEnvelope {
            version: 1,
            signal_type: SignalType::Logs,
            encoding: PayloadEncoding::OtlpProtobuf,
        },
        ack_flush_policy: AckFlushPolicy::EveryCommitGroup,
        dry_run: false,
        poll_interval_ms: 2,
        max_descriptors_per_poll: 1,
        max_retry_attempts: 3,
        retry_backoff_ms: 2,
        source_defaults: SourceBackpressureOptions {
            max_inflight_batches: 16,
            max_inflight_bytes: base.max_inflight_bytes,
            estimated_max_batch_bytes: base.estimated_max_batch_bytes,
            fetch_concurrency,
            decode_concurrency: 2,
            oversize_fault_multiplier: base.oversize_fault_multiplier,
        },
        sink: SinkPoolOptions {
            max_concurrent_commits: 4,
            retry_max_attempts: 3,
            retry_initial_backoff_ms: 2,
        },
    }
}

/// The budget of the outage scenario, which is tight enough to be reached.
pub open spec fn outage_budget() -> SourceBackpressureOptions {
    SourceBackpressureOptions {
        max_inflight_batches: 4,
        max_inflight_bytes: 4096,
        estimated_max_batch_bytes: 1024,
        fetch_concurrency: 2,
        decode_concurrency: 2,
        oversize_fault_multiplier: 4,
    }
}

/// The settings of the outage scenario: its own budget, and no retries.
pub open spec fn outage_settings(base: SourceBackpressureOptions) -> RuntimeOptions {
    RuntimeOptions {
        source_defaults: outage_budget(),
        sink: SinkPoolOptions {
            max_concurrent_commits: 4,
            retry_max_attempts: 0,
            retry_initial_backoff_ms: 0,
        },
        ..pipelined_settings(2, base)
    }
}

pub fn outage_options(base: SourceBackpressureOptions) -> (r: RuntimeOptions)
    ensures
        r == outage_settings(base),
{
    let options = pipelined_options(2, base);
    RuntimeOptions {
        configured_envelope: options.configured_envelope,
        ack_flush_policy: options.ack_flush_policy,
        dry_run: options.dry_run,
        poll_interval_ms: options.poll_interval_ms,
        max_descriptors_per_poll: options.max_descriptors_per_poll,
        max_retry_attempts: options.max_retry_attempts,
        retry_backoff_ms: options.retry_backoff_ms,
        source_defaults: SourceBackpressureOptions {
            max_inflight_batches: 4,
            max_inflight_bytes: 4096,
            estimated_max_batch_bytes: 1024,
            fetch_concurrency: 2,
            decode_concurrency: 2,
            oversize_fault_multiplier: 4,
        },
        sink: SinkPoolOptions {
            max_concurrent_commits: 4,
            retry_max_attempts: 0,
            retry_initial_backoff_ms: 0,
        },
    }
}

/// The bytes that may be in flight at most: the budget, and for every decoder the
/// excess of a batch that turned out larger than estimated.
pub open spec fn inflight_bound_of(bp: SourceBackpressureOptions) -> int {
    bp.max_inflight_bytes + bp.decode_concurrency * (bp.oversize_fault_multiplier - 1)
        * bp.estimated_max_batch_bytes
}

pub fn inflight_bound(bp: &SourceBackpressureOptions) -> (r: u64)
    requires
        bp.oversize_fault_multiplier >= 1,
        inflight_bound_of(*bp) <= u64::MAX,
    ensures
        r == inflight_bound_of(*bp),
        r >= bp.max_inflight_bytes,
{
    let decoders: u64 = bp.decode_concurrency as u64;
    let excess: u64 = bp.oversize_fault_multiplier as u64 - 1;
    assert(0 <= decoders * excess <= 0xffff_ffff * 0xffff_ffff) by (nonlinear_arith)
        requires
            0 <= decoders <= 0xffff_ffff,
            0 <= excess <= 0xffff_ffff,
    ;
    let batches: u64 = decoders * excess;
    assert(batches * bp.estimated_max_batch_bytes >= 0) by (nonlinear_arith)
        requires
            batches >= 0,
            bp.estimated_max_batch_bytes >= 0,
    ;
    bp.max_inflight_bytes + batches * bp.estimated_max_batch_bytes
}

/// The bound on the bytes in flight is the budget where no batch can be larger than
/// estimated or nothing is decoded. Each decoder more adds what a batch can have above
/// its estimate: once the estimate for each step of the multiplier above one. A byte
/// more of budget is a byte more of bound.
pub proof fn law_bound_grows_by_the_excess(bp: SourceBackpressureOptions)
    requires
        bp.oversize_fault_multiplier >= 1,
    ensures
        bp.oversize_fault_multiplier == 1 ==> inflight_bound_of(bp) == bp.max_inflight_bytes,
        bp.decode_concurrency == 0 ==> inflight_bound_of(bp) == bp.max_inflight_bytes,
        bp.decode_concurrency < u32::MAX ==> inflight_bound_of(
            SourceBackpressureOptions {
                decode_concurrency: (bp.decode_concurrency + 1) as u32,
                ..bp
            },
        ) == inflight_bound_of(bp) + (bp.oversize_fault_multiplier - 1)
            * bp.estimated_max_batch_bytes,
        bp.oversize_fault_multiplier < u32::MAX ==> inflight_bound_of(
            SourceBackpressureOptions {
                oversize_fault_multiplier: (bp.oversize_fault_multiplier + 1) as u32,
                ..bp
            },
        ) == inflight_bound_of(bp) + bp.decode_concurrency * bp.estimated_max_batch_bytes,
        bp.max_inflight_bytes < u64::MAX ==> inflight_bound_of(
            SourceBackpressureOptions {
                max_inflight_bytes: (bp.max_inflight_bytes + 1) as u64,
                ..bp
            },
        ) == inflight_bound_of(bp) + 1,
{
    let d = bp.decode_concurrency as int;
    let m = bp.oversize_fault_multiplier as int;
    let e = bp.estimated_max_batch_bytes as int;
    assert(m == 1 ==> d * (m - 1) * e == 0) by (nonlinear_arith);
    assert(d == 0 ==> d * (m - 1) * e == 0) by (nonlinear_arith);
    assert((d + 1) * (m - 1) * e == d * (m - 1) * e + (m - 1) * e) by (nonlinear_arith);
    assert(d * ((m + 1) - 1) * e == d * (m - 1) * e + d * e) by (nonlinear_arith);
}

/// A run takes what it is given as it stands. Without any, it takes the defaults but
/// for three things: it is never a dry run, it polls every five milliseconds, and it
/// acknowledges every commit group.
pub proof fn law_defaults_are_kept(
    given: RuntimeOptions,
    defaults: RuntimeOptions,
    r: RuntimeOptions,
    s: RuntimeOptions,
)
    requires
        call_ensures(run_options, (Some(given), defaults), r),
        call_ensures(run_options, (None::<RuntimeOptions>, defaults), s),
    ensures
        r == given,
        !s.dry_run,
        s.poll_interval_ms == 5,
        s.ack_flush_policy == AckFlushPolicy::EveryCommitGroup,
        s.configured_envelope == defaults.configured_envelope,
        s.max_descriptors_per_poll == defaults.max_descriptors_per_poll,
        s.max_retry_attempts == defaults.max_retry_attempts,
        s.retry_backoff_ms == defaults.retry_backoff_ms,
        s.source_defaults == defaults.source_defaults,
        s.sink == defaults.sink,
{
}

/// The scenarios run on logs in OTLP protobuf, one descriptor per poll, with two
/// decoders, four commits at a time and three attempts each. The sizes of batches are
/// those of the source. The outage scenario has a budget of four batches of a
/// kilobyte, and makes no second attempt.
pub proof fn law_scenario_settings(
    fetchers: u32,
    base: SourceBackpressureOptions,
    r: RuntimeOptions,
    s: RuntimeOptions,
)
    requires
        call_ensures(pipelined_options, (fetchers, base), r),
        call_ensures(outage_options, (base,), s),
    ensures
        r.configured_envelope.version == 1,
        r.configured_envelope.signal_type == SignalType::Logs,
        r.configured_envelope.encoding == PayloadEncoding::OtlpProtobuf,
        !r.dry_run,
        r.ack_flush_policy == AckFlushPolicy::EveryCommitGroup,
        r.poll_interval_ms == 2,
        r.max_descriptors_per_poll == 1,
        r.max_retry_attempts == 3,
        r.retry_backoff_ms == 2,
        r.source_defaults.max_inflight_batches == 16,
        r.source_defaults.fetch_concurrency == fetchers,
        r.source_defaults.decode_concurrency == 2,
        r.source_defaults.max_inflight_bytes == base.max_inflight_bytes,
        r.source_defaults.estimated_max_batch_bytes == base.estimated_max_batch_bytes,
        r.source_defaults.oversize_fault_multiplier == base.oversize_fault_multiplier,
        r.sink.max_concurrent_commits == 4,
        r.sink.retry_max_attempts == 3,
        r.sink.retry_initial_backoff_ms == 2,
        s.configured_envelope == r.configured_envelope,
        s.dry_run == r.dry_run,
        s.ack_flush_policy == r.ack_flush_policy,
        s.poll_interval_ms == r.poll_interval_ms,
        s.max_descriptors_per_poll == r.max_descriptors_per_poll,
        s.max_retry_attempts == r.max_retry_attempts,
        s.retry_backoff_ms == r.retry_backoff_ms,
        s.source_defaults.max_inflight_batches == 4,
        s.source_defaults.max_inflight_bytes == 4 * 1024,
        s.source_defaults.estimated_max_batch_bytes == 1024,
        s.source_defaults.fetch_concurrency == 2,
        s.source_defaults.decode_concurrency == 2,
        s.source_defaults.oversize_fault_multiplier == 4,
        s.sink.max_concurrent_commits == 4,
        s.sink.retry_max_attempts == 0,
        s.sink.retry_initial_backoff_ms == 0,
{
}

} // verus!
