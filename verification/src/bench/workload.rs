//! The load of a throughput run: payloads of log records, some to warm up and
//! some to be timed.
use vstd::prelude::*;

use crate::attributes;
use crate::logs::EntryOrigin;
use crate::otlp;
use crate::otlp::{encode_request, TextLog};
use crate::text;
use crate::text::{owned, push_decimal};

verus! {

#[derive(Debug)]
pub struct LogWorkloadConfig {
    /// Name of the source under which the load is read.
    pub source_id: String,
    /// Records per payload, that is per source sequence.
    pub records_per_source_range: usize,
    /// Payloads before the timed window.
    pub warmup_payloads: usize,
    /// Payloads of the timed window.
    pub timed_payloads: usize,
    /// The `service.name` of every payload.
    pub service_name: String,
    pub manifest_path: String,
    pub data_prefix: String,
}

/// Whether a load is the one that is run unless told otherwise.
pub open spec fn is_default_load(load: LogWorkloadConfig) -> bool {
    &&& load.source_id@ == "phase07-bench"@
    &&& load.records_per_source_range == 100
    &&& load.warmup_payloads == 20
    &&& load.timed_payloads == 200
    &&& load.service_name@ == "phase07-bench"@
    &&& load.manifest_path@ == "phase07/real-ch/manifest"@
    &&& load.data_prefix@ == "phase07/real-ch/data"@
}

/// Whether two loads are the same.
pub open spec fn same_load(a: LogWorkloadConfig, b: LogWorkloadConfig) -> bool {
    &&& a.source_id@ == b.source_id@
    &&& a.records_per_source_range == b.records_per_source_range
    &&& a.warmup_payloads == b.warmup_payloads
    &&& a.timed_payloads == b.timed_payloads
    &&& a.service_name@ == b.service_name@
    &&& a.manifest_path@ == b.manifest_path@
    &&& a.data_prefix@ == b.data_prefix@
}

impl Default for LogWorkloadConfig {
    fn default() -> (r: Self)
        ensures
            is_default_load(r),
    {
        LogWorkloadConfig {
            source_id: owned("phase07-bench"),
            records_per_source_range: 100,
            warmup_payloads: 20,
            timed_payloads: 200,
            service_name: owned("phase07-bench"),
            manifest_path: owned("phase07/real-ch/manifest"),
            data_prefix: owned("phase07/real-ch/data"),
        }
    }
}

/// The path of a part of the buffer of an iteration.
pub open spec fn iteration_path(unit: Seq<char>, iteration: nat, part: Seq<char>) -> Seq<char> {
    "phase07/"@ + unit + "/iter-"@ + text::decimal(iteration) + "/"@ + part
}

/// Names a part of the buffer of an iteration, so that iterations share nothing.
pub fn iteration_part(unit: &str, iteration: usize, part: &str) -> (r: String)
    ensures
        r@ == iteration_path(unit@, iteration as nat, part@),
{
    let mut out = owned("phase07/");
    out.append(unit);
    out.append("/iter-");
    push_decimal(&mut out, iteration as u64);
    out.append("/");
    out.append(part);
    out
}

impl LogWorkloadConfig {
    /// The same load again.
    pub fn copy(&self) -> (r: Self)
        ensures
            same_load(r, *self),
    {
        LogWorkloadConfig {
            source_id: owned(self.source_id.as_str()),
            records_per_source_range: self.records_per_source_range,
            warmup_payloads: self.warmup_payloads,
            timed_payloads: self.timed_payloads,
            service_name: owned(self.service_name.as_str()),
            manifest_path: owned(self.manifest_path.as_str()),
            data_prefix: owned(self.data_prefix.as_str()),
        }
    }

    /// The load of one iteration, under a buffer of its own.
    pub fn for_iteration(&self, iteration: usize) -> (r: Self)
        ensures
            r.source_id@ == self.source_id@,
            r.records_per_source_range == self.records_per_source_range,
            r.warmup_payloads == self.warmup_payloads,
            r.timed_payloads == self.timed_payloads,
            r.service_name@ == self.service_name@,
            r.manifest_path@ == iteration_path("7.2"@, iteration as nat, "manifest"@),
            r.data_prefix@ == iteration_path("7.2"@, iteration as nat, "data"@),
    {
        LogWorkloadConfig {
            source_id: owned(self.source_id.as_str()),
            records_per_source_range: self.records_per_source_range,
            warmup_payloads: self.warmup_payloads,
            timed_payloads: self.timed_payloads,
            service_name: owned(self.service_name.as_str()),
            manifest_path: iteration_part("7.2", iteration, "manifest"),
            data_prefix: iteration_part("7.2", iteration, "data"),
        }
    }
}

/// What a load comes to.
#[derive(Debug, Clone, Copy, PartialEq, Eq, Structural)]
pub struct WorkloadHandle {
    /// The last sequence of the warm-up.
    pub warmup_highest_sequence: u64,
    /// The last sequence.
    pub highest_sequence: u64,
    /// The records of all payloads.
    pub total_records: u64,
    /// The records of the timed payloads.
    pub timed_records: u64,
}

/// One less, but not below zero.
pub open spec fn last_sequence(payloads: int) -> int {
    if payloads > 0 {
        payloads - 1
    } else {
        0
    }
}

/// Whether the sizes of a load can be counted.
pub open spec fn countable(cfg: LogWorkloadConfig) -> bool {
    &&& cfg.warmup_payloads + cfg.timed_payloads <= usize::MAX
    &&& cfg.records_per_source_range * (cfg.warmup_payloads + cfg.timed_payloads) <= u64::MAX
}

pub struct LogWorkload;

impl LogWorkload {
    /// Where a load ends, and how many records it has.
    pub fn handle(cfg: &LogWorkloadConfig) -> (r: WorkloadHandle)
        requires
            countable(*cfg),
        ensures
            r.warmup_highest_sequence == last_sequence(cfg.warmup_payloads as int),
            r.highest_sequence == last_sequence(cfg.warmup_payloads + cfg.timed_payloads),
            r.total_records == cfg.records_per_source_range * (cfg.warmup_payloads
                + cfg.timed_payloads),
            r.timed_records == cfg.records_per_source_range * cfg.timed_payloads,
    {
        let total: usize = cfg.warmup_payloads + cfg.timed_payloads;
        proof {
            let records = cfg.records_per_source_range as int;
            let timed = cfg.timed_payloads as int;
            let all = total as int;
            assert(0 <= records * timed <= records * all) by (nonlinear_arith)
                requires
                    0 <= records,
                    0 <= timed <= all,
            ;
        }
        WorkloadHandle {
            warmup_highest_sequence: (cfg.warmup_payloads as u64).saturating_sub(1),
            highest_sequence: (total as u64).saturating_sub(1),
            total_records: (cfg.records_per_source_range as u64) * (total as u64),
            timed_records: (cfg.records_per_source_range as u64) * (cfg.timed_payloads as u64),
        }
    }

    /// The time stamp of the first record of a payload: a second per sequence
    /// after the start of the run.
    pub fn payload_time(base_ts_ns: u64, sequence: u64) -> (r: u64)
        requires
            base_ts_ns + sequence * 1_000_000_000 <= u64::MAX,
        ensures
            r == base_ts_ns + sequence * 1_000_000_000,
    {
        base_ts_ns + sequence * 1_000_000_000
    }

    /// The payload of a sequence.
    pub fn payload(cfg: &LogWorkloadConfig, base_ts_ns: u64, sequence: u64) -> (r: Vec<u8>)
        requires
            base_ts_ns + sequence * 1_000_000_000 <= u64::MAX,
            base_ts_ns + sequence * 1_000_000_000 + cfg.records_per_source_range <= u64::MAX + 1,
        ensures
            otlp::carries(
                r@,
                workload_block(
                    cfg.service_name@,
                    cfg.records_per_source_range as nat,
                    (base_ts_ns + sequence * 1_000_000_000) as nat,
                ),
            ),
    {
        make_logs(
            cfg.service_name.as_str(),
            cfg.records_per_source_range,
            Self::payload_time(base_ts_ns, sequence),
        )
    }
}

/// The records of a load are those of its warm-up and those of its timed window,
/// and the warm-up ends no later than the load.
pub proof fn law_window_splits_the_load(cfg: LogWorkloadConfig)
    requires
        countable(cfg),
    ensures
        cfg.records_per_source_range * (cfg.warmup_payloads + cfg.timed_payloads)
            == cfg.records_per_source_range * cfg.warmup_payloads + cfg.records_per_source_range
            * cfg.timed_payloads,
        last_sequence(cfg.warmup_payloads as int) <= last_sequence(
            cfg.warmup_payloads + cfg.timed_payloads,
        ),
{
    let records = cfg.records_per_source_range as int;
    let warmup = cfg.warmup_payloads as int;
    let timed = cfg.timed_payloads as int;
    assert(records * (warmup + timed) == records * warmup + records * timed) by (nonlinear_arith);
}

/// The `i`th record of a payload.
pub open spec fn workload_log(base_ts_ns: nat, i: nat) -> otlp::LogView {
    otlp::LogView {
        time_unix_nano: (base_ts_ns + i) as u64,
        observed_time_unix_nano: 0,
        severity_number: 9,
        severity_text: "INFO"@,
        body: Some(otlp::ValueView::Text("body-"@ + text::decimal(i))),
        attributes: seq![
            otlp::AttributeView {
                key: "topic"@,
                value: Some(otlp::ValueView::Text("t-"@ + text::decimal(i))),
            },
        ],
        trace_id: Seq::empty(),
        span_id: Seq::empty(),
    }
}

/// What a payload holds.
pub open spec fn workload_block(
    service: Seq<char>,
    count: nat,
    base_ts_ns: nat,
) -> otlp::ResourceBlockView {
    otlp::ResourceBlockView {
        resource: Some(
            seq![
                otlp::AttributeView {
                    key: "service.name"@,
                    value: Some(otlp::ValueView::Text(service)),
                },
            ],
        ),
        scope_logs: seq![
            otlp::ScopeBlockView {
                scope: None,
                log_records: Seq::new(count, |i: int| workload_log(base_ts_ns, i as nat)),
            },
        ],
    }
}

fn text_pair(key: &str, value: String) -> (r: Vec<(String, String)>)
    ensures
        otlp::text_attributes(r@) == seq![
            otlp::AttributeView { key: key@, value: Some(otlp::ValueView::Text(value@)) },
        ],
{
    let mut r: Vec<(String, String)> = Vec::new();
    r.push((owned(key), value));
    assert(otlp::text_attributes(r@) =~= seq![
        otlp::AttributeView { key: key@, value: Some(otlp::ValueView::Text(value@)) },
    ]);
    r
}

fn numbered(prefix: &str, i: usize) -> (r: String)
    ensures
        r@ == prefix@ + text::decimal(i as nat),
{
    let mut out = owned(prefix);
    push_decimal(&mut out, i as u64);
    out
}

/// A payload of `record_count` records of one service, a nanosecond apart.
pub fn make_logs(service: &str, record_count: usize, base_ts_ns: u64) -> (r: Vec<u8>)
    requires
        base_ts_ns + record_count <= u64::MAX + 1,
    ensures
        otlp::carries(r@, workload_block(service@, record_count as nat, base_ts_ns as nat)),
{
    let mut logs: Vec<TextLog> = Vec::new();
    let mut i: usize = 0;
    while i < record_count
        invariant
            i <= record_count,
            base_ts_ns + record_count <= u64::MAX + 1,
            logs@.len() == i,
            forall|j: int|
                0 <= j < i ==> (#[trigger] logs@[j])@ == workload_log(base_ts_ns as nat, j as nat),
        decreases record_count - i,
    {
        let log = TextLog {
            time_unix_nano: base_ts_ns + i as u64,
            severity_number: 9,
            severity_text: owned("INFO"),
            body: numbered("body-", i),
            attributes: text_pair("topic", numbered("t-", i)),
        };
        assert(log@ == workload_log(base_ts_ns as nat, i as nat));
        logs.push(log);
        i = i + 1;
    }
    let resource = text_pair("service.name", owned(service));
    assert(otlp::views(logs@) =~= Seq::new(
        record_count as nat,
        |j: int| workload_log(base_ts_ns as nat, j as nat),
    ));
    assert(otlp::text_block(resource@, logs@) == workload_block(
        service@,
        record_count as nat,
        base_ts_ns as nat,
    ));
    encode_request(resource, logs)
}

/// What the decoder makes of the `i`th record of a payload.
pub open spec fn workload_row(
    origin: EntryOrigin,
    service: Seq<char>,
    base_ts_ns: nat,
    i: nat,
    row: crate::logs::RecordView,
) -> bool {
    &&& row.source.buffer_sequence == origin.sequence
    &&& row.source.entry_index == origin.entry_index
    &&& row.source.record_index == crate::logs::record_number(i)
    &&& row.timestamp_unix_nano == (base_ts_ns + i) as u64
    &&& row.severity_number == 9
    &&& row.severity_text == "INFO"@
    &&& row.body == "body-"@ + text::decimal(i)
    &&& row.service_name == Some(service)
    &&& row.log_attributes == Map::<Seq<char>, Seq<char>>::empty().insert(
        "topic"@,
        "t-"@ + text::decimal(i),
    )
}

/// The decoder gives back what was produced: a payload decodes to as many rows as
/// it was given records, each with its own body, time stamp and topic and the
/// name of the service.
pub proof fn law_workload_decodes(
    origin: EntryOrigin,
    payload: Seq<u8>,
    service: Seq<char>,
    count: nat,
    base_ts_ns: nat,
)
    requires
        otlp::carries(payload, workload_block(service, count, base_ts_ns)),
    ensures
        otlp::export_request(payload) is Ok,
        ({
            let rows = crate::logs::request_rows(origin, otlp::export_request(payload)->Ok_0);
            &&& rows.len() == count
            &&& forall|i: int|
                0 <= i < count ==> workload_row(
                    origin,
                    service,
                    base_ts_ns,
                    i as nat,
                    #[trigger] rows[i],
                )
        }),
{
    let block = workload_block(service, count, base_ts_ns);
    let blocks = otlp::export_request(payload)->Ok_0;
    assert(blocks =~= seq![block]);
    let logs = block.scope_logs[0];
    let rows = crate::logs::request_rows(origin, blocks);
    let scope = crate::logs::scope_rows(origin, 0, block, logs);
    reveal_with_fuel(crate::logs::request_rows, 2);
    reveal_with_fuel(crate::logs::block_rows, 2);
    assert(blocks.drop_last() =~= Seq::<otlp::ResourceBlockView>::empty());
    assert(crate::logs::request_rows(origin, blocks.drop_last()) =~= Seq::<
        crate::logs::RecordView,
    >::empty());
    assert(crate::logs::block_rows(origin, 0, block, 0) =~= Seq::<
        crate::logs::RecordView,
    >::empty());
    assert(crate::logs::block_rows(origin, 0, block, 1) =~= scope);
    assert(rows =~= scope);
    assert forall|i: int| 0 <= i < count implies workload_row(
        origin,
        service,
        base_ts_ns,
        i as nat,
        #[trigger] rows[i],
    ) by {
        let log = workload_log(base_ts_ns, i as nat);
        assert(logs.log_records[i] == log);
        lemma_one_pair("topic"@, "t-"@ + text::decimal(i as nat));
        lemma_one_pair("service.name"@, service);
        assert(crate::logs::attribute_texts(log.attributes) + crate::logs::scope_pairs(logs)
            =~= crate::logs::attribute_texts(log.attributes));
    }
}

/// A single text attribute makes a map of one entry.
proof fn lemma_one_pair(key: Seq<char>, value: Seq<char>)
    ensures
        attributes::map_of(
            crate::logs::attribute_texts(
                seq![otlp::AttributeView { key, value: Some(otlp::ValueView::Text(value)) }],
            ),
        ) == Map::<Seq<char>, Seq<char>>::empty().insert(key, value),
{
    let kvs = seq![otlp::AttributeView { key, value: Some(otlp::ValueView::Text(value)) }];
    assert(kvs.drop_last() =~= Seq::<otlp::AttributeView>::empty());
    reveal_with_fuel(crate::logs::attribute_texts, 2);
    let texts = crate::logs::attribute_texts(kvs);
    assert(texts =~= seq![(key, value)]);
    reveal_with_fuel(attributes::map_of, 2);
    assert(texts.drop_last() =~= Seq::<attributes::TextPair>::empty());
}

/// What a load comes to: as many records per payload in the window as in the warm-up,
/// and sequences without a gap up to the last.
pub proof fn law_load_is_counted(cfg: &LogWorkloadConfig, r: WorkloadHandle)
    requires
        countable(*cfg),
        call_ensures(LogWorkload::handle, (cfg,), r),
    ensures
        r.total_records == r.timed_records + cfg.records_per_source_range * cfg.warmup_payloads,
        cfg.timed_payloads == 0 ==> r.timed_records == 0,
        cfg.timed_payloads == 1 ==> r.timed_records == cfg.records_per_source_range,
        cfg.records_per_source_range == 1 ==> r.timed_records == cfg.timed_payloads,
        cfg.warmup_payloads > 0 ==> r.warmup_highest_sequence + 1 == cfg.warmup_payloads,
        cfg.warmup_payloads == 0 ==> r.warmup_highest_sequence == 0,
        cfg.warmup_payloads + cfg.timed_payloads > 0 ==> r.highest_sequence + 1
            == cfg.warmup_payloads + cfg.timed_payloads,
        cfg.warmup_payloads + cfg.timed_payloads == 0 ==> r.highest_sequence == 0,
{
    let records = cfg.records_per_source_range as int;
    let timed = cfg.timed_payloads as int;
    law_window_splits_the_load(*cfg);
    assert(timed == 0 ==> records * timed == 0) by (nonlinear_arith);
    assert(timed == 1 ==> records * timed == records) by (nonlinear_arith);
    assert(records == 1 ==> records * timed == timed) by (nonlinear_arith);
}

/// The payload of a sequence decodes to the records of that sequence: each a nanosecond
/// after the one before, from a second after the start of the run for each sequence
/// before it, and each with its own number in its body and topic.
pub proof fn law_payload_is_dated(
    cfg: &LogWorkloadConfig,
    base_ts_ns: u64,
    sequence: u64,
    payload: Vec<u8>,
    origin: EntryOrigin,
    i: int,
)
    requires
        base_ts_ns + sequence * 1_000_000_000 <= u64::MAX,
        base_ts_ns + sequence * 1_000_000_000 + cfg.records_per_source_range <= u64::MAX + 1,
        call_ensures(LogWorkload::payload, (cfg, base_ts_ns, sequence), payload),
        0 <= i < cfg.records_per_source_range,
    ensures
        otlp::export_request(payload@) is Ok,
        ({
            let rows = crate::logs::request_rows(origin, otlp::export_request(payload@)->Ok_0);
            &&& rows.len() == cfg.records_per_source_range
            &&& rows[i].timestamp_unix_nano == base_ts_ns + sequence * 1_000_000_000 + i
            &&& rows[i].severity_number == 9
            &&& rows[i].severity_text == "INFO"@
            &&& rows[i].body == "body-"@ + text::decimal(i as nat)
            &&& rows[i].service_name == Some(cfg.service_name@)
            &&& rows[i].log_attributes.contains_key("topic"@)
            &&& rows[i].log_attributes["topic"@] == "t-"@ + text::decimal(i as nat)
        }),
{
    law_workload_decodes(
        origin,
        payload@,
        cfg.service_name@,
        cfg.records_per_source_range as nat,
        (base_ts_ns + sequence * 1_000_000_000) as nat,
    );
    let rows = crate::logs::request_rows(origin, otlp::export_request(payload@)->Ok_0);
    assert(workload_row(
        origin,
        cfg.service_name@,
        (base_ts_ns + sequence * 1_000_000_000) as nat,
        i as nat,
        rows[i],
    ));
}

/// The load of an iteration is that of the run, under a buffer whose paths hold the
/// number of the iteration.
pub proof fn law_iterations_share_the_load(
    cfg: &LogWorkloadConfig,
    iteration: usize,
    r: LogWorkloadConfig,
    again: LogWorkloadConfig,
)
    requires
        call_ensures(LogWorkloadConfig::for_iteration, (cfg, iteration), r),
        call_ensures(LogWorkloadConfig::copy, (cfg,), again),
    ensures
        r.source_id@ == cfg.source_id@,
        r.service_name@ == cfg.service_name@,
        r.records_per_source_range == cfg.records_per_source_range,
        r.warmup_payloads == cfg.warmup_payloads,
        r.timed_payloads == cfg.timed_payloads,
        r.manifest_path@ == "phase07/7.2/iter-"@ + text::decimal(iteration as nat) + "/manifest"@,
        r.data_prefix@ == "phase07/7.2/iter-"@ + text::decimal(iteration as nat) + "/data"@,
        again.source_id@ == cfg.source_id@,
        again.service_name@ == cfg.service_name@,
        again.records_per_source_range == cfg.records_per_source_range,
        again.warmup_payloads == cfg.warmup_payloads,
        again.timed_payloads == cfg.timed_payloads,
        again.manifest_path@ == cfg.manifest_path@,
        again.data_prefix@ == cfg.data_prefix@,
{
    reveal_strlit("phase07/");
    reveal_strlit("7.2");
    reveal_strlit("/iter-");
    reveal_strlit("/");
    reveal_strlit("manifest");
    reveal_strlit("data");
    reveal_strlit("phase07/7.2/iter-");
    reveal_strlit("/manifest");
    reveal_strlit("/data");
    assert("phase07/"@ + "7.2"@ + "/iter-"@ =~= "phase07/7.2/iter-"@);
    assert("/"@ + "manifest"@ =~= "/manifest"@);
    assert("/"@ + "data"@ =~= "/data"@);
    assert(r.manifest_path@ =~= "phase07/7.2/iter-"@ + text::decimal(iteration as nat)
        + "/manifest"@);
    assert(r.data_prefix@ =~= "phase07/7.2/iter-"@ + text::decimal(iteration as nat) + "/data"@);
}

} // verus!
