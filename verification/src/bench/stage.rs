//! The stages of the pipeline whose latency is measured.
use vstd::prelude::*;

use crate::text::same_text;

verus! {

#[derive(Debug, Clone, Copy, PartialEq, Eq, Hash, Structural)]
pub enum Stage {
    Source,
    Fetch,
    Decode,
    SinkDispatch,
}

/// The label of a stage in a metric.
pub open spec fn stage_label(stage: Stage) -> &'static str {
    match stage {
        Stage::Source => "source",
        Stage::Fetch => "fetch",
        Stage::Decode => "decode",
        Stage::SinkDispatch => "sink_dispatch",
    }
}

/// The stages in the order in which a batch passes them.
pub open spec fn stages_in_order() -> Seq<Stage> {
    seq![Stage::Source, Stage::Fetch, Stage::Decode, Stage::SinkDispatch]
}

impl Stage {
    /// Every stage, in the order in which a batch passes them.
    pub fn all() -> (r: [Stage; 4])
        ensures
            r@ == stages_in_order(),
    {
        let r = [Stage::Source, Stage::Fetch, Stage::Decode, Stage::SinkDispatch];
        assert(r@ =~= stages_in_order());
        r
    }

    pub fn as_label(self) -> (r: &'static str)
        ensures
            r@ == stage_label(self)@,
    {
        match self {
            Stage::Source => "source",
            Stage::Fetch => "fetch",
            Stage::Decode => "decode",
            Stage::SinkDispatch => "sink_dispatch",
        }
    }

    /// The stage of a label, if it is one of theirs.
    pub fn parse(s: &str) -> (r: Option<Stage>)
        ensures
            r matches Some(stage) ==> stage_label(stage)@ == s@,
            r is None ==> forall|stage: Stage| s@ != #[trigger] stage_label(stage)@,
    {
        if same_text(s, "source") {
            Some(Stage::Source)
        } else if same_text(s, "fetch") {
            Some(Stage::Fetch)
        } else if same_text(s, "decode") {
            Some(Stage::Decode)
        } else if same_text(s, "sink_dispatch") {
            Some(Stage::SinkDispatch)
        } else {
            None
        }
    }
}

/// A label names one stage, so that reading a label gives the stage that it was
/// written for.
pub proof fn law_stage_labels_distinct(a: Stage, b: Stage)
    requires
        stage_label(a)@ == stage_label(b)@,
    ensures
        a == b,
{
    reveal_strlit("source");
    reveal_strlit("fetch");
    reveal_strlit("decode");
    reveal_strlit("sink_dispatch");
    assert("source"@[0] == 's');
    assert("decode"@[0] == 'd');
    assert("source"@.len() == 6);
    assert("fetch"@.len() == 5);
    assert("decode"@.len() == 6);
    assert("sink_dispatch"@.len() == 13);
}

/// Every stage is among those listed, and is listed once.
pub proof fn law_every_stage_is_listed(stage: Stage)
    ensures
        stages_in_order().contains(stage),
        stages_in_order().no_duplicates(),
{
    let s = stages_in_order();
    match stage {
        Stage::Source => assert(s[0] == stage),
        Stage::Fetch => assert(s[1] == stage),
        Stage::Decode => assert(s[2] == stage),
        Stage::SinkDispatch => assert(s[3] == stage),
    }
}

/// How many workers each stage has.
#[derive(Debug, Clone, Copy, PartialEq, Eq, Structural)]
pub struct StageWorkerCounts {
    pub source: u32,
    pub fetch: u32,
    pub decode: u32,
    pub sink_dispatch: u32,
}

/// The workers of a stage.
pub open spec fn workers_of(counts: StageWorkerCounts, stage: Stage) -> u32 {
    match stage {
        Stage::Source => counts.source,
        Stage::Fetch => counts.fetch,
        Stage::Decode => counts.decode,
        Stage::SinkDispatch => counts.sink_dispatch,
    }
}

impl StageWorkerCounts {
    /// The counts of a run: one source, and the concurrency that the options
    /// give the other stages.
    pub fn of_run(
        fetch_concurrency: u32,
        decode_concurrency: u32,
        max_concurrent_commits: u32,
    ) -> (r:
        Self)
        ensures
            r == (StageWorkerCounts {
                source: 1,
                fetch: fetch_concurrency,
                decode: decode_concurrency,
                sink_dispatch: max_concurrent_commits,
            }),
    {
        StageWorkerCounts {
            source: 1,
            fetch: fetch_concurrency,
            decode: decode_concurrency,
            sink_dispatch: max_concurrent_commits,
        }
    }

    pub fn get(&self, stage: Stage) -> (r: u32)
        ensures
            r == workers_of(*self, stage),
    {
        match stage {
            Stage::Source => self.source,
            Stage::Fetch => self.fetch,
            Stage::Decode => self.decode,
            Stage::SinkDispatch => self.sink_dispatch,
        }
    }
}

/// Each stage is labelled by its own name, and by nothing else.
pub proof fn law_labels_are_the_names(stage: Stage, label: &'static str)
    requires
        call_ensures(Stage::as_label, (stage,), label),
    ensures
        label@ == "source"@ <==> stage == Stage::Source,
        label@ == "fetch"@ <==> stage == Stage::Fetch,
        label@ == "decode"@ <==> stage == Stage::Decode,
        label@ == "sink_dispatch"@ <==> stage == Stage::SinkDispatch,
        label@ == stage_label(stage)@,
{
    if label@ == "source"@ {
        law_stage_labels_distinct(stage, Stage::Source);
    }
    if label@ == "fetch"@ {
        law_stage_labels_distinct(stage, Stage::Fetch);
    }
    if label@ == "decode"@ {
        law_stage_labels_distinct(stage, Stage::Decode);
    }
    if label@ == "sink_dispatch"@ {
        law_stage_labels_distinct(stage, Stage::SinkDispatch);
    }
}

/// A run has one source, and as many workers in each other stage as it was given for
/// it.
pub proof fn law_workers_go_to_their_stage(
    fetch: u32,
    decode: u32,
    commits: u32,
    counts: StageWorkerCounts,
    asked: (u32, u32, u32, u32),
)
    requires
        call_ensures(StageWorkerCounts::of_run, (fetch, decode, commits), counts),
        call_ensures(StageWorkerCounts::get, (&counts, Stage::Source), asked.0),
        call_ensures(StageWorkerCounts::get, (&counts, Stage::Fetch), asked.1),
        call_ensures(StageWorkerCounts::get, (&counts, Stage::Decode), asked.2),
        call_ensures(StageWorkerCounts::get, (&counts, Stage::SinkDispatch), asked.3),
    ensures
        asked == (1u32, fetch, decode, commits),
        counts.source == 1,
        counts.fetch == fetch,
        counts.decode == decode,
        counts.sink_dispatch == commits,
{
}

} // verus!
