//! What a sweep over the workflow runs on disk makes of them.

pub mod files;
pub mod meta;
pub mod transcript;

use vstd::prelude::*;

verus! {

/// How many runs and agents a sweep stored.
#[derive(Debug, Clone, Copy, PartialEq, Eq, Structural)]
pub struct WorkflowIngestStats {
    pub runs_ingested: u64,
    pub agents_ingested: u64,
}

/// The sum, at most the greatest number.
pub open spec fn capped_sum(a: u64, b: u64) -> u64 {
    if a + b > u64::MAX {
        u64::MAX
    } else {
        (a + b) as u64
    }
}

/// Both counts together.
pub open spec fn merged_stats(
    a: WorkflowIngestStats,
    b: WorkflowIngestStats,
) -> WorkflowIngestStats {
    WorkflowIngestStats {
        runs_ingested: capped_sum(a.runs_ingested, b.runs_ingested),
        agents_ingested: capped_sum(a.agents_ingested, b.agents_ingested),
    }
}

/// Nothing stored.
pub open spec fn no_stats() -> WorkflowIngestStats {
    WorkflowIngestStats { runs_ingested: 0, agents_ingested: 0 }
}

impl Default for WorkflowIngestStats {
    fn default() -> (r: Self)
        ensures
            r == no_stats(),
    {
        WorkflowIngestStats { runs_ingested: 0, agents_ingested: 0 }
    }
}

impl WorkflowIngestStats {
    /// Both counts together.
    #[must_use]
    pub fn merge(self, other: Self) -> (r: Self)
        ensures
            r == merged_stats(self, other),
    {
        WorkflowIngestStats {
            runs_ingested: self.runs_ingested.saturating_add(other.runs_ingested),
            agents_ingested: self.agents_ingested.saturating_add(other.agents_ingested),
        }
    }
}

/// Merging is commutative and associative, and an empty count changes nothing.
pub proof fn merging_is_a_sum(
    a: WorkflowIngestStats,
    b: WorkflowIngestStats,
    c: WorkflowIngestStats,
)
    ensures
        merged_stats(a, b) == merged_stats(b, a),
        merged_stats(merged_stats(a, b), c) == merged_stats(a, merged_stats(b, c)),
        merged_stats(a, no_stats()) == a,
{
}

/// What storing one run with its agents counts.
pub fn run_stats(agents: u64) -> (r: WorkflowIngestStats)
    ensures
        r == (WorkflowIngestStats { runs_ingested: 1, agents_ingested: agents }),
{
    WorkflowIngestStats { runs_ingested: 1, agents_ingested: agents }
}

/// A sweep under way: the watermark it started with, the newest time of a run
/// that it looked at, and what it stored.
#[derive(Debug, Clone, Copy, PartialEq, Eq, Structural)]
pub struct Sweep {
    pub watermark: i64,
    pub max_mtime: i64,
    pub stats: WorkflowIngestStats,
}

/// What a sweep found of one run: its time, whether it belongs to the project,
/// and what storing it counted, unless that failed.
#[derive(Debug, Clone, Copy)]
pub struct RunOutcome {
    pub mtime: i64,
    pub in_project: bool,
    pub stored: Option<WorkflowIngestStats>,
}

/// Before the first run.
pub open spec fn sweep_start(watermark: i64) -> Sweep {
    Sweep { watermark, max_mtime: watermark, stats: no_stats() }
}

/// Whether a run has to be looked at: its time is not known, or it is newer
/// than the watermark.
pub open spec fn is_due(watermark: i64, mtime: i64) -> bool {
    !(mtime > 0 && mtime <= watermark)
}

/// The sweep after one more run. Only a run that is due and belongs to the
/// project counts and moves the watermark.
pub open spec fn swept_run(sweep: Sweep, run: RunOutcome) -> Sweep {
    if is_due(sweep.watermark, run.mtime) && run.in_project {
        Sweep {
            watermark: sweep.watermark,
            max_mtime: if run.mtime > sweep.max_mtime {
                run.mtime
            } else {
                sweep.max_mtime
            },
            stats: match run.stored {
                Some(stats) => merged_stats(sweep.stats, stats),
                None => sweep.stats,
            },
        }
    } else {
        sweep
    }
}

/// The sweep after runs, one after the other.
pub open spec fn swept(watermark: i64, runs: Seq<RunOutcome>) -> Sweep
    decreases runs.len(),
{
    if runs.len() == 0 {
        sweep_start(watermark)
    } else {
        swept_run(swept(watermark, runs.drop_last()), runs.last())
    }
}

/// The watermark to store after a sweep, when it has moved.
pub open spec fn moved_watermark(sweep: Sweep) -> Option<i64> {
    if sweep.max_mtime > sweep.watermark {
        Some(sweep.max_mtime)
    } else {
        None
    }
}

impl Sweep {
    /// Begins a sweep.
    pub fn new(watermark: i64) -> (r: Sweep)
        ensures
            r == sweep_start(watermark),
    {
        Sweep { watermark, max_mtime: watermark, stats: WorkflowIngestStats::default() }
    }

    /// Whether the run with this time has to be looked at.
    pub fn wants(&self, mtime: i64) -> (r: bool)
        ensures
            r == is_due(self.watermark, mtime),
    {
        !(mtime > 0 && mtime <= self.watermark)
    }

    /// Records one more run.
    pub fn record(&mut self, run: RunOutcome)
        ensures
            *final(self) == swept_run(*old(self), run),
    {
        if !self.wants(run.mtime) || !run.in_project {
            return ;
        }
        if run.mtime > self.max_mtime {
            self.max_mtime = run.mtime;
        }
        match run.stored {
            Some(stats) => {
                self.stats = self.stats.merge(stats);
            },
            None => {},
        }
    }

    /// The watermark to store, when it has moved.
    pub fn new_watermark(&self) -> (r: Option<i64>)
        ensures
            r == moved_watermark(*self),
    {
        if self.max_mtime > self.watermark {
            Some(self.max_mtime)
        } else {
            None
        }
    }
}

/// The sweep over runs, one after the other.
pub fn sweep_runs(watermark: i64, runs: &Vec<RunOutcome>) -> (r: Sweep)
    ensures
        r == swept(watermark, runs@),
{
    let mut sweep = Sweep::new(watermark);
    let mut i: usize = 0;
    assert(runs@.take(0) == Seq::<RunOutcome>::empty());
    while i < runs.len()
        invariant
            i <= runs@.len(),
            sweep == swept(watermark, runs@.take(i as int)),
        decreases runs@.len() - i,
    {
        proof {
            assert(runs@.take(i as int + 1).drop_last() == runs@.take(i as int));
            assert(runs@.take(i as int + 1).last() == runs@[i as int]);
        }
        sweep.record(runs[i]);
        i += 1;
    }
    assert(runs@.take(runs@.len() as int) == runs@);
    sweep
}

/// The runs of a project among runs.
pub open spec fn project_runs(runs: Seq<RunOutcome>) -> Seq<RunOutcome> {
    runs.filter(|run: RunOutcome| run.in_project)
}

/// Runs of other projects neither count nor move the watermark: a sweep over
/// all runs comes to what a sweep over the project's own runs comes to.
pub proof fn other_projects_change_nothing(watermark: i64, runs: Seq<RunOutcome>)
    ensures
        swept(watermark, runs) == swept(watermark, project_runs(runs)),
    decreases runs.len(),
{
    reveal(Seq::filter);
    let own = |run: RunOutcome| run.in_project;
    if runs.len() > 0 {
        other_projects_change_nothing(watermark, runs.drop_last());
        let front = runs.drop_last().filter(own);
        if runs.last().in_project {
            assert(runs.filter(own) == front.push(runs.last()));
            assert(front.push(runs.last()).drop_last() == front);
        }
    }
}

/// After a sweep the watermark stands where it stood, or at the time of one of
/// the project's runs; no run of the project is newer.
pub proof fn watermark_is_newest_of_project(watermark: i64, runs: Seq<RunOutcome>)
    ensures
        swept(watermark, runs).watermark == watermark,
        swept(watermark, runs).max_mtime >= watermark,
        swept(watermark, runs).max_mtime == watermark || exists|i: int|
            0 <= i < runs.len() && (#[trigger] runs[i]).in_project && runs[i].mtime == swept(
                watermark,
                runs,
            ).max_mtime,
        forall|i: int|
            0 <= i < runs.len() && (#[trigger] runs[i]).in_project ==> runs[i].mtime <= swept(
                watermark,
                runs,
            ).max_mtime,
    decreases runs.len(),
{
    if runs.len() > 0 {
        let front = runs.drop_last();
        watermark_is_newest_of_project(watermark, front);
        let before = swept(watermark, front);
        let after = swept(watermark, runs);
        if after.max_mtime == before.max_mtime && before.max_mtime != watermark {
            let i = choose|i: int|
                0 <= i < front.len() && (#[trigger] front[i]).in_project && front[i].mtime
                    == before.max_mtime;
            assert(runs[i] == front[i]);
        } else if after.max_mtime != before.max_mtime {
            assert(runs[runs.len() - 1].mtime == after.max_mtime);
        }
        assert forall|i: int| 0 <= i < runs.len() && (#[trigger] runs[i]).in_project implies runs[i].mtime
            <= after.max_mtime by {
            if i < front.len() {
                assert(front[i] == runs[i]);
            }
        }
    }
}

proof fn nothing_due_changes_nothing(watermark: i64, runs: Seq<RunOutcome>)
    requires
        forall|i: int|
            0 <= i < runs.len() && (#[trigger] runs[i]).in_project ==> !is_due(
                watermark,
                runs[i].mtime,
            ),
    ensures
        swept(watermark, runs) == sweep_start(watermark),
    decreases runs.len(),
{
    if runs.len() > 0 {
        let front = runs.drop_last();
        assert forall|i: int| 0 <= i < front.len() && (#[trigger] front[i]).in_project implies !is_due(
            watermark,
            front[i].mtime,
        ) by {
            assert(front[i] == runs[i]);
        }
        nothing_due_changes_nothing(watermark, front);
        assert(runs[runs.len() - 1] == runs.last());
    }
}

/// A second sweep over unchanged runs stores nothing where the times of the
/// project's runs are known, and leaves the watermark where the first one put it.
pub proof fn second_sweep_stores_nothing(watermark: i64, runs: Seq<RunOutcome>)
    requires
        forall|i: int|
            0 <= i < runs.len() && (#[trigger] runs[i]).in_project ==> runs[i].mtime > 0,
    ensures
        swept(swept(watermark, runs).max_mtime, runs).stats == no_stats(),
        moved_watermark(swept(swept(watermark, runs).max_mtime, runs)) is None,
{
    watermark_is_newest_of_project(watermark, runs);
    let next = swept(watermark, runs).max_mtime;
    assert forall|i: int| 0 <= i < runs.len() && (#[trigger] runs[i]).in_project implies !is_due(
        next,
        runs[i].mtime,
    ) by {}
    nothing_due_changes_nothing(next, runs);
}

/// A run of the project that changed after the last sweep is looked at again.
pub proof fn changed_run_is_due(watermark: i64, runs: Seq<RunOutcome>, mtime: i64)
    requires
        mtime > swept(watermark, runs).max_mtime,
    ensures
        is_due(swept(watermark, runs).max_mtime, mtime),
{
}

/// A run counts where it belongs to the project, is new or of unknown time, and
/// was stored: its runs are added to the runs and its agents to the agents.
/// Any other run leaves the counts as they were.
pub proof fn stored_runs_are_counted(watermark: i64, runs: Seq<RunOutcome>, run: RunOutcome)
    ensures
        ({
            let before = swept(watermark, runs).stats;
            let after = swept(watermark, runs.push(run)).stats;
            let counts = run.in_project && (run.mtime <= 0 || run.mtime > watermark);
            &&& counts ==> (run.stored matches Some(stored) ==> {
                &&& before.runs_ingested + stored.runs_ingested <= u64::MAX ==> after.runs_ingested
                    == before.runs_ingested + stored.runs_ingested
                &&& before.runs_ingested + stored.runs_ingested > u64::MAX ==> after.runs_ingested
                    == u64::MAX
                &&& before.agents_ingested + stored.agents_ingested <= u64::MAX
                    ==> after.agents_ingested == before.agents_ingested + stored.agents_ingested
                &&& before.agents_ingested + stored.agents_ingested > u64::MAX
                    ==> after.agents_ingested == u64::MAX
            })
            &&& !counts || run.stored is None ==> after == before
        }),
        swept(watermark, seq![]).stats.runs_ingested == 0,
        swept(watermark, seq![]).stats.agents_ingested == 0,
{
    assert(runs.push(run).drop_last() == runs);
    watermark_is_newest_of_project(watermark, runs);
}

/// The watermark moves if and only if the project has a run that is newer, and
/// then to the time of the newest, whether or not that run could be stored.
pub proof fn watermark_moves_to_the_newest(watermark: i64, runs: Seq<RunOutcome>, i: int)
    ensures
        moved_watermark(swept(watermark, runs)) is Some <==> exists|k: int|
            0 <= k < runs.len() && (#[trigger] runs[k]).in_project && runs[k].mtime > watermark,
        moved_watermark(swept(watermark, runs)) matches Some(moved) ==> moved > watermark && (0 <= i
            < runs.len() && runs[i].in_project ==> runs[i].mtime <= moved) && exists|k: int|
            0 <= k < runs.len() && (#[trigger] runs[k]).in_project && runs[k].mtime == moved,
{
    watermark_is_newest_of_project(watermark, runs);
}

} // verus!
