//! What a migration did.

use std::path::PathBuf;
use crate::text::copy_text;
use vstd::prelude::*;

verus! {

/// A store that was copied into a project's store.
#[derive(Debug, Clone, PartialEq, Eq)]
pub struct LegacyHermesMigration {
    pub source_db: PathBuf,
    pub target_project: PathBuf,
    pub rows_copied: u64,
}

/// A store that was not copied, and why.
#[derive(Debug, Clone, PartialEq, Eq)]
pub struct LegacyHermesMigrationIssue {
    pub source_db: PathBuf,
    pub reason: String,
}

/// What became of every store that was found.
#[derive(Debug, Clone, PartialEq, Eq)]
pub struct LegacyHermesMigrationReport {
    pub migrated: Vec<LegacyHermesMigration>,
    pub already_migrated: Vec<LegacyHermesMigration>,
    pub unresolved: Vec<LegacyHermesMigrationIssue>,
    pub failed: Vec<LegacyHermesMigrationIssue>,
}

/// What became of one store.
pub enum CandidateOutcome {
    Migrated(LegacyHermesMigration),
    AlreadyMigrated(LegacyHermesMigration),
}

/// Why one store was not copied: its project is not known, or something failed.
pub enum CandidateError {
    Unresolved(String),
    Failed(String),
}

/// What an [`LegacyHermesMigrationIssue`] says.
pub open spec fn issue_is(
    issue: LegacyHermesMigrationIssue,
    source_db: PathBuf,
    reason: Seq<char>,
) -> bool {
    issue.source_db == source_db && issue.reason@ == reason
}

/// What a [`LegacyHermesMigrationReport`] tells.
pub struct ReportView {
    pub migrated: Seq<LegacyHermesMigration>,
    pub already_migrated: Seq<LegacyHermesMigration>,
    pub unresolved: Seq<LegacyHermesMigrationIssue>,
    pub failed: Seq<LegacyHermesMigrationIssue>,
}

impl View for LegacyHermesMigrationReport {
    type V = ReportView;

    open spec fn view(&self) -> ReportView {
        ReportView {
            migrated: self.migrated@,
            already_migrated: self.already_migrated@,
            unresolved: self.unresolved@,
            failed: self.failed@,
        }
    }
}

/// The report that tells of no store.
pub open spec fn empty_report() -> ReportView {
    ReportView { migrated: seq![], already_migrated: seq![], unresolved: seq![], failed: seq![] }
}

impl Default for LegacyHermesMigrationReport {
    fn default() -> (r: Self)
        ensures
            r@ == empty_report(),
    {
        let r = LegacyHermesMigrationReport {
            migrated: Vec::new(),
            already_migrated: Vec::new(),
            unresolved: Vec::new(),
            failed: Vec::new(),
        };
        assert(r@.migrated == empty_report().migrated);
        assert(r@.already_migrated == empty_report().already_migrated);
        assert(r@.unresolved == empty_report().unresolved);
        assert(r@.failed == empty_report().failed);
        r
    }
}

/// A report with the result of one more store, in the list that the result
/// belongs to.
pub open spec fn with_result(
    report: ReportView,
    source_db: PathBuf,
    result: Result<CandidateOutcome, CandidateError>,
) -> ReportView {
    match result {
        Ok(CandidateOutcome::Migrated(m)) => ReportView {
            migrated: report.migrated.push(m),
            ..report
        },
        Ok(CandidateOutcome::AlreadyMigrated(m)) => ReportView {
            already_migrated: report.already_migrated.push(m),
            ..report
        },
        Err(CandidateError::Unresolved(reason)) => ReportView {
            unresolved: report.unresolved.push(LegacyHermesMigrationIssue { source_db, reason }),
            ..report
        },
        Err(CandidateError::Failed(reason)) => ReportView {
            failed: report.failed.push(LegacyHermesMigrationIssue { source_db, reason }),
            ..report
        },
    }
}

/// The report on stores with their results, one after the other.
pub open spec fn reported(
    results: Seq<(PathBuf, Result<CandidateOutcome, CandidateError>)>,
) -> ReportView
    decreases results.len(),
{
    if results.len() == 0 {
        empty_report()
    } else {
        with_result(reported(results.drop_last()), results.last().0, results.last().1)
    }
}

impl LegacyHermesMigrationReport {
    /// Adds the result of one store.
    pub fn record(&mut self, source_db: PathBuf, result: Result<CandidateOutcome, CandidateError>)
        ensures
            final(self)@ == with_result(old(self)@, source_db, result),
    {
        match result {
            Ok(CandidateOutcome::Migrated(m)) => self.migrated.push(m),
            Ok(CandidateOutcome::AlreadyMigrated(m)) => self.already_migrated.push(m),
            Err(CandidateError::Unresolved(reason)) => {
                self.unresolved.push(LegacyHermesMigrationIssue { source_db, reason })
            },
            Err(CandidateError::Failed(reason)) => {
                self.failed.push(LegacyHermesMigrationIssue { source_db, reason })
            },
        }
    }

    /// The report when the place of the user's own stores is not known.
    pub fn without_profile(source_db: PathBuf) -> (r: Self)
        ensures
            r.migrated@.len() == 0,
            r.already_migrated@.len() == 0,
            r.unresolved@.len() == 0,
            r.failed@.len() == 1,
            issue_is(
                r.failed@[0],
                source_db,
                "could not resolve the TraceDecay user-profile store"@,
            ),
    {
        let mut report = LegacyHermesMigrationReport::default();
        report.failed.push(
            LegacyHermesMigrationIssue {
                source_db,
                reason: copy_text("could not resolve the TraceDecay user-profile store"),
            },
        );
        report
    }
}

/// The entry that a store adds to the migrated ones.
pub open spec fn as_migrated(
    entry: (PathBuf, Result<CandidateOutcome, CandidateError>),
) -> Option<LegacyHermesMigration> {
    match entry.1 {
        Ok(CandidateOutcome::Migrated(m)) => Some(m),
        _ => None,
    }
}

/// The entry that a store adds to those migrated before.
pub open spec fn as_already_migrated(
    entry: (PathBuf, Result<CandidateOutcome, CandidateError>),
) -> Option<LegacyHermesMigration> {
    match entry.1 {
        Ok(CandidateOutcome::AlreadyMigrated(m)) => Some(m),
        _ => None,
    }
}

/// The entry that a store adds to those without a project.
pub open spec fn as_unresolved(
    entry: (PathBuf, Result<CandidateOutcome, CandidateError>),
) -> Option<LegacyHermesMigrationIssue> {
    match entry.1 {
        Err(CandidateError::Unresolved(reason)) => Some(
            LegacyHermesMigrationIssue { source_db: entry.0, reason },
        ),
        _ => None,
    }
}

/// The entry that a store adds to the failed ones.
pub open spec fn as_failed(
    entry: (PathBuf, Result<CandidateOutcome, CandidateError>),
) -> Option<LegacyHermesMigrationIssue> {
    match entry.1 {
        Err(CandidateError::Failed(reason)) => Some(
            LegacyHermesMigrationIssue { source_db: entry.0, reason },
        ),
        _ => None,
    }
}

/// What `pick` finds in entries, in their order.
pub open spec fn picked<A, B>(entries: Seq<A>, pick: spec_fn(A) -> Option<B>) -> Seq<B> {
    entries.filter(|entry: A| pick(entry) is Some).map_values(|entry: A| pick(entry)->0)
}

proof fn picked_next<A, B>(entries: Seq<A>, pick: spec_fn(A) -> Option<B>)
    requires
        entries.len() > 0,
    ensures
        picked(entries, pick) == match pick(entries.last()) {
            Some(found) => picked(entries.drop_last(), pick).push(found),
            None => picked(entries.drop_last(), pick),
        },
{
    reveal(Seq::filter);
    let found = |entry: A| pick(entry) is Some;
    let front = entries.drop_last().filter(found);
    let got = |entry: A| pick(entry)->0;
    if pick(entries.last()) is Some {
        assert(entries.filter(found) == front.push(entries.last()));
        assert(front.push(entries.last()).map_values(got) == front.map_values(got).push(
            pick(entries.last())->0,
        ));
    }
}

/// Every store is told of once: each list holds what the stores with results of
/// its kind add to it, in the order of the stores, and the lists together have
/// as many entries as there are stores.
pub proof fn every_store_is_reported_once(
    results: Seq<(PathBuf, Result<CandidateOutcome, CandidateError>)>,
)
    ensures
        ({
            let report = reported(results);
            &&& report.migrated == picked(results, |entry| as_migrated(entry))
            &&& report.already_migrated == picked(results, |entry| as_already_migrated(entry))
            &&& report.unresolved == picked(results, |entry| as_unresolved(entry))
            &&& report.failed == picked(results, |entry| as_failed(entry))
            &&& report.migrated.len() + report.already_migrated.len() + report.unresolved.len()
                + report.failed.len() == results.len()
        }),
    decreases results.len(),
{
    if results.len() > 0 {
        every_store_is_reported_once(results.drop_last());
        picked_next(results, |entry| as_migrated(entry));
        picked_next(results, |entry| as_already_migrated(entry));
        picked_next(results, |entry| as_unresolved(entry));
        picked_next(results, |entry| as_failed(entry));
    } else {
        reveal(Seq::filter);
    }
}

/// Stores that were all migrated, and are found to be when they are migrated
/// again, make a second report that tells of the same migrations as done
/// before, in the same order, and of nothing else.
pub proof fn second_report_tells_of_the_first(
    first: Seq<(PathBuf, Result<CandidateOutcome, CandidateError>)>,
    second: Seq<(PathBuf, Result<CandidateOutcome, CandidateError>)>,
)
    requires
        first.len() == second.len(),
        forall|i: int|
            0 <= i < first.len() ==> ((#[trigger] first[i]).1 matches Ok(
                CandidateOutcome::Migrated(m),
            ) && second[i].1 == Ok::<CandidateOutcome, CandidateError>(
                CandidateOutcome::AlreadyMigrated(m),
            )),
    ensures
        reported(first) == (ReportView {
            migrated: reported(first).migrated,
            ..empty_report()
        }),
        reported(second) == (ReportView {
            already_migrated: reported(first).migrated,
            ..empty_report()
        }),
    decreases first.len(),
{
    if first.len() > 0 {
        let front = first.drop_last();
        let second_front = second.drop_last();
        assert forall|i: int| 0 <= i < front.len() implies ((#[trigger] front[i]).1 matches Ok(
            CandidateOutcome::Migrated(m),
        ) && second_front[i].1 == Ok::<CandidateOutcome, CandidateError>(
            CandidateOutcome::AlreadyMigrated(m),
        )) by {
            assert(front[i] == first[i]);
            assert(second_front[i] == second[i]);
        }
        second_report_tells_of_the_first(front, second_front);
        assert(first[first.len() - 1] == first.last());
        assert(second[second.len() - 1] == second.last());
    }
}

/// Each result goes to the list of its kind, at the end, and to no other; an
/// issue names its own store and its own reason.
pub proof fn results_go_to_their_list(
    results: Seq<(PathBuf, Result<CandidateOutcome, CandidateError>)>,
    source_db: PathBuf,
    m: LegacyHermesMigration,
    reason: String,
)
    ensures
        ({
            let before = reported(results);
            let migrated = reported(
                results.push((source_db, Ok(CandidateOutcome::Migrated(m)))),
            );
            let already = reported(
                results.push((source_db, Ok(CandidateOutcome::AlreadyMigrated(m)))),
            );
            let unresolved = reported(
                results.push((source_db, Err(CandidateError::Unresolved(reason)))),
            );
            let failed = reported(
                results.push((source_db, Err(CandidateError::Failed(reason)))),
            );
            &&& migrated == (ReportView { migrated: before.migrated.push(m), ..before })
            &&& already == (ReportView {
                already_migrated: before.already_migrated.push(m),
                ..before
            })
            &&& unresolved.unresolved.drop_last() == before.unresolved
                && unresolved.unresolved.last().source_db == source_db
                && unresolved.unresolved.last().reason == reason && unresolved.failed
                == before.failed && unresolved.migrated == before.migrated
                && unresolved.already_migrated == before.already_migrated
            &&& failed.failed.drop_last() == before.failed && failed.failed.last().source_db
                == source_db && failed.failed.last().reason == reason && failed.unresolved
                == before.unresolved && failed.migrated == before.migrated
                && failed.already_migrated == before.already_migrated
        }),
{
    assert(results.push((source_db, Ok(CandidateOutcome::Migrated(m)))).drop_last() == results);
    assert(results.push((source_db, Ok(CandidateOutcome::AlreadyMigrated(m)))).drop_last()
        == results);
    assert(results.push((source_db, Err(CandidateError::Unresolved(reason)))).drop_last()
        == results);
    assert(results.push((source_db, Err(CandidateError::Failed(reason)))).drop_last() == results);
    let issue = LegacyHermesMigrationIssue { source_db, reason };
    assert(reported(results).unresolved.push(issue).drop_last() == reported(results).unresolved);
    assert(reported(results).failed.push(issue).drop_last() == reported(results).failed);
}

/// A report is seen with each of its lists under its own name.
pub proof fn reports_are_seen_as_they_are(report: LegacyHermesMigrationReport)
    ensures
        report@.migrated == report.migrated@,
        report@.already_migrated == report.already_migrated@,
        report@.unresolved == report.unresolved@,
        report@.failed == report.failed@,
{
}

} // verus!
