//! The migration of one store, from opening its source to the report.

use std::path::PathBuf;
use crate::migrate::hermes::merge::{merge_goes, merge_run, merged_stores_are_found_again, MergeEvent, MergeOutcome, StageView, TargetView};
use crate::migrate::hermes::report::{CandidateError, CandidateOutcome, LegacyHermesMigration};
use crate::migrate::hermes::source::{newer_error, newer_message, with_cause};
use crate::text::copy_text;
use vstd::prelude::*;

verus! {

/// What became of one store, as a mathematical object.
pub enum VerdictView {
    Migrated { source_db: PathBuf, target_project: PathBuf, rows: u64 },
    AlreadyMigrated { source_db: PathBuf, target_project: PathBuf, rows: u64 },
    Unresolved(Seq<char>),
    Failed(Seq<char>),
}

/// A result as a mathematical object.
pub open spec fn verdict_view(r: Result<CandidateOutcome, CandidateError>) -> VerdictView {
    match r {
        Ok(CandidateOutcome::Migrated(m)) => VerdictView::Migrated {
            source_db: m.source_db,
            target_project: m.target_project,
            rows: m.rows_copied,
        },
        Ok(CandidateOutcome::AlreadyMigrated(m)) => VerdictView::AlreadyMigrated {
            source_db: m.source_db,
            target_project: m.target_project,
            rows: m.rows_copied,
        },
        Err(CandidateError::Unresolved(e)) => VerdictView::Unresolved(e@),
        Err(CandidateError::Failed(e)) => VerdictView::Failed(e@),
    }
}

/// Where the migration of a store stands.
pub enum SnapshotStage {
    /// Open the source for reading.
    OpenSource,
    /// Begin a snapshot of the source.
    BeginSnapshot,
    /// Check that the source is sound.
    VerifySource,
    /// Read the schema version of the source.
    ReadVersion,
    /// Find the project that the source belongs to.
    ResolveTarget,
    /// Find the store of that project.
    ResolveLayout { target: PathBuf },
    /// Compute the fingerprint of the source.
    Fingerprint { target: PathBuf },
    /// Open the store of that project.
    OpenTarget { target: PathBuf, fingerprint: String },
    /// Merge the source into it.
    Merge { target: PathBuf, fingerprint: String },
    /// Close the snapshot of the source.
    CloseSnapshot(Result<CandidateOutcome, CandidateError>),
    /// The migration is over.
    Done(Result<CandidateOutcome, CandidateError>),
}

/// What a [`SnapshotStage`] is.
pub enum SnapshotView {
    OpenSource,
    BeginSnapshot,
    VerifySource,
    ReadVersion,
    ResolveTarget,
    ResolveLayout { target: PathBuf },
    Fingerprint { target: PathBuf },
    OpenTarget { target: PathBuf, fingerprint: Seq<char> },
    Merge { target: PathBuf, fingerprint: Seq<char> },
    CloseSnapshot(VerdictView),
    Done(VerdictView),
}

impl View for SnapshotStage {
    type V = SnapshotView;

    open spec fn view(&self) -> SnapshotView {
        match self {
            SnapshotStage::OpenSource => SnapshotView::OpenSource,
            SnapshotStage::BeginSnapshot => SnapshotView::BeginSnapshot,
            SnapshotStage::VerifySource => SnapshotView::VerifySource,
            SnapshotStage::ReadVersion => SnapshotView::ReadVersion,
            SnapshotStage::ResolveTarget => SnapshotView::ResolveTarget,
            SnapshotStage::ResolveLayout { target } => SnapshotView::ResolveLayout {
                target: *target,
            },
            SnapshotStage::Fingerprint { target } => SnapshotView::Fingerprint { target: *target },
            SnapshotStage::OpenTarget { target, fingerprint } => SnapshotView::OpenTarget {
                target: *target,
                fingerprint: fingerprint@,
            },
            SnapshotStage::Merge { target, fingerprint } => SnapshotView::Merge {
                target: *target,
                fingerprint: fingerprint@,
            },
            SnapshotStage::CloseSnapshot(r) => SnapshotView::CloseSnapshot(verdict_view(*r)),
            SnapshotStage::Done(r) => SnapshotView::Done(verdict_view(*r)),
        }
    }
}

/// What happened in the migration of a store.
pub enum SnapshotEvent {
    /// Whether the source could be opened.
    SourceOpened(bool),
    /// The snapshot was begun, or could not be.
    SnapshotBegun(Result<(), String>),
    /// The source is sound, or why it is not.
    SourceVerified(Result<(), String>),
    /// The schema version of the source.
    VersionRead(Result<i64, String>),
    /// The project that the source belongs to, or why it is not known.
    TargetResolved(Result<PathBuf, String>),
    /// Whether the project's store is the source itself, or why that is not
    /// known.
    LayoutResolved(Result<bool, String>),
    /// The fingerprint of the source.
    Fingerprinted(Result<String, String>),
    /// Whether the project's store could be opened.
    TargetOpened(bool),
    /// What the merge came to.
    Merged(Result<MergeOutcome, String>),
    /// The snapshot was closed, or could not be.
    SnapshotClosed(Result<(), String>),
}

/// The stage after an event; `None` for an event that does not belong to the
/// stage. From the snapshot on every end goes through closing it.
pub open spec fn snapshot_next(
    stage: SnapshotView,
    event: SnapshotEvent,
    source_db: PathBuf,
    supported: i64,
) -> Option<SnapshotView> {
    match (stage, event) {
        (SnapshotView::OpenSource, SnapshotEvent::SourceOpened(opened)) => Some(
            if opened {
                SnapshotView::BeginSnapshot
            } else {
                SnapshotView::Done(VerdictView::Failed("could not open source read-only"@))
            },
        ),
        (SnapshotView::BeginSnapshot, SnapshotEvent::SnapshotBegun(begun)) => Some(
            match begun {
                Ok(_) => SnapshotView::VerifySource,
                Err(e) => SnapshotView::Done(
                    VerdictView::Failed("could not snapshot source: "@ + e@),
                ),
            },
        ),
        (SnapshotView::VerifySource, SnapshotEvent::SourceVerified(verified)) => Some(
            match verified {
                Ok(_) => SnapshotView::ReadVersion,
                Err(e) => SnapshotView::CloseSnapshot(VerdictView::Failed(e@)),
            },
        ),
        (SnapshotView::ReadVersion, SnapshotEvent::VersionRead(version)) => Some(
            match version {
                Err(e) => SnapshotView::CloseSnapshot(VerdictView::Failed(e@)),
                Ok(v) => if v > supported {
                    SnapshotView::CloseSnapshot(VerdictView::Failed(newer_error(v, supported)))
                } else {
                    SnapshotView::ResolveTarget
                },
            },
        ),
        (SnapshotView::ResolveTarget, SnapshotEvent::TargetResolved(resolved)) => Some(
            match resolved {
                Ok(target) => SnapshotView::ResolveLayout { target },
                Err(e) => SnapshotView::CloseSnapshot(VerdictView::Unresolved(e@)),
            },
        ),
        (SnapshotView::ResolveLayout { target }, SnapshotEvent::LayoutResolved(same)) => Some(
            match same {
                Err(e) => SnapshotView::CloseSnapshot(
                    VerdictView::Failed("could not resolve target profile shard: "@ + e@),
                ),
                Ok(true) => SnapshotView::CloseSnapshot(
                    VerdictView::Failed(
                        "source and target session databases resolve to the same path"@,
                    ),
                ),
                Ok(false) => SnapshotView::Fingerprint { target },
            },
        ),
        (SnapshotView::Fingerprint { target }, SnapshotEvent::Fingerprinted(computed)) => Some(
            match computed {
                Ok(fingerprint) => SnapshotView::OpenTarget { target, fingerprint: fingerprint@ },
                Err(e) => SnapshotView::CloseSnapshot(VerdictView::Failed(e@)),
            },
        ),
        (
            SnapshotView::OpenTarget { target, fingerprint },
            SnapshotEvent::TargetOpened(opened),
        ) => Some(
            if opened {
                SnapshotView::Merge { target, fingerprint }
            } else {
                SnapshotView::CloseSnapshot(
                    VerdictView::Failed("could not open target session store"@),
                )
            },
        ),
        (SnapshotView::Merge { target, .. }, SnapshotEvent::Merged(merged)) => Some(
            SnapshotView::CloseSnapshot(
                match merged {
                    Err(e) => VerdictView::Failed(e@),
                    Ok(outcome) => if outcome.already_migrated {
                        VerdictView::AlreadyMigrated {
                            source_db,
                            target_project: target,
                            rows: outcome.rows_copied,
                        }
                    } else {
                        VerdictView::Migrated {
                            source_db,
                            target_project: target,
                            rows: outcome.rows_copied,
                        }
                    },
                },
            ),
        ),
        (SnapshotView::CloseSnapshot(verdict), SnapshotEvent::SnapshotClosed(closed)) => Some(
            SnapshotView::Done(
                match (verdict, closed) {
                    (VerdictView::Unresolved(e), _) => VerdictView::Unresolved(e),
                    (VerdictView::Failed(e), _) => VerdictView::Failed(e),
                    (_, Err(e)) => VerdictView::Failed(
                        "could not close source snapshot: "@ + e@,
                    ),
                    (_, Ok(_)) => verdict,
                },
            ),
        ),
        _ => None,
    }
}

fn failed(message: String) -> (r: Result<CandidateOutcome, CandidateError>)
    ensures
        verdict_view(r) == VerdictView::Failed(message@),
{
    Err(CandidateError::Failed(message))
}

fn close_failed(message: String) -> (r: SnapshotStage)
    ensures
        r@ == SnapshotView::CloseSnapshot(VerdictView::Failed(message@)),
{
    SnapshotStage::CloseSnapshot(failed(message))
}

/// The stage after the event, for the source at `source_db` and the newest
/// schema version that is supported.
pub fn migrate_candidate_step(
    stage: SnapshotStage,
    event: SnapshotEvent,
    source_db: &PathBuf,
    supported: i64,
) -> (r: SnapshotStage)
    requires
        snapshot_next(stage@, event, *source_db, supported) is Some,
    ensures
        snapshot_next(stage@, event, *source_db, supported) == Some(r@),
{
    match (stage, event) {
        (SnapshotStage::OpenSource, SnapshotEvent::SourceOpened(opened)) => if opened {
            SnapshotStage::BeginSnapshot
        } else {
            SnapshotStage::Done(failed(copy_text("could not open source read-only")))
        },
        (SnapshotStage::BeginSnapshot, SnapshotEvent::SnapshotBegun(begun)) => match begun {
            Ok(_) => SnapshotStage::VerifySource,
            Err(e) => SnapshotStage::Done(
                failed(with_cause("could not snapshot source: ", e.as_str())),
            ),
        },
        (SnapshotStage::VerifySource, SnapshotEvent::SourceVerified(verified)) => match verified {
            Ok(_) => SnapshotStage::ReadVersion,
            Err(e) => close_failed(e),
        },
        (SnapshotStage::ReadVersion, SnapshotEvent::VersionRead(version)) => match version {
            Err(e) => close_failed(e),
            Ok(v) => if v > supported {
                close_failed(newer_message(v, supported))
            } else {
                SnapshotStage::ResolveTarget
            },
        },
        (SnapshotStage::ResolveTarget, SnapshotEvent::TargetResolved(resolved)) => match resolved {
            Ok(target) => SnapshotStage::ResolveLayout { target },
            Err(e) => SnapshotStage::CloseSnapshot(Err(CandidateError::Unresolved(e))),
        },
        (SnapshotStage::ResolveLayout { target }, SnapshotEvent::LayoutResolved(same)) => match same {
            Err(e) => close_failed(
                with_cause("could not resolve target profile shard: ", e.as_str()),
            ),
            Ok(is_same) => if is_same {
                close_failed(
                    copy_text("source and target session databases resolve to the same path"),
                )
            } else {
                SnapshotStage::Fingerprint { target }
            },
        },
        (SnapshotStage::Fingerprint { target }, SnapshotEvent::Fingerprinted(computed)) => match computed {
            Ok(fingerprint) => SnapshotStage::OpenTarget { target, fingerprint },
            Err(e) => close_failed(e),
        },
        (
            SnapshotStage::OpenTarget { target, fingerprint },
            SnapshotEvent::TargetOpened(opened),
        ) => if opened {
            SnapshotStage::Merge { target, fingerprint }
        } else {
            close_failed(copy_text("could not open target session store"))
        },
        (SnapshotStage::Merge { target, .. }, SnapshotEvent::Merged(merged)) => match merged {
            Err(e) => close_failed(e),
            Ok(outcome) => {
                let migration = LegacyHermesMigration {
                    source_db: source_db.clone(),
                    target_project: target,
                    rows_copied: outcome.rows_copied,
                };
                SnapshotStage::CloseSnapshot(
                    if outcome.already_migrated {
                        Ok(CandidateOutcome::AlreadyMigrated(migration))
                    } else {
                        Ok(CandidateOutcome::Migrated(migration))
                    },
                )
            },
        },
        (SnapshotStage::CloseSnapshot(result), SnapshotEvent::SnapshotClosed(closed)) => {
            SnapshotStage::Done(
                match (result, closed) {
                    (Err(e), _) => Err(e),
                    (Ok(_), Err(e)) => failed(
                        with_cause("could not close source snapshot: ", e.as_str()),
                    ),
                    (Ok(outcome), Ok(_)) => Ok(outcome),
                },
            )
        },
        (stage, _) => stage,
    }
}

/// The stage after events; `None` where one does not belong.
pub open spec fn snapshot_run(
    events: Seq<SnapshotEvent>,
    source_db: PathBuf,
    supported: i64,
) -> Option<SnapshotView>
    decreases events.len(),
{
    if events.len() == 0 {
        Some(SnapshotView::OpenSource)
    } else {
        match snapshot_run(events.drop_last(), source_db, supported) {
            Some(stage) => snapshot_next(stage, events.last(), source_db, supported),
            None => None,
        }
    }
}

/// Whether events begin with the checks that a source must pass before its
/// project's store is opened: it could be opened and is sound, its version is
/// supported, it belongs to one project, and its project's store is another
/// file.
pub open spec fn checks_passed(
    events: Seq<SnapshotEvent>,
    target: PathBuf,
    supported: i64,
) -> bool {
    &&& events.len() >= 7
    &&& events[0] == SnapshotEvent::SourceOpened(true)
    &&& events[1] matches SnapshotEvent::SnapshotBegun(Ok(_))
    &&& events[2] matches SnapshotEvent::SourceVerified(Ok(_))
    &&& (events[3] matches SnapshotEvent::VersionRead(Ok(v)) && v <= supported)
    &&& events[4] == SnapshotEvent::TargetResolved(Ok(target))
    &&& events[5] == SnapshotEvent::LayoutResolved(Ok(false))
    &&& events[6] matches SnapshotEvent::Fingerprinted(Ok(_))
}

/// What holds of the events that lead to a stage.
pub open spec fn path_to(
    stage: SnapshotView,
    events: Seq<SnapshotEvent>,
    supported: i64,
) -> bool {
    &&& (stage is BeginSnapshot ==> events.len() == 1)
    &&& (stage is VerifySource ==> events.len() == 2)
    &&& (stage is ReadVersion ==> events.len() == 3)
    &&& (stage is ResolveTarget ==> events.len() == 4)
    &&& (stage is ResolveLayout ==> events.len() == 5)
    &&& (stage is Fingerprint ==> events.len() == 6)
    &&& (stage is OpenSource ==> events.len() == 0)
    &&& (stage is BeginSnapshot || stage is VerifySource || stage is ReadVersion
        || stage is ResolveTarget || stage is ResolveLayout || stage is Fingerprint ==> events[0]
        == SnapshotEvent::SourceOpened(true))
    &&& (stage is VerifySource || stage is ReadVersion || stage is ResolveTarget
        || stage is ResolveLayout
        || stage is Fingerprint ==> events[1] matches SnapshotEvent::SnapshotBegun(Ok(_)))
    &&& (stage is ReadVersion || stage is ResolveTarget || stage is ResolveLayout
        || stage is Fingerprint ==> events[2] matches SnapshotEvent::SourceVerified(Ok(_)))
    &&& (stage is ResolveTarget || stage is ResolveLayout
        || stage is Fingerprint ==> (events[3] matches SnapshotEvent::VersionRead(Ok(v)) && v
        <= supported))
    &&& (stage matches SnapshotView::ResolveLayout { target } ==> events[4]
        == SnapshotEvent::TargetResolved(Ok(target)))
    &&& (stage matches SnapshotView::Fingerprint { target } ==> events[4]
        == SnapshotEvent::TargetResolved(Ok(target)) && events[5] == SnapshotEvent::LayoutResolved(
        Ok(false),
    ))
    &&& (stage matches SnapshotView::OpenTarget { target, .. } ==> events.len() == 7
        && checks_passed(events, target, supported))
    &&& (stage matches SnapshotView::Merge { target, .. } ==> events.len() == 8 && checks_passed(
        events,
        target,
        supported,
    ))
}

proof fn path_always_fits(events: Seq<SnapshotEvent>, source_db: PathBuf, supported: i64)
    requires
        snapshot_run(events, source_db, supported) is Some,
    ensures
        path_to(snapshot_run(events, source_db, supported)->0, events, supported),
    decreases events.len(),
{
    if events.len() > 0 {
        let front = events.drop_last();
        path_always_fits(front, source_db, supported);
        assert(forall|i: int| 0 <= i < front.len() ==> front[i] == events[i]);
        assert(events[events.len() - 1] == events.last());
    }
}

/// The store of a project is opened, and later written, only after every check
/// of the source has passed: nothing is touched for a source that is unsound,
/// newer than supported, or not clearly one project's.
pub proof fn targets_are_opened_after_all_checks(
    events: Seq<SnapshotEvent>,
    source_db: PathBuf,
    supported: i64,
    target: PathBuf,
    fingerprint: Seq<char>,
)
    requires
        snapshot_run(events, source_db, supported) == Some(
            SnapshotView::OpenTarget { target, fingerprint },
        ) || snapshot_run(events, source_db, supported) == Some(
            SnapshotView::Merge { target, fingerprint },
        ),
    ensures
        checks_passed(events, target, supported),
{
    path_always_fits(events, source_db, supported);
}

/// A store of a newer version than is supported fails.
pub proof fn newer_stores_are_refused(
    version: i64,
    supported: i64,
    source_db: PathBuf,
)
    requires
        version > supported,
    ensures
        snapshot_next(
            SnapshotView::ReadVersion,
            SnapshotEvent::VersionRead(Ok(version)),
            source_db,
            supported,
        ) == Some(
            SnapshotView::CloseSnapshot(VerdictView::Failed(newer_error(version, supported))),
        ),
{
}

/// Once a snapshot is begun it is closed: no event leads past closing it to the
/// end.
pub proof fn begun_snapshots_are_closed(
    stage: SnapshotView,
    event: SnapshotEvent,
    source_db: PathBuf,
    supported: i64,
)
    requires
        !(stage is OpenSource),
        !(stage is BeginSnapshot),
        snapshot_next(stage, event, source_db, supported) matches Some(next) && next is Done,
    ensures
        stage is CloseSnapshot,
        event is SnapshotClosed,
{
}

/// Whether a merge came to a result.
pub open spec fn merge_came_to(
    fail_after: Option<Seq<char>>,
    events: Seq<MergeEvent>,
    result: Result<MergeOutcome, String>,
) -> bool {
    merge_run(fail_after, events) matches Some(m) && m.stage == StageView::Done(
        match result {
            Ok(outcome) => Ok(outcome),
            Err(e) => Err(e@),
        },
    )
}

proof fn migrated_stores_were_merged(
    events: Seq<SnapshotEvent>,
    source_db: PathBuf,
    supported: i64,
    target_project: PathBuf,
    rows: u64,
)
    requires
        snapshot_run(events, source_db, supported) == Some(
            SnapshotView::Done(VerdictView::Migrated { source_db, target_project, rows }),
        ),
    ensures
        events.len() == 10,
        events[8] == SnapshotEvent::Merged(
            Ok(MergeOutcome { already_migrated: false, rows_copied: rows }),
        ),
        snapshot_run(events.take(8), source_db, supported) matches Some(stage) && (
        stage matches SnapshotView::Merge { target, .. } && target == target_project),
{
    let closing = events.drop_last();
    let merging = closing.drop_last();
    assert(snapshot_run(closing, source_db, supported) is Some);
    assert(snapshot_run(merging, source_db, supported) is Some);
    path_always_fits(merging, source_db, supported);
    assert(closing.last() == events[closing.len() - 1]);
    assert(events.take(8) == merging);
}

/// A store that was migrated is reported as migrated before, with the same
/// project and the same rows, when it is migrated again: given that the source
/// passes the same checks, that the target is as the first migration left it,
/// and that its marker can be read. The target is then left as it is.
pub proof fn migrated_stores_are_reported_again<R>(
    source_db: PathBuf,
    supported: i64,
    target_project: PathBuf,
    rows: u64,
    events: Seq<SnapshotEvent>,
    merge_events: Seq<MergeEvent>,
    targets: Seq<TargetView<R>>,
    next_events: Seq<SnapshotEvent>,
    next_merge_events: Seq<MergeEvent>,
    next_targets: Seq<TargetView<R>>,
)
    requires
        snapshot_run(events, source_db, supported) == Some(
            SnapshotView::Done(VerdictView::Migrated { source_db, target_project, rows }),
        ),
        events[8] matches SnapshotEvent::Merged(result) && merge_came_to(
            None,
            merge_events,
            result,
        ),
        merge_goes(None, merge_events, targets),
        targets[0].saved is None,
        next_events.len() == 10,
        next_events.take(8) == events.take(8),
        next_events[8] matches SnapshotEvent::Merged(result) && merge_came_to(
            None,
            next_merge_events,
            result,
        ),
        next_events[9] matches SnapshotEvent::SnapshotClosed(Ok(_)),
        merge_goes(None, next_merge_events, next_targets),
        next_targets[0] == targets.last(),
        next_merge_events.len() > 0,
        next_merge_events[0] matches MergeEvent::MarkerRead(Ok(_)),
    ensures
        snapshot_run(next_events, source_db, supported) == Some(
            SnapshotView::Done(VerdictView::AlreadyMigrated { source_db, target_project, rows }),
        ),
        next_targets.last() == targets.last(),
{
    migrated_stores_were_merged(events, source_db, supported, target_project, rows);
    merged_stores_are_found_again(
        None,
        merge_events,
        targets,
        None,
        next_merge_events,
        next_targets,
    );
    let closing = next_events.drop_last();
    assert(closing.drop_last() == next_events.take(8));
    assert(closing.last() == next_events[8]);
    assert(next_events.last() == next_events[9]);
    assert(snapshot_run(closing, source_db, supported) == Some(
        SnapshotView::CloseSnapshot(
            VerdictView::AlreadyMigrated { source_db, target_project, rows },
        ),
    ));
}

/// The verdict on a store: what the merge came to, with the store, its project
/// and the rows in their own places.
pub proof fn verdicts_tell_of_the_merge(
    target: PathBuf,
    fingerprint: Seq<char>,
    outcome: MergeOutcome,
    e: String,
    source_db: PathBuf,
    supported: i64,
)
    ensures
        ({
            let stage = SnapshotView::Merge { target, fingerprint };
            let merged = snapshot_next(stage, SnapshotEvent::Merged(Ok(outcome)), source_db, supported);
            let failed = snapshot_next(stage, SnapshotEvent::Merged(Err(e)), source_db, supported);
            &&& outcome.already_migrated ==> merged == Some(
                SnapshotView::CloseSnapshot(
                    VerdictView::AlreadyMigrated {
                        source_db,
                        target_project: target,
                        rows: outcome.rows_copied,
                    },
                ),
            )
            &&& !outcome.already_migrated ==> merged == Some(
                SnapshotView::CloseSnapshot(
                    VerdictView::Migrated {
                        source_db,
                        target_project: target,
                        rows: outcome.rows_copied,
                    },
                ),
            )
            &&& failed == Some(SnapshotView::CloseSnapshot(VerdictView::Failed(e@)))
        }),
{
}

/// A store is unresolved if and only if its target cannot be told; everything
/// else that goes wrong is a failure. Either is reported with its cause.
pub proof fn causes_are_reported(
    target: PathBuf,
    fingerprint: Seq<char>,
    e: String,
    source_db: PathBuf,
    supported: i64,
)
    ensures
        snapshot_next(
            SnapshotView::ResolveTarget,
            SnapshotEvent::TargetResolved(Err(e)),
            source_db,
            supported,
        ) == Some(SnapshotView::CloseSnapshot(VerdictView::Unresolved(e@))),
        snapshot_next(
            SnapshotView::OpenSource,
            SnapshotEvent::SourceOpened(false),
            source_db,
            supported,
        ) matches Some(SnapshotView::Done(VerdictView::Failed(_))),
        snapshot_next(
            SnapshotView::BeginSnapshot,
            SnapshotEvent::SnapshotBegun(Err(e)),
            source_db,
            supported,
        ) matches Some(SnapshotView::Done(VerdictView::Failed(m))) && e@.is_suffix_of(m),
        snapshot_next(
            SnapshotView::VerifySource,
            SnapshotEvent::SourceVerified(Err(e)),
            source_db,
            supported,
        ) == Some(SnapshotView::CloseSnapshot(VerdictView::Failed(e@))),
        snapshot_next(
            SnapshotView::ReadVersion,
            SnapshotEvent::VersionRead(Err(e)),
            source_db,
            supported,
        ) == Some(SnapshotView::CloseSnapshot(VerdictView::Failed(e@))),
        snapshot_next(
            SnapshotView::ResolveLayout { target },
            SnapshotEvent::LayoutResolved(Err(e)),
            source_db,
            supported,
        ) matches Some(SnapshotView::CloseSnapshot(VerdictView::Failed(m))) && e@.is_suffix_of(m),
        snapshot_next(
            SnapshotView::ResolveLayout { target },
            SnapshotEvent::LayoutResolved(Ok(true)),
            source_db,
            supported,
        ) matches Some(SnapshotView::CloseSnapshot(VerdictView::Failed(_))),
        snapshot_next(
            SnapshotView::Fingerprint { target },
            SnapshotEvent::Fingerprinted(Err(e)),
            source_db,
            supported,
        ) == Some(SnapshotView::CloseSnapshot(VerdictView::Failed(e@))),
        snapshot_next(
            SnapshotView::OpenTarget { target, fingerprint },
            SnapshotEvent::TargetOpened(false),
            source_db,
            supported,
        ) matches Some(SnapshotView::CloseSnapshot(VerdictView::Failed(_))),
{
}

/// The target and the fingerprint that were found are those that the merge works
/// with, and a store of a version that is supported is gone on with.
pub proof fn findings_are_passed_on(
    target: PathBuf,
    fingerprint: String,
    version: i64,
    source_db: PathBuf,
    supported: i64,
)
    ensures
        version <= supported ==> snapshot_next(
            SnapshotView::ReadVersion,
            SnapshotEvent::VersionRead(Ok(version)),
            source_db,
            supported,
        ) == Some(SnapshotView::ResolveTarget),
        snapshot_next(
            SnapshotView::ResolveTarget,
            SnapshotEvent::TargetResolved(Ok(target)),
            source_db,
            supported,
        ) == Some(SnapshotView::ResolveLayout { target }),
        snapshot_next(
            SnapshotView::ResolveLayout { target },
            SnapshotEvent::LayoutResolved(Ok(false)),
            source_db,
            supported,
        ) == Some(SnapshotView::Fingerprint { target }),
        snapshot_next(
            SnapshotView::Fingerprint { target },
            SnapshotEvent::Fingerprinted(Ok(fingerprint)),
            source_db,
            supported,
        ) == Some(SnapshotView::OpenTarget { target, fingerprint: fingerprint@ }),
        snapshot_next(
            SnapshotView::OpenTarget { target, fingerprint: fingerprint@ },
            SnapshotEvent::TargetOpened(true),
            source_db,
            supported,
        ) == Some(SnapshotView::Merge { target, fingerprint: fingerprint@ }),
{
}

/// Closing a snapshot changes no verdict where it succeeds, and never hides what
/// went wrong before; a success that cannot be closed is a failure.
pub proof fn closing_keeps_the_verdict(
    verdict: VerdictView,
    e: String,
    source_db: PathBuf,
    supported: i64,
)
    ensures
        snapshot_next(
            SnapshotView::CloseSnapshot(verdict),
            SnapshotEvent::SnapshotClosed(Ok(())),
            source_db,
            supported,
        ) == Some(SnapshotView::Done(verdict)),
        verdict is Unresolved || verdict is Failed ==> snapshot_next(
            SnapshotView::CloseSnapshot(verdict),
            SnapshotEvent::SnapshotClosed(Err(e)),
            source_db,
            supported,
        ) == Some(SnapshotView::Done(verdict)),
        verdict is Migrated || verdict is AlreadyMigrated ==> (snapshot_next(
            SnapshotView::CloseSnapshot(verdict),
            SnapshotEvent::SnapshotClosed(Err(e)),
            source_db,
            supported,
        ) matches Some(SnapshotView::Done(VerdictView::Failed(m))) && e@.is_suffix_of(m)),
{
}

/// A verdict is seen as what it is.
pub proof fn verdicts_are_seen_as_they_are(m: LegacyHermesMigration, e: String)
    ensures
        verdict_view(Ok(CandidateOutcome::Migrated(m))) == (VerdictView::Migrated {
            source_db: m.source_db,
            target_project: m.target_project,
            rows: m.rows_copied,
        }),
        verdict_view(Ok(CandidateOutcome::AlreadyMigrated(m))) == (VerdictView::AlreadyMigrated {
            source_db: m.source_db,
            target_project: m.target_project,
            rows: m.rows_copied,
        }),
        verdict_view(Err(CandidateError::Unresolved(e))) == VerdictView::Unresolved(e@),
        verdict_view(Err(CandidateError::Failed(e))) == VerdictView::Failed(e@),
{
}

} // verus!
