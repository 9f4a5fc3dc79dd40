//! Merging a source store into a target store: in one transaction, remembered
//! by a marker.

use std::path::PathBuf;
use crate::migrate::hermes::copy::{copied_table, copied_tables, TABLE_COUNT};
use crate::migrate::hermes::payload::reversed_paths;
use crate::migrate::hermes::source::with_cause;
use crate::json::{string_option, text_option};
use crate::text::same_text;
use vstd::prelude::*;

verus! {

/// What a merge came to.
#[derive(Debug, Clone, Copy, PartialEq, Eq, Structural)]
pub struct MergeOutcome {
    pub already_migrated: bool,
    pub rows_copied: u64,
}

/// Whether a failure is asked for after a table.
pub open spec fn injected_failure(table: Seq<char>, requested: Option<Seq<char>>) -> Option<
    Seq<char>,
> {
    if requested == Some(table) {
        Some("injected migration failure after "@ + table)
    } else {
        None
    }
}

/// The failure that is asked for after the table.
pub fn fail_after(table: &str, requested: Option<&str>) -> (r: Option<String>)
    ensures
        string_option(r) == injected_failure(table@, text_option(requested)),
{
    match requested {
        Some(name) => if same_text(name, table) {
            Some(with_cause("injected migration failure after ", table))
        } else {
            None
        },
        None => None,
    }
}

/// Where a merge stands.
pub enum MergeStage {
    /// Look for the marker of the source.
    ReadMarker,
    /// Begin the transaction on the target.
    Begin,
    /// Copy the payload files.
    CopyPayloads,
    /// Copy the table at this place.
    CopyTable(usize),
    /// Commit the transaction.
    Commit,
    /// Write the marker.
    WriteMarker,
    /// Roll the transaction back, because of this error.
    RollBack(String),
    /// Remove the payload files that were made, because of this error.
    RemovePayloads(String),
    /// The merge is over.
    Done(Result<MergeOutcome, String>),
}

/// What a [`MergeStage`] is.
pub enum StageView {
    ReadMarker,
    Begin,
    CopyPayloads,
    CopyTable(int),
    Commit,
    WriteMarker,
    RollBack(Seq<char>),
    RemovePayloads(Seq<char>),
    Done(Result<MergeOutcome, Seq<char>>),
}

impl View for MergeStage {
    type V = StageView;

    open spec fn view(&self) -> StageView {
        match self {
            MergeStage::ReadMarker => StageView::ReadMarker,
            MergeStage::Begin => StageView::Begin,
            MergeStage::CopyPayloads => StageView::CopyPayloads,
            MergeStage::CopyTable(k) => StageView::CopyTable(*k as int),
            MergeStage::Commit => StageView::Commit,
            MergeStage::WriteMarker => StageView::WriteMarker,
            MergeStage::RollBack(e) => StageView::RollBack(e@),
            MergeStage::RemovePayloads(e) => StageView::RemovePayloads(e@),
            MergeStage::Done(Ok(outcome)) => StageView::Done(Ok(*outcome)),
            MergeStage::Done(Err(e)) => StageView::Done(Err(e@)),
        }
    }
}

/// What happened in a merge.
pub enum MergeEvent {
    /// The marker was looked for: how many rows it tells of, if there is one.
    MarkerRead(Result<Option<u64>, String>),
    /// The transaction was begun, or could not be.
    Begun(Result<(), String>),
    /// The payload files were copied, or not; the files that were made.
    PayloadsCopied(Result<(), String>, Vec<PathBuf>),
    /// The table was copied; so many rows of the target changed.
    TableCopied(Result<u64, String>),
    /// The transaction was committed, or could not be.
    Committed(Result<(), String>),
    /// The transaction was rolled back.
    RolledBack,
    /// The payload files were removed.
    PayloadsRemoved,
    /// The marker was written, or could not be.
    MarkerWritten(Result<(), String>),
}

/// A merge under way.
pub struct Merge {
    pub stage: MergeStage,
    pub rows: u64,
    pub created: Vec<PathBuf>,
    pub fail_after: Option<String>,
}

/// What a [`Merge`] holds.
pub struct MergeView {
    pub stage: StageView,
    pub rows: int,
    pub created: Seq<PathBuf>,
    pub fail_after: Option<Seq<char>>,
}

impl View for Merge {
    type V = MergeView;

    open spec fn view(&self) -> MergeView {
        MergeView {
            stage: self.stage@,
            rows: self.rows as int,
            created: self.created@,
            fail_after: string_option(self.fail_after),
        }
    }
}

/// Before the first event.
pub open spec fn merge_start(fail_after: Option<Seq<char>>) -> MergeView {
    MergeView { stage: StageView::ReadMarker, rows: 0, created: seq![], fail_after }
}

/// The merge after an event; `None` for an event that does not belong to the
/// stage.
pub open spec fn merge_next(m: MergeView, event: MergeEvent) -> Option<MergeView> {
    match (m.stage, event) {
        (StageView::ReadMarker, MergeEvent::MarkerRead(read)) => Some(
            MergeView {
                stage: match read {
                    Err(e) => StageView::Done(Err(e@)),
                    Ok(Some(rows)) => StageView::Done(
                        Ok(MergeOutcome { already_migrated: true, rows_copied: rows }),
                    ),
                    Ok(None) => StageView::Begin,
                },
                ..m
            },
        ),
        (StageView::Begin, MergeEvent::Begun(begun)) => Some(
            MergeView {
                stage: match begun {
                    Err(e) => StageView::Done(
                        Err("could not begin target migration: "@ + e@),
                    ),
                    Ok(_) => StageView::CopyPayloads,
                },
                ..m
            },
        ),
        (StageView::CopyPayloads, MergeEvent::PayloadsCopied(copied, created)) => Some(
            MergeView {
                stage: match copied {
                    Err(e) => StageView::RollBack(e@),
                    Ok(_) => StageView::CopyTable(0),
                },
                created: created@,
                ..m
            },
        ),
        (StageView::CopyTable(k), MergeEvent::TableCopied(copied)) => Some(
            match copied {
                Err(e) => MergeView { stage: StageView::RollBack(e@), ..m },
                Ok(n) => MergeView {
                    stage: match injected_failure(copied_tables()[k], m.fail_after) {
                        Some(e) => StageView::RollBack(e),
                        None => if k + 1 >= TABLE_COUNT {
                            StageView::Commit
                        } else {
                            StageView::CopyTable(k + 1)
                        },
                    },
                    rows: m.rows + n,
                    ..m
                },
            },
        ),
        (StageView::Commit, MergeEvent::Committed(committed)) => Some(
            MergeView {
                stage: match committed {
                    Err(e) => StageView::RollBack("could not commit target migration: "@ + e@),
                    Ok(_) => StageView::WriteMarker,
                },
                ..m
            },
        ),
        (StageView::RollBack(e), MergeEvent::RolledBack) => Some(
            MergeView { stage: StageView::RemovePayloads(e), ..m },
        ),
        (StageView::RemovePayloads(e), MergeEvent::PayloadsRemoved) => Some(
            MergeView { stage: StageView::Done(Err(e)), ..m },
        ),
        (StageView::WriteMarker, MergeEvent::MarkerWritten(written)) => Some(
            MergeView {
                stage: match written {
                    Err(e) => StageView::Done(Err(e@)),
                    Ok(_) => StageView::Done(
                        Ok(
                            MergeOutcome {
                                already_migrated: false,
                                rows_copied: m.rows as u64,
                            },
                        ),
                    ),
                },
                ..m
            },
        ),
        _ => None,
    }
}

/// A stage that names a table names one of those that are copied.
pub open spec fn merge_stage_valid(m: MergeView) -> bool {
    m.stage matches StageView::CopyTable(k) ==> 0 <= k < TABLE_COUNT
}

impl Merge {
    /// Begins a merge.
    pub fn new(fail_after: Option<String>) -> (r: Merge)
        ensures
            r@ == merge_start(string_option(fail_after)),
            merge_stage_valid(r@),
    {
        let r = Merge { stage: MergeStage::ReadMarker, rows: 0, created: Vec::new(), fail_after };
        assert(r@.created == Seq::<PathBuf>::empty());
        r
    }

    /// Takes an event in.
    pub fn step(&mut self, event: MergeEvent)
        requires
            merge_stage_valid(old(self)@),
            merge_next(old(self)@, event) is Some,
            event matches MergeEvent::TableCopied(Ok(n)) ==> old(self).rows + n <= u64::MAX,
        ensures
            merge_next(old(self)@, event) == Some(final(self)@),
            merge_stage_valid(final(self)@),
    {
        match event {
            MergeEvent::MarkerRead(read) => {
                self.stage = match read {
                    Err(e) => MergeStage::Done(Err(e)),
                    Ok(Some(rows)) => MergeStage::Done(
                        Ok(MergeOutcome { already_migrated: true, rows_copied: rows }),
                    ),
                    Ok(None) => MergeStage::Begin,
                };
            },
            MergeEvent::Begun(begun) => {
                self.stage = match begun {
                    Err(e) => MergeStage::Done(
                        Err(with_cause("could not begin target migration: ", e.as_str())),
                    ),
                    Ok(_) => MergeStage::CopyPayloads,
                };
            },
            MergeEvent::PayloadsCopied(copied, created) => {
                self.created = created;
                self.stage = match copied {
                    Err(e) => MergeStage::RollBack(e),
                    Ok(_) => MergeStage::CopyTable(0),
                };
            },
            MergeEvent::TableCopied(copied) => {
                let k: usize = match &self.stage {
                    MergeStage::CopyTable(k) => *k,
                    _ => 0,
                };
                match copied {
                    Err(e) => {
                        self.stage = MergeStage::RollBack(e);
                    },
                    Ok(n) => {
                        self.rows = self.rows + n;
                        let requested = match &self.fail_after {
                            Some(name) => Some(name.as_str()),
                            None => None,
                        };
                        self.stage = match fail_after(copied_table(k), requested) {
                            Some(e) => MergeStage::RollBack(e),
                            None => if k + 1 >= TABLE_COUNT {
                                MergeStage::Commit
                            } else {
                                MergeStage::CopyTable(k + 1)
                            },
                        };
                    },
                }
            },
            MergeEvent::Committed(committed) => {
                self.stage = match committed {
                    Err(e) => MergeStage::RollBack(
                        with_cause("could not commit target migration: ", e.as_str()),
                    ),
                    Ok(_) => MergeStage::WriteMarker,
                };
            },
            MergeEvent::RolledBack => {
                let mut stage = MergeStage::Commit;
                std::mem::swap(&mut stage, &mut self.stage);
                self.stage = match stage {
                    MergeStage::RollBack(e) => MergeStage::RemovePayloads(e),
                    other => other,
                };
            },
            MergeEvent::PayloadsRemoved => {
                let mut stage = MergeStage::Commit;
                std::mem::swap(&mut stage, &mut self.stage);
                self.stage = match stage {
                    MergeStage::RemovePayloads(e) => MergeStage::Done(Err(e)),
                    other => other,
                };
            },
            MergeEvent::MarkerWritten(written) => {
                self.stage = match written {
                    Err(e) => MergeStage::Done(Err(e)),
                    Ok(_) => MergeStage::Done(
                        Ok(MergeOutcome { already_migrated: false, rows_copied: self.rows }),
                    ),
                };
            },
        }
    }

    /// The payload files to remove, the last one made first.
    pub fn payloads_to_remove(&self) -> (r: Vec<PathBuf>)
        ensures
            r@ == self@.created.reverse(),
    {
        reversed_paths(&self.created)
    }
}

/// The merge after events; `None` where one does not belong.
pub open spec fn merge_run(fail_after: Option<Seq<char>>, events: Seq<MergeEvent>) -> Option<MergeView>
    decreases events.len(),
{
    if events.len() == 0 {
        Some(merge_start(fail_after))
    } else {
        match merge_run(fail_after, events.drop_last()) {
            Some(m) => merge_next(m, events.last()),
            None => None,
        }
    }
}

/// How many rows events say have changed.
pub open spec fn rows_changed(events: Seq<MergeEvent>) -> int
    decreases events.len(),
{
    if events.len() == 0 {
        0
    } else {
        rows_changed(events.drop_last()) + match events.last() {
            MergeEvent::TableCopied(Ok(n)) => n as int,
            _ => 0,
        }
    }
}

/// How many tables events say were copied.
pub open spec fn tables_copied(events: Seq<MergeEvent>) -> int
    decreases events.len(),
{
    if events.len() == 0 {
        0
    } else {
        tables_copied(events.drop_last()) + match events.last() {
            MergeEvent::TableCopied(Ok(_)) => 1int,
            _ => 0,
        }
    }
}

/// Whether events say that the transaction was begun.
pub open spec fn was_begun(events: Seq<MergeEvent>) -> bool {
    exists|i: int| 0 <= i < events.len() && (#[trigger] events[i]) matches MergeEvent::Begun(Ok(_))
}

/// Whether events say that the transaction was committed.
pub open spec fn was_committed(events: Seq<MergeEvent>) -> bool {
    exists|i: int|
        0 <= i < events.len() && (#[trigger] events[i]) matches MergeEvent::Committed(Ok(_))
}

/// Whether events say that the transaction was rolled back.
pub open spec fn was_rolled_back(events: Seq<MergeEvent>) -> bool {
    exists|i: int| 0 <= i < events.len() && #[trigger] events[i] is RolledBack
}

/// Whether events say that the payload files were removed.
pub open spec fn were_removed(events: Seq<MergeEvent>) -> bool {
    exists|i: int| 0 <= i < events.len() && #[trigger] events[i] is PayloadsRemoved
}

/// Whether events say that a marker was written.
pub open spec fn was_marked(events: Seq<MergeEvent>) -> bool {
    exists|i: int|
        0 <= i < events.len() && (#[trigger] events[i]) matches MergeEvent::MarkerWritten(Ok(_))
}

/// What holds of the events that lead to a stage.
pub open spec fn history_fits(m: MergeView, events: Seq<MergeEvent>) -> bool {
    &&& m.rows == rows_changed(events)
    &&& merge_stage_valid(m)
    &&& match m.stage {
        StageView::ReadMarker => events.len() == 0,
        StageView::Begin => !was_begun(events) && !was_committed(events) && !was_marked(events)
            && !were_removed(events) && !was_rolled_back(events) && tables_copied(events) == 0,
        StageView::CopyPayloads => was_begun(events) && !was_committed(events) && !was_marked(
            events,
        ) && tables_copied(events) == 0,
        StageView::CopyTable(k) => was_begun(events) && !was_committed(events) && !was_marked(
            events,
        ) && tables_copied(events) == k,
        StageView::Commit => was_begun(events) && !was_committed(events) && !was_marked(events)
            && tables_copied(events) == TABLE_COUNT,
        StageView::WriteMarker => was_committed(events) && !was_marked(events) && tables_copied(
            events,
        ) == TABLE_COUNT,
        StageView::RollBack(_) => was_begun(events) && !was_committed(events) && !was_marked(events),
        StageView::RemovePayloads(_) => was_rolled_back(events) && !was_committed(events)
            && !was_marked(events),
        StageView::Done(Ok(outcome)) => outcome.already_migrated && !was_begun(events) || (
        !outcome.already_migrated && was_committed(events) && was_marked(events) && tables_copied(
            events,
        ) == TABLE_COUNT && outcome.rows_copied == m.rows as u64),
        StageView::Done(Err(_)) => !was_marked(events) && (was_begun(events) && !was_committed(
            events,
        ) ==> was_rolled_back(events) && were_removed(events)),
    }
}

proof fn flags_after(events: Seq<MergeEvent>, last: MergeEvent)
    ensures
        was_begun(events.push(last)) == (was_begun(events) || last matches MergeEvent::Begun(Ok(_))),
        was_committed(events.push(last)) == (was_committed(events)
            || last matches MergeEvent::Committed(Ok(_))),
        was_rolled_back(events.push(last)) == (was_rolled_back(events) || last is RolledBack),
        were_removed(events.push(last)) == (were_removed(events) || last is PayloadsRemoved),
        was_marked(events.push(last)) == (was_marked(events)
            || last matches MergeEvent::MarkerWritten(Ok(_))),
{
    let all = events.push(last);
    assert(all[events.len() as int] == last);
    assert(forall|i: int| 0 <= i < events.len() ==> all[i] == events[i]);
    if was_begun(events) {
        let i = choose|i: int|
            0 <= i < events.len() && (#[trigger] events[i]) matches MergeEvent::Begun(Ok(_));
        assert(all[i] == events[i]);
    }
    if was_committed(events) {
        let i = choose|i: int|
            0 <= i < events.len() && (#[trigger] events[i]) matches MergeEvent::Committed(Ok(_));
        assert(all[i] == events[i]);
    }
    if was_rolled_back(events) {
        let i = choose|i: int| 0 <= i < events.len() && #[trigger] events[i] is RolledBack;
        assert(all[i] == events[i]);
    }
    if were_removed(events) {
        let i = choose|i: int| 0 <= i < events.len() && #[trigger] events[i] is PayloadsRemoved;
        assert(all[i] == events[i]);
    }
    if was_marked(events) {
        let i = choose|i: int|
            0 <= i < events.len() && (#[trigger] events[i]) matches MergeEvent::MarkerWritten(
                Ok(_),
            );
        assert(all[i] == events[i]);
    }
}

proof fn history_always_fits(fail_after: Option<Seq<char>>, events: Seq<MergeEvent>)
    requires
        merge_run(fail_after, events) is Some,
    ensures
        history_fits(merge_run(fail_after, events)->0, events),
    decreases events.len(),
{
    if events.len() > 0 {
        let front = events.drop_last();
        history_always_fits(fail_after, front);
        assert(events == front.push(events.last()));
        flags_after(front, events.last());
        reveal_with_fuel(tables_copied, 2);
        reveal_with_fuel(rows_changed, 2);
    }
}

/// A merge that succeeds anew has committed the copies of all tables and left a
/// marker; it tells of exactly the rows that changed.
pub proof fn success_is_complete(fail_after: Option<Seq<char>>, events: Seq<MergeEvent>)
    requires
        merge_run(fail_after, events) matches Some(m) && (m.stage matches StageView::Done(
            Ok(outcome),
        ) && !outcome.already_migrated),
        rows_changed(events) <= u64::MAX,
    ensures
        was_committed(events),
        was_marked(events),
        tables_copied(events) == TABLE_COUNT,
        merge_run(fail_after, events)->0.stage->Done_0->Ok_0.rows_copied == rows_changed(events),
{
    history_always_fits(fail_after, events);
    rows_are_counted(events);
}

proof fn rows_are_counted(events: Seq<MergeEvent>)
    ensures
        rows_changed(events) >= 0,
    decreases events.len(),
{
    if events.len() > 0 {
        rows_are_counted(events.drop_last());
    }
}

/// A merge that fails has not reported a marker as written; a transaction that
/// was begun and not committed was rolled back, and the payload files were
/// removed.
pub proof fn failure_leaves_no_trace(fail_after: Option<Seq<char>>, events: Seq<MergeEvent>)
    requires
        merge_run(fail_after, events) matches Some(m) && m.stage matches StageView::Done(Err(_)),
    ensures
        !was_marked(events),
        was_begun(events) && !was_committed(events) ==> was_rolled_back(events) && were_removed(
            events,
        ),
{
    history_always_fits(fail_after, events);
}

/// A marker is only ever written for a transaction that was committed.
pub proof fn markers_follow_commits(fail_after: Option<Seq<char>>, events: Seq<MergeEvent>)
    requires
        merge_run(fail_after, events) matches Some(m) && m.stage is WriteMarker,
    ensures
        was_committed(events),
        tables_copied(events) == TABLE_COUNT,
{
    history_always_fits(fail_after, events);
}

/// A store with a marker is not copied again: the merge ends without a
/// transaction, with the rows that the marker tells of.
pub proof fn marked_stores_are_not_copied_again(fail_after: Option<Seq<char>>, rows: u64)
    ensures
        merge_run(fail_after, seq![MergeEvent::MarkerRead(Ok(Some(rows)))]) matches Some(m)
            && m.stage == StageView::Done(
            Ok(MergeOutcome { already_migrated: true, rows_copied: rows }),
        ),
{
    let events = seq![MergeEvent::MarkerRead(Ok(Some(rows)))];
    assert(events.drop_last() == Seq::<MergeEvent>::empty());
    assert(events.last() == MergeEvent::MarkerRead(Ok(Some(rows))));
    reveal_with_fuel(merge_run, 2);
}

// ---------------------------------------------------------------------------
// The target over whole runs.
// ---------------------------------------------------------------------------

/// A target store: its rows, those to which an open transaction goes back, the
/// paths at which there are payload files, and the rows of which the marker of
/// the source tells, if it has one.
pub struct TargetView<R> {
    pub rows: R,
    pub saved: Option<R>,
    pub paths: Set<PathBuf>,
    pub marker: Option<u64>,
}

/// What an event says of the target before and after it. Copying payloads makes
/// files only where there are none; rolling back brings back the rows from
/// before the transaction; a marker that could not be written to the end may
/// still have been published.
pub open spec fn merge_effect<R>(
    m: MergeView,
    event: MergeEvent,
    before: TargetView<R>,
    after: TargetView<R>,
) -> bool {
    match event {
        MergeEvent::MarkerRead(Ok(found)) => after == before && found == before.marker,
        MergeEvent::Begun(Ok(_)) => after == (TargetView {
            saved: Some(before.rows),
            ..before
        }),
        MergeEvent::PayloadsCopied(_, created) => {
            &&& after == (TargetView { paths: before.paths.union(created@.to_set()), ..before })
            &&& forall|i: int|
                0 <= i < created@.len() ==> !before.paths.contains(#[trigger] created@[i])
        },
        MergeEvent::TableCopied(_) => after == (TargetView { rows: after.rows, ..before }),
        MergeEvent::Committed(Ok(_)) => after == (TargetView { saved: None, ..before }),
        MergeEvent::RolledBack => before.saved matches Some(rows) && after == (TargetView {
            rows,
            saved: None,
            ..before
        }),
        MergeEvent::PayloadsRemoved => after == (TargetView {
            paths: before.paths.difference(m.created.to_set()),
            ..before
        }),
        MergeEvent::MarkerWritten(Ok(_)) => after == (TargetView {
            marker: Some(m.rows as u64),
            ..before
        }),
        MergeEvent::MarkerWritten(Err(_)) => after == (TargetView {
            marker: after.marker,
            ..before
        }) && (after.marker == before.marker || after.marker == Some(m.rows as u64)),
        _ => after == before,
    }
}

/// Whether events tell of one run: each belongs where it comes, and
/// `targets[i]` is the target before event `i`.
pub open spec fn merge_goes<R>(
    fail_after: Option<Seq<char>>,
    events: Seq<MergeEvent>,
    targets: Seq<TargetView<R>>,
) -> bool
    decreases events.len(),
{
    &&& targets.len() == events.len() + 1
    &&& merge_run(fail_after, events) is Some
    &&& events.len() > 0 ==> {
        &&& merge_goes(fail_after, events.drop_last(), targets.drop_last())
        &&& merge_effect(
            merge_run(fail_after, events.drop_last())->0,
            events.last(),
            targets[targets.len() - 2],
            targets[targets.len() - 1],
        )
    }
}

/// The target as it was before the transaction, but for files that were made.
spec fn grown<R>(m: MergeView, first: TargetView<R>, now: TargetView<R>) -> bool {
    &&& now.paths == first.paths.union(m.created.to_set())
    &&& first.paths.disjoint(m.created.to_set())
    &&& now.marker == first.marker
    &&& first.marker is None
}

/// What holds of the target at a stage.
spec fn target_fits<R>(
    m: MergeView,
    committed: bool,
    first: TargetView<R>,
    now: TargetView<R>,
) -> bool {
    match m.stage {
        StageView::ReadMarker => now == first,
        StageView::Begin => now == first && first.marker is None,
        StageView::CopyPayloads => first.marker is None && now == (TargetView {
            saved: Some(first.rows),
            ..first
        }),
        StageView::CopyTable(_) => grown(m, first, now) && now.saved == Some(first.rows),
        StageView::Commit => grown(m, first, now) && now.saved == Some(first.rows),
        StageView::RollBack(_) => grown(m, first, now) && now.saved == Some(first.rows),
        StageView::RemovePayloads(_) => grown(m, first, now) && now.saved is None && now.rows
            == first.rows,
        StageView::WriteMarker => grown(m, first, now) && now.saved is None && committed,
        StageView::Done(Ok(outcome)) => if outcome.already_migrated {
            now == first && first.marker == Some(outcome.rows_copied)
        } else {
            now.saved is None && first.marker is None && now.marker == Some(outcome.rows_copied)
        },
        StageView::Done(Err(_)) => committed || now == first,
    }
}

proof fn target_always_fits<R>(
    fail_after: Option<Seq<char>>,
    events: Seq<MergeEvent>,
    targets: Seq<TargetView<R>>,
)
    requires
        merge_goes(fail_after, events, targets),
        targets[0].saved is None,
    ensures
        target_fits(
            merge_run(fail_after, events)->0,
            was_committed(events),
            targets[0],
            targets.last(),
        ),
    decreases events.len(),
{
    if events.len() > 0 {
        let front = events.drop_last();
        let earlier = targets.drop_last();
        target_always_fits(fail_after, front, earlier);
        assert(events == front.push(events.last()));
        flags_after(front, events.last());
        let first = targets[0];
        let before = targets[targets.len() - 2];
        let now = targets[targets.len() - 1];
        assert(earlier[0] == first);
        assert(earlier.last() == before);
        assert(targets.last() == now);
        let m = merge_run(fail_after, front)->0;
        match events.last() {
            MergeEvent::PayloadsCopied(_, created) => {
                assert forall|p: PathBuf| created@.to_set().contains(p) implies !first.paths.contains(
                    p,
                ) by {
                    let i = choose|i: int| 0 <= i < created@.len() && created@[i] == p;
                    assert(!before.paths.contains(created@[i]));
                }
            },
            MergeEvent::PayloadsRemoved => {
                assert(now.paths =~= first.paths);
            },
            _ => {},
        }
    }
}

/// A merge that fails before its transaction is committed leaves the target as
/// it was: its rows, its payload files and its marker.
pub proof fn failed_merges_change_nothing<R>(
    fail_after: Option<Seq<char>>,
    events: Seq<MergeEvent>,
    targets: Seq<TargetView<R>>,
)
    requires
        merge_goes(fail_after, events, targets),
        targets[0].saved is None,
        merge_run(fail_after, events)->0.stage matches StageView::Done(Err(_)),
        !was_committed(events),
    ensures
        targets.last() == targets[0],
{
    target_always_fits(fail_after, events, targets);
}

/// Whether an event tells of a fault.
pub open spec fn is_fault(event: MergeEvent) -> bool {
    match event {
        MergeEvent::MarkerRead(Err(_)) => true,
        MergeEvent::Begun(Err(_)) => true,
        MergeEvent::PayloadsCopied(Err(_), _) => true,
        MergeEvent::TableCopied(Err(_)) => true,
        MergeEvent::Committed(Err(_)) => true,
        MergeEvent::MarkerWritten(Err(_)) => true,
        _ => false,
    }
}

/// The stage that a merge without faults has reached after `n` events.
spec fn smooth_stage(n: int) -> StageView {
    if n == 0 {
        StageView::ReadMarker
    } else if n == 1 {
        StageView::Begin
    } else if n == 2 {
        StageView::CopyPayloads
    } else if n < TABLE_COUNT + 3 {
        StageView::CopyTable(n - 3)
    } else if n == TABLE_COUNT + 3 {
        StageView::Commit
    } else {
        StageView::WriteMarker
    }
}

proof fn smooth_merges_go_on<R>(events: Seq<MergeEvent>, targets: Seq<TargetView<R>>)
    requires
        merge_goes(None, events, targets),
        targets[0].saved is None,
        targets[0].marker is None,
        forall|i: int| 0 <= i < events.len() ==> !is_fault(#[trigger] events[i]),
    ensures
        events.len() < TABLE_COUNT + 5 ==> merge_run(None, events)->0.stage == smooth_stage(
            events.len() as int,
        ),
        events.len() >= TABLE_COUNT + 5 ==> events.len() == TABLE_COUNT + 5 && merge_run(
            None,
            events,
        )->0.stage == StageView::Done(
            Ok(
                MergeOutcome {
                    already_migrated: false,
                    rows_copied: merge_run(None, events)->0.rows as u64,
                },
            ),
        ),
        merge_run(None, events)->0.fail_after is None,
    decreases events.len(),
{
    if events.len() > 0 {
        let front = events.drop_last();
        let earlier = targets.drop_last();
        assert(earlier[0] == targets[0]);
        assert(forall|i: int| 0 <= i < front.len() ==> front[i] == events[i]);
        assert(!is_fault(events[events.len() - 1]));
        smooth_merges_go_on(front, earlier);
        target_always_fits(None, front, earlier);
        assert(earlier.last() == targets[targets.len() - 2]);
    }
}

/// A merge into a target without a marker that meets no fault comes to an end
/// after its last event and succeeds anew; its marker tells of its rows.
pub proof fn faultless_merges_succeed<R>(events: Seq<MergeEvent>, targets: Seq<TargetView<R>>)
    requires
        merge_goes(None, events, targets),
        targets[0].saved is None,
        targets[0].marker is None,
        forall|i: int| 0 <= i < events.len() ==> !is_fault(#[trigger] events[i]),
    ensures
        events.len() <= TABLE_COUNT + 5,
        events.len() == TABLE_COUNT + 5 <==> merge_run(None, events)->0.stage is Done,
        merge_run(None, events)->0.stage matches StageView::Done(r) ==> (r matches Ok(outcome) && {
            &&& !outcome.already_migrated
            &&& targets.last().marker == Some(outcome.rows_copied)
        }),
{
    smooth_merges_go_on(events, targets);
    target_always_fits(None, events, targets);
}

/// A merge that failed before its transaction was committed can be tried again:
/// the next one that meets no fault finds the target as it was and succeeds
/// anew.
pub proof fn failed_merges_can_be_tried_again<R>(
    fail_after: Option<Seq<char>>,
    events: Seq<MergeEvent>,
    targets: Seq<TargetView<R>>,
    next_events: Seq<MergeEvent>,
    next_targets: Seq<TargetView<R>>,
)
    requires
        merge_goes(fail_after, events, targets),
        targets[0].saved is None,
        targets[0].marker is None,
        merge_run(fail_after, events)->0.stage matches StageView::Done(Err(_)),
        !was_committed(events),
        merge_goes(None, next_events, next_targets),
        next_targets[0] == targets.last(),
        forall|i: int| 0 <= i < next_events.len() ==> !is_fault(#[trigger] next_events[i]),
        merge_run(None, next_events)->0.stage is Done,
    ensures
        next_targets[0] == targets[0],
        merge_run(None, next_events)->0.stage matches StageView::Done(Ok(outcome))
            && !outcome.already_migrated,
{
    failed_merges_change_nothing(fail_after, events, targets);
    faultless_merges_succeed(next_events, next_targets);
}

/// A store that was merged is found to be: the next merge that can read the
/// marker ends at once, tells of the same rows and changes nothing.
pub proof fn merged_stores_are_found_again<R>(
    fail_after: Option<Seq<char>>,
    events: Seq<MergeEvent>,
    targets: Seq<TargetView<R>>,
    next_fail_after: Option<Seq<char>>,
    next_events: Seq<MergeEvent>,
    next_targets: Seq<TargetView<R>>,
)
    requires
        merge_goes(fail_after, events, targets),
        targets[0].saved is None,
        merge_run(fail_after, events)->0.stage matches StageView::Done(Ok(_)),
        merge_goes(next_fail_after, next_events, next_targets),
        next_targets[0] == targets.last(),
        next_events.len() > 0,
        next_events[0] matches MergeEvent::MarkerRead(Ok(_)),
    ensures
        next_events.len() == 1,
        merge_run(next_fail_after, next_events)->0.stage == StageView::Done(
            Ok(
                MergeOutcome {
                    already_migrated: true,
                    rows_copied: merge_run(
                        fail_after,
                        events,
                    )->0.stage->Done_0->Ok_0.rows_copied,
                },
            ),
        ),
        next_targets.last() == targets.last(),
{
    target_always_fits(fail_after, events, targets);
    first_event_decides(next_fail_after, next_events, next_targets);
}

proof fn first_event_decides<R>(
    fail_after: Option<Seq<char>>,
    events: Seq<MergeEvent>,
    targets: Seq<TargetView<R>>,
)
    requires
        merge_goes(fail_after, events, targets),
        events.len() > 0,
        events[0] matches MergeEvent::MarkerRead(Ok(_)),
        targets[0].marker is Some,
    ensures
        events.len() == 1,
        merge_run(fail_after, events)->0.stage == StageView::Done(
            Ok(MergeOutcome { already_migrated: true, rows_copied: targets[0].marker->0 }),
        ),
        targets.last() == targets[0],
    decreases events.len(),
{
    let front = events.drop_last();
    let earlier = targets.drop_last();
    assert(earlier[0] == targets[0]);
    if events.len() > 1 {
        assert(front[0] == events[0]);
        first_event_decides(fail_after, front, earlier);
    } else {
        assert(front == Seq::<MergeEvent>::empty());
        reveal_with_fuel(merge_run, 2);
    }
}

/// What went wrong is what is reported: after a failure inside the transaction
/// the target is rolled back, the files that were made are removed, and the
/// error is that failure.
pub proof fn failures_are_reported_as_they_were(m: MergeView, k: int, e: String, created: Vec<PathBuf>)
    ensures
        m.stage == StageView::CopyTable(k) ==> (merge_next(m, MergeEvent::TableCopied(Err(e)))
            matches Some(next) && next.stage == StageView::RollBack(e@) && next.created
            == m.created),
        m.stage is CopyPayloads ==> (merge_next(m, MergeEvent::PayloadsCopied(Err(e), created))
            matches Some(next) && next.stage == StageView::RollBack(e@) && next.created == created@),
        m.stage is CopyPayloads ==> (merge_next(m, MergeEvent::PayloadsCopied(Ok(()), created))
            matches Some(next) && next.stage == StageView::CopyTable(0) && next.created == created@),
        m.stage is Commit ==> (merge_next(m, MergeEvent::Committed(Err(e))) matches Some(next) && (
        next.stage matches StageView::RollBack(message) && e@.is_suffix_of(message))),
        m.stage is ReadMarker ==> (merge_next(m, MergeEvent::MarkerRead(Err(e))) matches Some(next)
            && next.stage == StageView::Done(Err::<MergeOutcome, Seq<char>>(e@))),
        m.stage is Begin ==> (merge_next(m, MergeEvent::Begun(Err(e))) matches Some(next) && (
        next.stage matches StageView::Done(Err(message)) && e@.is_suffix_of(message))),
        m.stage is WriteMarker ==> (merge_next(m, MergeEvent::MarkerWritten(Err(e))) matches Some(
            next,
        ) && next.stage == StageView::Done(Err::<MergeOutcome, Seq<char>>(e@))),
        m.stage == StageView::RollBack(e@) ==> (merge_next(m, MergeEvent::RolledBack) matches Some(
            next,
        ) && next.stage == StageView::RemovePayloads(e@) && next.created == m.created),
        m.stage == StageView::RemovePayloads(e@) ==> (merge_next(m, MergeEvent::PayloadsRemoved)
            matches Some(next) && next.stage == StageView::Done(
            Err::<MergeOutcome, Seq<char>>(e@),
        )),
{
}

/// The tables are copied one after the other and their rows are added up; after
/// the last, the target is committed. A failure that was asked for comes right
/// after its table, and after no other.
pub proof fn tables_follow_each_other(m: MergeView, k: int, n: u64)
    requires
        m.stage == StageView::CopyTable(k),
        0 <= k < TABLE_COUNT,
    ensures
        merge_next(m, MergeEvent::TableCopied(Ok(n))) matches Some(next) && {
            &&& next.rows == m.rows + n
            &&& next.created == m.created
            &&& m.fail_after == Some(copied_tables()[k]) ==> (next.stage matches StageView::RollBack(
                message,
            ) && copied_tables()[k].is_suffix_of(message))
            &&& m.fail_after != Some(copied_tables()[k]) && k + 1 < TABLE_COUNT ==> next.stage
                == StageView::CopyTable(k + 1)
            &&& m.fail_after != Some(copied_tables()[k]) && k + 1 == TABLE_COUNT ==> next.stage
                is Commit
        },
{
}

} // verus!
