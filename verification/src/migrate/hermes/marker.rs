//! The markers that remember which stores were migrated.

use std::path::PathBuf;
use crate::decimal::{nat_text, nat_text_reads_back, u64_text};
use crate::migrate::hermes::fingerprint::{hash_text, hex_text_has_hex_digits, is_hex_digit, sha256};
use crate::migrate::hermes::source::{step_result, with_cause};
use crate::text::{chars_of, concat_four, concat_three, contains_text, copy_text, same_text, stands_between};
use vstd::prelude::*;

verus! {

/// Whether a text is a fingerprint: 64 hexadecimal digits.
pub open spec fn is_fingerprint(s: Seq<char>) -> bool {
    s.len() == 64 && forall|i: int| 0 <= i < s.len() ==> is_hex_digit(#[trigger] s[i])
}

fn char_is_hex(c: char) -> (r: bool)
    ensures
        r == is_hex_digit(c),
{
    ('0' <= c && c <= '9') || ('a' <= c && c <= 'f') || ('A' <= c && c <= 'F')
}

fn text_is_fingerprint(s: &str) -> (r: bool)
    ensures
        r == is_fingerprint(s@),
{
    let chars = chars_of(s);
    if chars.len() != 64 {
        return false;
    }
    let mut i: usize = 0;
    while i < chars.len()
        invariant
            i <= chars@.len(),
            chars@ == s@,
            forall|j: int| 0 <= j < i ==> is_hex_digit(#[trigger] s@[j]),
        decreases chars@.len() - i,
    {
        if !char_is_hex(chars[i]) {
            return false;
        }
        i += 1;
    }
    true
}

/// Where the marker of a fingerprint lies, below the directory of the target
/// store; a text that is no fingerprint has none.
pub open spec fn marker_location(fingerprint: Seq<char>, has_parent: bool) -> Result<
    Seq<char>,
    Seq<char>,
> {
    if !is_fingerprint(fingerprint) {
        Err("invalid legacy-store fingerprint"@)
    } else if !has_parent {
        Err("target session DB has no parent directory"@)
    } else {
        Ok("migration-ledger/hermes-legacy/"@ + fingerprint + ".json"@)
    }
}

/// A text or an error as a mathematical object.
pub open spec fn text_result(r: Result<String, String>) -> Result<Seq<char>, Seq<char>> {
    match r {
        Ok(s) => Ok(s@),
        Err(e) => Err(e@),
    }
}

/// Where the marker of the fingerprint lies, below the directory of the target
/// store.
pub fn marker_path(fingerprint: &str, has_parent: bool) -> (r: Result<String, String>)
    ensures
        text_result(r) == marker_location(fingerprint@, has_parent),
{
    if !text_is_fingerprint(fingerprint) {
        return Err(copy_text("invalid legacy-store fingerprint"));
    }
    if !has_parent {
        return Err(copy_text("target session DB has no parent directory"));
    }
    Ok(concat_three("migration-ledger/hermes-legacy/", fingerprint, ".json"))
}

/// Every fingerprint that is computed has a marker.
pub proof fn computed_fingerprints_have_markers(bytes: Seq<u8>)
    requires
        sha256(bytes).len() == 32,
    ensures
        marker_location(hash_text(bytes), true) is Ok,
{
    hex_text_has_hex_digits(sha256(bytes));
}

/// What is remembered of a migration.
#[derive(Debug)]
pub struct MigrationMarker {
    pub schema_version: u32,
    pub source_fingerprint: String,
    pub source_db_path: PathBuf,
    pub target_project_path: PathBuf,
    pub source_lcm_schema_version: i64,
    pub rows_copied: u64,
}

/// Whether a marker is one of this format for a fingerprint.
pub open spec fn identifies(marker: MigrationMarker, fingerprint: Seq<char>) -> bool {
    marker.schema_version == 1 && marker.source_fingerprint@ == fingerprint
}

impl MigrationMarker {
    /// The marker of a migration.
    pub fn new(
        fingerprint: &str,
        source_db_path: PathBuf,
        target_project_path: PathBuf,
        source_lcm_schema_version: i64,
        rows_copied: u64,
    ) -> (r: MigrationMarker)
        ensures
            identifies(r, fingerprint@),
            r.source_db_path == source_db_path,
            r.target_project_path == target_project_path,
            r.source_lcm_schema_version == source_lcm_schema_version,
            r.rows_copied == rows_copied,
    {
        MigrationMarker {
            schema_version: 1,
            source_fingerprint: copy_text(fingerprint),
            source_db_path,
            target_project_path,
            source_lcm_schema_version,
            rows_copied,
        }
    }
}

/// What reading a marker gave.
pub enum MarkerRead {
    NotFound,
    ReadFailed(String),
    Invalid(String),
    Marker(MigrationMarker),
}

/// The marker of a fingerprint, if there is one. One that cannot be read, or
/// that is of another format or fingerprint, is an error.
pub open spec fn accepted_marker(read: MarkerRead, path: Seq<char>, fingerprint: Seq<char>) -> Result<
    Option<MigrationMarker>,
    Seq<char>,
> {
    match read {
        MarkerRead::NotFound => Ok(None),
        MarkerRead::ReadFailed(e) => Err(
            "could not read migration marker '"@ + path + "': "@ + e@,
        ),
        MarkerRead::Invalid(e) => Err("migration marker '"@ + path + "' is invalid: "@ + e@),
        MarkerRead::Marker(marker) => if identifies(marker, fingerprint) {
            Ok(Some(marker))
        } else {
            Err("migration marker '"@ + path + "' has an unsupported identity"@)
        },
    }
}

/// The marker of the fingerprint, if there is one; `path` shows where it lies.
pub fn read_migration_marker(read: MarkerRead, path: &str, fingerprint: &str) -> (r: Result<
    Option<MigrationMarker>,
    String,
>)
    ensures
        step_result(r) == accepted_marker(read, path@, fingerprint@),
{
    match read {
        MarkerRead::NotFound => Ok(None),
        MarkerRead::ReadFailed(e) => Err(
            concat_four("could not read migration marker '", path, "': ", e.as_str()),
        ),
        MarkerRead::Invalid(e) => Err(
            concat_four("migration marker '", path, "' is invalid: ", e.as_str()),
        ),
        MarkerRead::Marker(marker) => if marker.schema_version == 1 && same_text(
            marker.source_fingerprint.as_str(),
            fingerprint,
        ) {
            Ok(Some(marker))
        } else {
            Err(concat_three("migration marker '", path, "' has an unsupported identity"))
        },
    }
}

/// A marker that was written for a fingerprint is accepted for it, and for no
/// other.
pub proof fn markers_are_for_one_store(
    marker: MigrationMarker,
    path: Seq<char>,
    fingerprint: Seq<char>,
    other: Seq<char>,
)
    requires
        identifies(marker, fingerprint),
    ensures
        accepted_marker(MarkerRead::Marker(marker), path, fingerprint) == Ok::<
            Option<MigrationMarker>,
            Seq<char>,
        >(Some(marker)),
        other != fingerprint ==> accepted_marker(MarkerRead::Marker(marker), path, other) is Err,
{
}

/// The name of the file in which a marker is written before it is published.
pub open spec fn temp_name(fingerprint: Seq<char>, process: nat) -> Seq<char> {
    "."@ + fingerprint + "."@ + nat_text(process) + ".tmp"@
}

/// The name of the file in which a marker is written before it is published.
pub fn marker_temp_name(fingerprint: &str, process: u32) -> (r: String)
    ensures
        r@ == temp_name(fingerprint@, process as nat),
{
    let mut name = copy_text(".");
    name.append(fingerprint);
    name.append(".");
    name.append(u64_text(process as u64).as_str());
    name.append(".tmp");
    name
}

/// What happened while a marker is written.
pub enum MarkerEvent {
    /// The ledger directory was made, or could not be.
    DirMade(Result<(), String>),
    /// Whether the ledger directory is a directory, or why that is not known.
    DirInspected(Result<bool, String>),
    /// Whether there is something at the marker's path.
    PathChecked(bool),
    /// The marker that is there was read.
    ExistingRead(Result<(), String>),
    /// The marker was turned into bytes.
    Encoded(Result<(), String>),
    /// The file for the bytes was made.
    TempMade(Result<(), String>),
    /// The bytes were written and made durable.
    Persisted(Result<(), String>),
    /// The file was linked to the marker's path.
    Linked,
    /// Something is at the marker's path already.
    LinkTaken,
    /// The file could not be linked.
    LinkFailed(String),
    /// The marker that took the path was read.
    TakenRead(Result<(), String>),
    /// The file for the bytes was removed.
    TempRemoved,
    /// The ledger directory was made durable.
    DirSynced(Result<(), String>),
}

/// What to do next while a marker is written.
pub enum MarkerStep {
    InspectDir,
    CheckPath,
    ReadExisting,
    Encode,
    MakeTemp,
    Persist,
    Link,
    ReadTaken,
    RemoveTemp,
    SyncDir,
    Done,
    Fail(String),
    /// Remove the file for the bytes and fail.
    RemoveTempAndFail(String),
}

/// What a [`MarkerStep`] is.
pub enum MarkerStepView {
    InspectDir,
    CheckPath,
    ReadExisting,
    Encode,
    MakeTemp,
    Persist,
    Link,
    ReadTaken,
    RemoveTemp,
    SyncDir,
    Done,
    Fail(Seq<char>),
    RemoveTempAndFail(Seq<char>),
}

impl View for MarkerStep {
    type V = MarkerStepView;

    open spec fn view(&self) -> MarkerStepView {
        match self {
            MarkerStep::InspectDir => MarkerStepView::InspectDir,
            MarkerStep::CheckPath => MarkerStepView::CheckPath,
            MarkerStep::ReadExisting => MarkerStepView::ReadExisting,
            MarkerStep::Encode => MarkerStepView::Encode,
            MarkerStep::MakeTemp => MarkerStepView::MakeTemp,
            MarkerStep::Persist => MarkerStepView::Persist,
            MarkerStep::Link => MarkerStepView::Link,
            MarkerStep::ReadTaken => MarkerStepView::ReadTaken,
            MarkerStep::RemoveTemp => MarkerStepView::RemoveTemp,
            MarkerStep::SyncDir => MarkerStepView::SyncDir,
            MarkerStep::Done => MarkerStepView::Done,
            MarkerStep::Fail(e) => MarkerStepView::Fail(e@),
            MarkerStep::RemoveTempAndFail(e) => MarkerStepView::RemoveTempAndFail(e@),
        }
    }
}

/// The step after an event. A marker that is already there is only read, so
/// that none is ever replaced.
pub open spec fn marker_step(event: MarkerEvent) -> MarkerStepView {
    match event {
        MarkerEvent::DirMade(Ok(_)) => MarkerStepView::InspectDir,
        MarkerEvent::DirMade(Err(e)) => MarkerStepView::Fail(
            "could not create migration ledger directory: "@ + e@,
        ),
        MarkerEvent::DirInspected(Ok(true)) => MarkerStepView::CheckPath,
        MarkerEvent::DirInspected(Ok(false)) => MarkerStepView::Fail(
            "migration ledger path is not a regular directory"@,
        ),
        MarkerEvent::DirInspected(Err(e)) => MarkerStepView::Fail(
            "could not inspect migration ledger directory: "@ + e@,
        ),
        MarkerEvent::PathChecked(true) => MarkerStepView::ReadExisting,
        MarkerEvent::PathChecked(false) => MarkerStepView::Encode,
        MarkerEvent::ExistingRead(Ok(_)) => MarkerStepView::Done,
        MarkerEvent::ExistingRead(Err(e)) => MarkerStepView::Fail(e@),
        MarkerEvent::Encoded(Ok(_)) => MarkerStepView::MakeTemp,
        MarkerEvent::Encoded(Err(e)) => MarkerStepView::Fail(
            "could not encode migration marker: "@ + e@,
        ),
        MarkerEvent::TempMade(Ok(_)) => MarkerStepView::Persist,
        MarkerEvent::TempMade(Err(e)) => MarkerStepView::Fail(
            "could not create migration marker: "@ + e@,
        ),
        MarkerEvent::Persisted(Ok(_)) => MarkerStepView::Link,
        MarkerEvent::Persisted(Err(e)) => MarkerStepView::RemoveTempAndFail(
            "could not persist migration marker: "@ + e@,
        ),
        MarkerEvent::Linked => MarkerStepView::RemoveTemp,
        MarkerEvent::LinkTaken => MarkerStepView::ReadTaken,
        MarkerEvent::LinkFailed(e) => MarkerStepView::RemoveTempAndFail(
            "could not publish migration marker: "@ + e@,
        ),
        MarkerEvent::TakenRead(Ok(_)) => MarkerStepView::RemoveTemp,
        MarkerEvent::TakenRead(Err(e)) => MarkerStepView::Fail(e@),
        MarkerEvent::TempRemoved => MarkerStepView::SyncDir,
        MarkerEvent::DirSynced(Ok(_)) => MarkerStepView::Done,
        MarkerEvent::DirSynced(Err(e)) => MarkerStepView::Fail(
            "could not sync migration ledger directory: "@ + e@,
        ),
    }
}

/// The step after the event.
pub fn write_marker_step(event: MarkerEvent) -> (r: MarkerStep)
    ensures
        r@ == marker_step(event),
{
    match event {
        MarkerEvent::DirMade(Ok(_)) => MarkerStep::InspectDir,
        MarkerEvent::DirMade(Err(e)) => MarkerStep::Fail(
            with_cause("could not create migration ledger directory: ", e.as_str()),
        ),
        MarkerEvent::DirInspected(Ok(is_dir)) => if is_dir {
            MarkerStep::CheckPath
        } else {
            MarkerStep::Fail(copy_text("migration ledger path is not a regular directory"))
        },
        MarkerEvent::DirInspected(Err(e)) => MarkerStep::Fail(
            with_cause("could not inspect migration ledger directory: ", e.as_str()),
        ),
        MarkerEvent::PathChecked(exists_already) => if exists_already {
            MarkerStep::ReadExisting
        } else {
            MarkerStep::Encode
        },
        MarkerEvent::ExistingRead(Ok(_)) => MarkerStep::Done,
        MarkerEvent::ExistingRead(Err(e)) => MarkerStep::Fail(e),
        MarkerEvent::Encoded(Ok(_)) => MarkerStep::MakeTemp,
        MarkerEvent::Encoded(Err(e)) => MarkerStep::Fail(
            with_cause("could not encode migration marker: ", e.as_str()),
        ),
        MarkerEvent::TempMade(Ok(_)) => MarkerStep::Persist,
        MarkerEvent::TempMade(Err(e)) => MarkerStep::Fail(
            with_cause("could not create migration marker: ", e.as_str()),
        ),
        MarkerEvent::Persisted(Ok(_)) => MarkerStep::Link,
        MarkerEvent::Persisted(Err(e)) => MarkerStep::RemoveTempAndFail(
            with_cause("could not persist migration marker: ", e.as_str()),
        ),
        MarkerEvent::Linked => MarkerStep::RemoveTemp,
        MarkerEvent::LinkTaken => MarkerStep::ReadTaken,
        MarkerEvent::LinkFailed(e) => MarkerStep::RemoveTempAndFail(
            with_cause("could not publish migration marker: ", e.as_str()),
        ),
        MarkerEvent::TakenRead(Ok(_)) => MarkerStep::RemoveTemp,
        MarkerEvent::TakenRead(Err(e)) => MarkerStep::Fail(e),
        MarkerEvent::TempRemoved => MarkerStep::SyncDir,
        MarkerEvent::DirSynced(Ok(_)) => MarkerStep::Done,
        MarkerEvent::DirSynced(Err(e)) => MarkerStep::Fail(
            with_cause("could not sync migration ledger directory: ", e.as_str()),
        ),
    }
}

// ---------------------------------------------------------------------------
// Whole runs.
// ---------------------------------------------------------------------------

/// Whether an event tells what became of a step.
pub open spec fn marker_answers(step: MarkerStepView, event: MarkerEvent) -> bool {
    match step {
        MarkerStepView::InspectDir => event is DirInspected,
        MarkerStepView::CheckPath => event is PathChecked,
        MarkerStepView::ReadExisting => event is ExistingRead,
        MarkerStepView::Encode => event is Encoded,
        MarkerStepView::MakeTemp => event is TempMade,
        MarkerStepView::Persist => event is Persisted,
        MarkerStepView::Link => event is Linked || event is LinkTaken || event is LinkFailed,
        MarkerStepView::ReadTaken => event is TakenRead,
        MarkerStepView::RemoveTemp => event is TempRemoved,
        MarkerStepView::SyncDir => event is DirSynced,
        MarkerStepView::Done => false,
        MarkerStepView::Fail(_) => false,
        MarkerStepView::RemoveTempAndFail(_) => false,
    }
}

/// The ledger as far as one fingerprint goes: the marker that its file for the
/// bytes holds whole, and the one that is published. A file is taken for the
/// marker that was encoded into it.
pub struct LedgerView {
    pub temp: Option<MigrationMarker>,
    pub published: Option<MigrationMarker>,
}

/// What reading the published marker gives.
pub open spec fn ledger_reading(ledger: LedgerView) -> MarkerRead {
    match ledger.published {
        Some(marker) => MarkerRead::Marker(marker),
        None => MarkerRead::NotFound,
    }
}

/// What an event says of the ledger before and after it, while a marker is
/// written for its fingerprint. Linking succeeds only where nothing is
/// published, and publishes the file for the bytes.
pub open spec fn marker_effect(
    marker: MigrationMarker,
    event: MarkerEvent,
    before: LedgerView,
    after: LedgerView,
) -> bool {
    match event {
        MarkerEvent::PathChecked(there) => after == before && there == before.published is Some,
        MarkerEvent::ExistingRead(_) => after == before && before.published is Some,
        MarkerEvent::TempMade(Ok(_)) => after == (LedgerView { temp: None, ..before }),
        MarkerEvent::Persisted(Ok(_)) => after == (LedgerView { temp: Some(marker), ..before }),
        MarkerEvent::Persisted(Err(_)) => after.published == before.published,
        MarkerEvent::Linked => before.published is None && after == (LedgerView {
            published: before.temp,
            ..before
        }),
        MarkerEvent::LinkTaken => after == before && before.published is Some,
        MarkerEvent::TakenRead(_) => after == before && before.published is Some,
        MarkerEvent::TempRemoved => after == (LedgerView { temp: None, ..before }),
        _ => after == before,
    }
}

/// Whether events tell of one run: it begins with the directory, each event
/// tells what became of the step before it, and `ledgers[i]` is the ledger
/// before event `i`.
pub open spec fn marker_goes(
    marker: MigrationMarker,
    events: Seq<MarkerEvent>,
    ledgers: Seq<LedgerView>,
) -> bool
    decreases events.len(),
{
    &&& ledgers.len() == events.len() + 1
    &&& events.len() > 0 ==> {
        &&& marker_goes(marker, events.drop_last(), ledgers.drop_last())
        &&& if events.len() == 1 {
            events[0] is DirMade
        } else {
            marker_answers(marker_step(events[events.len() - 2]), events.last())
        }
        &&& marker_effect(
            marker,
            events.last(),
            ledgers[ledgers.len() - 2],
            ledgers[ledgers.len() - 1],
        )
    }
}

/// What holds after events of one run.
spec fn ledger_fits(
    marker: MigrationMarker,
    step: MarkerStepView,
    first: LedgerView,
    now: LedgerView,
) -> bool {
    if first.published is Some {
        now.published == first.published
    } else {
        match step {
            MarkerStepView::Link => now.published is None && now.temp == Some(marker),
            MarkerStepView::RemoveTemp => now.published == Some(marker),
            MarkerStepView::SyncDir => now.published == Some(marker),
            MarkerStepView::Done => now.published == Some(marker),
            MarkerStepView::ReadExisting => false,
            MarkerStepView::ReadTaken => false,
            MarkerStepView::Fail(_) => now.published is None || now.published == Some(marker),
            _ => now.published is None,
        }
    }
}

proof fn ledger_always_fits(
    marker: MigrationMarker,
    events: Seq<MarkerEvent>,
    ledgers: Seq<LedgerView>,
)
    requires
        marker_goes(marker, events, ledgers),
        events.len() > 0,
    ensures
        ledger_fits(marker, marker_step(events.last()), ledgers[0], ledgers.last()),
    decreases events.len(),
{
    let front = events.drop_last();
    let earlier = ledgers.drop_last();
    assert(earlier[0] == ledgers[0]);
    assert(earlier.last() == ledgers[ledgers.len() - 2]);
    if events.len() > 1 {
        ledger_always_fits(marker, front, earlier);
        assert(front.last() == events[events.len() - 2]);
    }
}

/// A marker that was written reads back: where there was none, a run that ends
/// well publishes just the marker that it was given, and reading it for its
/// fingerprint gives every field of it. A marker that was there is never
/// replaced, however the run ends.
pub proof fn written_markers_read_back(
    marker: MigrationMarker,
    fingerprint: Seq<char>,
    path: Seq<char>,
    events: Seq<MarkerEvent>,
    ledgers: Seq<LedgerView>,
)
    requires
        marker_goes(marker, events, ledgers),
        events.len() > 0,
        identifies(marker, fingerprint),
    ensures
        ledgers[0].published is None && marker_step(events.last()) is Done ==> {
            &&& accepted_marker(ledger_reading(ledgers[0]), path, fingerprint) == Ok::<
                Option<MigrationMarker>,
                Seq<char>,
            >(None)
            &&& accepted_marker(ledger_reading(ledgers.last()), path, fingerprint) == Ok::<
                Option<MigrationMarker>,
                Seq<char>,
            >(Some(marker))
        },
        ledgers[0].published is Some ==> ledgers.last().published == ledgers[0].published,
{
    ledger_always_fits(marker, events, ledgers);
}

/// A fingerprint is 64 hexadecimal digits; anything else has no marker. The
/// marker of a fingerprint lies in the ledger of the target's directory, under
/// a name that no other fingerprint has.
pub proof fn markers_lie_in_the_ledger(fingerprint: Seq<char>, other: Seq<char>, c: char)
    ensures
        marker_location(fingerprint, true) is Ok <==> fingerprint.len() == 64 && forall|k: int|
            0 <= k < fingerprint.len() ==> is_hex_digit(#[trigger] fingerprint[k]),
        marker_location(fingerprint, false) is Err,
        marker_location(fingerprint, true) matches Ok(path)
            ==> "migration-ledger/hermes-legacy/"@.is_prefix_of(path) && ".json"@.is_suffix_of(path)
            && contains_text(path, fingerprint),
        marker_location(fingerprint, true) is Ok && marker_location(fingerprint, true)
            == marker_location(other, true) ==> fingerprint == other,
        is_hex_digit(c) <==> ('0' <= c && c <= '9') || ('a' <= c && c <= 'f') || ('A' <= c && c
            <= 'F'),
{
    let head = "migration-ledger/hermes-legacy/"@;
    let tail = ".json"@;
    let path = head + fingerprint + tail;
    assert(path.subrange(0, head.len() as int) == head);
    assert(path.subrange(path.len() - tail.len(), path.len() as int) == tail);
    stands_between(head, fingerprint, tail);
    if marker_location(fingerprint, true) is Ok && marker_location(fingerprint, true)
        == marker_location(other, true) {
        let same = head + other + tail;
        assert(path == same);
        assert(path.subrange(head.len() as int, head.len() as int + 64) == fingerprint);
        assert(same.subrange(head.len() as int, head.len() as int + 64) == other);
    }
}

/// A marker is believed if and only if it is of the present format and carries
/// the fingerprint that was asked for; it is then given as it was read. One that
/// is not there is no error, and one that cannot be read is.
pub proof fn markers_are_believed_by_fingerprint(
    marker: MigrationMarker,
    path: Seq<char>,
    fingerprint: Seq<char>,
    e: String,
)
    ensures
        accepted_marker(MarkerRead::Marker(marker), path, fingerprint) is Ok
            <==> marker.schema_version == 1 && marker.source_fingerprint@ == fingerprint,
        accepted_marker(MarkerRead::Marker(marker), path, fingerprint) is Ok ==> accepted_marker(
            MarkerRead::Marker(marker),
            path,
            fingerprint,
        ) == Ok::<Option<MigrationMarker>, Seq<char>>(Some(marker)),
        accepted_marker(MarkerRead::NotFound, path, fingerprint) == Ok::<
            Option<MigrationMarker>,
            Seq<char>,
        >(None),
        accepted_marker(MarkerRead::ReadFailed(e), path, fingerprint) matches Err(message)
            && e@.is_suffix_of(message) && contains_text(message, path),
        accepted_marker(MarkerRead::Invalid(e), path, fingerprint) matches Err(message)
            && e@.is_suffix_of(message) && contains_text(message, path),
{
    let failed = "could not read migration marker '"@;
    let invalid = "migration marker '"@;
    stands_between(failed, path, "': "@ + e@);
    stands_between(invalid, path, "' is invalid: "@ + e@);
    assert(failed + path + ("': "@ + e@) == failed + path + "': "@ + e@);
    assert(invalid + path + ("' is invalid: "@ + e@) == invalid + path + "' is invalid: "@ + e@);
}

/// The file that a marker is first written to is hidden, and is another one in
/// every process.
pub proof fn temporary_names_differ(fingerprint: Seq<char>, process: nat, other: nat)
    ensures
        temp_name(fingerprint, process)[0] == '.',
        contains_text(temp_name(fingerprint, process), fingerprint),
        temp_name(fingerprint, process) == temp_name(fingerprint, other) ==> process == other,
{
    reveal_strlit(".");
    let tail = ".tmp"@;
    let rest = "."@ + nat_text(process) + tail;
    assert(temp_name(fingerprint, process) == "."@ + fingerprint + rest);
    stands_between("."@, fingerprint, rest);
    assert(temp_name(fingerprint, process)[0] == "."@[0]);
    if temp_name(fingerprint, process) == temp_name(fingerprint, other) {
        let a = temp_name(fingerprint, process);
        let b = temp_name(fingerprint, other);
        let from = fingerprint.len() + 2;
        assert(a.len() == from + nat_text(process).len() + tail.len());
        assert(b.len() == from + nat_text(other).len() + tail.len());
        assert(a.subrange(from as int, a.len() - tail.len()) == nat_text(process));
        assert(b.subrange(from as int, b.len() - tail.len()) == nat_text(other));
        nat_text_reads_back(process);
        nat_text_reads_back(other);
    }
}

/// A marker that is there already is read and kept; otherwise it is written to a
/// file of its own, made durable, linked to its place and only then reported
/// done. Whatever fails on the way is reported with its cause.
pub proof fn markers_are_written_step_by_step(e: String)
    ensures
        marker_step(MarkerEvent::PathChecked(true)) is ReadExisting,
        marker_step(MarkerEvent::ExistingRead(Ok(()))) is Done,
        marker_step(MarkerEvent::PathChecked(false)) is Encode,
        marker_step(MarkerEvent::Encoded(Ok(()))) is MakeTemp,
        marker_step(MarkerEvent::TempMade(Ok(()))) is Persist,
        marker_step(MarkerEvent::Persisted(Ok(()))) is Link,
        marker_step(MarkerEvent::Linked) is RemoveTemp,
        marker_step(MarkerEvent::LinkTaken) is ReadTaken,
        marker_step(MarkerEvent::TempRemoved) is SyncDir,
        marker_step(MarkerEvent::DirSynced(Ok(()))) is Done,
        marker_step(MarkerEvent::DirInspected(Ok(false))) is Fail,
        marker_step(MarkerEvent::DirMade(Err(e))) matches MarkerStepView::Fail(m)
            && e@.is_suffix_of(m),
        marker_step(MarkerEvent::DirInspected(Err(e))) matches MarkerStepView::Fail(m)
            && e@.is_suffix_of(m),
        marker_step(MarkerEvent::ExistingRead(Err(e))) matches MarkerStepView::Fail(m)
            && e@.is_suffix_of(m),
        marker_step(MarkerEvent::Encoded(Err(e))) matches MarkerStepView::Fail(m)
            && e@.is_suffix_of(m),
        marker_step(MarkerEvent::TempMade(Err(e))) matches MarkerStepView::Fail(m)
            && e@.is_suffix_of(m),
        marker_step(MarkerEvent::Persisted(Err(e))) matches MarkerStepView::RemoveTempAndFail(m)
            && e@.is_suffix_of(m),
        marker_step(MarkerEvent::LinkFailed(e)) matches MarkerStepView::RemoveTempAndFail(m)
            && e@.is_suffix_of(m),
        marker_step(MarkerEvent::TakenRead(Err(e))) matches MarkerStepView::Fail(m)
            && e@.is_suffix_of(m),
        marker_step(MarkerEvent::DirSynced(Err(e))) matches MarkerStepView::Fail(m)
            && e@.is_suffix_of(m),
{
    assert(e@.subrange(0, e@.len() as int) == e@);
}

} // verus!
