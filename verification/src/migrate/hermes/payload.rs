//! Copying the files that hold large payloads.

use std::path::PathBuf;
use crate::migrate::hermes::fingerprint::{content_hash, hash_text, hex_text, sha256};
use crate::migrate::hermes::source::with_cause;
use crate::text::{concat_four, concat_three, copy_text, same_text};
use vstd::prelude::*;

verus! {

/// A payload being copied: what it is called, the hash it must have, and how
/// its two files are shown.
pub struct Payload {
    pub payload_ref: String,
    pub expected_hash: String,
    pub source_file: String,
    pub target_file: String,
}

/// What a [`Payload`] holds.
pub struct PayloadView {
    pub payload_ref: Seq<char>,
    pub expected_hash: Seq<char>,
    pub source_file: Seq<char>,
    pub target_file: Seq<char>,
}

impl View for Payload {
    type V = PayloadView;

    open spec fn view(&self) -> PayloadView {
        PayloadView {
            payload_ref: self.payload_ref@,
            expected_hash: self.expected_hash@,
            source_file: self.source_file@,
            target_file: self.target_file@,
        }
    }
}

/// What happened while payloads are copied.
pub enum PayloadEvent {
    /// The statement that lists the payloads was run.
    Opened,
    /// It failed.
    OpenFailed(String),
    /// A payload came; either cell may be unreadable.
    Row {
        payload_ref: Result<String, String>,
        expected_hash: Result<String, String>,
        source_file: String,
        target_file: String,
    },
    /// A payload could not be read from the list.
    RowFailed(String),
    /// There are no more payloads.
    End,
    /// Whether the payload's name is safe, or why it is not.
    NameChecked(Result<(), String>),
    /// Whether the source is a regular file, or why that is not known.
    SourceInspected(Result<bool, String>),
    /// The source's bytes.
    SourceRead(Result<Vec<u8>, String>),
    /// The target directory was made, or could not be.
    DirMade(Result<(), String>),
    /// Whether the target directory is a directory, or why that is not known.
    DirInspected(Result<bool, String>),
    /// Whether there is a target file.
    TargetChecked(bool),
    /// The bytes of the target file that is there.
    TargetRead(Result<Vec<u8>, String>),
    /// The target file was made, or could not be.
    TargetMade(Result<PathBuf, String>),
    /// The bytes were written and made durable.
    TargetWritten(Result<(), String>),
}

/// What to do next while payloads are copied.
pub enum PayloadStep {
    /// Run the statement that lists the payloads.
    Open,
    /// Read the next payload from the list.
    Fetch,
    CheckName,
    InspectSource,
    ReadSource,
    MakeDir,
    InspectDir,
    CheckTarget,
    ReadTarget,
    MakeTarget,
    /// Write these bytes into the target file.
    WriteTarget(Vec<u8>),
    /// Every payload is there.
    Done,
    Fail(String),
}

/// What a [`PayloadStep`] is.
pub enum PayloadStepView {
    Open,
    Fetch,
    CheckName,
    InspectSource,
    ReadSource,
    MakeDir,
    InspectDir,
    CheckTarget,
    ReadTarget,
    MakeTarget,
    WriteTarget(Seq<u8>),
    Done,
    Fail(Seq<char>),
}

impl View for PayloadStep {
    type V = PayloadStepView;

    open spec fn view(&self) -> PayloadStepView {
        match self {
            PayloadStep::Open => PayloadStepView::Open,
            PayloadStep::Fetch => PayloadStepView::Fetch,
            PayloadStep::CheckName => PayloadStepView::CheckName,
            PayloadStep::InspectSource => PayloadStepView::InspectSource,
            PayloadStep::ReadSource => PayloadStepView::ReadSource,
            PayloadStep::MakeDir => PayloadStepView::MakeDir,
            PayloadStep::InspectDir => PayloadStepView::InspectDir,
            PayloadStep::CheckTarget => PayloadStepView::CheckTarget,
            PayloadStep::ReadTarget => PayloadStepView::ReadTarget,
            PayloadStep::MakeTarget => PayloadStepView::MakeTarget,
            PayloadStep::WriteTarget(bytes) => PayloadStepView::WriteTarget(bytes@),
            PayloadStep::Done => PayloadStepView::Done,
            PayloadStep::Fail(e) => PayloadStepView::Fail(e@),
        }
    }
}

/// Payloads being copied: the one at hand, its bytes once they have been
/// checked, and the files made so far.
pub struct PayloadCopy {
    payload: Option<Payload>,
    checked: Option<Vec<u8>>,
    created: Vec<PathBuf>,
}

/// What a [`PayloadCopy`] holds.
pub struct PayloadCopyView {
    pub payload: Option<PayloadView>,
    pub checked: Option<Seq<u8>>,
    pub created: Seq<PathBuf>,
}

impl View for PayloadCopy {
    type V = PayloadCopyView;

    closed spec fn view(&self) -> PayloadCopyView {
        PayloadCopyView {
            payload: match self.payload {
                Some(p) => Some(p@),
                None => None,
            },
            checked: match self.checked {
                Some(bytes) => Some(bytes@),
                None => None,
            },
            created: self.created@,
        }
    }
}

/// Bytes at hand have the hash that their payload must have.
pub open spec fn payload_checked(state: PayloadCopyView) -> bool {
    state.checked matches Some(bytes) ==> (state.payload matches Some(p) && hash_text(bytes)
        == p.expected_hash)
}

/// Whether an event speaks of the payload at hand.
pub open spec fn about_payload(event: PayloadEvent) -> bool {
    match event {
        PayloadEvent::NameChecked(_) => true,
        PayloadEvent::SourceInspected(_) => true,
        PayloadEvent::SourceRead(_) => true,
        PayloadEvent::TargetRead(_) => true,
        PayloadEvent::TargetMade(_) => true,
        _ => false,
    }
}

/// Whether an event can come in a state: one about a payload needs one at hand,
/// and a target file is made only for checked bytes.
pub open spec fn payload_event_fits(state: PayloadCopyView, event: PayloadEvent) -> bool {
    &&& about_payload(event) ==> state.payload is Some
    &&& event is TargetMade ==> state.checked is Some
}

/// The state and the step after an event.
pub open spec fn payload_next(state: PayloadCopyView, event: PayloadEvent) -> (
    PayloadCopyView,
    PayloadStepView,
) {
    match event {
        PayloadEvent::Opened => (state, PayloadStepView::Fetch),
        PayloadEvent::OpenFailed(e) => (
            state,
            PayloadStepView::Fail("could not inspect source payloads: "@ + e@),
        ),
        PayloadEvent::Row { payload_ref, expected_hash, source_file, target_file } => match payload_ref {
            Err(e) => (state, PayloadStepView::Fail("invalid source payload ref: "@ + e@)),
            Ok(name) => match expected_hash {
                Err(e) => (state, PayloadStepView::Fail("invalid source payload hash: "@ + e@)),
                Ok(hash) => (
                    PayloadCopyView {
                        payload: Some(
                            PayloadView {
                                payload_ref: name@,
                                expected_hash: hash@,
                                source_file: source_file@,
                                target_file: target_file@,
                            },
                        ),
                        checked: None,
                        created: state.created,
                    },
                    PayloadStepView::CheckName,
                ),
            },
        },
        PayloadEvent::RowFailed(e) => (
            state,
            PayloadStepView::Fail("could not read source payload: "@ + e@),
        ),
        PayloadEvent::End => (state, PayloadStepView::Done),
        PayloadEvent::NameChecked(Ok(_)) => (state, PayloadStepView::InspectSource),
        PayloadEvent::NameChecked(Err(e)) => (
            state,
            PayloadStepView::Fail(
                "unsafe source payload ref '"@ + state.payload->0.payload_ref + "': "@ + e@,
            ),
        ),
        PayloadEvent::SourceInspected(Ok(true)) => (state, PayloadStepView::ReadSource),
        PayloadEvent::SourceInspected(Ok(false)) => (
            state,
            PayloadStepView::Fail(
                "source payload '"@ + state.payload->0.source_file + "' is not a regular file"@,
            ),
        ),
        PayloadEvent::SourceInspected(Err(e)) => (
            state,
            PayloadStepView::Fail(
                "source payload '"@ + state.payload->0.source_file + "' is unavailable: "@ + e@,
            ),
        ),
        PayloadEvent::SourceRead(Err(e)) => (
            state,
            PayloadStepView::Fail(
                "could not read source payload '"@ + state.payload->0.source_file + "': "@ + e@,
            ),
        ),
        PayloadEvent::SourceRead(Ok(bytes)) => if hash_text(bytes@)
            == state.payload->0.expected_hash {
            (
                PayloadCopyView { checked: Some(bytes@), ..state },
                PayloadStepView::MakeDir,
            )
        } else {
            (
                state,
                PayloadStepView::Fail(
                    "source payload '"@ + state.payload->0.source_file
                        + "' failed its content hash"@,
                ),
            )
        },
        PayloadEvent::DirMade(Ok(_)) => (state, PayloadStepView::InspectDir),
        PayloadEvent::DirMade(Err(e)) => (
            state,
            PayloadStepView::Fail("could not create target payload directory: "@ + e@),
        ),
        PayloadEvent::DirInspected(Ok(true)) => (state, PayloadStepView::CheckTarget),
        PayloadEvent::DirInspected(Ok(false)) => (
            state,
            PayloadStepView::Fail("target payload directory is not a regular directory"@),
        ),
        PayloadEvent::DirInspected(Err(e)) => (
            state,
            PayloadStepView::Fail("could not inspect target payload directory: "@ + e@),
        ),
        PayloadEvent::TargetChecked(true) => (state, PayloadStepView::ReadTarget),
        PayloadEvent::TargetChecked(false) => (state, PayloadStepView::MakeTarget),
        PayloadEvent::TargetRead(Err(e)) => (
            state,
            PayloadStepView::Fail("could not read existing target payload: "@ + e@),
        ),
        PayloadEvent::TargetRead(Ok(bytes)) => if hash_text(bytes@)
            == state.payload->0.expected_hash {
            (state, PayloadStepView::Fetch)
        } else {
            (
                state,
                PayloadStepView::Fail(
                    "target payload '"@ + state.payload->0.target_file
                        + "' conflicts with the legacy source"@,
                ),
            )
        },
        PayloadEvent::TargetMade(Err(e)) => (
            state,
            PayloadStepView::Fail("could not create target payload: "@ + e@),
        ),
        PayloadEvent::TargetMade(Ok(path)) => (
            PayloadCopyView { checked: None, created: state.created.push(path), ..state },
            PayloadStepView::WriteTarget(state.checked->0),
        ),
        PayloadEvent::TargetWritten(Ok(_)) => (state, PayloadStepView::Fetch),
        PayloadEvent::TargetWritten(Err(e)) => (
            state,
            PayloadStepView::Fail("could not persist target payload: "@ + e@),
        ),
    }
}

impl PayloadCopy {
    #[verifier::type_invariant]
    spec fn checked_bytes_fit(self) -> bool {
        payload_checked(self.view())
    }

    /// Before the first payload.
    pub fn new() -> (r: PayloadCopy)
        ensures
            r@ == (PayloadCopyView { payload: None, checked: None, created: seq![] }),
    {
        let r = PayloadCopy { payload: None, checked: None, created: Vec::new() };
        assert(r@.created == Seq::<PathBuf>::empty());
        r
    }

    /// The files made so far; bytes at hand have the hash that they must have.
    pub fn created(&self) -> (r: &Vec<PathBuf>)
        ensures
            r@ == self@.created,
            payload_checked(self@),
    {
        proof {
            use_type_invariant(self);
        }
        &self.created
    }

    /// How copying begins: not at all where the source has no table of
    /// payloads; both stores must lie in a directory.
    pub fn start(
        has_table: Result<bool, String>,
        source_has_parent: bool,
        target_has_parent: bool,
    ) -> (r: PayloadStep)
        ensures
            r@ == match has_table {
                Err(e) => PayloadStepView::Fail(e@),
                Ok(false) => PayloadStepView::Done,
                Ok(true) => if !source_has_parent {
                    PayloadStepView::Fail("source session DB has no parent directory"@)
                } else if !target_has_parent {
                    PayloadStepView::Fail("target session DB has no parent directory"@)
                } else {
                    PayloadStepView::Open
                },
            },
    {
        match has_table {
            Err(e) => PayloadStep::Fail(e),
            Ok(there) => if !there {
                PayloadStep::Done
            } else if !source_has_parent {
                PayloadStep::Fail(copy_text("source session DB has no parent directory"))
            } else if !target_has_parent {
                PayloadStep::Fail(copy_text("target session DB has no parent directory"))
            } else {
                PayloadStep::Open
            },
        }
    }

    fn shown(&self) -> (r: (&str, &str, &str, &str))
        requires
            self@.payload is Some,
        ensures
            r.0@ == self@.payload->0.payload_ref,
            r.1@ == self@.payload->0.expected_hash,
            r.2@ == self@.payload->0.source_file,
            r.3@ == self@.payload->0.target_file,
    {
        match &self.payload {
            Some(p) => (
                p.payload_ref.as_str(),
                p.expected_hash.as_str(),
                p.source_file.as_str(),
                p.target_file.as_str(),
            ),
            None => ("", "", "", ""),
        }
    }

    /// The step after an event.
    pub fn step(&mut self, event: PayloadEvent) -> (r: PayloadStep)
        requires
            payload_event_fits(old(self)@, event),
        ensures
            (final(self)@, r@) == payload_next(old(self)@, event),
    {
        proof {
            use_type_invariant(&*self);
        }
        match event {
            PayloadEvent::Opened => PayloadStep::Fetch,
            PayloadEvent::OpenFailed(e) => PayloadStep::Fail(
                with_cause("could not inspect source payloads: ", e.as_str()),
            ),
            PayloadEvent::Row { payload_ref, expected_hash, source_file, target_file } => {
                let payload_ref = match payload_ref {
                    Ok(s) => s,
                    Err(e) => return PayloadStep::Fail(
                        with_cause("invalid source payload ref: ", e.as_str()),
                    ),
                };
                let expected_hash = match expected_hash {
                    Ok(s) => s,
                    Err(e) => return PayloadStep::Fail(
                        with_cause("invalid source payload hash: ", e.as_str()),
                    ),
                };
                self.checked = None;
                self.payload = Some(
                    Payload { payload_ref, expected_hash, source_file, target_file },
                );
                PayloadStep::CheckName
            },
            PayloadEvent::RowFailed(e) => PayloadStep::Fail(
                with_cause("could not read source payload: ", e.as_str()),
            ),
            PayloadEvent::End => PayloadStep::Done,
            PayloadEvent::NameChecked(Ok(_)) => PayloadStep::InspectSource,
            PayloadEvent::NameChecked(Err(e)) => PayloadStep::Fail(
                concat_four("unsafe source payload ref '", self.shown().0, "': ", e.as_str()),
            ),
            PayloadEvent::SourceInspected(Ok(is_file)) => if is_file {
                PayloadStep::ReadSource
            } else {
                PayloadStep::Fail(
                    concat_three("source payload '", self.shown().2, "' is not a regular file"),
                )
            },
            PayloadEvent::SourceInspected(Err(e)) => PayloadStep::Fail(
                concat_four(
                    "source payload '",
                    self.shown().2,
                    "' is unavailable: ",
                    e.as_str(),
                ),
            ),
            PayloadEvent::SourceRead(Err(e)) => PayloadStep::Fail(
                concat_four("could not read source payload '", self.shown().2, "': ", e.as_str()),
            ),
            PayloadEvent::SourceRead(Ok(bytes)) => {
                let hash = content_hash(&bytes);
                if same_text(hash.as_str(), self.shown().1) {
                    self.checked = Some(bytes);
                    PayloadStep::MakeDir
                } else {
                    PayloadStep::Fail(
                        concat_three(
                            "source payload '",
                            self.shown().2,
                            "' failed its content hash",
                        ),
                    )
                }
            },
            PayloadEvent::DirMade(Ok(_)) => PayloadStep::InspectDir,
            PayloadEvent::DirMade(Err(e)) => PayloadStep::Fail(
                with_cause("could not create target payload directory: ", e.as_str()),
            ),
            PayloadEvent::DirInspected(Ok(is_dir)) => if is_dir {
                PayloadStep::CheckTarget
            } else {
                PayloadStep::Fail(copy_text("target payload directory is not a regular directory"))
            },
            PayloadEvent::DirInspected(Err(e)) => PayloadStep::Fail(
                with_cause("could not inspect target payload directory: ", e.as_str()),
            ),
            PayloadEvent::TargetChecked(there) => if there {
                PayloadStep::ReadTarget
            } else {
                PayloadStep::MakeTarget
            },
            PayloadEvent::TargetRead(Err(e)) => PayloadStep::Fail(
                with_cause("could not read existing target payload: ", e.as_str()),
            ),
            PayloadEvent::TargetRead(Ok(bytes)) => {
                let hash = content_hash(&bytes);
                if same_text(hash.as_str(), self.shown().1) {
                    PayloadStep::Fetch
                } else {
                    PayloadStep::Fail(
                        concat_three(
                            "target payload '",
                            self.shown().3,
                            "' conflicts with the legacy source",
                        ),
                    )
                }
            },
            PayloadEvent::TargetMade(Err(e)) => PayloadStep::Fail(
                with_cause("could not create target payload: ", e.as_str()),
            ),
            PayloadEvent::TargetMade(Ok(path)) => {
                let mut created: Vec<PathBuf> = Vec::new();
                std::mem::swap(&mut created, &mut self.created);
                created.push(path);
                self.created = created;
                let mut checked = None;
                std::mem::swap(&mut checked, &mut self.checked);
                match checked {
                    Some(bytes) => PayloadStep::WriteTarget(bytes),
                    None => PayloadStep::Done,
                }
            },
            PayloadEvent::TargetWritten(Ok(_)) => PayloadStep::Fetch,
            PayloadEvent::TargetWritten(Err(e)) => PayloadStep::Fail(
                with_cause("could not persist target payload: ", e.as_str()),
            ),
        }
    }
}

/// Only bytes with the recorded hash are written.
pub proof fn written_payloads_have_their_hash(state: PayloadCopyView, event: PayloadEvent)
    requires
        payload_checked(state),
        payload_event_fits(state, event),
    ensures
        payload_next(state, event).1 matches PayloadStepView::WriteTarget(bytes) ==> (
        state.payload matches Some(p) && hash_text(bytes) == p.expected_hash),
{
}

/// A file that was there before is never written, and every file that is made
/// is remembered.
pub proof fn made_files_are_remembered(state: PayloadCopyView, event: PayloadEvent)
    ensures
        event matches PayloadEvent::TargetMade(Ok(path)) ==> payload_next(state, event).0.created
            == state.created.push(path),
        !(event matches PayloadEvent::TargetMade(Ok(_))) ==> payload_next(state, event).0.created
            == state.created && !(payload_next(state, event).1 is WriteTarget),
{
}

/// The paths, last first.
pub fn reversed_paths(paths: &Vec<PathBuf>) -> (r: Vec<PathBuf>)
    ensures
        r@ == paths@.reverse(),
{
    let mut out: Vec<PathBuf> = Vec::new();
    let mut i: usize = paths.len();
    while i > 0
        invariant
            i <= paths@.len(),
            out@.len() == paths@.len() - i,
            forall|j: int|
                0 <= j < out@.len() ==> #[trigger] out@[j] == paths@[paths@.len() - 1 - j],
        decreases i,
    {
        i -= 1;
        out.push(paths[i].clone());
    }
    assert(out@ =~= paths@.reverse());
    out
}

// ---------------------------------------------------------------------------
// Whole runs.
// ---------------------------------------------------------------------------

/// Whether an event tells what became of a step.
pub open spec fn answers(step: PayloadStepView, event: PayloadEvent) -> bool {
    match step {
        PayloadStepView::Open => event is Opened || event is OpenFailed,
        PayloadStepView::Fetch => event is Row || event is RowFailed || event is End,
        PayloadStepView::CheckName => event is NameChecked,
        PayloadStepView::InspectSource => event is SourceInspected,
        PayloadStepView::ReadSource => event is SourceRead,
        PayloadStepView::MakeDir => event is DirMade,
        PayloadStepView::InspectDir => event is DirInspected,
        PayloadStepView::CheckTarget => event is TargetChecked,
        PayloadStepView::ReadTarget => event is TargetRead,
        PayloadStepView::MakeTarget => event is TargetMade,
        PayloadStepView::WriteTarget(_) => event is TargetWritten,
        PayloadStepView::Done => false,
        PayloadStepView::Fail(_) => false,
    }
}

/// The state and the step after events, one after the other, where copying
/// begins with the list.
pub open spec fn payload_after(events: Seq<PayloadEvent>) -> (PayloadCopyView, PayloadStepView)
    decreases events.len(),
{
    if events.len() == 0 {
        (
            PayloadCopyView { payload: None, checked: None, created: seq![] },
            PayloadStepView::Open,
        )
    } else {
        payload_next(payload_after(events.drop_last()).0, events.last())
    }
}

/// The directory of the target's payloads: what the file of each payload holds,
/// by the payload's name, and the paths at which there are files.
pub struct PayloadFiles {
    pub files: Map<Seq<char>, Seq<u8>>,
    pub paths: Set<PathBuf>,
}

/// What an event says of the files before and after it. A file is made only
/// where there is none, and writing touches the file of the payload at hand.
pub open spec fn payload_effect(
    state: PayloadCopyView,
    step: PayloadStepView,
    event: PayloadEvent,
    before: PayloadFiles,
    after: PayloadFiles,
) -> bool {
    let name = state.payload->0.payload_ref;
    match event {
        PayloadEvent::TargetChecked(there) => after == before && there
            == before.files.contains_key(name),
        PayloadEvent::TargetRead(Ok(bytes)) => after == before && before.files.contains_key(name)
            && before.files[name] == bytes@,
        PayloadEvent::TargetMade(Ok(path)) => {
            &&& !before.files.contains_key(name)
            &&& !before.paths.contains(path)
            &&& after.files == before.files.insert(name, seq![])
            &&& after.paths == before.paths.insert(path)
        },
        PayloadEvent::TargetWritten(Ok(_)) => after.paths == before.paths && after.files
            == before.files.insert(name, step->WriteTarget_0),
        PayloadEvent::TargetWritten(Err(_)) => after.paths == before.paths && exists|bytes: Seq<u8>|
            after.files == #[trigger] before.files.insert(name, bytes),
        _ => after == before,
    }
}

/// Whether events tell of one run: each tells what became of the step before
/// it, and `files[i]` are the files before event `i`.
pub open spec fn payload_goes(events: Seq<PayloadEvent>, files: Seq<PayloadFiles>) -> bool
    decreases events.len(),
{
    &&& files.len() == events.len() + 1
    &&& events.len() > 0 ==> {
        let (state, step) = payload_after(events.drop_last());
        &&& payload_goes(events.drop_last(), files.drop_last())
        &&& answers(step, events.last())
        &&& payload_effect(
            state,
            step,
            events.last(),
            files[files.len() - 2],
            files[files.len() - 1],
        )
    }
}

/// The payloads that the list gave, each with its name and its hash.
pub open spec fn listed(events: Seq<PayloadEvent>) -> Seq<(Seq<char>, Seq<char>)>
    decreases events.len(),
{
    if events.len() == 0 {
        seq![]
    } else {
        let earlier = listed(events.drop_last());
        match events.last() {
            PayloadEvent::Row { payload_ref: Ok(name), expected_hash: Ok(hash), .. } => earlier.push(
                (name@, hash@),
            ),
            _ => earlier,
        }
    }
}

/// The files that were made, in order.
pub open spec fn files_made(events: Seq<PayloadEvent>) -> Seq<PathBuf>
    decreases events.len(),
{
    if events.len() == 0 {
        seq![]
    } else {
        let earlier = files_made(events.drop_last());
        match events.last() {
            PayloadEvent::TargetMade(Ok(path)) => earlier.push(path),
            _ => earlier,
        }
    }
}

/// Whether a payload is at hand while a step is done.
pub open spec fn is_under_way(step: PayloadStepView) -> bool {
    match step {
        PayloadStepView::Open => false,
        PayloadStepView::Fetch => false,
        PayloadStepView::Done => false,
        PayloadStepView::Fail(_) => false,
        _ => true,
    }
}

/// Whether a payload stands among files with its hash.
pub open spec fn stands(files: Map<Seq<char>, Seq<u8>>, payload: (Seq<char>, Seq<char>)) -> bool {
    files.contains_key(payload.0) && hash_text(files[payload.0]) == payload.1
}

/// The payloads that are finished.
spec fn finished(events: Seq<PayloadEvent>) -> Seq<(Seq<char>, Seq<char>)> {
    if is_under_way(payload_after(events).1) {
        listed(events).drop_last()
    } else {
        listed(events)
    }
}

/// What holds after events of one run.
spec fn run_fits(events: Seq<PayloadEvent>, files: Seq<PayloadFiles>) -> bool {
    let (state, step) = payload_after(events);
    let first = files[0];
    let now = files.last();
    &&& payload_checked(state)
    &&& is_under_way(step) ==> {
        &&& state.payload is Some
        &&& listed(events).len() > 0
        &&& listed(events).last() == (
            state.payload->0.payload_ref,
            state.payload->0.expected_hash,
        )
    }
    &&& (step is MakeDir || step is InspectDir || step is CheckTarget || step is ReadTarget
        || step is MakeTarget ==> state.checked is Some)
    &&& (step matches PayloadStepView::WriteTarget(bytes) ==> {
        let name = state.payload->0.payload_ref;
        &&& hash_text(bytes) == state.payload->0.expected_hash
        &&& now.files.contains_key(name)
        &&& !first.files.contains_key(name)
        &&& forall|i: int| 0 <= i < finished(events).len() ==> (#[trigger] finished(events)[i]).0 != name
    })
    &&& (!(step is Fail) ==> forall|i: int|
        0 <= i < finished(events).len() ==> stands(now.files, #[trigger] finished(events)[i]))
    &&& forall|name: Seq<char>| #[trigger]
        first.files.contains_key(name) ==> now.files.contains_key(name) && now.files[name]
            == first.files[name]
    &&& state.created == files_made(events)
    &&& state.created.no_duplicates()
    &&& now.paths == first.paths.union(state.created.to_set())
    &&& forall|i: int|
        0 <= i < state.created.len() ==> !first.paths.contains(#[trigger] state.created[i])
}

proof fn run_always_fits(events: Seq<PayloadEvent>, files: Seq<PayloadFiles>)
    requires
        payload_goes(events, files),
    ensures
        run_fits(events, files),
    decreases events.len(),
{
    if events.len() == 0 {
        assert(files[0].paths.union(Seq::<PathBuf>::empty().to_set()) =~= files[0].paths);
    } else {
        let front = events.drop_last();
        let earlier = files.drop_last();
        run_always_fits(front, earlier);
        let (state, step) = payload_after(front);
        let (next, then_step) = payload_after(events);
        let before = files[files.len() - 2];
        let after = files[files.len() - 1];
        assert(earlier.last() == before);
        assert(earlier[0] == files[0]);
        assert(files.last() == after);
        match events.last() {
            PayloadEvent::Row { payload_ref: Ok(name), expected_hash: Ok(hash), .. } => {
                assert(listed(events).drop_last() == listed(front));
            },
            PayloadEvent::TargetMade(Ok(path)) => {
                assert(next.created == state.created.push(path));
                assert(!state.created.contains(path)) by {
                    if state.created.contains(path) {
                        assert(state.created.to_set().contains(path));
                    }
                }
                assert(next.created.to_set() =~= state.created.to_set().insert(path)) by {
                    assert forall|p: PathBuf| next.created.contains(p) == (state.created.contains(p)
                        || p == path) by {
                        if state.created.contains(p) {
                            let i = choose|i: int| 0 <= i < state.created.len() && state.created[i] == p;
                            assert(next.created[i] == p);
                        }
                        if p == path {
                            assert(next.created[state.created.len() as int] == p);
                        }
                    }
                }
                assert(after.paths =~= files[0].paths.union(next.created.to_set()));
            },
            _ => {},
        }
        let old_done = finished(front);
        let done = finished(events);
        if !(then_step is Fail) {
            assert forall|i: int| 0 <= i < done.len() implies stands(
                after.files,
                #[trigger] done[i],
            ) by {
                if i < old_done.len() {
                    assert(done[i] == old_done[i]);
                    assert(stands(before.files, old_done[i]));
                } else {
                    assert(done[i] == listed(front).last());
                }
            }
        }
        if then_step is WriteTarget {
            assert(done == old_done);
            assert forall|i: int| 0 <= i < done.len() implies (#[trigger] done[i]).0
                != next.payload->0.payload_ref by {
                assert(stands(before.files, old_done[i]));
            }
        }
    }
}

/// A driver that tells of each step what became of it keeps to the events that
/// a copy can take.
pub proof fn answers_fit(events: Seq<PayloadEvent>, files: Seq<PayloadFiles>, event: PayloadEvent)
    requires
        payload_goes(events, files),
        answers(payload_after(events).1, event),
    ensures
        payload_event_fits(payload_after(events).0, event),
{
    run_always_fits(events, files);
}

/// Copying ends well only when every payload of the list stands in the target
/// with its recorded hash. However it ends, what was there before is as it was,
/// and the files that are remembered are just those that were made, in order,
/// none of which was there before.
pub proof fn copied_payloads_stand(events: Seq<PayloadEvent>, files: Seq<PayloadFiles>)
    requires
        payload_goes(events, files),
    ensures
        payload_after(events).1 is Done ==> forall|i: int|
            0 <= i < listed(events).len() ==> stands(
                files.last().files,
                #[trigger] listed(events)[i],
            ),
        forall|name: Seq<char>| #[trigger]
            files[0].files.contains_key(name) ==> files.last().files.contains_key(name)
                && files.last().files[name] == files[0].files[name],
        payload_after(events).0.created == files_made(events),
        files_made(events).no_duplicates(),
        files.last().paths == files[0].paths.union(files_made(events).to_set()),
        forall|i: int|
            0 <= i < files_made(events).len() ==> !files[0].paths.contains(
                #[trigger] files_made(events)[i],
            ),
{
    run_always_fits(events, files);
    if payload_after(events).1 is Done {
        assert(finished(events) == listed(events));
    }
}

/// A payload is looked up by the name, the hash and the files that its row
/// gives, each in its own place.
pub proof fn payloads_hold_their_row(
    state: PayloadCopyView,
    name: String,
    hash: String,
    source_file: String,
    target_file: String,
)
    ensures
        ({
            let event = PayloadEvent::Row {
                payload_ref: Ok(name),
                expected_hash: Ok(hash),
                source_file,
                target_file,
            };
            let (next, step) = payload_next(state, event);
            &&& step is CheckName
            &&& next.payload matches Some(p) && p.payload_ref == name@ && p.expected_hash == hash@
                && p.source_file == source_file@ && p.target_file == target_file@
            &&& next.checked is None
            &&& next.created == state.created
        }),
{
}

/// A payload is read only after its name was found safe and its file regular;
/// it is used only where its bytes have the hash that its row names.
pub proof fn payloads_are_checked_before_use(state: PayloadCopyView, bytes: Vec<u8>, e: String)
    requires
        state.payload is Some,
    ensures
        payload_next(state, PayloadEvent::NameChecked(Ok(()))).1 is InspectSource,
        payload_next(state, PayloadEvent::NameChecked(Err(e))).1 is Fail,
        payload_next(state, PayloadEvent::SourceInspected(Ok(true))).1 is ReadSource,
        payload_next(state, PayloadEvent::SourceInspected(Ok(false))).1 is Fail,
        payload_next(state, PayloadEvent::SourceInspected(Err(e))).1 is Fail,
        state.payload->0.expected_hash == hex_text(sha256(bytes@)) ==> payload_next(
            state,
            PayloadEvent::SourceRead(Ok(bytes)),
        ).1 is MakeDir && payload_next(state, PayloadEvent::SourceRead(Ok(bytes))).0.checked == Some(
            bytes@,
        ),
        state.payload->0.expected_hash != hex_text(sha256(bytes@)) ==> payload_next(
            state,
            PayloadEvent::SourceRead(Ok(bytes)),
        ) == (state, payload_next(state, PayloadEvent::SourceRead(Ok(bytes))).1) && payload_next(
            state,
            PayloadEvent::SourceRead(Ok(bytes)),
        ).1 is Fail,
        payload_next(state, PayloadEvent::SourceRead(Err(e))).1 is Fail,
{
}

/// A file that the target has already is kept where it has the payload's hash,
/// and is a conflict where it has another; where there is none, one is made,
/// written with the bytes that were checked, and remembered.
pub proof fn targets_are_kept_or_made(
    state: PayloadCopyView,
    bytes: Vec<u8>,
    checked: Seq<u8>,
    path: PathBuf,
    e: String,
)
    requires
        state.payload is Some,
        state.checked == Some(checked),
    ensures
        payload_next(state, PayloadEvent::TargetChecked(true)).1 is ReadTarget,
        payload_next(state, PayloadEvent::TargetChecked(false)).1 is MakeTarget,
        state.payload->0.expected_hash == hex_text(sha256(bytes@)) ==> payload_next(
            state,
            PayloadEvent::TargetRead(Ok(bytes)),
        ) == (state, PayloadStepView::Fetch),
        state.payload->0.expected_hash != hex_text(sha256(bytes@)) ==> payload_next(
            state,
            PayloadEvent::TargetRead(Ok(bytes)),
        ).1 is Fail,
        payload_next(state, PayloadEvent::TargetMade(Ok(path))).1 == PayloadStepView::WriteTarget(
            checked,
        ),
        payload_next(state, PayloadEvent::TargetMade(Ok(path))).0.created == state.created.push(
            path,
        ),
        payload_next(state, PayloadEvent::TargetWritten(Ok(()))).1 is Fetch,
        payload_next(state, PayloadEvent::TargetRead(Err(e))).1 is Fail,
        payload_next(state, PayloadEvent::TargetMade(Err(e))).1 is Fail,
        payload_next(state, PayloadEvent::TargetWritten(Err(e))).1 is Fail,
        payload_next(state, PayloadEvent::DirMade(Err(e))).1 is Fail,
        payload_next(state, PayloadEvent::DirInspected(Err(e))).1 is Fail,
        payload_next(state, PayloadEvent::DirInspected(Ok(false))).1 is Fail,
        payload_next(state, PayloadEvent::DirInspected(Ok(true))).1 is CheckTarget,
        payload_next(state, PayloadEvent::End).1 is Done,
{
}

/// A payload is seen with each of its fields under its own name.
pub proof fn payloads_are_seen_as_they_are(payload: Payload, bytes: Vec<u8>)
    ensures
        payload@.payload_ref == payload.payload_ref@,
        payload@.expected_hash == payload.expected_hash@,
        payload@.source_file == payload.source_file@,
        payload@.target_file == payload.target_file@,
        PayloadStep::WriteTarget(bytes)@ == PayloadStepView::WriteTarget(bytes@),
{
}

} // verus!
