//! What a command line refers to outside itself: standard input, files, and
//! the reading of a decimal fraction.
//!
//! Parsing is a function of the words and of the inputs supplied so far. Where
//! it meets a reference that is not supplied yet it stops and names it; the
//! caller supplies it and parses again. So each source is read at most once,
//! however often the words refer to it.

use crate::json::{number_content, NumberView};
use crate::table::{supplied, supplied_at};
use crate::text::{chars_of, contains_text, copy_text, first_solid_is, is_space, same_text, stands_between, text_between, trim_start};
use vstd::prelude::*;

verus! {

/// An invalid command line, with the message that says what to do about it.
pub struct ConfigError {
    pub message: String,
}

/// Something outside the command line that parsing needs.
pub enum Source {
    /// The whole of standard input.
    Stdin,
    /// The contents of a file.
    File(String),
    /// The finite number that a text writes as a decimal fraction.
    Number(String),
}

/// What a [`Source`] is.
pub enum SourceView {
    Stdin,
    File(Seq<char>),
    Number(Seq<char>),
}

impl View for Source {
    type V = SourceView;

    open spec fn view(&self) -> SourceView {
        match self {
            Source::Stdin => SourceView::Stdin,
            Source::File(path) => SourceView::File(path@),
            Source::Number(text) => SourceView::Number(text@),
        }
    }
}

/// Why parsing stopped: a source is needed first, or the words are invalid.
pub enum Stop {
    Needs(Source),
    Invalid(ConfigError),
}

/// What a [`Stop`] says.
pub enum StopView {
    Needs(SourceView),
    Invalid(Seq<char>),
}

impl View for Stop {
    type V = StopView;

    open spec fn view(&self) -> StopView {
        match self {
            Stop::Needs(source) => StopView::Needs(source@),
            Stop::Invalid(error) => StopView::Invalid(error.message@),
        }
    }
}

/// The inputs supplied so far: the text of each source, or the text of the
/// error that reading it gave; of a number, what it is, if it is one.
pub struct Inputs {
    pub stdin: Option<Result<String, String>>,
    pub files: Vec<(String, Result<String, String>)>,
    pub numbers: Vec<(String, Option<serde_json::Number>)>,
}

/// What [`Inputs`] hold.
pub struct InputsView {
    pub stdin: Option<Result<Seq<char>, Seq<char>>>,
    pub files: Seq<(Seq<char>, Result<Seq<char>, Seq<char>>)>,
    pub numbers: Seq<(Seq<char>, Option<NumberView>)>,
}

/// What reading a source gave.
pub open spec fn reading(r: Result<String, String>) -> Result<Seq<char>, Seq<char>> {
    match r {
        Ok(text) => Ok(text@),
        Err(e) => Err(e@),
    }
}

/// What an optional number is.
pub open spec fn number_option(n: Option<serde_json::Number>) -> Option<NumberView> {
    match n {
        Some(x) => Some(number_content(x)),
        None => None,
    }
}

impl View for Inputs {
    type V = InputsView;

    open spec fn view(&self) -> InputsView {
        InputsView {
            stdin: match self.stdin {
                Some(r) => Some(reading(r)),
                None => None,
            },
            files: Seq::new(
                self.files@.len(),
                |i: int| (self.files@[i].0@, reading(self.files@[i].1)),
            ),
            numbers: Seq::new(
                self.numbers@.len(),
                |i: int| (self.numbers@[i].0@, number_option(self.numbers@[i].1)),
            ),
        }
    }
}

/// Whether a source is among the inputs.
pub open spec fn has_source(inputs: InputsView, source: SourceView) -> bool {
    match source {
        SourceView::Stdin => inputs.stdin is Some,
        SourceView::File(path) => supplied(inputs.files, path) is Some,
        SourceView::Number(text) => supplied(inputs.numbers, text) is Some,
    }
}

impl Inputs {
    /// No inputs yet.
    pub fn new() -> (r: Inputs)
        ensures
            r@.stdin is None,
            r@.files.len() == 0,
            r@.numbers.len() == 0,
    {
        Inputs { stdin: None, files: Vec::new(), numbers: Vec::new() }
    }

    fn file(&self, path: &str) -> (r: Option<&Result<String, String>>)
        ensures
            match r {
                Some(x) => supplied(self@.files, path@) == Some(reading(*x)),
                None => supplied(self@.files, path@) is None,
            },
    {
        let mut i: usize = 0;
        while i < self.files.len()
            invariant
                i <= self.files@.len(),
                forall|j: int| 0 <= j < i ==> (#[trigger] self@.files[j]).0 != path@,
            decreases self.files@.len() - i,
        {
            assert(self@.files[i as int].0 == self.files@[i as int].0@);
            if same_text(self.files[i].0.as_str(), path) {
                proof {
                    supplied_at(self@.files, path@, i as int);
                }
                return Some(&self.files[i].1);
            }
            i += 1;
        }
        proof {
            supplied_at(self@.files, path@, i as int);
        }
        None
    }

    /// What was supplied as the number that `text` writes.
    pub fn number(&self, text: &str) -> (r: Option<&Option<serde_json::Number>>)
        ensures
            match r {
                Some(x) => supplied(self@.numbers, text@) == Some(number_option(*x)),
                None => supplied(self@.numbers, text@) is None,
            },
    {
        let mut i: usize = 0;
        while i < self.numbers.len()
            invariant
                i <= self.numbers@.len(),
                forall|j: int| 0 <= j < i ==> (#[trigger] self@.numbers[j]).0 != text@,
            decreases self.numbers@.len() - i,
        {
            assert(self@.numbers[i as int].0 == self.numbers@[i as int].0@);
            if same_text(self.numbers[i].0.as_str(), text) {
                proof {
                    supplied_at(self@.numbers, text@, i as int);
                }
                return Some(&self.numbers[i].1);
            }
            i += 1;
        }
        proof {
            supplied_at(self@.numbers, text@, i as int);
        }
        None
    }
}

/// Stops with an error message.
pub open spec fn invalid<T>(message: Seq<char>) -> Result<T, StopView> {
    Err(StopView::Invalid(message))
}

/// Stops with an error message.
pub fn stop_invalid(message: String) -> (r: Stop)
    ensures
        r@ == StopView::Invalid(message@),
{
    Stop::Invalid(ConfigError { message })
}

/// The text of standard input.
pub open spec fn stdin_text(inputs: InputsView) -> Result<Seq<char>, StopView> {
    match inputs.stdin {
        None => Err(StopView::Needs(SourceView::Stdin)),
        Some(Ok(text)) => Ok(text),
        Some(Err(e)) => invalid("failed to read stdin: "@ + e),
    }
}

fn read_stdin(inputs: &Inputs) -> (r: Result<String, Stop>)
    ensures
        outcome(r) == stdin_text(inputs@),
{
    match &inputs.stdin {
        None => Err(Stop::Needs(Source::Stdin)),
        Some(Ok(text)) => Ok(text.clone()),
        Some(Err(e)) => {
            let mut message = copy_text("failed to read stdin: ");
            message.append(e.as_str());
            Err(stop_invalid(message))
        },
    }
}

/// What a reading step gives.
pub open spec fn outcome(r: Result<String, Stop>) -> Result<Seq<char>, StopView> {
    match r {
        Ok(text) => Ok(text@),
        Err(stop) => Err(stop@),
    }
}

/// The text that a `--key` value stands for: what follows a leading `@` names a
/// file, or standard input when it is `-`; any other value is itself.
pub open spec fn value_text(raw: Seq<char>, inputs: InputsView) -> Result<Seq<char>, StopView> {
    if raw.len() > 0 && raw[0] == '@' {
        let path = raw.skip(1);
        if path == "-"@ {
            stdin_text(inputs)
        } else {
            match supplied(inputs.files, path) {
                None => Err(StopView::Needs(SourceView::File(path))),
                Some(Ok(text)) => Ok(text),
                Some(Err(e)) => invalid(
                    "failed to read @"@ + path + ": "@ + e
                        + " — the path is resolved relative to the current directory; for a literal value that begins with `@`, use --args instead"@,
                ),
            }
        }
    } else {
        Ok(raw)
    }
}

/// The text that a `--key` value stands for.
pub fn resolve_at_file(raw: &str, inputs: &Inputs) -> (r: Result<String, Stop>)
    ensures
        outcome(r) == value_text(raw@, inputs@),
{
    let chars = chars_of(raw);
    if chars.len() > 0 && chars[0] == '@' {
        let path = text_between(&chars, 1, chars.len());
        assert(path@ == raw@.skip(1));
        if same_text(path.as_str(), "-") {
            return read_stdin(inputs);
        }
        match inputs.file(path.as_str()) {
            None => Err(Stop::Needs(Source::File(path))),
            Some(Ok(text)) => Ok(text.clone()),
            Some(Err(e)) => {
                let mut message = copy_text("failed to read @");
                message.append(path.as_str());
                message.append(": ");
                message.append(e.as_str());
                message.append(
                    " — the path is resolved relative to the current directory; for a literal value that begins with `@`, use --args instead",
                );
                Err(stop_invalid(message))
            },
        }
    } else {
        Ok(copy_text(raw))
    }
}

/// The text that an `--args` value stands for: `-` is standard input, a value
/// that begins like a JSON object or array is itself, and any other names a
/// file, with or without a leading `@`.
pub open spec fn payload_text(raw: Seq<char>, inputs: InputsView) -> Result<Seq<char>, StopView> {
    let head = trim_start(raw);
    if raw == "-"@ {
        stdin_text(inputs)
    } else if head.len() > 0 && (head[0] == '{' || head[0] == '[') {
        Ok(raw)
    } else if raw.len() > 0 && raw[0] == '@' {
        value_text(raw, inputs)
    } else {
        match supplied(inputs.files, raw) {
            None => Err(StopView::Needs(SourceView::File(raw))),
            Some(Ok(text)) => Ok(text),
            Some(Err(e)) => invalid(
                "--args: `"@ + raw + "` is not inline JSON, `-` (stdin), or a readable file: "@ + e,
            ),
        }
    }
}

/// The text that an `--args` value stands for.
pub fn resolve_args_payload(raw: &str, inputs: &Inputs) -> (r: Result<String, Stop>)
    ensures
        outcome(r) == payload_text(raw@, inputs@),
{
    let chars = chars_of(raw);
    assert(raw@.skip(0) == raw@);
    let start: usize = crate::text::find_solid(&chars, 0);
    proof {
        if start < raw@.len() {
            assert(trim_start(raw@)[0] == raw@[start as int]);
        }
    }
    if same_text(raw, "-") {
        read_stdin(inputs)
    } else if start < chars.len() && (chars[start] == '{' || chars[start] == '[') {
        Ok(copy_text(raw))
    } else if chars.len() > 0 && chars[0] == '@' {
        resolve_at_file(raw, inputs)
    } else {
        match inputs.file(raw) {
            None => Err(Stop::Needs(Source::File(copy_text(raw)))),
            Some(Ok(text)) => Ok(text.clone()),
            Some(Err(e)) => {
                let mut message = copy_text("--args: `");
                message.append(raw);
                message.append("` is not inline JSON, `-` (stdin), or a readable file: ");
                message.append(e.as_str());
                Err(stop_invalid(message))
            },
        }
    }
}

/// A value that does not begin with `@` stands for itself. `@-` stands for the
/// text of standard input, and `@` with a path for the text of that file; what
/// is not there yet is asked for, and what cannot be read is refused.
pub proof fn values_name_their_source(raw: Seq<char>, path: Seq<char>, inputs: InputsView)
    ensures
        raw.len() == 0 || raw[0] != '@' ==> value_text(raw, inputs) == Ok::<Seq<char>, StopView>(
            raw,
        ),
        inputs.stdin matches Some(Ok(text)) ==> value_text(seq!['@', '-'], inputs) == Ok::<
            Seq<char>,
            StopView,
        >(text),
        inputs.stdin is None ==> value_text(seq!['@', '-'], inputs) == Err::<Seq<char>, StopView>(
            StopView::Needs(SourceView::Stdin),
        ),
        inputs.stdin matches Some(Err(e)) ==> (value_text(seq!['@', '-'], inputs) matches Err(
            StopView::Invalid(message),
        ) && e.is_suffix_of(message)),
        path != seq!['-'] ==> match supplied(inputs.files, path) {
            Some(Ok(text)) => value_text(seq!['@'] + path, inputs) == Ok::<Seq<char>, StopView>(
                text,
            ),
            Some(Err(e)) => value_text(seq!['@'] + path, inputs) matches Err(
                StopView::Invalid(message),
            ) && contains_text(message, e) && contains_text(message, path),
            None => value_text(seq!['@'] + path, inputs) == Err::<Seq<char>, StopView>(
                StopView::Needs(SourceView::File(path)),
            ),
        },
{
    reveal_strlit("-");
    assert("-"@ == seq!['-']);
    assert(seq!['@', '-'].skip(1) == seq!['-']);
    assert((seq!['@'] + path).skip(1) == path);
    if let Some(Err(e)) = supplied(inputs.files, path) {
        if path != seq!['-'] {
            let hint = " — the path is resolved relative to the current directory; for a literal value that begins with `@`, use --args instead"@;
            let before = "failed to read @"@ + path + ": "@;
            stands_between(before, e, hint);
            stands_between("failed to read @"@, path, ": "@ + e + hint);
            assert("failed to read @"@ + path + (": "@ + e + hint) == before + e + hint);
        }
    }
}

/// A whole payload is the JSON that begins with a brace or a bracket, standard
/// input for `-`, what a value that begins with `@` stands for, or else the
/// file of that name.
pub proof fn payloads_name_their_source(raw: Seq<char>, inputs: InputsView)
    ensures
        payload_text(seq!['-'], inputs) == value_text(seq!['@', '-'], inputs),
        (exists|i: int|
            0 <= i < raw.len() && (raw[i] == '{' || raw[i] == '[') && (forall|j: int|
                0 <= j < i ==> is_space(#[trigger] raw[j]))) ==> payload_text(raw, inputs) == Ok::<
            Seq<char>,
            StopView,
        >(raw),
        raw.len() > 0 && raw[0] == '@' ==> payload_text(raw, inputs) == value_text(raw, inputs),
        raw != seq!['-'] && (raw.len() > 0 ==> raw[0] != '@') && (trim_start(raw).len() > 0
            ==> trim_start(raw)[0] != '{' && trim_start(raw)[0] != '[') ==> match supplied(inputs.files, raw) {
            Some(Ok(text)) => payload_text(raw, inputs) == Ok::<Seq<char>, StopView>(text),
            Some(Err(e)) => payload_text(raw, inputs) matches Err(StopView::Invalid(message))
                && e.is_suffix_of(message),
            None => payload_text(raw, inputs) == Err::<Seq<char>, StopView>(
                StopView::Needs(SourceView::File(raw)),
            ),
        },
{
    reveal_strlit("-");
    assert("-"@ == seq!['-']);
    assert(seq!['@', '-'].skip(1) == seq!['-']);
    if exists|i: int|
        0 <= i < raw.len() && (raw[i] == '{' || raw[i] == '[') && (forall|j: int|
            0 <= j < i ==> is_space(#[trigger] raw[j])) {
        let i = choose|i: int|
            0 <= i < raw.len() && (raw[i] == '{' || raw[i] == '[') && (forall|j: int|
                0 <= j < i ==> is_space(#[trigger] raw[j]));
        assert(!is_space(raw[i]));
        first_solid_is(raw, i);
        assert(trim_start(raw)[0] == raw[i]);
        assert(raw != seq!['-']) by {
            if raw == seq!['-'] {
                assert(raw[i] == '-');
            }
        }
    }
    if raw.len() > 0 && raw[0] == '@' {
        first_solid_is(raw, 0);
        assert(trim_start(raw)[0] == raw[0]);
    }
}

/// A source is asked for by its name.
pub proof fn sources_are_seen_as_they_are(path: String, stop: Stop)
    ensures
        Source::File(path)@ == SourceView::File(path@),
        Source::Number(path)@ == SourceView::Number(path@),
        Source::Stdin@ == SourceView::Stdin,
        stop matches Stop::Needs(source) ==> stop@ == StopView::Needs(source@),
        stop matches Stop::Invalid(error) ==> stop@ == StopView::Invalid(error.message@),
{
}

} // verus!
