//! Transcripts and journals of agents: one JSON object per line.

use crate::json::{field, integer_at, string_option, text_at, Json, JsonView};
use crate::json_io::{json_reading, parse_json};
use crate::sessions::workflow_index::{AgentView, WorkflowAgent, WorkflowStatus};
use crate::table::{supplied, supplied_at};
use crate::text::{copy_text, lines, lines_of, same_text, texts, trim, trimmed};
use vstd::prelude::*;

verus! {

/// Times written in transcripts, with the seconds since the epoch that each
/// means; a text that is not in the list means no time.
pub struct Timestamps {
    pub readings: Vec<(String, u64)>,
}

impl View for Timestamps {
    type V = Seq<(Seq<char>, u64)>;

    open spec fn view(&self) -> Seq<(Seq<char>, u64)> {
        Seq::new(self.readings@.len(), |i: int| (self.readings@[i].0@, self.readings@[i].1))
    }
}

/// The seconds that a text means, when they fit.
pub open spec fn time_of(times: Seq<(Seq<char>, u64)>, text: Seq<char>) -> Option<i64> {
    match supplied(times, text) {
        Some(secs) => if secs <= i64::MAX {
            Some(secs as i64)
        } else {
            None
        },
        None => None,
    }
}

/// The time in a value's `timestamp`.
pub open spec fn timestamp_of(v: JsonView, times: Seq<(Seq<char>, u64)>) -> Option<i64> {
    match text_at(v, "timestamp"@) {
        Some(text) => time_of(times, text),
        None => None,
    }
}

impl Timestamps {
    /// The seconds that the text means, when they fit.
    pub fn seconds(&self, text: &str) -> (r: Option<i64>)
        ensures
            r == time_of(self@, text@),
    {
        let mut i: usize = 0;
        while i < self.readings.len()
            invariant
                i <= self.readings@.len(),
                forall|j: int| 0 <= j < i ==> (#[trigger] self@[j]).0 != text@,
            decreases self.readings@.len() - i,
        {
            assert(self@[i as int].0 == self.readings@[i as int].0@);
            if same_text(self.readings[i].0.as_str(), text) {
                proof {
                    supplied_at(self@, text@, i as int);
                }
                let secs: u64 = self.readings[i].1;
                if secs <= i64::MAX as u64 {
                    return Some(secs as i64);
                }
                return None;
            }
            i += 1;
        }
        proof {
            supplied_at(self@, text@, i as int);
        }
        None
    }

    /// The time in the value's `timestamp`.
    pub fn timestamp(&self, v: &Json) -> (r: Option<i64>)
        ensures
            r == timestamp_of(v@, self@),
    {
        match v.str_at("timestamp") {
            Some(text) => self.seconds(text),
            None => None,
        }
    }
}

/// The sum, kept within the range of its type.
pub open spec fn clipped_sum(a: i64, b: i64) -> i64 {
    if a + b > i64::MAX {
        i64::MAX
    } else if a + b < i64::MIN {
        i64::MIN
    } else {
        (a + b) as i64
    }
}

/// The sum, kept within the range of its type.
pub fn saturating_sum(a: i64, b: i64) -> (r: i64)
    ensures
        r == clipped_sum(a, b),
{
    let sum: i128 = a as i128 + b as i128;
    if sum > i64::MAX as i128 {
        i64::MAX
    } else if sum < i64::MIN as i128 {
        i64::MIN
    } else {
        sum as i64
    }
}

/// A text field that is not empty.
pub open spec fn filled_text(v: JsonView, key: Seq<char>) -> Option<Seq<char>> {
    match text_at(v, key) {
        Some(text) => if text.len() > 0 {
            Some(text)
        } else {
            None
        },
        None => None,
    }
}

/// The text field, when it is not empty.
pub fn string_field(v: &Json, key: &str) -> (r: Option<String>)
    ensures
        string_option(r) == filled_text(v@, key@),
{
    match v.str_at(key) {
        Some(text) => if text.is_empty() {
            None
        } else {
            Some(copy_text(text))
        },
        None => None,
    }
}

/// The usage record of a transcript line.
pub open spec fn usage_of(v: JsonView) -> Option<JsonView> {
    let inner = match field(v, "message"@) {
        Some(message) => field(message, "usage"@),
        None => None,
    };
    match inner {
        Some(usage) => Some(usage),
        None => field(v, "usage"@),
    }
}

/// An integer field, zero when there is none.
pub open spec fn count_at(v: JsonView, key: Seq<char>) -> i64 {
    match integer_at(v, key) {
        Some(n) => n,
        None => 0,
    }
}

/// The input and output tokens that a transcript line records.
pub open spec fn usage_tokens(v: JsonView) -> i64 {
    match usage_of(v) {
        Some(usage) => clipped_sum(
            count_at(usage, "input_tokens"@),
            count_at(usage, "output_tokens"@),
        ),
        None => 0,
    }
}

/// The input and output tokens that the transcript line records.
pub fn line_usage_tokens(v: &Json) -> (r: i64)
    ensures
        r == usage_tokens(v@),
{
    let inner = match v.get("message") {
        Some(message) => message.get("usage"),
        None => None,
    };
    let usage = match inner {
        Some(usage) => Some(usage),
        None => v.get("usage"),
    };
    match usage {
        Some(usage) => {
            let input: i64 = match usage.i64_at("input_tokens") {
                Some(n) => n,
                None => 0,
            };
            let output: i64 = match usage.i64_at("output_tokens") {
                Some(n) => n,
                None => 0,
            };
            saturating_sum(input, output)
        },
        None => 0,
    }
}

/// What a transcript says as a whole.
#[derive(Debug)]
pub struct TranscriptSummary {
    pub tokens: i64,
    pub session_id: Option<String>,
    pub first_ts: Option<i64>,
    pub last_ts: Option<i64>,
}

/// What a [`TranscriptSummary`] holds.
pub struct SummaryView {
    pub tokens: i64,
    pub session_id: Option<Seq<char>>,
    pub first_ts: Option<i64>,
    pub last_ts: Option<i64>,
}

impl View for TranscriptSummary {
    type V = SummaryView;

    open spec fn view(&self) -> SummaryView {
        SummaryView {
            tokens: self.tokens,
            session_id: string_option(self.session_id),
            first_ts: self.first_ts,
            last_ts: self.last_ts,
        }
    }
}

/// Before the first line.
pub open spec fn empty_summary() -> SummaryView {
    SummaryView { tokens: 0, session_id: None, first_ts: None, last_ts: None }
}

/// The summary after one more record: the first session id and the first time
/// stay, the last time moves on, the tokens add up.
pub open spec fn with_record(
    summary: SummaryView,
    v: JsonView,
    times: Seq<(Seq<char>, u64)>,
) -> SummaryView {
    let at = timestamp_of(v, times);
    SummaryView {
        tokens: clipped_sum(summary.tokens, usage_tokens(v)),
        session_id: if summary.session_id is Some {
            summary.session_id
        } else {
            filled_text(v, "sessionId"@)
        },
        first_ts: if summary.first_ts is Some {
            summary.first_ts
        } else {
            at
        },
        last_ts: if at is Some {
            at
        } else {
            summary.last_ts
        },
    }
}

/// The summary after one more line, given what its text writes; a line that is
/// blank or not JSON changes nothing.
pub open spec fn with_line(
    summary: SummaryView,
    line: Seq<char>,
    times: Seq<(Seq<char>, u64)>,
) -> SummaryView {
    if trim(line).len() == 0 {
        summary
    } else {
        match json_reading(trim(line)) {
            Ok(v) => with_record(summary, v, times),
            Err(_) => summary,
        }
    }
}

/// The summary of lines, one after the other.
pub open spec fn summary_of(body: Seq<Seq<char>>, times: Seq<(Seq<char>, u64)>) -> SummaryView
    decreases body.len(),
{
    if body.len() == 0 {
        empty_summary()
    } else {
        with_line(summary_of(body.drop_last(), times), body.last(), times)
    }
}

/// The summary after one more record.
pub fn add_record(summary: TranscriptSummary, v: &Json, times: &Timestamps) -> (r:
    TranscriptSummary)
    ensures
        r@ == with_record(summary@, v@, times@),
{
    let session_id = match summary.session_id {
        Some(id) => Some(id),
        None => string_field(v, "sessionId"),
    };
    let at = times.timestamp(v);
    let first_ts = match summary.first_ts {
        Some(t) => Some(t),
        None => at,
    };
    let last_ts = match at {
        Some(t) => Some(t),
        None => summary.last_ts,
    };
    TranscriptSummary {
        tokens: saturating_sum(summary.tokens, line_usage_tokens(v)),
        session_id,
        first_ts,
        last_ts,
    }
}

/// The summary of a transcript.
pub fn summarize_transcript(body: &str, times: &Timestamps) -> (r: TranscriptSummary)
    ensures
        r@ == summary_of(lines(body@), times@),
{
    let all = lines_of(body);
    let ghost words = texts(all@);
    let mut summary = TranscriptSummary {
        tokens: 0,
        session_id: None,
        first_ts: None,
        last_ts: None,
    };
    let mut i: usize = 0;
    assert(words.take(0) == Seq::<Seq<char>>::empty());
    while i < all.len()
        invariant
            i <= all@.len(),
            words == texts(all@),
            summary@ == summary_of(words.take(i as int), times@),
        decreases all@.len() - i,
    {
        proof {
            assert(words.take(i as int + 1).drop_last() == words.take(i as int));
            assert(words.take(i as int + 1).last() == all@[i as int]@);
        }
        let line = trimmed(all[i].as_str());
        if !line.as_str().is_empty() {
            match parse_json(line.as_str()) {
                Ok(v) => {
                    summary = add_record(summary, &v, times);
                },
                Err(_) => {},
            }
        }
        i += 1;
    }
    assert(words.take(words.len() as int) == words);
    summary
}

/// The times that the lines of a transcript write, in order.
pub open spec fn times_written(body: Seq<Seq<char>>) -> Seq<Seq<char>>
    decreases body.len(),
{
    if body.len() == 0 {
        seq![]
    } else {
        let earlier = times_written(body.drop_last());
        match json_reading(trim(body.last())) {
            Ok(v) => match text_at(v, "timestamp"@) {
                Some(text) => earlier.push(text),
                None => earlier,
            },
            Err(_) => earlier,
        }
    }
}

/// The times that the lines of a transcript write, in order: those of which a
/// summary needs the meaning.
pub fn timestamps_in(body: &str) -> (r: Vec<String>)
    ensures
        texts(r@) == times_written(lines(body@)),
{
    let all = lines_of(body);
    let ghost words = texts(all@);
    let mut out: Vec<String> = Vec::new();
    let mut i: usize = 0;
    assert(words.take(0) == Seq::<Seq<char>>::empty());
    assert(texts(out@) == Seq::<Seq<char>>::empty());
    while i < all.len()
        invariant
            i <= all@.len(),
            words == texts(all@),
            texts(out@) == times_written(words.take(i as int)),
        decreases all@.len() - i,
    {
        proof {
            assert(words.take(i as int + 1).drop_last() == words.take(i as int));
            assert(words.take(i as int + 1).last() == all@[i as int]@);
        }
        match parse_json(trimmed(all[i].as_str()).as_str()) {
            Ok(v) => match v.str_at("timestamp") {
                Some(text) => {
                    let ghost before = out@;
                    let copy = copy_text(text);
                    out.push(copy);
                    proof {
                        crate::text::texts_push(before, copy);
                    }
                },
                None => {},
            },
            Err(_) => {},
        }
        i += 1;
    }
    assert(words.take(words.len() as int) == words);
    out
}

/// What is known of an agent's transcript file: where it is and, when it could
/// be read, what it says.
pub struct TranscriptFile {
    pub path: String,
    pub summary: Option<TranscriptSummary>,
}

/// An agent with what its transcript file says; nothing changes when there is
/// no file, and only the path when it could not be read.
pub open spec fn enriched(agent: AgentView, path: Seq<char>, summary: Option<SummaryView>) -> AgentView {
    if agent.agent_id.len() == 0 {
        agent
    } else {
        match summary {
            None => AgentView { transcript_path: Some(path), ..agent },
            Some(s) => AgentView {
                transcript_path: Some(path),
                tokens: if s.tokens > 0 {
                    s.tokens
                } else {
                    agent.tokens
                },
                agent_session_id: if agent.agent_session_id is None {
                    s.session_id
                } else {
                    agent.agent_session_id
                },
                started_ts: if agent.started_ts is None {
                    s.first_ts
                } else {
                    agent.started_ts
                },
                ended_ts: if s.last_ts is Some {
                    s.last_ts
                } else {
                    agent.ended_ts
                },
                ..agent
            },
        }
    }
}

/// What a file's summary holds.
pub open spec fn summary_option(s: Option<TranscriptSummary>) -> Option<SummaryView> {
    match s {
        Some(summary) => Some(summary@),
        None => None,
    }
}

/// Fills in what the agent's transcript file says.
pub fn enrich_agent_from_transcript(agent: &mut WorkflowAgent, file: Option<TranscriptFile>)
    ensures
        final(agent)@ == match file {
            Some(f) => enriched(old(agent)@, f.path@, summary_option(f.summary)),
            None => old(agent)@,
        },
{
    let file = match file {
        Some(file) => file,
        None => return ,
    };
    if agent.agent_id.as_str().is_empty() {
        return ;
    }
    agent.transcript_path = Some(file.path);
    let summary = match file.summary {
        Some(summary) => summary,
        None => return ,
    };
    if summary.tokens > 0 {
        agent.tokens = summary.tokens;
    }
    if agent.agent_session_id.is_none() {
        agent.agent_session_id = summary.session_id;
    }
    if agent.started_ts.is_none() {
        agent.started_ts = summary.first_ts;
    }
    if summary.last_ts.is_some() {
        agent.ended_ts = summary.last_ts;
    }
}

/// One event of a journal.
#[derive(Debug)]
pub struct JournalEvent {
    pub event_type: String,
    pub agent_id: String,
}

/// What a [`JournalEvent`] holds.
pub struct EventView {
    pub event_type: Seq<char>,
    pub agent_id: Seq<char>,
}

impl View for JournalEvent {
    type V = EventView;

    open spec fn view(&self) -> EventView {
        EventView { event_type: self.event_type@, agent_id: self.agent_id@ }
    }
}

/// The events as mathematical objects.
pub open spec fn event_views(events: Seq<JournalEvent>) -> Seq<EventView> {
    Seq::new(events.len(), |i: int| events[i]@)
}

/// The event that a journal record is: it has a type and names an agent.
pub open spec fn event_of(v: JsonView) -> Option<EventView> {
    match (text_at(v, "type"@), filled_text(v, "agentId"@)) {
        (Some(event_type), Some(agent_id)) => Some(EventView { event_type, agent_id }),
        _ => None,
    }
}

/// The event that the journal record is.
pub fn journal_event(v: &Json) -> (r: Option<JournalEvent>)
    ensures
        match r {
            Some(e) => event_of(v@) == Some(e@),
            None => event_of(v@) is None,
        },
{
    let event_type = match v.str_at("type") {
        Some(t) => copy_text(t),
        None => return None,
    };
    match string_field(v, "agentId") {
        Some(agent_id) => Some(JournalEvent { event_type, agent_id }),
        None => None,
    }
}

/// The events of a journal's lines; lines that are none are passed over.
pub open spec fn journal_of(body: Seq<Seq<char>>) -> Seq<EventView>
    decreases body.len(),
{
    if body.len() == 0 {
        seq![]
    } else {
        let earlier = journal_of(body.drop_last());
        match json_reading(trim(body.last())) {
            Ok(v) => match event_of(v) {
                Some(e) => earlier.push(e),
                None => earlier,
            },
            Err(_) => earlier,
        }
    }
}

/// The events of a journal.
pub fn parse_journal(body: &str) -> (r: Vec<JournalEvent>)
    ensures
        event_views(r@) == journal_of(lines(body@)),
{
    let all = lines_of(body);
    let ghost words = texts(all@);
    let mut out: Vec<JournalEvent> = Vec::new();
    let mut i: usize = 0;
    assert(words.take(0) == Seq::<Seq<char>>::empty());
    assert(event_views(out@) == Seq::<EventView>::empty());
    while i < all.len()
        invariant
            i <= all@.len(),
            words == texts(all@),
            event_views(out@) == journal_of(words.take(i as int)),
        decreases all@.len() - i,
    {
        proof {
            assert(words.take(i as int + 1).drop_last() == words.take(i as int));
            assert(words.take(i as int + 1).last() == all@[i as int]@);
        }
        match parse_json(trimmed(all[i].as_str()).as_str()) {
            Ok(v) => match journal_event(&v) {
                Some(e) => {
                    let ghost before = out@;
                    out.push(e);
                    assert(event_views(before.push(e)) == event_views(before).push(e@));
                },
                None => {},
            },
            Err(_) => {},
        }
        i += 1;
    }
    assert(words.take(words.len() as int) == words);
    out
}

/// Whether an event names an agent.
pub open spec fn names_agent(event: EventView, agent_id: Seq<char>) -> bool {
    event.agent_id == agent_id
}

/// Whether an event is the result of an agent.
pub open spec fn is_result_of(event: EventView, agent_id: Seq<char>) -> bool {
    names_agent(event, agent_id) && event.event_type == "result"@
}

/// The status of an agent by its events: one with a result is done; one that
/// has other events runs, and one that no event names is unknown.
pub open spec fn status_by_journal(events: Seq<EventView>, agent_id: Seq<char>) -> WorkflowStatus {
    if exists|i: int| 0 <= i < events.len() && is_result_of(#[trigger] events[i], agent_id) {
        WorkflowStatus::Completed
    } else if exists|i: int| 0 <= i < events.len() && names_agent(#[trigger] events[i], agent_id) {
        WorkflowStatus::Running
    } else {
        WorkflowStatus::Unknown
    }
}

/// The status of the agent by its events.
pub fn journal_agent_status(journal: &Vec<JournalEvent>, agent_id: &str) -> (r: WorkflowStatus)
    ensures
        r == status_by_journal(event_views(journal@), agent_id@),
{
    let ghost all = event_views(journal@);
    let mut seen = false;
    let mut i: usize = 0;
    while i < journal.len()
        invariant
            i <= journal@.len(),
            all == event_views(journal@),
            forall|k: int| 0 <= k < i ==> !is_result_of(#[trigger] all[k], agent_id@),
            seen == exists|k: int| 0 <= k < i && names_agent(#[trigger] all[k], agent_id@),
        decreases journal@.len() - i,
    {
        assert(all[i as int] == journal@[i as int]@);
        if same_text(journal[i].agent_id.as_str(), agent_id) {
            assert(names_agent(all[i as int], agent_id@));
            if same_text(journal[i].event_type.as_str(), "result") {
                assert(is_result_of(all[i as int], agent_id@));
                return WorkflowStatus::Completed;
            }
            seen = true;
        }
        i += 1;
    }
    if seen {
        WorkflowStatus::Running
    } else {
        WorkflowStatus::Unknown
    }
}

/// The number of lines of a transcript that are looked at for a working
/// directory.
pub const CWD_PROBE_LINES: usize = 8;

/// The working directory that a record names.
pub open spec fn cwd_of_line(line: Seq<char>) -> Option<Seq<char>> {
    if trim(line).len() == 0 {
        None
    } else {
        match json_reading(trim(line)) {
            Ok(v) => filled_text(v, "cwd"@),
            Err(_) => None,
        }
    }
}

/// The first working directory that lines name.
pub open spec fn first_cwd(body: Seq<Seq<char>>) -> Option<Seq<char>>
    decreases body.len(),
{
    if body.len() == 0 {
        None
    } else {
        match cwd_of_line(body[0]) {
            Some(cwd) => Some(cwd),
            None => first_cwd(body.skip(1)),
        }
    }
}

/// The lines that are looked at for a working directory.
pub open spec fn probed(body: Seq<Seq<char>>) -> Seq<Seq<char>> {
    if body.len() > CWD_PROBE_LINES {
        body.take(CWD_PROBE_LINES as int)
    } else {
        body
    }
}

/// The working directory that an early line of a transcript names.
pub fn transcript_cwd(body: &Vec<String>) -> (r: Option<String>)
    ensures
        string_option(r) == first_cwd(probed(texts(body@))),
{
    let ghost all = probed(texts(body@));
    let total: usize = if body.len() > CWD_PROBE_LINES {
        CWD_PROBE_LINES
    } else {
        body.len()
    };
    let mut i: usize = 0;
    assert(all.skip(0) == all);
    while i < total
        invariant
            i <= total,
            total == all.len(),
            total <= body@.len(),
            all == probed(texts(body@)),
            first_cwd(all) == first_cwd(all.skip(i as int)),
        decreases total - i,
    {
        proof {
            assert(all.skip(i as int)[0] == body@[i as int]@);
            assert(all.skip(i as int).skip(1) == all.skip(i as int + 1));
        }
        let line = trimmed(body[i].as_str());
        if !line.as_str().is_empty() {
            match parse_json(line.as_str()) {
                Ok(v) => match string_field(&v, "cwd") {
                    Some(cwd) => return Some(cwd),
                    None => {},
                },
                Err(_) => {},
            }
        }
        i += 1;
    }
    None
}

/// Whether a line carries a usage record: the one of its message, or its own
/// where its message has none.
pub open spec fn carries_usage(v: JsonView, usage: JsonView) -> bool {
    ||| field(v, "message"@) matches Some(message) && field(message, "usage"@) == Some(usage)
    ||| (field(v, "message"@) matches Some(message) ==> field(message, "usage"@) is None) && field(
        v,
        "usage"@,
    ) == Some(usage)
}

/// The tokens of a line depend on nothing but the input and output tokens of its
/// usage record: two records that agree on both give the same count.
pub proof fn tokens_depend_on_input_and_output(
    v: JsonView,
    w: JsonView,
    usage: JsonView,
    other: JsonView,
)
    requires
        carries_usage(v, usage),
        carries_usage(w, other),
        integer_at(usage, "input_tokens"@) == integer_at(other, "input_tokens"@),
        integer_at(usage, "output_tokens"@) == integer_at(other, "output_tokens"@),
    ensures
        usage_tokens(v) == usage_tokens(w),
{
}

/// The tokens of a line are the sum of the input and output tokens that its
/// usage record names, held at the bounds of the number; one that is not named
/// counts nothing, and so does a line without a record.
pub proof fn tokens_are_input_and_output(v: JsonView, usage: JsonView)
    ensures
        carries_usage(v, usage) ==> {
            &&& integer_at(usage, "input_tokens"@) matches Some(a) ==> (integer_at(
                usage,
                "output_tokens"@,
            ) matches Some(b) ==> {
                &&& i64::MIN <= a + b <= i64::MAX ==> usage_tokens(v) == a + b
                &&& a + b > i64::MAX ==> usage_tokens(v) == i64::MAX
                &&& a + b < i64::MIN ==> usage_tokens(v) == i64::MIN
            })
            &&& integer_at(usage, "output_tokens"@) is None ==> (integer_at(usage, "input_tokens"@)
                matches Some(a) ==> usage_tokens(v) == a)
            &&& integer_at(usage, "input_tokens"@) is None ==> (integer_at(usage, "output_tokens"@)
                matches Some(b) ==> usage_tokens(v) == b)
            &&& integer_at(usage, "input_tokens"@) is None && integer_at(usage, "output_tokens"@)
                is None ==> usage_tokens(v) == 0
        },
        (forall|u: JsonView| !#[trigger] carries_usage(v, u)) ==> usage_tokens(v) == 0,
{
    if let Some(u) = usage_of(v) {
        assert(carries_usage(v, u));
    }
}

/// Whether a line of a transcript reads as a value.
pub open spec fn reads_as(line: Seq<char>, v: JsonView) -> bool {
    trim(line).len() > 0 && json_reading(trim(line)) == Ok::<JsonView, Seq<char>>(v)
}

/// Each line that can be read adds its tokens to those of the lines before it;
/// any other line changes nothing.
pub proof fn tokens_add_up(
    body: Seq<Seq<char>>,
    line: Seq<char>,
    v: JsonView,
    times: Seq<(Seq<char>, u64)>,
)
    ensures
        summary_of(seq![], times).tokens == 0,
        reads_as(line, v) ==> ({
            let sum = summary_of(body, times).tokens + usage_tokens(v);
            let after = summary_of(body.push(line), times).tokens;
            &&& i64::MIN <= sum <= i64::MAX ==> after == sum
            &&& sum > i64::MAX ==> after == i64::MAX
            &&& sum < i64::MIN ==> after == i64::MIN
        }),
        (forall|u: JsonView| !#[trigger] reads_as(line, u)) ==> summary_of(body.push(line), times)
            == summary_of(body, times),
{
    assert(body.push(line).drop_last() == body);
    if trim(line).len() > 0 {
        if let Ok(u) = json_reading(trim(line)) {
            assert(reads_as(line, u));
        }
    }
}

/// Whether a line names the session that it belongs to.
pub open spec fn line_names_session(line: Seq<char>, id: Seq<char>) -> bool {
    trim(line).len() > 0 && id.len() > 0 && (json_reading(trim(line)) matches Ok(v) && text_at(
        v,
        "sessionId"@,
    ) == Some(id))
}

/// Whether a line was written at a time, as its `timestamp` says.
pub open spec fn line_is_of(line: Seq<char>, at: i64, times: Seq<(Seq<char>, u64)>) -> bool {
    trim(line).len() > 0 && (json_reading(trim(line)) matches Ok(v) && (text_at(v, "timestamp"@)
        matches Some(text) && (supplied(times, text) matches Some(secs) && secs == at)))
}

/// The session of a transcript is the one that its first line to name one names.
pub proof fn first_session_is_kept(
    body: Seq<Seq<char>>,
    times: Seq<(Seq<char>, u64)>,
    i: int,
    id: Seq<char>,
)
    requires
        0 <= i < body.len(),
        line_names_session(body[i], id),
        forall|j: int, other: Seq<char>|
            0 <= j < i ==> !#[trigger] line_names_session(body[j], other),
    ensures
        summary_of(body, times).session_id == Some(id),
    decreases body.len(),
{
    let front = body.drop_last();
    if i < front.len() {
        assert forall|j: int, other: Seq<char>| 0 <= j < i implies !#[trigger] line_names_session(
            front[j],
            other,
        ) by {
            assert(front[j] == body[j]);
        }
        first_session_is_kept(front, times, i, id);
    } else {
        assert forall|j: int, other: Seq<char>|
            0 <= j < front.len() implies !#[trigger] line_names_session(front[j], other) by {
            assert(front[j] == body[j]);
        }
        unnamed_session_is_none(front, times);
    }
}

/// A transcript in which no line names a session has none.
pub proof fn unnamed_session_is_none(body: Seq<Seq<char>>, times: Seq<(Seq<char>, u64)>)
    requires
        forall|j: int, other: Seq<char>|
            0 <= j < body.len() ==> !#[trigger] line_names_session(body[j], other),
    ensures
        summary_of(body, times).session_id is None,
    decreases body.len(),
{
    if body.len() > 0 {
        let front = body.drop_last();
        assert forall|j: int, other: Seq<char>|
            0 <= j < front.len() implies !#[trigger] line_names_session(front[j], other) by {
            assert(front[j] == body[j]);
        }
        unnamed_session_is_none(front, times);
        if let Ok(v) = json_reading(trim(body.last())) {
            if let Some(id) = filled_text(v, "sessionId"@) {
                assert(!line_names_session(body[body.len() - 1], id));
            }
        }
    }
}

proof fn lines_without_time(body: Seq<Seq<char>>, times: Seq<(Seq<char>, u64)>, from: int)
    requires
        0 <= from <= body.len(),
        forall|j: int, at: i64|
            from <= j < body.len() ==> !#[trigger] line_is_of(body[j], at, times),
    ensures
        summary_of(body, times).first_ts == summary_of(body.take(from), times).first_ts,
        summary_of(body, times).last_ts == summary_of(body.take(from), times).last_ts,
    decreases body.len(),
{
    if from == body.len() {
        assert(body.take(from) == body);
    } else {
        let front = body.drop_last();
        assert forall|j: int, at: i64| from <= j < front.len() implies !#[trigger] line_is_of(
            front[j],
            at,
            times,
        ) by {
            assert(front[j] == body[j]);
        }
        lines_without_time(front, times, from);
        assert(front.take(from) == body.take(from));
        if let Ok(v) = json_reading(trim(body.last())) {
            if let Some(at) = timestamp_of(v, times) {
                assert(!line_is_of(body[body.len() - 1], at, times));
            }
        }
    }
}

/// A transcript begins at the time of its first line that has one, and ends at
/// the time of its last line that has one.
pub proof fn transcripts_span_their_lines(
    body: Seq<Seq<char>>,
    times: Seq<(Seq<char>, u64)>,
    i: int,
    at: i64,
)
    requires
        0 <= i < body.len(),
        line_is_of(body[i], at, times),
    ensures
        (forall|j: int, other: i64| 0 <= j < i ==> !#[trigger] line_is_of(body[j], other, times))
            ==> summary_of(body, times).first_ts == Some(at),
        (forall|j: int, other: i64|
            i < j < body.len() ==> !#[trigger] line_is_of(body[j], other, times)) ==> summary_of(
            body,
            times,
        ).last_ts == Some(at),
    decreases body.len(),
{
    let front = body.take(i);
    let upto = body.take(i + 1);
    assert(upto.drop_last() == front && upto.last() == body[i]);
    if forall|j: int, other: i64| i < j < body.len() ==> !#[trigger] line_is_of(body[j], other, times) {
        lines_without_time(body, times, i + 1);
    }
    if forall|j: int, other: i64| 0 <= j < i ==> !#[trigger] line_is_of(body[j], other, times) {
        if i + 1 == body.len() {
            assert(upto == body);
            assert forall|j: int, other: i64| 0 <= j < front.len() implies !#[trigger] line_is_of(
                front[j],
                other,
                times,
            ) by {
                assert(front[j] == body[j]);
            }
            lines_without_time(front, times, 0);
            assert(front.take(0) == Seq::<Seq<char>>::empty());
        } else {
            let shorter = body.drop_last();
            assert(shorter[i] == body[i]);
            assert forall|j: int, other: i64| 0 <= j < i implies !#[trigger] line_is_of(
                shorter[j],
                other,
                times,
            ) by {
                assert(shorter[j] == body[j]);
            }
            transcripts_span_their_lines(shorter, times, i, at);
        }
    }
}

/// The times that a transcript is read with are the `timestamp` texts of its
/// lines, each in its line's place.
pub proof fn written_times_are_timestamps(body: Seq<Seq<char>>, line: Seq<char>, v: JsonView)
    ensures
        times_written(seq![]) == Seq::<Seq<char>>::empty(),
        json_reading(trim(line)) == Ok::<JsonView, Seq<char>>(v) ==> (text_at(v, "timestamp"@)
            matches Some(text) ==> times_written(body.push(line)) == times_written(body).push(text)),
        json_reading(trim(line)) == Ok::<JsonView, Seq<char>>(v) && text_at(v, "timestamp"@) is None
            ==> times_written(body.push(line)) == times_written(body),
        json_reading(trim(line)) is Err ==> times_written(body.push(line)) == times_written(body),
{
    assert(body.push(line).drop_last() == body);
}

/// What a transcript adds to an agent: its path, the tokens where it names some,
/// the session and the beginning where the agent has none, and the end where it
/// has one. Everything else stays, and an agent without a name stays as it is.
pub proof fn transcripts_add_to_agents(agent: AgentView, path: Seq<char>, summary: SummaryView)
    ensures
        agent.agent_id.len() == 0 ==> enriched(agent, path, Some(summary)) == agent && enriched(
            agent,
            path,
            None,
        ) == agent,
        agent.agent_id.len() > 0 ==> {
            let after = enriched(agent, path, Some(summary));
            &&& after.transcript_path == Some(path)
            &&& summary.tokens > 0 ==> after.tokens == summary.tokens
            &&& summary.tokens <= 0 ==> after.tokens == agent.tokens
            &&& agent.agent_session_id is Some ==> after.agent_session_id == agent.agent_session_id
            &&& agent.agent_session_id is None ==> after.agent_session_id == summary.session_id
            &&& agent.started_ts is Some ==> after.started_ts == agent.started_ts
            &&& agent.started_ts is None ==> after.started_ts == summary.first_ts
            &&& summary.last_ts is Some ==> after.ended_ts == summary.last_ts
            &&& summary.last_ts is None ==> after.ended_ts == agent.ended_ts
            &&& after.run_id == agent.run_id
            &&& after.agent_id == agent.agent_id
            &&& after.agent_label == agent.agent_label
            &&& after.phase == agent.phase
            &&& after.status == agent.status
            &&& after.model == agent.model
            &&& enriched(agent, path, None).transcript_path == Some(path)
            &&& enriched(agent, path, None).tokens == agent.tokens
            &&& enriched(agent, path, None).status == agent.status
            &&& enriched(agent, path, None).started_ts == agent.started_ts
            &&& enriched(agent, path, None).ended_ts == agent.ended_ts
            &&& enriched(agent, path, None).agent_session_id == agent.agent_session_id
        },
{
}

/// An event is a value with a `type` and a non-empty `agentId`, and holds both,
/// each in its own field.
pub proof fn events_hold_their_type_and_agent(v: JsonView, line: Seq<char>, body: Seq<Seq<char>>)
    ensures
        event_of(v) matches Some(event) ==> event.agent_id.len() > 0 && text_at(v, "type"@) == Some(
            event.event_type,
        ) && text_at(v, "agentId"@) == Some(event.agent_id),
        event_of(v) is None <==> text_at(v, "type"@) is None || text_at(v, "agentId"@) is None
            || text_at(v, "agentId"@) == Some(Seq::<char>::empty()),
        journal_of(seq![]) == Seq::<EventView>::empty(),
        json_reading(trim(line)) == Ok::<JsonView, Seq<char>>(v) ==> journal_of(body.push(line))
            == match event_of(v) {
            Some(event) => journal_of(body).push(event),
            None => journal_of(body),
        },
        json_reading(trim(line)) is Err ==> journal_of(body.push(line)) == journal_of(body),
{
    assert(body.push(line).drop_last() == body);
    if let Some(id) = text_at(v, "agentId"@) {
        if id.len() == 0 {
            assert(id == Seq::<char>::empty());
        }
    }
}

/// An agent is finished if and only if some event of type `result` names it, and
/// otherwise under way if and only if any event names it.
pub proof fn journals_tell_the_status(events: Seq<EventView>, agent_id: Seq<char>)
    ensures
        status_by_journal(events, agent_id) == WorkflowStatus::Completed <==> exists|i: int|
            0 <= i < events.len() && (#[trigger] events[i]).agent_id == agent_id
                && events[i].event_type == "result"@,
        status_by_journal(events, agent_id) == WorkflowStatus::Unknown <==> forall|i: int|
            0 <= i < events.len() ==> (#[trigger] events[i]).agent_id != agent_id,
        status_by_journal(events, agent_id) != WorkflowStatus::Failed,
{
    if exists|i: int| 0 <= i < events.len() && is_result_of(#[trigger] events[i], agent_id) {
        let i = choose|i: int| 0 <= i < events.len() && is_result_of(#[trigger] events[i], agent_id);
        assert(events[i].agent_id == agent_id);
    } else if exists|i: int| 0 <= i < events.len() && names_agent(#[trigger] events[i], agent_id) {
        let i = choose|i: int| 0 <= i < events.len() && names_agent(#[trigger] events[i], agent_id);
        assert(events[i].agent_id == agent_id);
    } else {
        assert forall|i: int| 0 <= i < events.len() implies (#[trigger] events[i]).agent_id
            != agent_id by {
            assert(!names_agent(events[i], agent_id));
        }
    }
    assert forall|i: int|
        0 <= i < events.len() && (#[trigger] events[i]).agent_id == agent_id && events[i].event_type
            == "result"@ implies is_result_of(events[i], agent_id) by {}
    assert forall|i: int| 0 <= i < events.len() && (#[trigger] events[i]).agent_id == agent_id implies names_agent(
        events[i],
        agent_id,
    ) by {}
}

/// Whether a line names a working directory.
pub open spec fn line_names_cwd(line: Seq<char>, cwd: Seq<char>) -> bool {
    trim(line).len() > 0 && cwd.len() > 0 && (json_reading(trim(line)) matches Ok(v) && text_at(
        v,
        "cwd"@,
    ) == Some(cwd))
}

proof fn first_cwd_is_first(body: Seq<Seq<char>>, i: int, cwd: Seq<char>)
    requires
        0 <= i <= body.len(),
        i < body.len() ==> line_names_cwd(body[i], cwd),
        forall|j: int, other: Seq<char>| 0 <= j < i ==> !#[trigger] line_names_cwd(body[j], other),
    ensures
        i < body.len() ==> first_cwd(body) == Some(cwd),
        i == body.len() ==> first_cwd(body) is None,
    decreases body.len(),
{
    if body.len() > 0 && i > 0 {
        if let Ok(v) = json_reading(trim(body[0])) {
            if let Some(other) = filled_text(v, "cwd"@) {
                assert(!line_names_cwd(body[0], other));
            }
        }
        let rest = body.skip(1);
        assert forall|j: int, other: Seq<char>| 0 <= j < i - 1 implies !#[trigger] line_names_cwd(
            rest[j],
            other,
        ) by {
            assert(rest[j] == body[j + 1]);
        }
        first_cwd_is_first(rest, i - 1, cwd);
    }
}

/// The working directory of a transcript is the first that one of its first
/// eight lines names; later lines are not looked at.
pub proof fn first_lines_name_the_cwd(
    body: Seq<Seq<char>>,
    more: Seq<Seq<char>>,
    i: int,
    cwd: Seq<char>,
)
    ensures
        0 <= i < body.len() && i < 8 && line_names_cwd(body[i], cwd) && (forall|
            j: int,
            other: Seq<char>,
        |
            0 <= j < i ==> !#[trigger] line_names_cwd(body[j], other)) ==> first_cwd(probed(body))
            == Some(cwd),
        (forall|j: int, other: Seq<char>|
            0 <= j < body.len() && j < 8 ==> !#[trigger] line_names_cwd(body[j], other))
            ==> first_cwd(probed(body)) is None,
        body.len() >= 8 ==> first_cwd(probed(body + more)) == first_cwd(probed(body)),
{
    let looked = probed(body);
    assert forall|j: int| 0 <= j < looked.len() implies #[trigger] looked[j] == body[j] by {}
    if 0 <= i < body.len() && i < 8 && line_names_cwd(body[i], cwd) && (forall|
        j: int,
        other: Seq<char>,
    |
        0 <= j < i ==> !#[trigger] line_names_cwd(body[j], other)) {
        assert forall|j: int, other: Seq<char>| 0 <= j < i implies !#[trigger] line_names_cwd(
            looked[j],
            other,
        ) by {
            assert(looked[j] == body[j]);
        }
        first_cwd_is_first(looked, i, cwd);
    }
    if forall|j: int, other: Seq<char>|
        0 <= j < body.len() && j < 8 ==> !#[trigger] line_names_cwd(body[j], other) {
        assert forall|j: int, other: Seq<char>|
            0 <= j < looked.len() implies !#[trigger] line_names_cwd(looked[j], other) by {
            assert(looked[j] == body[j]);
        }
        first_cwd_is_first(looked, looked.len() as int, cwd);
    }
    if body.len() >= 8 {
        assert(probed(body + more) == body.take(8));
        assert(looked == body.take(8));
    }
}

/// Summaries and events are seen with each of their fields under its own name.
pub proof fn summaries_are_seen_as_they_are(summary: TranscriptSummary, event: JournalEvent)
    ensures
        summary@.tokens == summary.tokens,
        summary@.first_ts == summary.first_ts,
        summary@.last_ts == summary.last_ts,
        summary.session_id matches Some(s) ==> summary@.session_id == Some(s@),
        summary.session_id is None ==> summary@.session_id is None,
        event@.event_type == event.event_type@,
        event@.agent_id == event.agent_id@,
{
}

} // verus!
