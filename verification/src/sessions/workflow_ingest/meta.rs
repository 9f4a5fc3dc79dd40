//! From the description of a run, or from its directory alone, to the run and
//! its agents.

use crate::json::{field, integer_at, items_at, json_items, string_option, text_at, text_option, Json, JsonView};
use crate::json_io::{json_reading, json_writing, parse_json, write_json};
use crate::sessions::workflow_index::{agent_views, disk_status, AgentView, RunView, WorkflowAgent, WorkflowRun, WorkflowStatus};
use crate::sessions::workflow_ingest::files::{roster_agent_ids, roster_ids};
use crate::sessions::workflow_ingest::transcript::{clipped_sum, event_views, filled_text, journal_agent_status, saturating_sum, status_by_journal, string_field, timestamp_of, EventView, JournalEvent, Timestamps};
use crate::text::{cap_chars, capped, capped_length, collapse_spaces, copy_text, one_line, same_text, texts, trim, trimmed};
use vstd::prelude::*;

verus! {

/// The number of characters that a result summary has at most.
pub const RESULT_SUMMARY_CAP: usize = 600;

/// The quotient, rounded towards zero.
pub open spec fn whole_seconds(ms: i64) -> i64 {
    if ms >= 0 {
        (ms as int / 1000) as i64
    } else {
        (-((-(ms as int)) / 1000)) as i64
    }
}

/// The quotient of milliseconds by a thousand, rounded towards zero.
pub fn seconds_of(ms: i64) -> (r: i64)
    ensures
        r == whole_seconds(ms),
{
    if ms >= 0 {
        ms / 1000
    } else {
        let positive: u64 = (-(ms as i128)) as u64;
        -((positive / 1000) as i64)
    }
}

/// A field of milliseconds in seconds.
pub open spec fn seconds_at(v: JsonView, key: Seq<char>) -> Option<i64> {
    match integer_at(v, key) {
        Some(ms) => Some(whole_seconds(ms)),
        None => None,
    }
}

/// The field of milliseconds in seconds.
pub fn ms_field_to_secs(v: &Json, key: &str) -> (r: Option<i64>)
    ensures
        r == seconds_at(v@, key@),
{
    match v.i64_at(key) {
        Some(ms) => Some(seconds_of(ms)),
        None => None,
    }
}

/// The start of a run: its `startTime`, else its `timestamp`.
pub open spec fn start_of(meta: JsonView, times: Seq<(Seq<char>, u64)>) -> Option<i64> {
    match seconds_at(meta, "startTime"@) {
        Some(t) => Some(t),
        None => timestamp_of(meta, times),
    }
}

/// The start of a run.
pub fn run_start_ts(meta: &Json, times: &Timestamps) -> (r: Option<i64>)
    ensures
        r == start_of(meta@, times@),
{
    match ms_field_to_secs(meta, "startTime") {
        Some(t) => Some(t),
        None => times.timestamp(meta),
    }
}

/// The end of a run: its start and its duration, when both are known.
pub open spec fn end_of(meta: JsonView, started: Option<i64>) -> Option<i64> {
    match (started, seconds_at(meta, "durationMs"@)) {
        (Some(t), Some(duration)) => Some(clipped_sum(t, duration)),
        _ => None,
    }
}

/// The end of a run.
pub fn run_end_ts(meta: &Json, started_ts: Option<i64>) -> (r: Option<i64>)
    ensures
        r == end_of(meta@, started_ts),
{
    match (started_ts, ms_field_to_secs(meta, "durationMs")) {
        (Some(t), Some(duration)) => Some(saturating_sum(t, duration)),
        _ => None,
    }
}

/// A text on one line, cut to at most `max` characters.
pub open spec fn short_line(text: Seq<char>, max: nat) -> Seq<char> {
    capped(one_line(text), max)
}

/// The text on one line, cut to at most `max` characters.
pub fn truncate_one_line(text: &str, max: usize) -> (r: String)
    ensures
        r@ == short_line(text@, max as nat),
        r@.len() <= max,
{
    cap_chars(&collapse_spaces(text), max)
}

/// The text of a run's result: a text as it is, another value in JSON; a null
/// has none.
pub open spec fn result_text(result: JsonView) -> Option<Seq<char>> {
    match result {
        JsonView::Null => None,
        JsonView::Text(text) => Some(text),
        _ => Some(json_writing(result)),
    }
}

/// The summary of a run's result: its `summary`, else its `result` when that is
/// not blank, on one line and cut.
pub open spec fn summary_text(meta: JsonView) -> Option<Seq<char>> {
    match filled_text(meta, "summary"@) {
        Some(summary) => Some(short_line(summary, RESULT_SUMMARY_CAP as nat)),
        None => match field(meta, "result"@) {
            None => None,
            Some(result) => match result_text(result) {
                None => None,
                Some(text) => if trim(text).len() == 0 {
                    None
                } else {
                    Some(short_line(trim(text), RESULT_SUMMARY_CAP as nat))
                },
            },
        },
    }
}

/// The summary of a run's result.
pub fn run_result_summary(meta: &Json) -> (r: Option<String>)
    ensures
        string_option(r) == summary_text(meta@),
{
    match string_field(meta, "summary") {
        Some(summary) => return Some(truncate_one_line(summary.as_str(), RESULT_SUMMARY_CAP)),
        None => {},
    }
    let result = match meta.get("result") {
        Some(result) => result,
        None => return None,
    };
    let text = match result {
        Json::Null => return None,
        Json::Text(text) => copy_text(text.as_str()),
        _ => write_json(result),
    };
    let body = trimmed(text.as_str());
    if body.as_str().is_empty() {
        return None;
    }
    Some(truncate_one_line(body.as_str(), RESULT_SUMMARY_CAP))
}

/// The status that a text field writes down.
pub open spec fn status_at(v: JsonView, key: Seq<char>) -> WorkflowStatus {
    match text_at(v, key) {
        Some(word) => disk_status(word),
        None => WorkflowStatus::Unknown,
    }
}

fn read_status(v: &Json, key: &str) -> (r: WorkflowStatus)
    ensures
        r == status_at(v@, key@),
{
    match v.str_at(key) {
        Some(word) => WorkflowStatus::from_disk(word),
        None => WorkflowStatus::Unknown,
    }
}

/// The first of two optional values that is there.
pub open spec fn either(a: Option<Seq<char>>, b: Option<Seq<char>>) -> Option<Seq<char>> {
    if a is Some {
        a
    } else {
        b
    }
}

fn either_text(a: Option<String>, b: Option<String>) -> (r: Option<String>)
    ensures
        string_option(r) == either(string_option(a), string_option(b)),
{
    match a {
        Some(s) => Some(s),
        None => b,
    }
}

/// The agent that a progress entry describes. Without a label the agent's id
/// stands for it, and without an id the word `agent`; without a model the run's
/// default is taken.
pub open spec fn roster_agent(
    run_id: Seq<char>,
    entry: JsonView,
    default_model: Option<Seq<char>>,
) -> AgentView {
    let agent_id = match filled_text(entry, "agentId"@) {
        Some(id) => id,
        None => ""@,
    };
    AgentView {
        run_id,
        agent_label: match filled_text(entry, "label"@) {
            Some(label) => label,
            None => if agent_id.len() == 0 {
                "agent"@
            } else {
                agent_id
            },
        },
        agent_id,
        phase: filled_text(entry, "phaseTitle"@),
        transcript_path: None,
        agent_session_id: None,
        status: status_at(entry, "state"@),
        model: either(filled_text(entry, "model"@), default_model),
        tokens: 0,
        started_ts: seconds_at(entry, "startedAt"@),
        ended_ts: seconds_at(entry, "lastProgressAt"@),
    }
}

/// Whether a progress entry describes an agent.
pub open spec fn is_agent_entry(entry: JsonView) -> bool {
    text_at(entry, "type"@) == Some("workflow_agent"@)
}

/// The agents that progress entries describe, in order.
pub open spec fn roster_agents(
    run_id: Seq<char>,
    entries: Seq<JsonView>,
    default_model: Option<Seq<char>>,
) -> Seq<AgentView>
    decreases entries.len(),
{
    if entries.len() == 0 {
        seq![]
    } else {
        let earlier = roster_agents(run_id, entries.drop_last(), default_model);
        if is_agent_entry(entries.last()) {
            earlier.push(roster_agent(run_id, entries.last(), default_model))
        } else {
            earlier
        }
    }
}

/// The agents of a run's description.
pub open spec fn roster_of(
    run_id: Seq<char>,
    meta: JsonView,
    default_model: Option<Seq<char>>,
) -> Seq<AgentView> {
    match field(meta, "workflowProgress"@) {
        Some(JsonView::Array(entries)) => roster_agents(run_id, entries, default_model),
        _ => seq![],
    }
}

fn agent_from_entry(run_id: &str, entry: &Json, default_model: Option<&str>) -> (r: WorkflowAgent)
    ensures
        r@ == roster_agent(run_id@, entry@, text_option(default_model)),
{
    let agent_id = match string_field(entry, "agentId") {
        Some(id) => id,
        None => copy_text(""),
    };
    let agent_label = match string_field(entry, "label") {
        Some(label) => label,
        None => if agent_id.as_str().is_empty() {
            copy_text("agent")
        } else {
            copy_text(agent_id.as_str())
        },
    };
    let fallback = match default_model {
        Some(model) => Some(copy_text(model)),
        None => None,
    };
    WorkflowAgent {
        run_id: copy_text(run_id),
        agent_label,
        agent_id,
        phase: string_field(entry, "phaseTitle"),
        transcript_path: None,
        agent_session_id: None,
        status: read_status(entry, "state"),
        model: either_text(string_field(entry, "model"), fallback),
        tokens: 0,
        started_ts: ms_field_to_secs(entry, "startedAt"),
        ended_ts: ms_field_to_secs(entry, "lastProgressAt"),
    }
}

/// The agents of a run's description.
pub fn parse_roster(run_id: &str, meta: &Json, default_model: Option<&str>) -> (r: Vec<
    WorkflowAgent,
>)
    ensures
        agent_views(r@) == roster_of(run_id@, meta@, text_option(default_model)),
{
    let mut out: Vec<WorkflowAgent> = Vec::new();
    assert(agent_views(out@) == Seq::<AgentView>::empty());
    let entries = match meta.array_at("workflowProgress") {
        Some(entries) => entries,
        None => return out,
    };
    let ghost all = json_items(entries@);
    let ghost model = text_option(default_model);
    let mut i: usize = 0;
    assert(all.take(0) == Seq::<JsonView>::empty());
    while i < entries.len()
        invariant
            i <= entries@.len(),
            all == json_items(entries@),
            model == text_option(default_model),
            agent_views(out@) == roster_agents(run_id@, all.take(i as int), model),
        decreases entries@.len() - i,
    {
        proof {
            assert(all.take(i as int + 1).drop_last() == all.take(i as int));
            assert(all.take(i as int + 1).last() == entries@[i as int]@);
        }
        let is_agent = match entries[i].str_at("type") {
            Some(t) => same_text(t, "workflow_agent"),
            None => false,
        };
        if is_agent {
            let ghost before = out@;
            let agent = agent_from_entry(run_id, &entries[i], default_model);
            out.push(agent);
            assert(agent_views(before.push(agent)) == agent_views(before).push(agent@));
        }
        i += 1;
    }
    assert(all.take(all.len() as int) == all);
    out
}

/// A number of agents as it is stored.
pub open spec fn stored_count(n: nat) -> i64 {
    if n <= i64::MAX {
        n as i64
    } else {
        i64::MAX
    }
}

fn count_agents(n: usize) -> (r: i64)
    ensures
        r == stored_count(n as nat),
{
    if n as u128 <= i64::MAX as u128 {
        n as i64
    } else {
        i64::MAX
    }
}

/// The run that a description gives: the description's own id wins over the
/// name of the directory.
pub open spec fn run_of_meta(
    run_id: Seq<char>,
    parent: Seq<char>,
    meta: JsonView,
    times: Seq<(Seq<char>, u64)>,
) -> RunView {
    let id = match filled_text(meta, "runId"@) {
        Some(own) => own,
        None => run_id,
    };
    let started = start_of(meta, times);
    RunView {
        run_id: id,
        parent_session_id: parent,
        name: filled_text(meta, "workflowName"@),
        description: either(filled_text(meta, "summary"@), filled_text(meta, "description"@)),
        phase_json: match field(meta, "phases"@) {
            Some(JsonView::Array(items)) => Some(json_writing(JsonView::Array(items))),
            _ => None,
        },
        status: status_at(meta, "status"@),
        started_ts: started,
        ended_ts: end_of(meta, started),
        result_summary: summary_text(meta),
        agent_count: match integer_at(meta, "agentCount"@) {
            Some(n) => n,
            None => stored_count(
                roster_of(id, meta, filled_text(meta, "defaultModel"@)).len(),
            ),
        },
    }
}

/// The run and the agents that a description gives.
pub fn parse_run_from_meta(
    run_id: &str,
    parent_session_id: &str,
    meta: &Json,
    times: &Timestamps,
) -> (r: (WorkflowRun, Vec<WorkflowAgent>))
    ensures
        r.0@ == run_of_meta(run_id@, parent_session_id@, meta@, times@),
        agent_views(r.1@) == roster_of(
            r.0.run_id@,
            meta@,
            filled_text(meta@, "defaultModel"@),
        ),
{
    let id = match string_field(meta, "runId") {
        Some(own) => own,
        None => copy_text(run_id),
    };
    let phase_json = match meta.get("phases") {
        Some(phases) => if matches!(phases, Json::Array(_)) {
            Some(write_json(phases))
        } else {
            None
        },
        None => None,
    };
    let started_ts = run_start_ts(meta, times);
    let default_model = string_field(meta, "defaultModel");
    let model = match &default_model {
        Some(m) => Some(m.as_str()),
        None => None,
    };
    let agents = parse_roster(id.as_str(), meta, model);
    assert(agent_views(agents@).len() == agents@.len());
    let agent_count: i64 = match meta.i64_at("agentCount") {
        Some(n) => n,
        None => count_agents(agents.len()),
    };
    let run = WorkflowRun {
        run_id: id,
        parent_session_id: copy_text(parent_session_id),
        name: string_field(meta, "workflowName"),
        description: either_text(
            string_field(meta, "summary"),
            string_field(meta, "description"),
        ),
        phase_json,
        status: read_status(meta, "status"),
        started_ts,
        ended_ts: run_end_ts(meta, started_ts),
        result_summary: run_result_summary(meta),
        agent_count,
    };
    (run, agents)
}

/// The agent of a run that has only a directory: its id is its label.
pub open spec fn directory_agent(
    run_id: Seq<char>,
    agent_id: Seq<char>,
    events: Seq<EventView>,
) -> AgentView {
    AgentView {
        run_id,
        agent_label: agent_id,
        agent_id,
        phase: None,
        transcript_path: None,
        agent_session_id: None,
        status: status_by_journal(events, agent_id),
        model: None,
        tokens: 0,
        started_ts: None,
        ended_ts: None,
    }
}

/// The agents of a run that has only a directory.
pub open spec fn directory_agents(
    run_id: Seq<char>,
    ids: Seq<Seq<char>>,
    events: Seq<EventView>,
) -> Seq<AgentView> {
    Seq::new(ids.len(), |i: int| directory_agent(run_id, ids[i], events))
}

/// A run that has only a directory: it is running, and nothing more is known.
pub open spec fn run_of_directory(run_id: Seq<char>, parent: Seq<char>, agents: nat) -> RunView {
    RunView {
        run_id,
        parent_session_id: parent,
        name: None,
        description: None,
        phase_json: None,
        status: WorkflowStatus::Running,
        started_ts: None,
        ended_ts: None,
        result_summary: None,
        agent_count: stored_count(agents),
    }
}

/// The run and the agents that a directory alone gives: its file names and its
/// journal.
pub fn parse_run_from_dir(
    run_id: &str,
    parent_session_id: &str,
    names: &Vec<String>,
    journal: &Vec<JournalEvent>,
) -> (r: (WorkflowRun, Vec<WorkflowAgent>))
    ensures
        r.0@ == run_of_directory(
            run_id@,
            parent_session_id@,
            roster_ids(texts(names@), event_views(journal@)).len(),
        ),
        agent_views(r.1@) == directory_agents(
            run_id@,
            roster_ids(texts(names@), event_views(journal@)),
            event_views(journal@),
        ),
{
    let ids = roster_agent_ids(names, journal);
    let ghost events = event_views(journal@);
    let ghost goal = directory_agents(run_id@, texts(ids@), events);
    let mut agents: Vec<WorkflowAgent> = Vec::new();
    let mut i: usize = 0;
    while i < ids.len()
        invariant
            i <= ids@.len(),
            events == event_views(journal@),
            goal == directory_agents(run_id@, texts(ids@), events),
            agent_views(agents@) == goal.take(i as int),
        decreases ids@.len() - i,
    {
        let ghost before = agents@;
        let id = ids[i].as_str();
        let agent = WorkflowAgent {
            run_id: copy_text(run_id),
            agent_label: copy_text(id),
            agent_id: copy_text(id),
            phase: None,
            transcript_path: None,
            agent_session_id: None,
            status: journal_agent_status(journal, id),
            model: None,
            tokens: 0,
            started_ts: None,
            ended_ts: None,
        };
        agents.push(agent);
        proof {
            assert(agent@ == goal[i as int]);
            assert(agent_views(before.push(agent)) == agent_views(before).push(agent@));
            assert(goal.take(i as int + 1) == goal.take(i as int).push(goal[i as int]));
        }
        i += 1;
    }
    assert(goal.take(goal.len() as int) == goal);
    assert(agents@.len() == ids@.len()) by {
        assert(agent_views(agents@).len() == agents@.len());
    }
    let run = WorkflowRun {
        run_id: copy_text(run_id),
        parent_session_id: copy_text(parent_session_id),
        name: None,
        description: None,
        phase_json: None,
        status: WorkflowStatus::Running,
        started_ts: None,
        ended_ts: None,
        result_summary: None,
        agent_count: count_agents(agents.len()),
    };
    assert(texts(ids@).len() == ids@.len());
    (run, agents)
}

/// What the text of a run's description writes; nothing when it is not JSON.
pub fn read_run_meta(text: &str) -> (r: Option<Json>)
    ensures
        match json_reading(text@) {
            Ok(v) => r matches Some(j) && j@ == v,
            Err(_) => r is None,
        },
{
    match parse_json(text) {
        Ok(v) => Some(v),
        Err(_) => None,
    }
}

/// The run and the agents of a run on disk: from its description when that can
/// be read, else from its directory.
pub fn assemble_run(
    run_id: &str,
    parent_session_id: &str,
    meta: &Option<Json>,
    names: &Vec<String>,
    journal: &Vec<JournalEvent>,
    times: &Timestamps,
) -> (r: (WorkflowRun, Vec<WorkflowAgent>))
    ensures
        match *meta {
            Some(m) => {
                &&& r.0@ == run_of_meta(run_id@, parent_session_id@, m@, times@)
                &&& agent_views(r.1@) == roster_of(
                    r.0.run_id@,
                    m@,
                    filled_text(m@, "defaultModel"@),
                )
            },
            None => {
                let ids = roster_ids(texts(names@), event_views(journal@));
                &&& r.0@ == run_of_directory(run_id@, parent_session_id@, ids.len())
                &&& agent_views(r.1@) == directory_agents(run_id@, ids, event_views(journal@))
            },
        },
{
    match meta {
        Some(m) => parse_run_from_meta(run_id, parent_session_id, m, times),
        None => parse_run_from_dir(run_id, parent_session_id, names, journal),
    }
}

/// Sets the number of agents of a run that records none to those it has.
pub fn reconcile_agent_count(run: &mut WorkflowRun, agents: usize)
    ensures
        final(run)@ == (RunView {
            agent_count: if old(run)@.agent_count == 0 {
                stored_count(agents as nat)
            } else {
                old(run)@.agent_count
            },
            ..old(run)@
        }),
{
    if run.agent_count == 0 {
        run.agent_count = count_agents(agents);
    }
}

/// A result summary has at most the capped number of characters.
pub proof fn summaries_are_bounded(meta: JsonView)
    ensures
        summary_text(meta) matches Some(text) ==> text.len() <= RESULT_SUMMARY_CAP,
{
    if let Some(summary) = filled_text(meta, "summary"@) {
        capped_length(one_line(summary), RESULT_SUMMARY_CAP as nat);
    } else if let Some(result) = field(meta, "result"@) {
        if let Some(text) = result_text(result) {
            capped_length(one_line(trim(text)), RESULT_SUMMARY_CAP as nat);
        }
    }
}

/// A `summary` decides the result summary, whatever the `result` is.
pub proof fn summary_wins_over_result(meta: JsonView, other: JsonView)
    requires
        filled_text(meta, "summary"@) is Some,
        filled_text(meta, "summary"@) == filled_text(other, "summary"@),
    ensures
        summary_text(meta) == summary_text(other),
{
}

/// Every agent of a roster belongs to the run and has a label.
pub proof fn roster_agents_are_labelled(
    run_id: Seq<char>,
    entries: Seq<JsonView>,
    default_model: Option<Seq<char>>,
    i: int,
)
    requires
        0 <= i < roster_agents(run_id, entries, default_model).len(),
    ensures
        roster_agents(run_id, entries, default_model)[i].run_id == run_id,
        roster_agents(run_id, entries, default_model)[i].agent_label.len() > 0,
    decreases entries.len(),
{
    reveal_strlit("agent");
    let earlier = roster_agents(run_id, entries.drop_last(), default_model);
    if i < earlier.len() {
        roster_agents_are_labelled(run_id, entries.drop_last(), default_model, i);
    }
}

/// Milliseconds become whole seconds: what is left over is less than a second,
/// on the same side of zero.
pub proof fn seconds_are_whole(ms: i64)
    ensures
        ms >= 0 ==> 0 <= ms - 1000 * whole_seconds(ms) < 1000,
        ms <= 0 ==> -1000 < ms - 1000 * whole_seconds(ms) <= 0,
{
}

/// A run begins at its `startTime`, in milliseconds, or else at its
/// `timestamp`; it ends `durationMs` after its beginning, where both are known.
pub proof fn runs_begin_and_end(
    run_id: Seq<char>,
    parent: Seq<char>,
    meta: JsonView,
    times: Seq<(Seq<char>, u64)>,
)
    ensures
        ({
            let run = run_of_meta(run_id, parent, meta, times);
            &&& integer_at(meta, "startTime"@) matches Some(ms) ==> (run.started_ts matches Some(
                begun,
            ) && -1000 < ms - 1000 * begun < 1000)
            &&& integer_at(meta, "startTime"@) is None ==> run.started_ts == timestamp_of(
                meta,
                times,
            )
            &&& run.started_ts is None || integer_at(meta, "durationMs"@) is None
                ==> run.ended_ts is None
            &&& run.started_ts matches Some(begun) ==> (integer_at(meta, "durationMs"@)
                matches Some(ms) ==> (run.ended_ts matches Some(ended) && (i64::MIN <= begun
                + whole_seconds(ms) <= i64::MAX ==> ended == begun + whole_seconds(ms))))
        }),
{
    if let Some(ms) = integer_at(meta, "startTime"@) {
        seconds_are_whole(ms);
    }
}

/// Whether a value holds a text that is not empty under a key.
pub open spec fn holds(v: JsonView, key: Seq<char>, text: Seq<char>) -> bool {
    text.len() > 0 && text_at(v, key) == Some(text)
}

/// A run has its own `runId`, or else the name of its directory; it keeps the
/// session that it was found under, and takes its name, its description, its
/// status and its count of agents from what is written under their keys.
pub proof fn runs_are_described_by_their_keys(
    run_id: Seq<char>,
    parent: Seq<char>,
    meta: JsonView,
    times: Seq<(Seq<char>, u64)>,
    text: Seq<char>,
)
    ensures
        ({
            let run = run_of_meta(run_id, parent, meta, times);
            &&& run.parent_session_id == parent
            &&& holds(meta, "runId"@, text) ==> run.run_id == text
            &&& (forall|t: Seq<char>| !#[trigger] holds(meta, "runId"@, t)) ==> run.run_id == run_id
            &&& run.name == Some(text) <==> holds(meta, "workflowName"@, text)
            &&& holds(meta, "summary"@, text) ==> run.description == Some(text)
            &&& holds(meta, "description"@, text) && (forall|t: Seq<char>|
                !#[trigger] holds(meta, "summary"@, t)) ==> run.description == Some(text)
            &&& run.description == Some(text) ==> holds(meta, "summary"@, text) || holds(
                meta,
                "description"@,
                text,
            )
            &&& text_at(meta, "status"@) == Some(text) ==> run.status == disk_status(text)
            &&& text_at(meta, "status"@) is None ==> run.status == WorkflowStatus::Unknown
            &&& integer_at(meta, "agentCount"@) matches Some(n) ==> run.agent_count == n
            &&& field(meta, "phases"@) matches Some(JsonView::Array(phases)) ==> run.phase_json
                == Some(json_writing(JsonView::Array(phases)))
            &&& !(field(meta, "phases"@) matches Some(JsonView::Array(_))) ==> run.phase_json is None
        }),
{
    let run = run_of_meta(run_id, parent, meta, times);
    if let Some(own) = filled_text(meta, "runId"@) {
        assert(holds(meta, "runId"@, own));
    }
    if let Some(summary) = filled_text(meta, "summary"@) {
        assert(holds(meta, "summary"@, summary));
    }
}

/// A run that names no count of agents has as many as its roster lists.
pub proof fn agents_are_counted(
    run_id: Seq<char>,
    parent: Seq<char>,
    meta: JsonView,
    times: Seq<(Seq<char>, u64)>,
    entries: Seq<JsonView>,
)
    requires
        integer_at(meta, "agentCount"@) is None,
        field(meta, "workflowProgress"@) == Some(JsonView::Array(entries)),
        entries.len() <= i64::MAX,
    ensures
        run_of_meta(run_id, parent, meta, times).agent_count == entries.filter(
            |entry: JsonView| text_at(entry, "type"@) == Some("workflow_agent"@),
        ).len(),
{
    let id = match filled_text(meta, "runId"@) {
        Some(own) => own,
        None => run_id,
    };
    roster_lists_agents(id, entries, filled_text(meta, "defaultModel"@));
}

/// The roster has one agent for every entry of type `workflow_agent`, in the
/// order of the entries, and none for any other.
pub proof fn roster_lists_agents(
    run_id: Seq<char>,
    entries: Seq<JsonView>,
    default_model: Option<Seq<char>>,
)
    ensures
        ({
            let listed = entries.filter(
                |entry: JsonView| text_at(entry, "type"@) == Some("workflow_agent"@),
            );
            let agents = roster_agents(run_id, entries, default_model);
            &&& agents.len() == listed.len()
            &&& agents.len() <= entries.len()
            &&& forall|i: int|
                0 <= i < agents.len() ==> #[trigger] agents[i] == roster_agent(
                    run_id,
                    listed[i],
                    default_model,
                )
        }),
    decreases entries.len(),
{
    reveal(Seq::filter);
    if entries.len() > 0 {
        roster_lists_agents(run_id, entries.drop_last(), default_model);
    }
}

/// An agent of the roster is described by its entry: its name under `agentId`,
/// its label under `label` or else its name, its phase under `phaseTitle`, its
/// status under `state`, its model under `model` or else the run's, its
/// beginning under `startedAt` and its end under `lastProgressAt`.
pub proof fn agents_are_described_by_their_keys(
    run_id: Seq<char>,
    entry: JsonView,
    default_model: Option<Seq<char>>,
    text: Seq<char>,
)
    ensures
        ({
            let agent = roster_agent(run_id, entry, default_model);
            &&& agent.run_id == run_id
            &&& holds(entry, "agentId"@, text) ==> agent.agent_id == text
            &&& (forall|t: Seq<char>| !#[trigger] holds(entry, "agentId"@, t))
                ==> agent.agent_id.len() == 0
            &&& holds(entry, "label"@, text) ==> agent.agent_label == text
            &&& (forall|t: Seq<char>| !#[trigger] holds(entry, "label"@, t)) && holds(
                entry,
                "agentId"@,
                text,
            ) ==> agent.agent_label == text
            &&& (forall|t: Seq<char>| !#[trigger] holds(entry, "label"@, t)) && (forall|
                t: Seq<char>,
            |
                !#[trigger] holds(entry, "agentId"@, t)) ==> agent.agent_label == "agent"@
            &&& agent.phase == Some(text) <==> holds(entry, "phaseTitle"@, text)
            &&& text_at(entry, "state"@) == Some(text) ==> agent.status == disk_status(text)
            &&& text_at(entry, "state"@) is None ==> agent.status == WorkflowStatus::Unknown
            &&& holds(entry, "model"@, text) ==> agent.model == Some(text)
            &&& (forall|t: Seq<char>| !#[trigger] holds(entry, "model"@, t)) ==> agent.model
                == default_model
            &&& integer_at(entry, "startedAt"@) is Some <==> agent.started_ts is Some
            &&& integer_at(entry, "startedAt"@) matches Some(ms) ==> (agent.started_ts matches Some(
                at,
            ) && -1000 < ms - 1000 * at < 1000)
            &&& integer_at(entry, "lastProgressAt"@) is Some <==> agent.ended_ts is Some
            &&& integer_at(entry, "lastProgressAt"@) matches Some(ms) ==> (
            agent.ended_ts matches Some(at) && -1000 < ms - 1000 * at < 1000)
            &&& agent.tokens == 0
            &&& agent.transcript_path is None
            &&& agent.agent_session_id is None
        }),
{
    reveal_strlit("");
    if let Some(ms) = integer_at(entry, "startedAt"@) {
        seconds_are_whole(ms);
    }
    if let Some(ms) = integer_at(entry, "lastProgressAt"@) {
        seconds_are_whole(ms);
    }
    if let Some(id) = filled_text(entry, "agentId"@) {
        assert(holds(entry, "agentId"@, id));
    }
    if let Some(label) = filled_text(entry, "label"@) {
        assert(holds(entry, "label"@, label));
    }
    if let Some(model) = filled_text(entry, "model"@) {
        assert(holds(entry, "model"@, model));
    }
}

/// The roster of a run is what stands under `workflowProgress`.
pub proof fn rosters_are_the_progress(
    run_id: Seq<char>,
    meta: JsonView,
    default_model: Option<Seq<char>>,
    entries: Seq<JsonView>,
)
    ensures
        field(meta, "workflowProgress"@) == Some(JsonView::Array(entries)) ==> roster_of(
            run_id,
            meta,
            default_model,
        ) == roster_agents(run_id, entries, default_model),
        items_at(meta, "workflowProgress"@) is None ==> roster_of(run_id, meta, default_model)
            == Seq::<AgentView>::empty(),
{
}

/// The summary of a run is its `summary`, or else its `result`: a text as it
/// is, any other value as it is written, and none where it is null or blank.
/// What is kept is on one line, up to 600 characters.
pub proof fn summaries_come_from_summary_or_result(meta: JsonView, text: Seq<char>)
    ensures
        holds(meta, "summary"@, text) && one_line(text).len() <= 600 ==> summary_text(meta) == Some(
            one_line(text),
        ),
        holds(meta, "summary"@, text) && one_line(text).len() > 600 ==> summary_text(meta)
            is Some && summary_text(meta)->0.len() == 600,
        (forall|t: Seq<char>| !#[trigger] holds(meta, "summary"@, t)) ==> {
            &&& field(meta, "result"@) is None || field(meta, "result"@) == Some(JsonView::Null)
                ==> summary_text(meta) is None
            &&& field(meta, "result"@) == Some(JsonView::Text(text)) && trim(text).len() == 0
                ==> summary_text(meta) is None
            &&& field(meta, "result"@) == Some(JsonView::Text(text)) && trim(text).len() > 0
                && one_line(trim(text)).len() <= 600 ==> summary_text(meta) == Some(
                one_line(trim(text)),
            )
            &&& field(meta, "result"@) matches Some(result) ==> !(result is Text) && !(result
                is Null) && trim(json_writing(result)).len() > 0 && one_line(
                trim(json_writing(result)),
            ).len() <= 600 ==> summary_text(meta) == Some(one_line(trim(json_writing(result))))
        },
{
    if let Some(summary) = filled_text(meta, "summary"@) {
        assert(holds(meta, "summary"@, summary));
    }
}

/// A run that has only a directory is under way, has its directory's name and
/// its session, and counts its agents; it says nothing else of itself. Each of
/// its agents has its own name as its label, and the status that the journal
/// tells.
pub proof fn directories_tell_names_only(
    run_id: Seq<char>,
    parent: Seq<char>,
    ids: Seq<Seq<char>>,
    events: Seq<EventView>,
    i: int,
)
    ensures
        ({
            let run = run_of_directory(run_id, parent, ids.len());
            &&& run.run_id == run_id
            &&& run.parent_session_id == parent
            &&& run.status == WorkflowStatus::Running
            &&& ids.len() <= i64::MAX ==> run.agent_count == ids.len()
            &&& run.name is None && run.description is None && run.phase_json is None
                && run.started_ts is None && run.ended_ts is None && run.result_summary is None
        }),
        directory_agents(run_id, ids, events).len() == ids.len(),
        0 <= i < ids.len() ==> {
            let agent = directory_agents(run_id, ids, events)[i];
            &&& agent.run_id == run_id
            &&& agent.agent_id == ids[i]
            &&& agent.agent_label == ids[i]
            &&& agent.status == status_by_journal(events, ids[i])
            &&& agent.tokens == 0
            &&& agent.phase is None && agent.transcript_path is None && agent.agent_session_id
                is None && agent.model is None && agent.started_ts is None && agent.ended_ts is None
        },
{
}

} // verus!
