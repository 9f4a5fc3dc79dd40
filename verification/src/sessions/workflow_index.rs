//! Workflow runs and their agents as they are stored.

use crate::json::string_option;
use crate::text::same_text;
use vstd::prelude::*;

verus! {

/// How far a run or an agent has come.
#[derive(Debug, Clone, Copy, PartialEq, Eq, Structural)]
pub enum WorkflowStatus {
    Running,
    Completed,
    Failed,
    Unknown,
}

/// The status that a word in a run's files stands for.
pub open spec fn disk_status(word: Seq<char>) -> WorkflowStatus {
    if word == "completed"@ || word == "done"@ {
        WorkflowStatus::Completed
    } else if word == "running"@ || word == "in_progress"@ || word == "started"@ {
        WorkflowStatus::Running
    } else if word == "failed"@ || word == "error"@ || word == "blocked"@ || word
        == "interrupted"@ {
        WorkflowStatus::Failed
    } else {
        WorkflowStatus::Unknown
    }
}

impl WorkflowStatus {
    /// The status that a word in a run's files stands for.
    pub fn from_disk(word: &str) -> (r: WorkflowStatus)
        ensures
            r == disk_status(word@),
    {
        if same_text(word, "completed") || same_text(word, "done") {
            WorkflowStatus::Completed
        } else if same_text(word, "running") || same_text(word, "in_progress") || same_text(
            word,
            "started",
        ) {
            WorkflowStatus::Running
        } else if same_text(word, "failed") || same_text(word, "error") || same_text(
            word,
            "blocked",
        ) || same_text(word, "interrupted") {
            WorkflowStatus::Failed
        } else {
            WorkflowStatus::Unknown
        }
    }
}

/// One run of a workflow.
#[derive(Debug)]
pub struct WorkflowRun {
    pub run_id: String,
    pub parent_session_id: String,
    pub name: Option<String>,
    pub description: Option<String>,
    pub phase_json: Option<String>,
    pub status: WorkflowStatus,
    pub started_ts: Option<i64>,
    pub ended_ts: Option<i64>,
    pub result_summary: Option<String>,
    pub agent_count: i64,
}

/// What a [`WorkflowRun`] holds.
pub struct RunView {
    pub run_id: Seq<char>,
    pub parent_session_id: Seq<char>,
    pub name: Option<Seq<char>>,
    pub description: Option<Seq<char>>,
    pub phase_json: Option<Seq<char>>,
    pub status: WorkflowStatus,
    pub started_ts: Option<i64>,
    pub ended_ts: Option<i64>,
    pub result_summary: Option<Seq<char>>,
    pub agent_count: i64,
}

impl View for WorkflowRun {
    type V = RunView;

    open spec fn view(&self) -> RunView {
        RunView {
            run_id: self.run_id@,
            parent_session_id: self.parent_session_id@,
            name: string_option(self.name),
            description: string_option(self.description),
            phase_json: string_option(self.phase_json),
            status: self.status,
            started_ts: self.started_ts,
            ended_ts: self.ended_ts,
            result_summary: string_option(self.result_summary),
            agent_count: self.agent_count,
        }
    }
}

/// One agent of a run.
#[derive(Debug)]
pub struct WorkflowAgent {
    pub run_id: String,
    pub agent_label: String,
    pub agent_id: String,
    pub phase: Option<String>,
    pub transcript_path: Option<String>,
    pub agent_session_id: Option<String>,
    pub status: WorkflowStatus,
    pub model: Option<String>,
    pub tokens: i64,
    pub started_ts: Option<i64>,
    pub ended_ts: Option<i64>,
}

/// What a [`WorkflowAgent`] holds.
pub struct AgentView {
    pub run_id: Seq<char>,
    pub agent_label: Seq<char>,
    pub agent_id: Seq<char>,
    pub phase: Option<Seq<char>>,
    pub transcript_path: Option<Seq<char>>,
    pub agent_session_id: Option<Seq<char>>,
    pub status: WorkflowStatus,
    pub model: Option<Seq<char>>,
    pub tokens: i64,
    pub started_ts: Option<i64>,
    pub ended_ts: Option<i64>,
}

impl View for WorkflowAgent {
    type V = AgentView;

    open spec fn view(&self) -> AgentView {
        AgentView {
            run_id: self.run_id@,
            agent_label: self.agent_label@,
            agent_id: self.agent_id@,
            phase: string_option(self.phase),
            transcript_path: string_option(self.transcript_path),
            agent_session_id: string_option(self.agent_session_id),
            status: self.status,
            model: string_option(self.model),
            tokens: self.tokens,
            started_ts: self.started_ts,
            ended_ts: self.ended_ts,
        }
    }
}

/// The agents as mathematical objects.
pub open spec fn agent_views(agents: Seq<WorkflowAgent>) -> Seq<AgentView> {
    Seq::new(agents.len(), |i: int| agents[i]@)
}

/// What the words in a run's files stand for: finished, under way or failed;
/// any other word says nothing.
pub proof fn words_stand_for_statuses(word: Seq<char>)
    ensures
        word == "completed"@ || word == "done"@ <==> disk_status(word) == WorkflowStatus::Completed,
        word == "running"@ || word == "in_progress"@ || word == "started"@ <==> disk_status(word)
            == WorkflowStatus::Running,
        word == "failed"@ || word == "error"@ || word == "blocked"@ || word == "interrupted"@
            <==> disk_status(word) == WorkflowStatus::Failed,
{
    reveal_strlit("completed");
    reveal_strlit("done");
    reveal_strlit("running");
    reveal_strlit("in_progress");
    reveal_strlit("started");
    reveal_strlit("failed");
    reveal_strlit("error");
    reveal_strlit("blocked");
    reveal_strlit("interrupted");
    assert("completed"@[0] == 'c' && "done"@[0] == 'd' && "running"@[0] == 'r' && "in_progress"@[2]
        == '_' && "started"@[0] == 's' && "failed"@[0] == 'f' && "error"@[0] == 'e' && "blocked"@[0]
        == 'b' && "interrupted"@[2] == 't' && "interrupted"@[0] == 'i' && "in_progress"@[0] == 'i');
}

/// Runs and agents are seen with each of their fields under its own name.
pub proof fn runs_and_agents_are_seen_as_they_are(run: WorkflowRun, agent: WorkflowAgent)
    ensures
        run@.run_id == run.run_id@,
        run@.parent_session_id == run.parent_session_id@,
        run.name matches Some(s) ==> run@.name == Some(s@),
        run.name is None ==> run@.name is None,
        run.description matches Some(s) ==> run@.description == Some(s@),
        run.description is None ==> run@.description is None,
        run.phase_json matches Some(s) ==> run@.phase_json == Some(s@),
        run.phase_json is None ==> run@.phase_json is None,
        run@.status == run.status,
        run@.started_ts == run.started_ts,
        run@.ended_ts == run.ended_ts,
        run.result_summary matches Some(s) ==> run@.result_summary == Some(s@),
        run.result_summary is None ==> run@.result_summary is None,
        run@.agent_count == run.agent_count,
        agent@.run_id == agent.run_id@,
        agent@.agent_label == agent.agent_label@,
        agent@.agent_id == agent.agent_id@,
        agent.phase matches Some(s) ==> agent@.phase == Some(s@),
        agent.phase is None ==> agent@.phase is None,
        agent.transcript_path matches Some(s) ==> agent@.transcript_path == Some(s@),
        agent.transcript_path is None ==> agent@.transcript_path is None,
        agent.agent_session_id matches Some(s) ==> agent@.agent_session_id == Some(s@),
        agent.agent_session_id is None ==> agent@.agent_session_id is None,
        agent@.status == agent.status,
        agent.model matches Some(s) ==> agent@.model == Some(s@),
        agent.model is None ==> agent@.model is None,
        agent@.tokens == agent.tokens,
        agent@.started_ts == agent.started_ts,
        agent@.ended_ts == agent.ended_ts,
{
}

} // verus!
