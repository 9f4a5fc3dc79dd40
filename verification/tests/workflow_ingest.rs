use tracedecay::json::Json;
use tracedecay::json_io::{parse_json, write_json};
use tracedecay::sessions::workflow_index::{WorkflowAgent, WorkflowStatus};
use tracedecay::sessions::workflow_ingest::files::{agent_transcript_name, agent_transcripts, discovered_run, extension_of, file_mtime, is_agent_transcript, meta_file_name, newest_mtime, roster_agent_ids, run_cwd, session_transcript_name, stem_of, DirEntry};
use tracedecay::sessions::workflow_ingest::meta::{assemble_run, parse_roster, parse_run_from_dir, parse_run_from_meta, read_run_meta, reconcile_agent_count, run_end_ts, run_result_summary, run_start_ts, seconds_of, truncate_one_line, RESULT_SUMMARY_CAP};
use tracedecay::sessions::workflow_ingest::transcript::{enrich_agent_from_transcript, journal_agent_status, line_usage_tokens, parse_journal, saturating_sum, summarize_transcript, timestamps_in, transcript_cwd, Timestamps, TranscriptFile};
use tracedecay::sessions::workflow_ingest::{run_stats, sweep_runs, RunOutcome, Sweep, WorkflowIngestStats};

fn json(text: &str) -> Json {
    parse_json(text).expect("json")
}

fn no_times() -> Timestamps {
    Timestamps { readings: Vec::new() }
}

fn times(readings: &[(&str, u64)]) -> Timestamps {
    Timestamps {
        readings: readings.iter().map(|(t, s)| (t.to_string(), *s)).collect(),
    }
}

fn names(list: &[&str]) -> Vec<String> {
    list.iter().map(|s| s.to_string()).collect()
}

fn sample_meta() -> Json {
    json(
        r#"{
            "runId": "wf_d0bf6fa4-48f",
            "workflowName": "tracedecay-triggering-evals",
            "summary": "Mine real transcripts into a broad eval corpus",
            "status": "completed",
            "startTime": 1783142254914,
            "durationMs": 983890,
            "agentCount": 2,
            "defaultModel": "model-fable-5",
            "phases": [
                {"title": "Mine", "detail": "harvest scenarios"},
                {"title": "Run", "detail": "run it", "model": "fable"}
            ],
            "result": {"scored": 45, "scenarios": 36},
            "workflowProgress": [
                {"type": "workflow_phase", "phaseTitle": "Mine"},
                {
                    "type": "workflow_agent",
                    "label": "mine:agent-transcripts",
                    "phaseTitle": "Mine",
                    "phaseIndex": 1,
                    "agentId": "a17141dbe5a308242",
                    "model": "model-fable-5",
                    "state": "done",
                    "startedAt": 1783142254936,
                    "lastProgressAt": 1783142255936
                },
                {
                    "type": "workflow_agent",
                    "label": "",
                    "phaseTitle": "Run",
                    "agentId": "aa09ec4d07fccc915",
                    "state": "in_progress",
                    "startedAt": 1783142260000
                }
            ]
        }"#,
    )
}

#[test]
fn parse_run_from_meta_maps_fields_and_folds_status() {
    let (run, agents) =
        parse_run_from_meta("wf_fallback", "sess-parent", &sample_meta(), &no_times());

    assert_eq!(run.run_id, "wf_d0bf6fa4-48f"); // runId wins over the dir name
    assert_eq!(run.parent_session_id, "sess-parent");
    assert_eq!(run.name.as_deref(), Some("tracedecay-triggering-evals"));
    assert_eq!(run.status, WorkflowStatus::Completed);
    // startTime ms -> secs.
    assert_eq!(run.started_ts, Some(1_783_142_254));
    // started + durationMs/1000.
    assert_eq!(run.ended_ts, Some(1_783_142_254 + 983));
    // agentCount from meta, not roster length.
    assert_eq!(run.agent_count, 2);
    // `summary` present -> used verbatim (one-lined).
    assert_eq!(
        run.result_summary.as_deref(),
        Some("Mine real transcripts into a broad eval corpus")
    );

    // phase_json round-trips as a JSON array of the phases.
    let phases: serde_json::Value =
        serde_json::from_str(run.phase_json.as_deref().unwrap()).unwrap();
    assert!(phases.is_array());
    assert_eq!(phases.as_array().unwrap().len(), 2);
    assert_eq!(phases[0]["title"], "Mine");

    // Only the two workflow_agent rows, in order; workflow_phase is dropped.
    assert_eq!(agents.len(), 2);
    assert_eq!(agents[0].agent_label, "mine:agent-transcripts");
    assert_eq!(agents[0].phase.as_deref(), Some("Mine"));
    assert_eq!(agents[0].status, WorkflowStatus::Completed);
    assert_eq!(agents[0].model.as_deref(), Some("model-fable-5"));
    assert_eq!(agents[0].started_ts, Some(1_783_142_254));
    assert_eq!(agents[0].ended_ts, Some(1_783_142_255));
    // Empty label falls back to the agent id; missing model backfills from
    // defaultModel; state folds `in_progress` -> Running.
    assert_eq!(agents[1].agent_label, "aa09ec4d07fccc915");
    assert_eq!(agents[1].model.as_deref(), Some("model-fable-5"));
    assert_eq!(agents[1].status, WorkflowStatus::Running);
}

#[test]
fn result_summary_truncates_json_result_when_no_summary() {
    let mut meta = sample_meta();
    let long = "x ".repeat(2000);
    match &mut meta {
        Json::Object(map) => {
            map.remove("summary");
            map.insert("result".to_string(), Json::Text(long));
        }
        _ => panic!("an object"),
    }
    let summary = run_result_summary(&meta).unwrap();
    assert!(summary.chars().count() <= RESULT_SUMMARY_CAP);
    assert!(summary.ends_with("..."));
    // Whitespace collapsed to single spaces.
    assert!(!summary.contains("  "));
}

#[test]
fn result_summary_prefers_summary_over_result() {
    let meta = sample_meta();
    // Even though `result` is a dict, the `summary` string wins.
    assert_eq!(
        run_result_summary(&meta).as_deref(),
        Some("Mine real transcripts into a broad eval corpus")
    );
}

#[test]
fn roster_extracts_only_workflow_agents() {
    let meta = sample_meta();
    let roster = parse_roster("wf_x", &meta, Some("fallback-model"));
    assert_eq!(roster.len(), 2);
    assert!(roster.iter().all(|agent| agent.run_id == "wf_x"));
    let labels: Vec<&str> = roster.iter().map(|a| a.agent_label.as_str()).collect();
    assert_eq!(labels, vec!["mine:agent-transcripts", "aa09ec4d07fccc915"]);
}

#[test]
fn transcript_tokens_sum_input_and_output() {
    let body = [
        r#"{"type":"user","sessionId":"agent-sess","timestamp":"2026-07-04T05:17:34.967Z","message":{"role":"user","content":"hi"}}"#,
        "\n",
        r#"{"type":"assistant","timestamp":"2026-07-04T05:18:00.000Z","message":{"role":"assistant","usage":{"input_tokens":100,"output_tokens":40}}}"#,
        "\n",
        "   \n",
        r#"not json"#,
        "\n",
        r#"{"type":"assistant","timestamp":"2026-07-04T05:25:32.232Z","message":{"role":"assistant","usage":{"input_tokens":10,"output_tokens":8,"cache_read_input_tokens":999}}}"#,
        "\n",
    ]
    .concat();
    assert_eq!(
        timestamps_in(&body),
        vec![
            "2026-07-04T05:17:34.967Z",
            "2026-07-04T05:18:00.000Z",
            "2026-07-04T05:25:32.232Z"
        ]
    );
    let clock = times(&[
        ("2026-07-04T05:17:34.967Z", 1_783_142_254),
        ("2026-07-04T05:18:00.000Z", 1_783_142_280),
        ("2026-07-04T05:25:32.232Z", 1_783_142_732),
    ]);
    let summary = summarize_transcript(&body, &clock);
    // 100+40 + 10+8 (cache_* excluded).
    assert_eq!(summary.tokens, 158);
    assert_eq!(summary.session_id.as_deref(), Some("agent-sess"));
    assert_eq!(
        summary.first_ts,
        clock.seconds("2026-07-04T05:17:34.967Z")
    );
    assert_eq!(summary.first_ts, Some(1_783_142_254));
    assert_eq!(
        summary.last_ts,
        clock.seconds("2026-07-04T05:25:32.232Z")
    );
    assert_eq!(summary.last_ts, Some(1_783_142_732));
}

#[test]
fn dir_only_run_is_running_with_journal_roster() {
    let journal = [
        r#"{"type":"started","agentId":"a1"}"#,
        "\n",
        r#"{"type":"started","agentId":"a2"}"#,
        "\n",
        r#"{"type":"result","agentId":"a1"}"#,
        "\n",
        r#"{"type":"started","agentId":""}"#,
        "\n",
    ]
    .concat();
    let events = parse_journal(&journal);
    // Empty agentId dropped; three valid events remain.
    assert_eq!(events.len(), 3);
    // a1 has a terminal result -> Completed; a2 only started -> Running.
    assert_eq!(journal_agent_status(&events, "a1"), WorkflowStatus::Completed);
    assert_eq!(journal_agent_status(&events, "a2"), WorkflowStatus::Running);
    assert_eq!(journal_agent_status(&events, "absent"), WorkflowStatus::Unknown);
}

#[test]
fn dir_only_run_from_disk_yields_running_and_roster() {
    // Two agent transcripts + a journal naming a3 that has no file yet.
    let files = names(&["agent-a1.jsonl", "agent-a1.meta.json", "agent-a2.jsonl", "journal.jsonl"]);
    let journal = parse_journal(
        &[
            r#"{"type":"started","agentId":"a1"}"#,
            "\n",
            r#"{"type":"started","agentId":"a3"}"#,
            "\n",
        ]
        .concat(),
    );

    let (run, mut agents) = parse_run_from_dir("wf_dir", "sess", &files, &journal);
    assert_eq!(run.status, WorkflowStatus::Running);
    assert_eq!(run.run_id, "wf_dir");
    // a1, a2 (from files) then a3 (journal-only).
    let mut ids: Vec<String> = agents.iter().map(|a| a.agent_id.clone()).collect();
    ids.sort();
    assert_eq!(ids, vec!["a1", "a2", "a3"]);
    assert_eq!(run.agent_count, 3);

    // Enrichment attaches the transcript path + tokens for a1.
    let clock = times(&[("2026-07-04T05:00:00.000Z", 1_783_141_200)]);
    for agent in &mut agents {
        let file = if agent.agent_id == "a1" {
            let text = r#"{"sessionId":"s","timestamp":"2026-07-04T05:00:00.000Z","message":{"usage":{"input_tokens":5,"output_tokens":5}}}"#;
            Some(TranscriptFile {
                path: "/runs/agent-a1.jsonl".to_string(),
                summary: Some(summarize_transcript(text, &clock)),
            })
        } else if agent.agent_id == "a2" {
            Some(TranscriptFile {
                path: "/runs/agent-a2.jsonl".to_string(),
                summary: Some(summarize_transcript("\n", &clock)),
            })
        } else {
            None
        };
        enrich_agent_from_transcript(agent, file);
    }
    let a1 = agents.iter().find(|a| a.agent_id == "a1").unwrap();
    assert_eq!(a1.tokens, 10);
    assert!(a1.transcript_path.as_deref().unwrap().ends_with("agent-a1.jsonl"));
    assert_eq!(a1.agent_session_id.as_deref(), Some("s"));
    assert_eq!(a1.started_ts, Some(1_783_141_200));
    // a3 has no file: no transcript path, zero tokens.
    let a3 = agents.iter().find(|a| a.agent_id == "a3").unwrap();
    assert!(a3.transcript_path.is_none());
    assert_eq!(a3.tokens, 0);
}

fn outcome(mtime: i64, in_project: bool, agents: u64) -> RunOutcome {
    RunOutcome { mtime, in_project, stored: Some(run_stats(agents)) }
}

#[test]
fn sweep_ingests_runs_scoped_to_project_and_is_incremental() {
    let runs = vec![outcome(100, true, 2), outcome(90, true, 1)];
    let first = sweep_runs(0, &runs);
    assert_eq!(first.stats.runs_ingested, 2);
    assert_eq!(first.stats.agents_ingested, 3);
    assert_eq!(first.new_watermark(), Some(100));

    // Re-sweep with nothing changed: the watermark short-circuits every run.
    let again = sweep_runs(first.max_mtime, &runs);
    assert_eq!(again.stats, WorkflowIngestStats::default());
    assert_eq!(again.new_watermark(), None);
}

#[test]
fn sweep_skips_runs_owned_by_a_different_project() {
    let sweep = sweep_runs(0, &vec![outcome(100, false, 2), outcome(90, false, 1)]);
    assert_eq!(sweep.stats, WorkflowIngestStats::default());
    assert_eq!(sweep.new_watermark(), None);
}

#[test]
fn other_project_run_does_not_advance_watermark() {
    const FUTURE: i64 = 4_102_444_800;
    let runs = vec![
        outcome(100, true, 2),
        outcome(90, true, 1),
        outcome(FUTURE, false, 2),
        outcome(95, false, 1),
    ];
    let sweep = sweep_runs(0, &runs);
    assert_eq!(sweep.stats.runs_ingested, 2);
    let watermark = sweep.new_watermark().unwrap();
    assert!(watermark > 0 && watermark < FUTURE);

    // The still-running run is looked at again once it changes.
    let again = sweep_runs(watermark, &vec![outcome(100, true, 2), outcome(watermark + 60, true, 2)]);
    assert_eq!(again.stats.runs_ingested, 1);
}

#[test]
fn runs_that_could_not_be_stored_still_move_the_watermark() {
    let mut sweep = Sweep::new(10);
    assert!(!sweep.wants(10));
    assert!(sweep.wants(11));
    assert!(sweep.wants(0));
    sweep.record(RunOutcome { mtime: 50, in_project: true, stored: None });
    assert_eq!(sweep.stats, WorkflowIngestStats::default());
    assert_eq!(sweep.new_watermark(), Some(50));
}

#[test]
fn merging_counts_saturates() {
    let a = WorkflowIngestStats { runs_ingested: 1, agents_ingested: u64::MAX };
    let b = WorkflowIngestStats { runs_ingested: 2, agents_ingested: 5 };
    assert_eq!(
        a.merge(b),
        WorkflowIngestStats { runs_ingested: 3, agents_ingested: u64::MAX }
    );
    assert_eq!(a.merge(b), b.merge(a));
    assert_eq!(a.merge(WorkflowIngestStats::default()), a);
}

#[test]
fn file_names_are_parted_at_the_last_dot() {
    assert_eq!(extension_of("agent-a.b.JSONL").as_deref(), Some("JSONL"));
    assert_eq!(extension_of(".hidden"), None);
    assert_eq!(extension_of("plain"), None);
    assert_eq!(extension_of(".."), None);
    assert_eq!(stem_of("agent-a.b.jsonl"), "agent-a.b");
    assert_eq!(stem_of(".hidden"), ".hidden");
    assert!(is_agent_transcript("agent-x.JsonL"));
    assert!(!is_agent_transcript("agent-x.meta.json"));
    assert!(!is_agent_transcript("journal.jsonl"));
}

#[test]
fn transcripts_come_in_order_and_rosters_name_each_agent_once() {
    let files = names(&["agent-b.jsonl", "journal.jsonl", "agent-a.jsonl", "agent-.jsonl"]);
    assert_eq!(
        agent_transcripts(&files),
        vec!["agent-.jsonl", "agent-a.jsonl", "agent-b.jsonl"]
    );
    let journal = parse_journal(
        "{\"type\":\"started\",\"agentId\":\"b\"}\n{\"type\":\"result\",\"agentId\":\"d\"}\n{\"type\":\"started\",\"agentId\":\"c\"}\n{\"type\":\"started\",\"agentId\":\"c\"}\n",
    );
    assert_eq!(roster_agent_ids(&files, &journal), vec!["a", "b", "c"]);
    assert!(is_agent_transcript(&agent_transcript_name("z")));
    assert_eq!(roster_agent_ids(&vec![agent_transcript_name("z")], &Vec::new()), vec!["z"]);
    assert_eq!(meta_file_name("wf_1"), "wf_1.json");
    assert_eq!(session_transcript_name("s.1"), "s.1.jsonl");
}

#[test]
fn only_a_result_completes_an_agent() {
    let events = parse_journal(
        "{\"type\":\"failed\",\"agentId\":\"a\"}\n{\"type\":\"result\",\"agentId\":\"a\"}\nnot json\n{\"agentId\":\"b\"}\n{\"type\":\"started\",\"agentId\":\"c\"}\n{\"type\":\"error\",\"agentId\":\"c\"}\n{\"type\":\"done\",\"agentId\":\"d\"}\n",
    );
    assert_eq!(events.len(), 5);
    assert_eq!(journal_agent_status(&events, "a"), WorkflowStatus::Completed);
    assert_eq!(journal_agent_status(&events, "b"), WorkflowStatus::Unknown);
    assert_eq!(journal_agent_status(&events, "c"), WorkflowStatus::Running);
    assert_eq!(journal_agent_status(&events, "d"), WorkflowStatus::Running);
}

#[test]
fn working_directories_come_from_early_lines() {
    let mut lines = names(&["", "{\"type\":\"summary\"}", "{\"cwd\":\"\"}", " {\"cwd\":\"/p\"} "]);
    assert_eq!(transcript_cwd(&lines).as_deref(), Some("/p"));
    lines = vec![String::new(); 8];
    lines.push("{\"cwd\":\"/late\"}".to_string());
    assert_eq!(transcript_cwd(&lines), None);
    assert_eq!(
        run_cwd(Some("/a".to_string()), &vec![Some("/b".to_string())]).as_deref(),
        Some("/a")
    );
    assert_eq!(
        run_cwd(None, &vec![None, Some("/b".to_string()), Some("/c".to_string())]).as_deref(),
        Some("/b")
    );
    assert_eq!(run_cwd(None, &vec![None]), None);
}

#[test]
fn run_directories_need_readable_names() {
    let dir = |name: Option<&str>, is_dir: bool| DirEntry {
        name: name.map(|s| s.to_string()),
        is_dir,
    };
    let run = discovered_run(&dir(Some("s"), true), &dir(Some("wf"), true), true).unwrap();
    assert_eq!(run.run_id, "wf");
    assert_eq!(run.parent_session_id, "s");
    assert!(run.has_meta);
    assert!(discovered_run(&dir(None, true), &dir(Some("wf"), true), true).is_none());
    assert!(discovered_run(&dir(Some("s"), true), &dir(Some("wf"), false), true).is_none());
}

#[test]
fn times_of_files_and_fields() {
    assert_eq!(file_mtime(None), 0);
    assert_eq!(file_mtime(Some(7)), 7);
    assert_eq!(file_mtime(Some(u64::MAX)), 0);
    assert_eq!(newest_mtime(Some(5), 3), 5);
    assert_eq!(newest_mtime(None, 3), 3);
    assert_eq!(newest_mtime(Some(-5), 0), 0);
    assert_eq!(seconds_of(1999), 1);
    assert_eq!(seconds_of(-1999), -1);
    assert_eq!(seconds_of(i64::MIN), i64::MIN / 1000);
    assert_eq!(saturating_sum(i64::MAX, 1), i64::MAX);
    assert_eq!(saturating_sum(i64::MIN, -1), i64::MIN);
    assert_eq!(saturating_sum(2, -5), -3);
}

#[test]
fn start_and_end_of_runs() {
    let clock = times(&[("now", 77), ("huge", u64::MAX)]);
    assert_eq!(run_start_ts(&json(r#"{"startTime":5500,"timestamp":"now"}"#), &clock), Some(5));
    assert_eq!(run_start_ts(&json(r#"{"timestamp":"now"}"#), &clock), Some(77));
    assert_eq!(run_start_ts(&json(r#"{"timestamp":"huge"}"#), &clock), None);
    assert_eq!(run_start_ts(&json(r#"{"timestamp":"other"}"#), &clock), None);
    assert_eq!(run_end_ts(&json(r#"{"durationMs":1500}"#), Some(10)), Some(11));
    assert_eq!(run_end_ts(&json("{}"), Some(10)), None);
    assert_eq!(run_end_ts(&json(r#"{"durationMs":1500}"#), None), None);
}

#[test]
fn result_texts() {
    assert_eq!(run_result_summary(&json(r#"{"result":null}"#)), None);
    assert_eq!(run_result_summary(&json(r#"{"result":"  "}"#)), None);
    assert_eq!(run_result_summary(&json("{}")), None);
    assert_eq!(
        run_result_summary(&json(r#"{"result":{"b":1,"a":[true, null]}}"#)).as_deref(),
        Some(r#"{"a":[true,null],"b":1}"#)
    );
    assert_eq!(truncate_one_line("a  b c d", 6), "a b...");
    assert_eq!(truncate_one_line("abcdef", 3), "...");
    assert_eq!(truncate_one_line("abcdef", 2), "..");
    assert_eq!(truncate_one_line("abcdef", 0), "");
    assert_eq!(truncate_one_line("ab", 2), "ab");
}

#[test]
fn tokens_of_lines() {
    assert_eq!(line_usage_tokens(&json(r#"{"usage":{"input_tokens":3}}"#)), 3);
    assert_eq!(
        line_usage_tokens(&json(
            r#"{"message":{"usage":{"output_tokens":4}},"usage":{"input_tokens":3}}"#
        )),
        4
    );
    assert_eq!(line_usage_tokens(&json(r#"{"message":{}}"#)), 0);
}

#[test]
fn statuses_on_disk() {
    for (word, status) in [
        ("completed", WorkflowStatus::Completed),
        ("done", WorkflowStatus::Completed),
        ("in_progress", WorkflowStatus::Running),
        ("running", WorkflowStatus::Running),
        ("failed", WorkflowStatus::Failed),
        ("whatever", WorkflowStatus::Unknown),
    ] {
        assert_eq!(WorkflowStatus::from_disk(word), status);
    }
}

#[test]
fn enrichment_keeps_what_is_known() {
    let mut agent = WorkflowAgent {
        run_id: "r".to_string(),
        agent_label: "l".to_string(),
        agent_id: "a".to_string(),
        phase: None,
        transcript_path: None,
        agent_session_id: Some("known".to_string()),
        status: WorkflowStatus::Running,
        model: None,
        tokens: 9,
        started_ts: Some(1),
        ended_ts: Some(2),
    };
    enrich_agent_from_transcript(&mut agent, None);
    assert!(agent.transcript_path.is_none());
    enrich_agent_from_transcript(
        &mut agent,
        Some(TranscriptFile { path: "/p".to_string(), summary: None }),
    );
    assert_eq!(agent.transcript_path.as_deref(), Some("/p"));
    assert_eq!(agent.tokens, 9);
    let text = r#"{"sessionId":"other","timestamp":"t"}"#;
    enrich_agent_from_transcript(
        &mut agent,
        Some(TranscriptFile {
            path: "/p".to_string(),
            summary: Some(summarize_transcript(text, &times(&[("t", 50)]))),
        }),
    );
    assert_eq!(agent.tokens, 9);
    assert_eq!(agent.agent_session_id.as_deref(), Some("known"));
    assert_eq!(agent.started_ts, Some(1));
    assert_eq!(agent.ended_ts, Some(50));
}

#[test]
fn runs_are_assembled_from_meta_or_directory() {
    let files = names(&["agent-x.jsonl"]);
    let (run, agents) =
        assemble_run("dir", "s", &read_run_meta("{\"runId\":\"\"}"), &files, &Vec::new(), &no_times());
    assert_eq!(run.run_id, "dir");
    assert_eq!(run.status, WorkflowStatus::Unknown);
    assert_eq!(agents.len(), 0);
    let (mut run, agents) =
        assemble_run("dir", "s", &read_run_meta("{broken"), &files, &Vec::new(), &no_times());
    assert_eq!(run.status, WorkflowStatus::Running);
    assert_eq!(agents.len(), 1);
    assert_eq!(agents[0].agent_label, "x");
    run.agent_count = 0;
    reconcile_agent_count(&mut run, 4);
    assert_eq!(run.agent_count, 4);
    reconcile_agent_count(&mut run, 9);
    assert_eq!(run.agent_count, 4);
    assert_eq!(write_json(&read_run_meta("[1, 2]").unwrap()), "[1,2]");
}
