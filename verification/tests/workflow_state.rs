use tracedecay::sessions::workflow_state::{classify_evidence, classify_status, compact_evidence, item_from_row, query_limit, task_id_from_metadata, unfinished_from_rows, MessageRow};

fn row(content: &str, snippet: &str, metadata: &str) -> MessageRow {
    MessageRow {
        provider: Ok("agent".to_string()),
        session_id: Ok("s1".to_string()),
        message_id: Ok("m1".to_string()),
        ordinal: Ok(7),
        content: Ok(content.to_string()),
        snippet: Ok(snippet.to_string()),
        metadata_json: Ok(metadata.to_string()),
    }
}

#[test]
fn classify_workflow_states_from_text() {
    for (text, expected) in [
        ("Agent hit the session limit while running task", "session limit"),
        ("automation blocked on missing credentials", "blocked"),
        ("task interrupted by compaction", "interrupted"),
        ("worker finished with runs:0", "runs:0"),
        (r#"{"runs":0,"status":"queued"}"#, "runs:0"),
    ] {
        let (status, evidence) = classify_evidence(text, "").expect("status");
        assert_eq!(status, expected);
        assert!(!evidence.is_empty());
    }
}

#[test]
fn extracts_task_id_from_metadata() {
    assert_eq!(
        task_id_from_metadata(r#"{"task_id":"task-123"}"#),
        Some("task-123".to_string())
    );
}

#[test]
fn task_ids_come_from_the_first_text_among_the_keys() {
    assert_eq!(task_id_from_metadata(r#"{"id":"x","taskId":"y"}"#), Some("y".to_string()));
    assert_eq!(task_id_from_metadata(r#"{"task_id":5,"id":"x"}"#), Some("x".to_string()));
    assert_eq!(task_id_from_metadata(r#"{"task_id":"","id":"x"}"#), None);
    assert_eq!(task_id_from_metadata("no json"), None);
}

#[test]
fn status_order_and_case() {
    assert_eq!(classify_status("BLOCKED by the Session Limit"), Some("session limit"));
    assert_eq!(classify_status("runs:0 and blocked"), Some("runs:0"));
    assert_eq!(classify_status("blocked, interrupted"), Some("blocked"));
    assert_eq!(classify_status("all fine"), None);
}

#[test]
fn evidence_is_one_line_of_at_most_180_characters() {
    assert_eq!(compact_evidence("  a\n\tb  c "), "a b c");
    let long = "word ".repeat(100);
    let text = compact_evidence(&long);
    assert_eq!(text.chars().count(), 180);
    assert!(text.ends_with("..."));
    assert_eq!(compact_evidence(&"é".repeat(181)).chars().count(), 180);
    assert_eq!(compact_evidence(&"x".repeat(180)), "x".repeat(180));
}

#[test]
fn snippet_is_the_evidence_unless_blank() {
    assert_eq!(
        classify_evidence("blocked here", "the snippet"),
        Some(("blocked".to_string(), "the snippet".to_string()))
    );
    assert_eq!(
        classify_evidence("blocked here", " \n "),
        Some(("blocked".to_string(), "blocked here".to_string()))
    );
    assert_eq!(classify_evidence("fine", "blocked"), None);
}

#[test]
fn limits_are_clamped() {
    assert_eq!(query_limit(0), 1);
    assert_eq!(query_limit(17), 17);
    assert_eq!(query_limit(9999), 250);
}

#[test]
fn rows_become_items_in_order() {
    let rows = vec![
        Ok(row("blocked", "", r#"{"task":"t1"}"#)),
        Ok(row("nothing", "", "")),
        Ok(row("interrupted", "snip", "")),
    ];
    let items = unfinished_from_rows(&rows).expect("items");
    assert_eq!(items.len(), 2);
    assert_eq!(items[0].status, "blocked");
    assert_eq!(items[0].task_id.as_deref(), Some("t1"));
    assert_eq!(items[0].ordinal, 7);
    assert_eq!(items[1].status, "interrupted");
    assert_eq!(items[1].evidence, "snip");
    assert!(items[1].task_id.is_none());
}

#[test]
fn unreadable_rows_stop_the_query() {
    let rows = vec![Ok(row("blocked", "", "")), Err("disk".to_string())];
    assert_eq!(unfinished_from_rows(&rows).err().as_deref(), Some("disk"));
    let mut bad = row("blocked", "", "");
    bad.ordinal = Err("not a number".to_string());
    assert_eq!(item_from_row(&bad).err().as_deref(), Some("not a number"));
    let mut passed_over = row("fine", "", "");
    passed_over.ordinal = Err("not a number".to_string());
    assert!(item_from_row(&passed_over).expect("no item").is_none());
}
