use tracedecay::json::{Json, JsonMap};
use tracedecay::json_io::{parse_json, write_json, write_json_pretty};
use tracedecay::tool_command::coerce::{coerce_value, finalize_arrays, json_type_name, merge_value, normalize_legacy_tool_args, structured_value, value_matches_type};
use tracedecay::tool_command::dispatch::{after_call, after_run, after_search, is_daemon_unavailable, is_profile_scoped_lcm_dispatch, join_content_text, makes_store, project_required, tool_output, CallError, CallStep, DaemonToolDispatch, Place};
use tracedecay::tool_command::inputs::{resolve_args_payload, resolve_at_file, Inputs, Source, Stop};
use tracedecay::tool_command::listing::{first_line, group_for, render_tool_list};
use tracedecay::tool_command::names::{canonical_tool_name, find_tool, nearest_tool_name};
use tracedecay::tool_command::parse::{accept_args_payload, parse_invocation, parameter_of_flag, ParsedInvocation};
use tracedecay::tool_command::run::{run, Plan};
use tracedecay::tool_command::schema::ToolDefinition;
use tracedecay::tool_command::suggest::{edit_distance, max_typo_distance, nearest_by_edit_distance};
use tracedecay::tool_command::validate::validate_tool_args;

fn json(text: &str) -> Json {
    parse_json(text).expect("json")
}

fn map(text: &str) -> JsonMap {
    match json(text) {
        Json::Object(m) => m,
        _ => panic!("an object"),
    }
}

fn words(list: &[&str]) -> Vec<String> {
    list.iter().map(|s| s.to_string()).collect()
}

fn def(name: &str, schema: &str) -> ToolDefinition {
    ToolDefinition {
        name: name.to_string(),
        description: "Does a thing.".to_string(),
        input_schema: json(schema),
        meta: None,
    }
}

fn search() -> ToolDefinition {
    def(
        "tracedecay_search",
        r#"{
            "properties": {
                "query": {"type": "string"},
                "limit": {"type": "integer"},
                "ratio": {"type": "number"},
                "exact_match": {"type": "boolean"},
                "keywords": {"type": "array"},
                "filter": {"type": "object"},
                "mode": {"type": "string", "enum": ["fast", "slow", 3]},
                "pairs": {"type": "array", "items": {"type": "array"}}
            },
            "required": ["query"]
        }"#,
    )
}

fn parse(def: &ToolDefinition, args: &[&str]) -> Result<ParsedInvocation, Stop> {
    parse_invocation(def, &words(args), &Inputs::new())
}

fn args_of(args: &[&str]) -> String {
    match parse(&search(), args) {
        Ok(p) => write_json(&p.tool_args),
        Err(Stop::Invalid(e)) => panic!("{}", e.message),
        Err(Stop::Needs(_)) => panic!("a source"),
    }
}

fn error_of(args: &[&str]) -> String {
    match parse(&search(), args) {
        Err(Stop::Invalid(e)) => e.message,
        _ => panic!("no error"),
    }
}

#[test]
fn flags_are_read_by_type() {
    assert_eq!(
        args_of(&[
            "--query", "q", "--limit=5", "--ratio", "7", "--exact-match", "yes", "--keywords", "a, b",
            "--filter", "{\"x\":1}",
        ]),
        r#"{"exact_match":true,"filter":{"x":1},"keywords":["a","b"],"limit":5,"query":"q","ratio":7}"#
    );
    assert_eq!(args_of(&["--query=a=b"]), r#"{"query":"a=b"}"#);
    assert_eq!(args_of(&["--query", "--limit"]), r#"{"query":"--limit"}"#);
}

#[test]
fn repeated_flags_accumulate_and_single_texts_become_arrays() {
    assert_eq!(
        args_of(&["q", "--keywords", "a", "--keywords", "b", "--keywords", "c"]),
        r#"{"keywords":["a","b","c"],"query":"q"}"#
    );
    assert_eq!(args_of(&["q", "--keywords", "solo"]), r#"{"keywords":["solo"],"query":"q"}"#);
    assert_eq!(args_of(&["q", "--keywords", "[1,2]"]), r#"{"keywords":[1,2],"query":"q"}"#);
}

#[test]
fn reserved_flags() {
    let p = parse(&search(), &["--json", "--dry-run=x", "--project", "/p", "q"]).ok().unwrap();
    assert!(p.raw_json && p.dry_run && !p.show_help);
    assert_eq!(p.project.as_deref(), Some("/p"));
    let help = parse(&search(), &["--json", "-h", "--limit", "no number"]).ok().unwrap();
    assert!(help.show_help && help.raw_json);
    assert_eq!(write_json(&help.tool_args), "{}");
    assert!(parse(&search(), &["--help"]).ok().unwrap().show_help);
    assert_eq!(error_of(&["q", "--project"]), "flag `--project` requires a value");
    assert_eq!(error_of(&["q", "--args"]), "flag `--args` requires a value");
}

#[test]
fn missing_values_of_flags() {
    assert_eq!(
        error_of(&["q", "--exact-match"]),
        "flag `--exact-match` requires a value — pass `--exact-match true` or `--exact-match false`"
    );
    assert_eq!(
        error_of(&["q", "--limit"]),
        "flag `--limit` requires a value — write `--limit <value>` or `--limit=<value>`"
    );
}

#[test]
fn values_of_the_wrong_type() {
    assert_eq!(
        error_of(&["q", "--exact-match", "maybe"]),
        "--exact-match: expected a boolean (true/false), got `maybe` — pass `--exact-match true` or `--exact-match false`"
    );
    assert_eq!(error_of(&["q", "--limit", "5.5"]), "--limit: expected integer, got `5.5`");
    assert_eq!(
        error_of(&["q", "--filter", "text"]),
        "--filter expects a JSON object, got string. Pass JSON (e.g. --filter '<json>'), or the whole payload via stdin: tracedecay tool search --args - <<'JSON' {…} JSON"
    );
    assert_eq!(
        error_of(&["q", "--pairs", "[[1],2]"]),
        "--pairs expects a JSON array of arrays, but an element is a number. Pass JSON: --pairs '<json>' — or the whole payload via stdin: tracedecay tool search --args - <<'JSON' {…} JSON"
    );
    assert_eq!(
        error_of(&["q", "--query", "again", "--query", "more"]),
        "unexpected positional argument(s): q — use --key value flags or run `tracedecay tool search --help`"
    );
}

#[test]
fn unknown_parameters_and_values() {
    assert_eq!(
        error_of(&["q", "--limt", "5"]),
        "unknown parameter `--limt` for `search` — did you mean `--limit`? Valid: --exact-match, --filter, --keywords, --limit, --mode, --pairs, --query (required), --ratio"
    );
    assert_eq!(
        error_of(&["q", "--completely-other", "5"]),
        "unknown parameter `--completely-other` for `search` Valid: --exact-match, --filter, --keywords, --limit, --mode, --pairs, --query (required), --ratio"
    );
    assert_eq!(error_of(&["q", "--mode", "medium"]), "--mode: `medium` is not one of: fast, slow, 3");
    assert_eq!(args_of(&["q", "--mode", "fast"]), r#"{"mode":"fast","query":"q"}"#);
    assert_eq!(
        error_of(&["q", "-limit", "5"]),
        "unknown argument `-limit` — did you mean `--limit`?"
    );
    assert_eq!(args_of(&["q", "--cwd", "/x"]), r#"{"cwd":"/x","query":"q"}"#);
}

#[test]
fn positionals_and_required_parameters() {
    assert_eq!(args_of(&["hello"]), r#"{"query":"hello"}"#);
    assert_eq!(args_of(&["-5"]), r#"{"query":"-5"}"#);
    assert_eq!(
        error_of(&["a", "b", "c"]),
        "unexpected positional argument(s): b c — use --key value flags or run `tracedecay tool search --help`"
    );
    assert_eq!(
        error_of(&[]),
        "missing required parameter `--query` for tool `search` — e.g. tracedecay tool search --query <value>"
    );
    assert_eq!(
        error_of(&["--args", "{}"]),
        "missing required parameter `--query` for tool `search`"
    );
}

#[test]
fn whole_payloads() {
    assert_eq!(
        args_of(&["--args", r#" {"query":"x","limit":null}"#]),
        r#"{"limit":null,"query":"x"}"#
    );
    assert_eq!(
        error_of(&["--args", "[1]"]),
        "--args must be a JSON object — the same object you would pass as MCP arguments, e.g. {\"query\":\"…\"}"
    );
    assert!(error_of(&["--args", "{broken"]).starts_with("--args: invalid JSON: "));
    assert!(error_of(&["--args", "{broken"]).ends_with(
        " — if the payload contains quotes or newlines, pipe it: tracedecay tool <name> --args - <<'JSON' … JSON"
    ));
    assert_eq!(
        error_of(&["--args", "{}", "--limit", "5"]),
        "--args cannot be combined with other tool flags or positionals — either put everything in --args, or use only --key value flags"
    );
    assert_eq!(
        error_of(&["--args", r#"{"query":7}"#]),
        "--query expects a JSON string, got number."
    );
    assert_eq!(
        error_of(&["--args", r#"{"query":null}"#]),
        "--query expects a JSON string, got null."
    );
    assert_eq!(
        accept_args_payload(Err("e".to_string())).err().unwrap(),
        "--args: invalid JSON: e — if the payload contains quotes or newlines, pipe it: tracedecay tool <name> --args - <<'JSON' … JSON"
    );
}

#[test]
fn sources_are_asked_for_until_they_are_supplied() {
    let tool = search();
    let args = words(&["--query", "@-", "--keywords", "@-", "--mode", "@mode.txt", "--ratio", "0.5"]);
    let mut inputs = Inputs::new();
    let mut asked = Vec::new();
    let parsed = loop {
        match parse_invocation(&tool, &args, &inputs) {
            Ok(p) => break p,
            Err(Stop::Needs(Source::Stdin)) => {
                asked.push("stdin".to_string());
                inputs.stdin = Some(Ok("piped".to_string()));
            }
            Err(Stop::Needs(Source::File(path))) => {
                asked.push(path.clone());
                inputs.files.push((path, Ok("slow".to_string())));
            }
            Err(Stop::Needs(Source::Number(text))) => {
                asked.push(text.clone());
                inputs.numbers.push((text, serde_json::Number::from_f64(0.5)));
            }
            Err(Stop::Invalid(e)) => panic!("{}", e.message),
        }
    };
    assert_eq!(asked, vec!["stdin", "mode.txt", "0.5"]);
    assert_eq!(
        write_json(&parsed.tool_args),
        r#"{"keywords":["piped"],"mode":"slow","query":"piped","ratio":0.5}"#
    );
}

#[test]
fn sources_that_cannot_be_read() {
    let mut inputs = Inputs::new();
    inputs.stdin = Some(Err("closed".to_string()));
    inputs.files.push(("f".to_string(), Err("absent".to_string())));
    inputs.numbers.push(("nan".to_string(), None));
    let message = |r: Result<String, Stop>| match r {
        Err(Stop::Invalid(e)) => e.message,
        _ => panic!("no error"),
    };
    assert_eq!(message(resolve_at_file("@-", &inputs)), "failed to read stdin: closed");
    assert_eq!(
        message(resolve_at_file("@f", &inputs)),
        "failed to read @f: absent — the path is resolved relative to the current directory; for a literal value that begins with `@`, use --args instead"
    );
    assert_eq!(
        message(resolve_args_payload("f", &inputs)),
        "--args: `f` is not inline JSON, `-` (stdin), or a readable file: absent"
    );
    assert_eq!(resolve_at_file("plain", &inputs).ok().unwrap(), "plain");
    assert_eq!(resolve_args_payload("  [1", &inputs).ok().unwrap(), "  [1");
    match coerce_value("ratio", Some(&json(r#"{"type":"number"}"#)), "nan", &inputs) {
        Err(Stop::Invalid(e)) => {
            assert_eq!(e.message, "--ratio: expected a finite number, got `nan`")
        }
        _ => panic!("no error"),
    }
}

#[test]
fn legacy_fact_types_become_categories() {
    let convert = |name: &str, text: &str| {
        normalize_legacy_tool_args(name, map(text)).map(|m| write_json(&Json::Object(m)))
    };
    assert_eq!(
        convert("tracedecay_fact_store", r#"{"fact_type":"x"}"#),
        Ok(r#"{"category":"x"}"#.to_string())
    );
    assert_eq!(
        convert("tracedecay_fact_store", r#"{"fact_type":"x","category":"x"}"#),
        Ok(r#"{"category":"x"}"#.to_string())
    );
    assert_eq!(
        convert("tracedecay_fact_store", r#"{"fact_type":"x","category":"y"}"#),
        Err("`fact_type` is a legacy alias for `category`; pass only `category`".to_string())
    );
    assert_eq!(
        convert("tracedecay_search", r#"{"fact_type":"x"}"#),
        Ok(r#"{"fact_type":"x"}"#.to_string())
    );
}

#[test]
fn tools_without_declared_parameters_accept_everything() {
    let opaque = def("tracedecay_x", r#"{"required":["a"]}"#);
    assert!(validate_tool_args(&opaque, &map(r#"{"anything":1}"#)).is_none());
}

#[test]
fn null_is_accepted_for_optional_parameters_only() {
    assert!(validate_tool_args(&search(), &map(r#"{"query":"q","mode":null}"#)).is_none());
    assert!(validate_tool_args(&search(), &map(r#"{"query":null}"#)).is_some());
}

#[test]
fn types_of_values() {
    assert!(value_matches_type(&json("5"), "integer"));
    assert!(value_matches_type(&json("18446744073709551615"), "integer"));
    assert!(!value_matches_type(&json("5.0"), "integer"));
    assert!(value_matches_type(&json("5.5"), "number"));
    assert!(value_matches_type(&json("null"), "mystery"));
    assert!(!value_matches_type(&json("null"), "string"));
    assert_eq!(json_type_name(&json("[]")), "array");
    assert_eq!(json_type_name(&json("{}")), "object");
    assert_eq!(json_type_name(&json("true")), "boolean");
}

#[test]
fn structured_values_fall_back_to_text() {
    assert_eq!(write_json(&structured_value("array", Ok(json("[1]")), "[1]")), "[1]");
    assert_eq!(write_json(&structured_value("array", Ok(json("{}")), "{}")), "\"{}\"");
    assert_eq!(
        write_json(&structured_value("object", Err("bad".to_string()), "x")),
        "\"x\""
    );
}

#[test]
fn merging_and_finalizing_by_hand() {
    let mut m = JsonMap::new();
    merge_value(&mut m, "k", json("1"));
    merge_value(&mut m, "k", json("2"));
    merge_value(&mut m, "other", json("\"a,b\""));
    merge_value(&mut m, "k", json("[3]"));
    assert_eq!(write_json(&Json::Object(m)), r#"{"k":[1,2,[3]],"other":"a,b"}"#);
    let schema = json(r#"{"properties":{"list":{"type":"array"}}}"#);
    let done = finalize_arrays(&schema, map(r#"{"list":" a , b","text":"a,b"}"#));
    assert_eq!(write_json(&Json::Object(done)), r#"{"list":["a","b"],"text":"a,b"}"#);
}

#[test]
fn names_of_tools() {
    assert_eq!(canonical_tool_name("dead-code"), "tracedecay_dead_code");
    assert_eq!(canonical_tool_name("tracedecay_dead_code"), "tracedecay_dead_code");
    assert_eq!(canonical_tool_name("query"), "tracedecay_search");
    assert_eq!(canonical_tool_name("tracedecay_query"), "tracedecay_search");
    assert_eq!(canonical_tool_name("tracedecay-x"), "tracedecay_tracedecay_x");
    let defs = vec![def("tracedecay_a", "{}"), def("tracedecay_search", "{}")];
    assert_eq!(find_tool(&defs, "tracedecay_search"), Some(1));
    assert_eq!(find_tool(&defs, "search"), None);
    assert_eq!(nearest_tool_name("tracedecay_serch", &defs).as_deref(), Some("search"));
    assert_eq!(nearest_tool_name("tracedecay_zzzzzzz", &defs), None);
    assert_eq!(parameter_of_flag("--exact-match"), "exact_match");
    assert_eq!(parameter_of_flag("---x"), "x");
}

#[test]
fn distances() {
    assert_eq!(edit_distance("kitten", "sitting"), 3);
    assert_eq!(edit_distance("", "abc"), 3);
    assert_eq!(edit_distance("same", "same"), 0);
    assert_eq!(edit_distance("héllo", "hello"), 1);
    assert_eq!(max_typo_distance("sixsix"), 2);
    assert_eq!(max_typo_distance("sevenss"), 3);
    assert_eq!(
        nearest_by_edit_distance("lmit", &words(&["limt", "limit", "lmit2"])).as_deref(),
        Some("limit")
    );
}

#[test]
fn the_command_as_a_plan() {
    let defs = vec![search(), def("tracedecay_lcm_grep", "{}"), def("tracedecay_fact_store", "{}")];
    let go = |project: Option<&str>, name: Option<&str>, args: &[&str]| {
        run(
            &defs,
            "footer",
            project.map(|s| s.to_string()),
            name.map(|s| s.to_string()),
            &words(args),
            &Inputs::new(),
        )
    };
    match go(None, Some("serch"), &[]) {
        Err(Stop::Invalid(e)) => assert_eq!(
            e.message,
            "unknown tool: 'serch'. Did you mean 'search'? Run `tracedecay tool` to list available tools."
        ),
        _ => panic!("no error"),
    }
    match go(None, Some("quite-unknown"), &[]) {
        Err(Stop::Invalid(e)) => assert_eq!(
            e.message,
            "unknown tool: 'quite-unknown'. Run `tracedecay tool` to list available tools."
        ),
        _ => panic!("no error"),
    }
    assert!(matches!(go(None, Some("search"), &["-h"]), Ok(Plan::Help(0))));
    match go(None, Some("query"), &["--dry-run", "x"]) {
        Ok(Plan::Print(text)) => assert_eq!(text, "{\n  \"query\": \"x\"\n}"),
        _ => panic!("no plan"),
    }
    match go(Some("/outer"), Some("search"), &["--project", "/inner", "x"]) {
        Ok(Plan::Call { tool, dispatch, raw_json, .. }) => {
            assert_eq!(tool, 0);
            assert!(!raw_json);
            assert!(matches!(dispatch.place, Place::Project(p) if p == "/outer"));
            assert!(!dispatch.allow_init);
        }
        _ => panic!("no plan"),
    }
    match go(None, Some("fact-store"), &["--project", "/inner"]) {
        Ok(Plan::Call { dispatch, .. }) => {
            assert!(matches!(dispatch.place, Place::Project(p) if p == "/inner"));
            assert!(dispatch.allow_init);
        }
        _ => panic!("no plan"),
    }
    match go(Some("/p"), Some("lcm_grep"), &["--args", r#"{"storage_scope":"hermes_profile"}"#]) {
        Ok(Plan::Call { dispatch, .. }) => {
            assert!(matches!(dispatch.place, Place::Profile));
            assert!(dispatch.allow_profile_scoped_fallback);
        }
        _ => panic!("no plan"),
    }
}

#[test]
fn dispatch_and_fallback() {
    assert!(is_profile_scoped_lcm_dispatch(
        "tracedecay_lcm_status",
        &json(r#"{"storage_scope":"hermes_profile"}"#)
    ));
    assert!(!is_profile_scoped_lcm_dispatch(
        "tracedecay_search",
        &json(r#"{"storage_scope":"hermes_profile"}"#)
    ));
    assert!(!is_profile_scoped_lcm_dispatch("tracedecay_lcm_status", &json("{}")));
    let gone = || CallError::Config("TraceDecay daemon socket /x is not available".to_string());
    let other = || CallError::Config("is not available".to_string());
    assert!(is_daemon_unavailable(&gone()));
    assert!(!is_daemon_unavailable(&other()));
    assert!(!is_daemon_unavailable(&CallError::Other(
        "TraceDecay daemon socket is not available".to_string()
    )));
    let on_project = DaemonToolDispatch::project_scoped(None, "tracedecay_fact_store");
    assert!(!on_project.allow_init);
    assert!(matches!(on_project.place, Place::NearestProject));
    let on_profile = DaemonToolDispatch::profile_scoped();
    assert!(matches!(after_call(&on_project, Ok(json("1"))), CallStep::Print(_)));
    assert!(matches!(after_call(&on_project, Err(other())), CallStep::Fail(_)));
    assert!(matches!(after_call(&on_profile, Err(gone())), CallStep::RunForProfile));
    assert!(matches!(after_call(&on_project, Err(gone())), CallStep::FindProject(_)));
    assert!(matches!(after_search(gone(), Ok(true)), CallStep::RunOnProject));
    match after_search(gone(), Ok(false)) {
        CallStep::Fail(CallError::Config(m)) => assert!(m.contains("daemon socket")),
        _ => panic!("no failure"),
    }
    match after_search(gone(), Err(other())) {
        CallStep::Fail(CallError::Config(m)) => assert_eq!(m, "is not available"),
        _ => panic!("no failure"),
    }
    assert!(matches!(after_run(Ok(json("1"))), CallStep::Print(_)));
    assert!(matches!(after_run(Err(other())), CallStep::Fail(_)));
    assert!(makes_store(true, false) && !makes_store(true, true) && !makes_store(false, false));
    assert!(matches!(project_required(), CallError::Config(_)));
}

#[test]
fn results_are_printed_block_by_block() {
    let result = json(
        r#"{"content":[{"text":"notice"},{"text":""},{"image":1},{"text":"payload"}]}"#,
    );
    assert_eq!(join_content_text(&result), "notice\n\npayload");
    assert_eq!(join_content_text(&json("{}")), "");
    assert_eq!(tool_output(&json(r#"{"a":1}"#), true), "{\n  \"a\": 1\n}");
    assert_eq!(tool_output(&result, false), "notice\n\npayload");
    assert_eq!(write_json_pretty(&json("[]")), "[]");
}

#[test]
fn groups_and_lines_of_the_list() {
    for (name, group) in [
        ("tracedecay_branch_list", "git & history"),
        ("tracedecay_affected", "git & history"),
        ("tracedecay_insert_at", "edit"),
        ("tracedecay_session_end", "memory & session"),
        ("tracedecay_gini", "health"),
        ("tracedecay_similar", "graph"),
        ("tracedecay_diagnose", "workflow"),
        ("tracedecay_god_class", "analysis"),
        ("tracedecay_search", "other"),
    ] {
        assert_eq!(group_for(&def(name, "{}")), group);
    }
    assert_eq!(first_line("one\r\ntwo"), "one");
    assert_eq!(first_line(""), "");
    assert_eq!(first_line(&"x".repeat(90)), "x".repeat(90));
    assert_eq!(first_line(&"x".repeat(91)), format!("{}…", "x".repeat(89)));
    assert_eq!(
        first_line(&format!("{}{}", "x".repeat(88), "é".repeat(5))),
        format!("{}…", "x".repeat(88))
    );
    assert_eq!(first_line(&"é".repeat(45)), "é".repeat(45));
    assert_eq!(first_line(&"é".repeat(46)), format!("{}…", "é".repeat(44)));
    assert_eq!(first_line(&format!("x{}", "é".repeat(45))), format!("x{}…", "é".repeat(44)));
    assert_eq!(first_line(&"𝄞".repeat(23)), format!("{}…", "𝄞".repeat(22)));
}

#[test]
fn the_list_of_tools() {
    let mut pinned = def("tracedecay_search", "{}");
    pinned.meta = Some(json(r#"{"anthropic/alwaysLoad":true}"#));
    let defs = vec![
        def("tracedecay_zeta", "{}"),
        pinned,
        def("tracedecay_alpha", "{}"),
        def("tracedecay_rank", "{}"),
    ];
    let list = render_tool_list(&defs, "FOOTER");
    let expected = [
        "Available tools — run `tracedecay tool <name> --help` for parameters, then\n",
        "invoke with `tracedecay tool <name> --args '<json>'` (the same JSON arguments\n",
        "object as the MCP tool; `--args -` reads a heredoc from stdin) or, for quick\n",
        "scalar calls, `--key value` flags.\n\n",
        "[always-loaded]\n",
        "  search                            Does a thing.\n",
        "\n",
        "[analysis]\n",
        "  rank                              Does a thing.\n",
        "\n",
        "[other]\n",
        "  alpha                             Does a thing.\n",
        "  zeta                              Does a thing.\n",
        "\n",
        "FOOTER\n",
    ]
    .concat();
    assert_eq!(list, expected);
}
