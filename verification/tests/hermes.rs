use std::collections::HashMap;
use std::path::PathBuf;
use tracedecay::migrate::hermes::candidates::{find_profile, legacy_profile_dirs, legacy_store_candidates, ScannedStore, StoreOwner};
use tracedecay::migrate::hermes::copy::{copied_table, copy_plan, is_raw_table, raw_plan, remap_store_id_columns, remap_summary_source, transform_row, CopyEvent, CopyPlan, CopyStep, RawCopy, RawEvent, RawPlan, RawRow, RawStep, TableCopy, TABLE_COUNT};
use tracedecay::migrate::hermes::fingerprint::{content_hash, Fingerprint};
use tracedecay::migrate::hermes::marker::{marker_path, marker_temp_name, read_migration_marker, write_marker_step, MarkerEvent, MarkerRead, MarkerStep, MigrationMarker};
use tracedecay::migrate::hermes::merge::{fail_after, Merge, MergeEvent, MergeOutcome, MergeStage};
use tracedecay::migrate::hermes::paths::{is_path_before, path_starts_with, paths_equal};
use tracedecay::migrate::hermes::payload::{PayloadCopy, PayloadEvent, PayloadStep};
use tracedecay::migrate::hermes::report::{CandidateError, CandidateOutcome, LegacyHermesMigration, LegacyHermesMigrationReport};
use tracedecay::migrate::hermes::scan::{FingerprintScan, ScanEvent, ScanStep};
use tracedecay::migrate::hermes::snapshot::{migrate_candidate_step, SnapshotEvent, SnapshotStage};
use tracedecay::migrate::hermes::source::{is_production_profile, real_project_root, resolve_target_project, session_paths, source_lcm_schema_version, table_columns, target_from_pin, target_from_roots, verify_source, FirstCell, ProjectRow, RootFacts};
use tracedecay::migrate::hermes::sql::{insert_sql, placeholders, project_query, quote_identifier, raw_insert_sql, raw_select_sql, select_sql, table_info_sql, SqlValue};

fn path(p: &str) -> PathBuf {
    PathBuf::from(p)
}

fn names(list: &[&str]) -> Vec<String> {
    list.iter().map(|s| s.to_string()).collect()
}

fn facts(p: &str) -> RootFacts {
    RootFacts {
        is_absolute: true,
        is_dir: true,
        canonical: Some(path(p)),
        git_root: None,
        has_database: true,
    }
}

#[test]
fn paths_are_compared_by_component() {
    assert!(paths_equal(&path("/a//b/./c"), &path("/a/b/c")));
    assert!(!paths_equal(&path("/a/b"), &path("/a")));
    assert!(path_starts_with(&path("/a/b/c"), &path("/a/b")));
    assert!(!path_starts_with(&path("/a/bc"), &path("/a/b")));
    for (a, b) in [("/a/b", "/a.b"), ("/a", "/a/b"), ("/b", "/a"), ("x", "/x"), ("/a/..", "/a/!")] {
        assert_eq!(is_path_before(&path(a), &path(b)), path(a) < path(b));
        assert_eq!(is_path_before(&path(b), &path(a)), path(b) < path(a));
    }
}

#[test]
fn standard_scan_never_consults_hermes_home_environment() {
    let standard = path("/t/home/.hermes");
    let redirected = path("/t/redirected");
    let profiles = legacy_profile_dirs(
        standard.clone(),
        Some(vec![
            (standard.join("profiles/beta"), true),
            (standard.join("profiles/alpha"), true),
            (standard.join("profiles/link"), false),
        ]),
    );
    assert_eq!(
        profiles,
        vec![
            standard.clone(),
            standard.join("profiles/alpha"),
            standard.join("profiles/beta")
        ]
    );
    assert!(!profiles.contains(&redirected));
    assert_eq!(legacy_profile_dirs(standard.clone(), None), vec![standard]);
}

#[test]
fn candidates_are_sorted_and_neighbours_deduplicated() {
    let store = |p: &str, canonical: &str, is_file: bool| ScannedStore {
        source_db: path(p),
        is_file,
        owner: StoreOwner { profile_dir: path("/h"), canonical: path(canonical) },
    };
    let found = legacy_store_candidates(vec![
        store("/z/sessions.db", "/z/sessions.db", true),
        store("/b/link.db", "/a/sessions.db", true),
        store("/a/sessions.db", "/a/sessions.db", true),
        store("/c/absent.db", "/c/absent.db", false),
    ]);
    let paths: Vec<PathBuf> = found.into_iter().map(|c| c.0).collect();
    assert_eq!(paths, vec![path("/a/sessions.db"), path("/z/sessions.db")]);
    assert_eq!(find_profile(&vec![path("/h"), path("/h/p")], &path("/h/p/")), Some(1));
    assert_eq!(find_profile(&vec![path("/h")], &path("/other")), None);
}

#[test]
fn hermes_profile_path_is_never_a_migration_target() {
    let home = path("/home/u");
    let hermes = path("/home/u/.hermes");
    assert_eq!(real_project_root(facts("/home/u/.hermes"), &home, &hermes), None);
    assert_eq!(real_project_root(facts("/home/u/.hermes/profiles/x"), &home, &hermes), None);
    assert_eq!(real_project_root(facts("/home/u"), &home, &hermes), None);
    assert_eq!(
        real_project_root(facts("/home/u/project"), &home, &hermes),
        Some(path("/home/u/project"))
    );
    let mut f = facts("/home/u/project/sub");
    f.git_root = Some(path("/home/u/project"));
    assert_eq!(real_project_root(f, &home, &hermes), Some(path("/home/u/project")));
    let mut f = facts("/home/u/plain");
    f.has_database = false;
    assert_eq!(real_project_root(f, &home, &hermes), None);
    let mut f = facts("/home/u/project");
    f.is_absolute = false;
    assert_eq!(real_project_root(f, &home, &hermes), None);
    let mut f = facts("/home/u/project");
    f.canonical = None;
    assert_eq!(real_project_root(f, &home, &hermes), None);
    assert!(is_production_profile(&Some(path("/p")), &path("/p/")));
    assert!(!is_production_profile(&None, &path("/p")));
}

#[test]
fn ambiguous_metadata_is_preserved_and_reported() {
    let reason = target_from_roots(vec![path("/first"), path("/second"), path("/first")]).unwrap_err();
    assert!(reason.contains("ambiguous"));
    assert_eq!(
        reason,
        "source session metadata maps to 2 projects; refusing an ambiguous migration"
    );
    let mut report = LegacyHermesMigrationReport::default();
    report.record(path("/s.db"), Err(CandidateError::Unresolved(reason)));
    assert_eq!(report.unresolved.len(), 1, "{report:?}");
    assert!(report.unresolved[0].reason.contains("ambiguous"));
}

#[test]
fn one_unpinned_metadata_project_is_migrated() {
    let target = resolve_target_project(
        None,
        Ok(names(&["project_path"])),
        Ok(vec![Ok(vec![path("/project")]), Ok(vec![]), Ok(vec![path("/project/")])]),
    );
    assert_eq!(target, Ok(path("/project")));
}

#[test]
fn targets_that_cannot_be_resolved() {
    let none = || Ok(Vec::new());
    assert_eq!(
        resolve_target_project(Some(("/pin".to_string(), None)), none(), Ok(Vec::new())),
        Err("legacy project pin '/pin' is not a resolvable code project".to_string())
    );
    assert_eq!(
        resolve_target_project(
            Some(("/pin".to_string(), Some(path("/real")))),
            Err("unused".to_string()),
            Err("unused".to_string())
        ),
        Ok(path("/real"))
    );
    assert_eq!(
        resolve_target_project(None, Err("columns".to_string()), Ok(Vec::new())),
        Err("columns".to_string())
    );
    assert_eq!(
        resolve_target_project(None, none(), Ok(Vec::new())),
        Err("source has no sessions table and no legacy project pin".to_string())
    );
    assert_eq!(
        resolve_target_project(None, Ok(names(&["x"])), Err("io".to_string())),
        Err("could not read source project metadata: io".to_string())
    );
    assert_eq!(
        resolve_target_project(None, Ok(names(&["x"])), Ok(vec![Err("io".to_string())])),
        Err("could not read source project metadata row: io".to_string())
    );
    assert_eq!(
        resolve_target_project(None, Ok(names(&["x"])), Ok(vec![Ok(vec![])])),
        Err("no durable real project path exists in source session metadata".to_string())
    );
    assert_eq!(target_from_pin("/pin", Some(path("/r"))), Ok(path("/r")));
}

#[test]
fn paths_that_sessions_name() {
    let row = ProjectRow {
        project_path: Ok(Some("/a".to_string())),
        project_key: Err("bad".to_string()),
        metadata: Ok(Some(
            r#"{"project_root":"/e","cwd":"/c","hermes_session_cwd":"/b","worktree":4}"#.to_string(),
        )),
    };
    assert_eq!(session_paths(&row), vec!["/a", "/b", "/c", "/e"]);
    let row = ProjectRow {
        project_path: Ok(None),
        project_key: Ok(Some("/k".to_string())),
        metadata: Ok(Some("no json".to_string())),
    };
    assert_eq!(session_paths(&row), vec!["/k"]);
}

#[test]
fn sources_are_checked() {
    assert_eq!(verify_source(FirstCell::Cell("ok".to_string())), Ok(()));
    assert_eq!(
        verify_source(FirstCell::Cell("row 3 missing".to_string())),
        Err("source quick_check reported: row 3 missing".to_string())
    );
    assert_eq!(
        verify_source(FirstCell::NoRow),
        Err("source quick_check reported: ".to_string())
    );
    assert_eq!(
        verify_source(FirstCell::QueryFailed("e".to_string())),
        Err("source quick_check failed: e".to_string())
    );
    assert_eq!(
        verify_source(FirstCell::ReadFailed("e".to_string())),
        Err("source quick_check could not be read: e".to_string())
    );
    assert_eq!(source_lcm_schema_version(false, FirstCell::Cell(9)), Ok(0));
    assert_eq!(source_lcm_schema_version(true, FirstCell::Cell(9)), Ok(9));
    assert_eq!(source_lcm_schema_version(true, FirstCell::NoRow), Ok(0));
    assert_eq!(
        source_lcm_schema_version(true, FirstCell::BadCell("e".to_string())),
        Err("invalid source schema version: e".to_string())
    );
    assert_eq!(
        source_lcm_schema_version(true, FirstCell::QueryFailed("e".to_string())),
        Err("could not inspect source schema: e".to_string())
    );
    assert_eq!(
        source_lcm_schema_version(true, FirstCell::ReadFailed("e".to_string())),
        Err("could not read source schema: e".to_string())
    );
}

#[test]
fn columns_of_tables() {
    assert_eq!(
        table_columns("t", Ok(vec![Ok(Ok("a".to_string())), Ok(Ok("b".to_string()))])),
        Ok(names(&["a", "b"]))
    );
    assert_eq!(
        table_columns("t", Err("e".to_string())),
        Err("could not inspect table t: e".to_string())
    );
    assert_eq!(
        table_columns("t", Ok(vec![Ok(Ok("a".to_string())), Err("e".to_string())])),
        Err("could not read table t columns: e".to_string())
    );
    assert_eq!(
        table_columns("t", Ok(vec![Ok(Err("e".to_string())), Err("later".to_string())])),
        Err("invalid table t column: e".to_string())
    );
}

#[test]
fn statements() {
    assert_eq!(quote_identifier("a\"b"), "\"a\"\"b\"");
    assert_eq!(quote_identifier(""), "\"\"");
    assert_eq!(placeholders(3), "?1, ?2, ?3");
    assert_eq!(placeholders(11), "?1, ?2, ?3, ?4, ?5, ?6, ?7, ?8, ?9, ?10, ?11");
    assert_eq!(table_info_sql("t"), "PRAGMA table_info(\"t\")");
    let columns = names(&["a", "b"]);
    assert_eq!(select_sql(&columns, "t"), "SELECT \"a\", \"b\" FROM \"t\" ORDER BY rowid");
    assert_eq!(
        insert_sql(&columns, "t"),
        "INSERT OR IGNORE INTO \"t\" (\"a\", \"b\") VALUES (?1, ?2)"
    );
    assert_eq!(
        raw_select_sql(&columns),
        "SELECT store_id, \"a\", \"b\" FROM lcm_raw_messages ORDER BY store_id"
    );
    assert_eq!(
        raw_insert_sql(&columns),
        "INSERT OR IGNORE INTO lcm_raw_messages (\"a\", \"b\") VALUES (?1, ?2)"
    );
    assert_eq!(
        project_query(&names(&["project_key"])),
        "SELECT NULL, project_key, NULL FROM sessions"
    );
    assert_eq!(
        project_query(&names(&["metadata_json", "project_path", "project_key"])),
        "SELECT project_path, project_key, metadata_json FROM sessions"
    );
}

#[test]
fn hashes_are_those_of_sha256() {
    assert_eq!(
        content_hash(&b"abc".to_vec()),
        "ba7816bf8f01cfea414140de5dae2223b00361a396177a9cb410ff61f20015ad"
    );
    assert_eq!(
        content_hash(&Vec::new()),
        "e3b0c44298fc1c149afbf4c8996fb92427ae41e4649b934ca495991b7852b855"
    );
}

#[test]
fn fingerprints_cover_path_tables_and_rows() {
    let bytes = {
        let mut b: Vec<u8> = Vec::new();
        b.extend_from_slice(b"tracedecay-hermes-legacy-session-store-v1\0");
        b.extend_from_slice(b"/s.db");
        b.extend_from_slice(b"\0table\0sessions\0column\0a\0column\0b");
        b.extend_from_slice(b"\0row\0n");
        b.extend_from_slice(b"i");
        b.extend_from_slice(&(-2i64).to_le_bytes());
        b.extend_from_slice(b"\0row\0r");
        b.extend_from_slice(&1.5f64.to_bits().to_le_bytes());
        b.extend_from_slice(b"t");
        b.extend_from_slice(&3u64.to_le_bytes());
        b.extend_from_slice("é!".as_bytes());
        b.extend_from_slice(b"\0row\0b");
        b.extend_from_slice(&2u64.to_le_bytes());
        b.extend_from_slice(&[9, 8]);
        b
    };
    let mut f = Fingerprint::new("/s.db");
    f.table("sessions", &names(&["a", "b"]));
    f.row(&vec![SqlValue::Null, SqlValue::Integer(-2)]);
    f.row(&vec![SqlValue::Real(1.5f64.to_bits()), SqlValue::Text("é!".to_string())]);
    f.table("absent", &Vec::new());
    f.row(&vec![SqlValue::Blob(vec![9, 8])]);
    let text = f.finish();
    assert_eq!(text, content_hash(&bytes));
    assert_eq!(text.len(), 64);
    assert!(marker_path(&text, true).is_ok());
}

#[test]
fn markers() {
    let fp = "ab".repeat(32);
    assert_eq!(
        marker_path(&fp, true),
        Ok(format!("migration-ledger/hermes-legacy/{fp}.json"))
    );
    assert_eq!(
        marker_path(&fp, false),
        Err("target session DB has no parent directory".to_string())
    );
    for bad in ["abc".to_string(), "g".repeat(64), format!("{}é", "a".repeat(62))] {
        assert_eq!(marker_path(&bad, true), Err("invalid legacy-store fingerprint".to_string()));
    }
    assert_eq!(marker_temp_name("f", 42), ".f.42.tmp");
    let marker = || MigrationMarker::new(&fp, path("/s"), path("/t"), 3, 17);
    let read = read_migration_marker(MarkerRead::Marker(marker()), "/m", &fp).unwrap().unwrap();
    assert_eq!(read.rows_copied, 17);
    assert_eq!(read.schema_version, 1);
    assert_eq!(
        read_migration_marker(MarkerRead::Marker(marker()), "/m", "other").unwrap_err(),
        "migration marker '/m' has an unsupported identity"
    );
    let mut newer = marker();
    newer.schema_version = 2;
    assert!(read_migration_marker(MarkerRead::Marker(newer), "/m", &fp).is_err());
    assert!(read_migration_marker(MarkerRead::NotFound, "/m", &fp).unwrap().is_none());
    assert_eq!(
        read_migration_marker(MarkerRead::ReadFailed("e".to_string()), "/m", &fp).unwrap_err(),
        "could not read migration marker '/m': e"
    );
    assert_eq!(
        read_migration_marker(MarkerRead::Invalid("e".to_string()), "/m", &fp).unwrap_err(),
        "migration marker '/m' is invalid: e"
    );
}

#[test]
fn markers_are_written_step_by_step() {
    let e = || Err("e".to_string());
    let fails = |event: MarkerEvent| match write_marker_step(event) {
        MarkerStep::Fail(m) => m,
        _ => panic!("no failure"),
    };
    let fails_and_removes = |event: MarkerEvent| match write_marker_step(event) {
        MarkerStep::RemoveTempAndFail(m) => m,
        _ => panic!("no failure"),
    };
    assert!(matches!(write_marker_step(MarkerEvent::DirMade(Ok(()))), MarkerStep::InspectDir));
    assert!(matches!(write_marker_step(MarkerEvent::DirInspected(Ok(true))), MarkerStep::CheckPath));
    assert!(matches!(write_marker_step(MarkerEvent::PathChecked(true)), MarkerStep::ReadExisting));
    assert!(matches!(write_marker_step(MarkerEvent::ExistingRead(Ok(()))), MarkerStep::Done));
    assert!(matches!(write_marker_step(MarkerEvent::PathChecked(false)), MarkerStep::Encode));
    assert!(matches!(write_marker_step(MarkerEvent::Encoded(Ok(()))), MarkerStep::MakeTemp));
    assert!(matches!(write_marker_step(MarkerEvent::TempMade(Ok(()))), MarkerStep::Persist));
    assert!(matches!(write_marker_step(MarkerEvent::Persisted(Ok(()))), MarkerStep::Link));
    assert!(matches!(write_marker_step(MarkerEvent::Linked), MarkerStep::RemoveTemp));
    assert!(matches!(write_marker_step(MarkerEvent::LinkTaken), MarkerStep::ReadTaken));
    assert!(matches!(write_marker_step(MarkerEvent::TakenRead(Ok(()))), MarkerStep::RemoveTemp));
    assert!(matches!(write_marker_step(MarkerEvent::TempRemoved), MarkerStep::SyncDir));
    assert!(matches!(write_marker_step(MarkerEvent::DirSynced(Ok(()))), MarkerStep::Done));
    assert_eq!(fails(MarkerEvent::DirMade(e())), "could not create migration ledger directory: e");
    assert_eq!(
        fails(MarkerEvent::DirInspected(Ok(false))),
        "migration ledger path is not a regular directory"
    );
    assert_eq!(
        fails(MarkerEvent::DirInspected(Err("e".to_string()))),
        "could not inspect migration ledger directory: e"
    );
    assert_eq!(fails(MarkerEvent::ExistingRead(e())), "e");
    assert_eq!(fails(MarkerEvent::Encoded(e())), "could not encode migration marker: e");
    assert_eq!(fails(MarkerEvent::TempMade(e())), "could not create migration marker: e");
    assert_eq!(fails(MarkerEvent::TakenRead(e())), "e");
    assert_eq!(fails(MarkerEvent::DirSynced(e())), "could not sync migration ledger directory: e");
    assert_eq!(
        fails_and_removes(MarkerEvent::Persisted(e())),
        "could not persist migration marker: e"
    );
    assert_eq!(
        fails_and_removes(MarkerEvent::LinkFailed("e".to_string())),
        "could not publish migration marker: e"
    );
}

#[test]
fn tables_are_copied_over_shared_columns() {
    let none: Vec<String> = Vec::new();
    assert!(matches!(copy_plan("t", &none, &none, &none), Ok(CopyPlan::Nothing)));
    assert_eq!(
        copy_plan("t", &names(&["a"]), &none, &none).err().unwrap(),
        "target is missing required table t"
    );
    assert!(matches!(
        copy_plan("t", &names(&["a"]), &names(&["b"]), &none),
        Ok(CopyPlan::Nothing)
    ));
    match copy_plan("t", &names(&["c", "a", "old"]), &names(&["a", "b", "c"]), &none) {
        Ok(CopyPlan::Copy { columns, select, insert }) => {
            assert_eq!(columns, names(&["c", "a"]));
            assert_eq!(select, "SELECT \"c\", \"a\" FROM \"t\" ORDER BY rowid");
            assert_eq!(insert, "INSERT OR IGNORE INTO \"t\" (\"c\", \"a\") VALUES (?1, ?2)");
        }
        _ => panic!("no plan"),
    }
    match copy_plan("t", &names(&["c", "a"]), &names(&["a", "c"]), &names(&["c"])) {
        Ok(CopyPlan::Copy { columns, .. }) => assert_eq!(columns, names(&["a"])),
        _ => panic!("no plan"),
    }
}

fn text(s: &str) -> SqlValue {
    SqlValue::Text(s.to_string())
}

fn shown(v: &[SqlValue]) -> String {
    format!("{v:?}")
}

#[test]
fn rows_are_transformed_by_table() {
    let mut ids = HashMap::new();
    ids.insert(5, 50);
    let columns = names(&["session_id", "project_path", "project_key"]);
    let row = transform_row(
        "sessions",
        &columns,
        vec![text("s"), text("/old"), SqlValue::Null],
        "/new",
        &ids,
    );
    assert_eq!(shown(&row.unwrap()), shown(&[text("s"), text("/new"), text("/new")]));
    let row = transform_row("session_messages", &columns, vec![text("s"), text("/old"), SqlValue::Null], "/new", &ids);
    assert_eq!(shown(&row.unwrap()), shown(&[text("s"), text("/old"), SqlValue::Null]));
    let frontier = names(&["current_frontier_store_id", "last_finalized_frontier_store_id", "n"]);
    let row = transform_row(
        "lcm_lifecycle_state",
        &frontier,
        vec![SqlValue::Integer(5), SqlValue::Null, SqlValue::Integer(5)],
        "/new",
        &ids,
    );
    assert_eq!(
        shown(&row.unwrap()),
        shown(&[SqlValue::Integer(50), SqlValue::Null, SqlValue::Integer(5)])
    );
    let debt = names(&["from_store_id", "to_store_id"]);
    let row = transform_row(
        "lcm_maintenance_debt",
        &debt,
        vec![SqlValue::Integer(5), SqlValue::Integer(6)],
        "/new",
        &ids,
    );
    assert_eq!(row.unwrap_err(), "referenced raw store_id 6 was not copied");
    let sources = names(&["source_kind", "source_id"]);
    let row = transform_row("lcm_summary_sources", &sources, vec![text("raw_message"), text("5")], "", &ids);
    assert_eq!(shown(&row.unwrap()), shown(&[text("raw_message"), text("50")]));
}

#[test]
fn summary_sources_that_cannot_be_renumbered() {
    let mut ids = HashMap::new();
    ids.insert(5, 50);
    let columns = names(&["source_kind", "source_id"]);
    let remap = |columns: &Vec<String>, values: Vec<SqlValue>| {
        let mut values = values;
        remap_summary_source(columns, &mut values, &ids).map(|_| shown(&values))
    };
    assert_eq!(
        remap(&columns, vec![text("summary"), text("x")]),
        Ok(shown(&[text("summary"), text("x")]))
    );
    assert_eq!(
        remap(&columns, vec![text("raw_message"), SqlValue::Integer(5)]),
        Err("raw summary source has a non-text source_id".to_string())
    );
    assert_eq!(
        remap(&columns, vec![text("raw_message"), text("five")]),
        Err("raw summary source has an invalid store_id".to_string())
    );
    assert_eq!(
        remap(&columns, vec![text("raw_message"), text("-6")]),
        Err("raw summary source -6 was not copied".to_string())
    );
    assert_eq!(
        remap(&names(&["source_id"]), vec![text("5")]),
        Err("summary source has no source_kind".to_string())
    );
    assert_eq!(
        remap(&names(&["source_kind"]), vec![text("raw_message")]),
        Err("summary source has no source_id".to_string())
    );
    let mut values = vec![SqlValue::Integer(5), text("5")];
    remap_store_id_columns(&names(&["a", "b"]), &mut values, &ids, &names(&["a", "b"])).unwrap();
    assert_eq!(shown(&values), shown(&[SqlValue::Integer(50), text("5")]));
}

#[test]
fn a_table_is_copied_row_by_row() {
    let ids = HashMap::new();
    let mut copy = TableCopy {
        table: "sessions".to_string(),
        columns: names(&["project_path"]),
        project: "/p".to_string(),
        ids: &ids,
        inserted: 0,
    };
    assert!(matches!(copy.step(CopyEvent::Opened), CopyStep::Fetch));
    match copy.step(CopyEvent::Row(vec![Ok(text("/old"))])) {
        CopyStep::Insert(values) => assert_eq!(shown(&values), shown(&[text("/p")])),
        _ => panic!("no row"),
    }
    assert!(matches!(copy.step(CopyEvent::Inserted(1)), CopyStep::Fetch));
    assert!(matches!(copy.step(CopyEvent::Inserted(2)), CopyStep::Fetch));
    assert!(matches!(copy.step(CopyEvent::End), CopyStep::Done(3)));
    let mut message = |event: CopyEvent| match copy.step(event) {
        CopyStep::Fail(m) => m,
        _ => panic!("no failure"),
    };
    assert_eq!(
        message(CopyEvent::OpenFailed("e".to_string())),
        "could not read source table sessions: e"
    );
    assert_eq!(
        message(CopyEvent::RowFailed("e".to_string())),
        "could not read source row from sessions: e"
    );
    assert_eq!(
        message(CopyEvent::Row(vec![Err("e".to_string())])),
        "could not decode source row from sessions: e"
    );
    assert_eq!(
        message(CopyEvent::InsertFailed("e".to_string())),
        "could not copy source row into sessions: e"
    );
}

#[test]
fn raw_messages_are_renumbered() {
    let none: Vec<String> = Vec::new();
    assert!(matches!(raw_plan(&none, &none), Ok(RawPlan::Nothing)));
    assert_eq!(
        raw_plan(&names(&["provider"]), &none).err().unwrap(),
        "source lcm_raw_messages has no store_id"
    );
    assert_eq!(
        raw_plan(&names(&["store_id", "message_id"]), &names(&["message_id"])).err().unwrap(),
        "source raw messages have no provider"
    );
    assert_eq!(
        raw_plan(&names(&["store_id", "provider"]), &names(&["provider"])).err().unwrap(),
        "source raw messages have no message_id"
    );
    let columns = names(&["store_id", "message_id", "provider", "old"]);
    match raw_plan(&columns, &names(&["store_id", "provider", "message_id"])) {
        Ok(RawPlan::Copy { columns, provider, message_id, .. }) => {
            assert_eq!(columns, names(&["message_id", "provider"]));
            assert_eq!((provider, message_id), (1, 0));
        }
        _ => panic!("no plan"),
    }
    let row = || RawRow {
        store_id: Ok(5),
        provider: Ok("p".to_string()),
        message_id: Ok("m".to_string()),
        cells: vec![Ok(text("m")), Ok(text("p"))],
    };
    let mut copy = RawCopy::new();
    match copy.step(RawEvent::Row(row())) {
        RawStep::Insert(m) => {
            assert_eq!((m.store_id, m.provider.as_str(), m.message_id.as_str()), (5, "p", "m"));
            assert_eq!(m.values.len(), 2);
        }
        _ => panic!("no message"),
    }
    match copy.step(RawEvent::Inserted(1)) {
        RawStep::FindNumber { provider, message_id } => {
            assert_eq!((provider.as_str(), message_id.as_str()), ("p", "m"));
        }
        _ => panic!("no question"),
    }
    assert!(copy.ids.is_empty());
    assert!(matches!(copy.step(RawEvent::Numbered(FirstCell::Cell(50))), RawStep::Fetch));
    assert!(matches!(copy.step(RawEvent::End), RawStep::Done(1)));
    assert_eq!(copy.ids.len(), 1);
    assert_eq!(copy.ids.get(&5), Some(&50));
    let mut message = |event: RawEvent| match copy.step(event) {
        RawStep::Fail(m) => m,
        _ => panic!("no failure"),
    };
    let e = || "e".to_string();
    assert_eq!(message(RawEvent::OpenFailed(e())), "could not read source raw messages: e");
    assert_eq!(message(RawEvent::RowFailed(e())), "could not read source raw message: e");
    let mut bad = row();
    bad.store_id = Err(e());
    assert_eq!(message(RawEvent::Row(bad)), "invalid source raw store_id: e");
    let mut bad = row();
    bad.provider = Err(e());
    assert_eq!(message(RawEvent::Row(bad)), "invalid source raw provider: e");
    let mut bad = row();
    bad.message_id = Err(e());
    assert_eq!(message(RawEvent::Row(bad)), "invalid source raw message_id: e");
    let mut bad = row();
    bad.cells = vec![Err(e())];
    assert_eq!(message(RawEvent::Row(bad)), "could not decode source raw message: e");
    let mut next = row();
    next.store_id = Ok(6);
    assert!(matches!(copy.step(RawEvent::Row(next)), RawStep::Insert(_)));
    let mut message = |event: RawEvent| match copy.step(event) {
        RawStep::Fail(m) => m,
        _ => panic!("no failure"),
    };
    assert_eq!(message(RawEvent::InsertFailed(e())), "could not copy source raw message: e");
    assert_eq!(
        message(RawEvent::Numbered(FirstCell::NoRow)),
        "copied raw message is absent from target"
    );
    assert_eq!(
        message(RawEvent::Numbered(FirstCell::QueryFailed(e()))),
        "could not resolve target raw store_id: e"
    );
    assert_eq!(
        message(RawEvent::Numbered(FirstCell::ReadFailed(e()))),
        "could not read target raw store_id: e"
    );
    assert_eq!(
        message(RawEvent::Numbered(FirstCell::BadCell(e()))),
        "invalid target raw store_id: e"
    );
    assert!(copy.ids.get(&6).is_none());
}

#[test]
fn a_store_is_fingerprinted_table_by_table() {
    let (mut scan, first) = FingerprintScan::new("/s.db");
    assert!(matches!(first, ScanStep::Inspect("sessions")));
    match scan.step(ScanEvent::Columns(Ok(names(&["a"])))) {
        ScanStep::Read(sql) => assert_eq!(sql, "SELECT \"a\" FROM \"sessions\" ORDER BY rowid"),
        _ => panic!("nothing to read"),
    }
    assert!(matches!(scan.step(ScanEvent::Opened), ScanStep::Fetch));
    let row = vec![Ok(SqlValue::Integer(7))];
    assert!(matches!(scan.step(ScanEvent::Row(row)), ScanStep::Fetch));
    assert!(matches!(scan.step(ScanEvent::End), ScanStep::Inspect("session_messages")));
    let fail = |scan: &mut FingerprintScan, event: ScanEvent| match scan.step(event) {
        ScanStep::Fail(e) => e,
        _ => panic!("no failure"),
    };
    let e = || "e".to_string();
    assert_eq!(fail(&mut scan, ScanEvent::Columns(Err(e()))), "e");
    assert_eq!(
        fail(&mut scan, ScanEvent::OpenFailed(e())),
        "could not fingerprint source table session_messages: e"
    );
    assert_eq!(
        fail(&mut scan, ScanEvent::RowFailed(e())),
        "could not fingerprint source row in session_messages: e"
    );
    assert_eq!(
        fail(&mut scan, ScanEvent::Row(vec![Err(e())])),
        "could not fingerprint source value in session_messages: e"
    );
    for _ in 2..TABLE_COUNT {
        assert!(matches!(scan.step(ScanEvent::Columns(Ok(Vec::new()))), ScanStep::Inspect(_)));
    }
    let mut expected = Fingerprint::new("/s.db");
    expected.table("sessions", &names(&["a"]));
    expected.row(&vec![SqlValue::Integer(7)]);
    match scan.step(ScanEvent::Columns(Ok(Vec::new()))) {
        ScanStep::Done(text) => assert_eq!(text, expected.finish()),
        _ => panic!("not done"),
    }
    assert!(is_raw_table(3) && !is_raw_table(0));
}

#[test]
fn reports_keep_the_order_of_the_stores() {
    let mut report = LegacyHermesMigrationReport::default();
    for name in ["/a", "/b", "/c"] {
        report.record(path(name), Err(CandidateError::Failed(name.to_string())));
        report.record(path(name), Err(CandidateError::Unresolved(name.to_string())));
    }
    let failed: Vec<String> = report.failed.iter().map(|issue| issue.reason.clone()).collect();
    assert_eq!(failed, names(&["/a", "/b", "/c"]));
    assert_eq!(report.unresolved[2].source_db, path("/c"));
    assert!(report.migrated.is_empty() && report.already_migrated.is_empty());
}

fn payload_row(hash: &str) -> PayloadEvent {
    PayloadEvent::Row {
        payload_ref: Ok("ref".to_string()),
        expected_hash: Ok(hash.to_string()),
        source_file: "/s/ref".to_string(),
        target_file: "/t/ref".to_string(),
    }
}

#[test]
fn payload_files_are_copied_once_and_checked() {
    let hash = content_hash(&b"data".to_vec());
    let mut copy = PayloadCopy::new();
    assert!(matches!(PayloadCopy::start(Ok(true), true, true), PayloadStep::Open));
    assert!(matches!(PayloadCopy::start(Ok(false), false, false), PayloadStep::Done));
    assert!(matches!(copy.step(PayloadEvent::Opened), PayloadStep::Fetch));
    assert!(matches!(copy.step(payload_row(&hash)), PayloadStep::CheckName));
    assert!(matches!(copy.step(PayloadEvent::NameChecked(Ok(()))), PayloadStep::InspectSource));
    assert!(matches!(copy.step(PayloadEvent::SourceInspected(Ok(true))), PayloadStep::ReadSource));
    assert!(matches!(
        copy.step(PayloadEvent::SourceRead(Ok(b"data".to_vec()))),
        PayloadStep::MakeDir
    ));
    assert!(matches!(copy.step(PayloadEvent::DirMade(Ok(()))), PayloadStep::InspectDir));
    assert!(matches!(copy.step(PayloadEvent::DirInspected(Ok(true))), PayloadStep::CheckTarget));
    assert!(matches!(copy.step(PayloadEvent::TargetChecked(false)), PayloadStep::MakeTarget));
    match copy.step(PayloadEvent::TargetMade(Ok(path("/t/ref")))) {
        PayloadStep::WriteTarget(bytes) => assert_eq!(bytes, b"data".to_vec()),
        _ => panic!("no bytes"),
    }
    assert_eq!(copy.created(), &vec![path("/t/ref")]);
    assert!(matches!(copy.step(PayloadEvent::TargetWritten(Ok(()))), PayloadStep::Fetch));
    copy.step(payload_row(&hash));
    assert!(matches!(copy.step(PayloadEvent::TargetChecked(true)), PayloadStep::ReadTarget));
    assert!(matches!(
        copy.step(PayloadEvent::TargetRead(Ok(b"data".to_vec()))),
        PayloadStep::Fetch
    ));
    assert!(matches!(copy.step(PayloadEvent::End), PayloadStep::Done));
    assert_eq!(copy.created().len(), 1);
}

#[test]
fn payload_failures() {
    let fail = |step: PayloadStep| match step {
        PayloadStep::Fail(m) => m,
        _ => panic!("no failure"),
    };
    let e = || "e".to_string();
    assert_eq!(fail(PayloadCopy::start(Err(e()), true, true)), "e");
    assert_eq!(
        fail(PayloadCopy::start(Ok(true), false, true)),
        "source session DB has no parent directory"
    );
    assert_eq!(
        fail(PayloadCopy::start(Ok(true), true, false)),
        "target session DB has no parent directory"
    );
    let mut copy = PayloadCopy::new();
    assert_eq!(
        fail(copy.step(PayloadEvent::OpenFailed(e()))),
        "could not inspect source payloads: e"
    );
    assert_eq!(
        fail(copy.step(PayloadEvent::RowFailed(e()))),
        "could not read source payload: e"
    );
    assert_eq!(
        fail(copy.step(PayloadEvent::Row {
            payload_ref: Err(e()),
            expected_hash: Ok(e()),
            source_file: e(),
            target_file: e(),
        })),
        "invalid source payload ref: e"
    );
    assert_eq!(
        fail(copy.step(PayloadEvent::Row {
            payload_ref: Ok(e()),
            expected_hash: Err(e()),
            source_file: e(),
            target_file: e(),
        })),
        "invalid source payload hash: e"
    );
    copy.step(payload_row("0000"));
    assert_eq!(
        fail(copy.step(PayloadEvent::NameChecked(Err(e())))),
        "unsafe source payload ref 'ref': e"
    );
    assert_eq!(
        fail(copy.step(PayloadEvent::SourceInspected(Err(e())))),
        "source payload '/s/ref' is unavailable: e"
    );
    assert_eq!(
        fail(copy.step(PayloadEvent::SourceInspected(Ok(false)))),
        "source payload '/s/ref' is not a regular file"
    );
    assert_eq!(
        fail(copy.step(PayloadEvent::SourceRead(Err(e())))),
        "could not read source payload '/s/ref': e"
    );
    assert_eq!(
        fail(copy.step(PayloadEvent::SourceRead(Ok(Vec::new())))),
        "source payload '/s/ref' failed its content hash"
    );
    assert_eq!(
        fail(copy.step(PayloadEvent::DirMade(Err(e())))),
        "could not create target payload directory: e"
    );
    assert_eq!(
        fail(copy.step(PayloadEvent::DirInspected(Err(e())))),
        "could not inspect target payload directory: e"
    );
    assert_eq!(
        fail(copy.step(PayloadEvent::DirInspected(Ok(false)))),
        "target payload directory is not a regular directory"
    );
    assert_eq!(
        fail(copy.step(PayloadEvent::TargetRead(Err(e())))),
        "could not read existing target payload: e"
    );
    assert_eq!(
        fail(copy.step(PayloadEvent::TargetRead(Ok(Vec::new())))),
        "target payload '/t/ref' conflicts with the legacy source"
    );
    assert_eq!(
        fail(copy.step(PayloadEvent::TargetWritten(Err(e())))),
        "could not persist target payload: e"
    );
    let hash = content_hash(&Vec::new());
    copy.step(payload_row(&hash));
    copy.step(PayloadEvent::SourceRead(Ok(Vec::new())));
    assert_eq!(
        fail(copy.step(PayloadEvent::TargetMade(Err(e())))),
        "could not create target payload: e"
    );
    assert!(copy.created().is_empty());
}

fn drive(merge: &mut Merge, tables: usize) {
    merge.step(MergeEvent::MarkerRead(Ok(None)));
    merge.step(MergeEvent::Begun(Ok(())));
    merge.step(MergeEvent::PayloadsCopied(Ok(()), vec![path("/t/1"), path("/t/2")]));
    for _ in 0..tables {
        merge.step(MergeEvent::TableCopied(Ok(3)));
    }
}

#[test]
fn migrates_standard_profile_store_once() {
    let mut merge = Merge::new(None);
    drive(&mut merge, TABLE_COUNT);
    assert!(matches!(merge.stage, MergeStage::Commit));
    merge.step(MergeEvent::Committed(Ok(())));
    assert!(matches!(merge.stage, MergeStage::WriteMarker));
    merge.step(MergeEvent::MarkerWritten(Ok(())));
    let outcome = MergeOutcome { already_migrated: false, rows_copied: 24 };
    assert!(matches!(merge.stage, MergeStage::Done(Ok(o)) if o == outcome));

    // With its marker the store is not copied again.
    let mut second = Merge::new(None);
    second.step(MergeEvent::MarkerRead(Ok(Some(24))));
    let again = MergeOutcome { already_migrated: true, rows_copied: 24 };
    assert!(matches!(second.stage, MergeStage::Done(Ok(o)) if o == again));
}

#[test]
fn injected_failure_rolls_back_and_retry_converges() {
    let mut merge = Merge::new(Some("sessions".to_string()));
    drive(&mut merge, 1);
    match &merge.stage {
        MergeStage::RollBack(e) => assert_eq!(e, "injected migration failure after sessions"),
        _ => panic!("no rollback"),
    }
    merge.step(MergeEvent::RolledBack);
    assert_eq!(merge.payloads_to_remove(), vec![path("/t/2"), path("/t/1")]);
    merge.step(MergeEvent::PayloadsRemoved);
    assert!(matches!(merge.stage, MergeStage::Done(Err(_))));
    let mut retry = Merge::new(None);
    drive(&mut retry, TABLE_COUNT);
    assert!(matches!(retry.stage, MergeStage::Commit));
    assert_eq!(fail_after("sessions", Some("other")), None);
    assert_eq!(fail_after("sessions", None), None);
}

#[test]
fn failed_merges() {
    let mut m = Merge::new(None);
    m.step(MergeEvent::MarkerRead(Err("bad marker".to_string())));
    assert!(matches!(&m.stage, MergeStage::Done(Err(e)) if e == "bad marker"));
    let mut m = Merge::new(None);
    m.step(MergeEvent::MarkerRead(Ok(None)));
    m.step(MergeEvent::Begun(Err("busy".to_string())));
    assert!(matches!(&m.stage, MergeStage::Done(Err(e)) if e == "could not begin target migration: busy"));
    let mut m = Merge::new(None);
    drive(&mut m, 2);
    m.step(MergeEvent::TableCopied(Err("row".to_string())));
    assert!(matches!(&m.stage, MergeStage::RollBack(e) if e == "row"));
    let mut m = Merge::new(None);
    drive(&mut m, TABLE_COUNT);
    m.step(MergeEvent::Committed(Err("full".to_string())));
    assert!(matches!(&m.stage, MergeStage::RollBack(e) if e == "could not commit target migration: full"));
    let mut m = Merge::new(None);
    drive(&mut m, TABLE_COUNT);
    m.step(MergeEvent::Committed(Ok(())));
    m.step(MergeEvent::MarkerWritten(Err("ledger".to_string())));
    assert!(matches!(&m.stage, MergeStage::Done(Err(e)) if e == "ledger"));
    assert_eq!(copied_table(0), "sessions");
    assert_eq!(copied_table(7), "lcm_maintenance_debt");
}

fn run_snapshot(events: Vec<SnapshotEvent>) -> SnapshotStage {
    let source = path("/s.db");
    let mut stage = SnapshotStage::OpenSource;
    for event in events {
        stage = migrate_candidate_step(stage, event, &source, 4);
    }
    stage
}

fn failure(stage: SnapshotStage) -> String {
    match stage {
        SnapshotStage::Done(Err(CandidateError::Failed(e))) => e,
        SnapshotStage::CloseSnapshot(Err(CandidateError::Failed(e))) => e,
        _ => panic!("no failure"),
    }
}

fn checked() -> Vec<SnapshotEvent> {
    vec![
        SnapshotEvent::SourceOpened(true),
        SnapshotEvent::SnapshotBegun(Ok(())),
        SnapshotEvent::SourceVerified(Ok(())),
        SnapshotEvent::VersionRead(Ok(4)),
        SnapshotEvent::TargetResolved(Ok(path("/p"))),
    ]
}

#[test]
fn future_source_schema_is_rejected_without_target_changes() {
    let mut events = checked();
    events.truncate(3);
    events.push(SnapshotEvent::VersionRead(Ok(5)));
    events.push(SnapshotEvent::SnapshotClosed(Ok(())));
    let mut report = LegacyHermesMigrationReport::default();
    match run_snapshot(events) {
        SnapshotStage::Done(result) => report.record(path("/s.db"), result),
        _ => panic!("not done"),
    }
    assert!(report.migrated.is_empty());
    assert_eq!(report.failed.len(), 1);
    assert!(report.failed[0].reason.contains("newer"));
    assert_eq!(
        report.failed[0].reason,
        "source LCM schema 5 is newer than supported schema 4"
    );
}

#[test]
fn a_store_is_migrated_stage_by_stage() {
    let mut events = checked();
    events.push(SnapshotEvent::LayoutResolved(Ok(false)));
    events.push(SnapshotEvent::Fingerprinted(Ok("f".to_string())));
    events.push(SnapshotEvent::TargetOpened(true));
    events.push(SnapshotEvent::Merged(Ok(MergeOutcome { already_migrated: false, rows_copied: 9 })));
    events.push(SnapshotEvent::SnapshotClosed(Ok(())));
    let mut report = LegacyHermesMigrationReport::default();
    match run_snapshot(events) {
        SnapshotStage::Done(result) => report.record(path("/s.db"), result),
        _ => panic!("not done"),
    }
    assert_eq!(
        report.migrated,
        vec![LegacyHermesMigration {
            source_db: path("/s.db"),
            target_project: path("/p"),
            rows_copied: 9,
        }]
    );
    report.record(
        path("/s.db"),
        Ok(CandidateOutcome::AlreadyMigrated(report.migrated[0].clone())),
    );
    report.record(path("/x.db"), Err(CandidateError::Failed("e".to_string())));
    assert_eq!((report.migrated.len(), report.already_migrated.len(), report.failed.len()), (1, 1, 1));
    let lost = LegacyHermesMigrationReport::without_profile(path("/h"));
    assert_eq!(lost.failed[0].reason, "could not resolve the TraceDecay user-profile store");
}

#[test]
fn migrations_that_fail() {
    assert_eq!(
        failure(run_snapshot(vec![SnapshotEvent::SourceOpened(false)])),
        "could not open source read-only"
    );
    assert_eq!(
        failure(run_snapshot(vec![
            SnapshotEvent::SourceOpened(true),
            SnapshotEvent::SnapshotBegun(Err("e".to_string())),
        ])),
        "could not snapshot source: e"
    );
    let mut events = checked();
    events.push(SnapshotEvent::LayoutResolved(Err("e".to_string())));
    assert_eq!(failure(run_snapshot(events)), "could not resolve target profile shard: e");
    let mut events = checked();
    events.push(SnapshotEvent::LayoutResolved(Ok(true)));
    assert_eq!(
        failure(run_snapshot(events)),
        "source and target session databases resolve to the same path"
    );
    let mut events = checked();
    events.push(SnapshotEvent::LayoutResolved(Ok(false)));
    events.push(SnapshotEvent::Fingerprinted(Ok("f".to_string())));
    events.push(SnapshotEvent::TargetOpened(false));
    assert_eq!(failure(run_snapshot(events)), "could not open target session store");
    let mut events = checked();
    events.push(SnapshotEvent::LayoutResolved(Ok(false)));
    events.push(SnapshotEvent::Fingerprinted(Ok("f".to_string())));
    events.push(SnapshotEvent::TargetOpened(true));
    events.push(SnapshotEvent::Merged(Ok(MergeOutcome { already_migrated: true, rows_copied: 9 })));
    events.push(SnapshotEvent::SnapshotClosed(Err("e".to_string())));
    assert_eq!(failure(run_snapshot(events)), "could not close source snapshot: e");
    let mut events = checked();
    events.truncate(4);
    events.push(SnapshotEvent::TargetResolved(Err("ambiguous".to_string())));
    events.push(SnapshotEvent::SnapshotClosed(Err("e".to_string())));
    assert!(matches!(
        run_snapshot(events),
        SnapshotStage::Done(Err(CandidateError::Unresolved(e))) if e == "ambiguous"
    ));
}

#[test]
fn migrates_older_source_with_missing_current_columns_and_lcm_tables() {
    // An older table lacks columns; only shared ones are copied.
    let none: Vec<String> = Vec::new();
    let source = names(&["provider", "session_id", "project_key", "project_path", "title"]);
    let target = names(&["provider", "session_id", "project_key", "project_path", "title", "agent_id"]);
    match copy_plan("sessions", &source, &target, &none) {
        Ok(CopyPlan::Copy { columns, .. }) => assert_eq!(columns, source),
        _ => panic!("no plan"),
    }
    // A table that the source lacks is passed over.
    assert!(matches!(copy_plan("lcm_summary_nodes", &none, &target, &none), Ok(CopyPlan::Nothing)));
    assert!(matches!(raw_plan(&none, &target), Ok(RawPlan::Nothing)));
}

#[test]
fn migrates_profile_shard_misidentified_as_hermes_project() {
    let hermes = path("/t/home/.hermes");
    let project = path("/t/project");
    let shard = path("/t/tracedecay-profile/projects/legacy-hermes-identity");
    let source = shard.join("sessions.db");
    let profiles = legacy_profile_dirs(hermes.clone(), None);
    let index = find_profile(&profiles, &hermes).expect("the profile is found");
    let own = profiles[0].join(".tracedecay/sessions.db");
    let found = legacy_store_candidates(vec![
        ScannedStore {
            source_db: own.clone(),
            is_file: false,
            owner: StoreOwner { profile_dir: profiles[0].clone(), canonical: own },
        },
        ScannedStore {
            source_db: source.clone(),
            is_file: true,
            owner: StoreOwner { profile_dir: profiles[index].clone(), canonical: source.clone() },
        },
    ]);
    assert_eq!(found.len(), 1);
    let mut stage = SnapshotStage::OpenSource;
    for event in [
        SnapshotEvent::SourceOpened(true),
        SnapshotEvent::SnapshotBegun(Ok(())),
        SnapshotEvent::SourceVerified(Ok(())),
        SnapshotEvent::VersionRead(Ok(4)),
        SnapshotEvent::TargetResolved(Ok(project.clone())),
        SnapshotEvent::LayoutResolved(Ok(false)),
        SnapshotEvent::Fingerprinted(Ok("f".to_string())),
        SnapshotEvent::TargetOpened(true),
        SnapshotEvent::Merged(Ok(MergeOutcome { already_migrated: false, rows_copied: 1 })),
        SnapshotEvent::SnapshotClosed(Ok(())),
    ] {
        stage = migrate_candidate_step(stage, event, &found[0].0, 4);
    }
    let mut report = LegacyHermesMigrationReport::default();
    match stage {
        SnapshotStage::Done(result) => report.record(found[0].0.clone(), result),
        _ => panic!("not done"),
    }
    assert_eq!(report.migrated.len(), 1);
    assert_eq!(report.migrated[0].source_db, source);
    assert_eq!(report.migrated[0].target_project, project);
    assert!(report.failed.is_empty() && report.unresolved.is_empty());
}
