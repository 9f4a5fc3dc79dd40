//! What a source store says of itself: whether it is sound, which version it
//! has, and which project it belongs to.

use std::path::PathBuf;
use crate::decimal::{i64_text, integer_text, nat_text, u64_text};
use crate::json::{lookup, text_at, Json, JsonView};
use crate::json_io::{json_reading, parse_json};
use crate::migrate::hermes::paths::{path_parts, path_starts_with, paths_equal, same_parts};
use crate::text::{concat_four, concat_three, copy_text, same_text, texts, texts_push};
use vstd::prelude::*;

verus! {

/// The first cell of the first row that a query gives.
pub enum FirstCell<T> {
    /// The query failed.
    QueryFailed(String),
    /// The row could not be read.
    ReadFailed(String),
    /// There is no row.
    NoRow,
    /// The cell does not hold such a value.
    BadCell(String),
    /// The value of the cell.
    Cell(T),
}

/// A step's result as a mathematical object.
pub open spec fn step_result<T>(r: Result<T, String>) -> Result<T, Seq<char>> {
    match r {
        Ok(v) => Ok(v),
        Err(e) => Err(e@),
    }
}

/// The message of an error behind what failed.
pub fn with_cause(what: &str, cause: &str) -> (r: String)
    ensures
        r@ == what@ + cause@,
{
    let mut message = copy_text(what);
    message.append(cause);
    message
}

/// What the check of a source store comes to: only the answer `ok` passes.
pub open spec fn check_result(answer: FirstCell<String>) -> Result<(), Seq<char>> {
    match answer {
        FirstCell::QueryFailed(e) => Err("source quick_check failed: "@ + e@),
        FirstCell::ReadFailed(e) => Err("source quick_check could not be read: "@ + e@),
        FirstCell::Cell(s) => if s@ == "ok"@ {
            Ok(())
        } else {
            Err("source quick_check reported: "@ + s@)
        },
        _ => Err("source quick_check reported: "@),
    }
}

/// What the check of the source store comes to.
pub fn verify_source(answer: FirstCell<String>) -> (r: Result<(), String>)
    ensures
        step_result(r) == check_result(answer),
{
    match answer {
        FirstCell::QueryFailed(e) => Err(with_cause("source quick_check failed: ", e.as_str())),
        FirstCell::ReadFailed(e) => Err(
            with_cause("source quick_check could not be read: ", e.as_str()),
        ),
        FirstCell::Cell(s) => if same_text(s.as_str(), "ok") {
            Ok(())
        } else {
            Err(with_cause("source quick_check reported: ", s.as_str()))
        },
        _ => Err(copy_text("source quick_check reported: ")),
    }
}

/// The schema version of a source store: zero where none is recorded.
pub open spec fn schema_version(has_table: bool, answer: FirstCell<i64>) -> Result<i64, Seq<char>> {
    if !has_table {
        Ok(0)
    } else {
        match answer {
            FirstCell::QueryFailed(e) => Err("could not inspect source schema: "@ + e@),
            FirstCell::ReadFailed(e) => Err("could not read source schema: "@ + e@),
            FirstCell::NoRow => Ok(0),
            FirstCell::BadCell(e) => Err("invalid source schema version: "@ + e@),
            FirstCell::Cell(version) => Ok(version),
        }
    }
}

/// The schema version of the source store.
pub fn source_lcm_schema_version(has_table: bool, answer: FirstCell<i64>) -> (r: Result<
    i64,
    String,
>)
    ensures
        step_result(r) == schema_version(has_table, answer),
{
    if !has_table {
        return Ok(0);
    }
    match answer {
        FirstCell::QueryFailed(e) => Err(
            with_cause("could not inspect source schema: ", e.as_str()),
        ),
        FirstCell::ReadFailed(e) => Err(with_cause("could not read source schema: ", e.as_str())),
        FirstCell::NoRow => Ok(0),
        FirstCell::BadCell(e) => Err(with_cause("invalid source schema version: ", e.as_str())),
        FirstCell::Cell(version) => Ok(version),
    }
}

/// The error for a store of a newer version than is supported.
pub open spec fn newer_error(version: i64, supported: i64) -> Seq<char> {
    "source LCM schema "@ + integer_text(version as int) + " is newer than supported schema "@
        + integer_text(supported as int)
}

/// The error for a store of a newer version than is supported.
pub fn newer_message(version: i64, supported: i64) -> (r: String)
    ensures
        r@ == newer_error(version, supported),
{
    let mut message = copy_text("source LCM schema ");
    message.append(i64_text(version).as_str());
    message.append(" is newer than supported schema ");
    message.append(i64_text(supported).as_str());
    message
}

/// A column name as it came back: the row could not be read, the cell could not
/// be read, or the name.
pub type FetchedName = Result<Result<String, String>, String>;

/// The columns of a table, in order; the first thing that fails decides.
pub open spec fn columns_of(table: Seq<char>, rows: Seq<FetchedName>) -> Result<
    Seq<Seq<char>>,
    Seq<char>,
>
    decreases rows.len(),
{
    if rows.len() == 0 {
        Ok(seq![])
    } else {
        match columns_of(table, rows.drop_last()) {
            Err(e) => Err(e),
            Ok(earlier) => match rows.last() {
                Err(e) => Err("could not read table "@ + table + " columns: "@ + e@),
                Ok(Err(e)) => Err("invalid table "@ + table + " column: "@ + e@),
                Ok(Ok(name)) => Ok(earlier.push(name@)),
            },
        }
    }
}

/// The columns of a table, or that they could not be asked for.
pub open spec fn table_columns_of(table: Seq<char>, answer: Result<Seq<FetchedName>, Seq<char>>) -> Result<
    Seq<Seq<char>>,
    Seq<char>,
> {
    match answer {
        Err(e) => Err("could not inspect table "@ + table + ": "@ + e),
        Ok(rows) => columns_of(table, rows),
    }
}

/// An answer as a mathematical object.
pub open spec fn names_answer(answer: Result<Vec<FetchedName>, String>) -> Result<
    Seq<FetchedName>,
    Seq<char>,
> {
    match answer {
        Ok(rows) => Ok(rows@),
        Err(e) => Err(e@),
    }
}

/// Columns as mathematical objects.
pub open spec fn columns_result(r: Result<Vec<String>, String>) -> Result<
    Seq<Seq<char>>,
    Seq<char>,
> {
    match r {
        Ok(columns) => Ok(texts(columns@)),
        Err(e) => Err(e@),
    }
}

proof fn first_failure_stays(table: Seq<char>, rows: Seq<FetchedName>, n: int)
    requires
        0 <= n <= rows.len(),
        columns_of(table, rows.take(n)) is Err,
    ensures
        columns_of(table, rows) == columns_of(table, rows.take(n)),
    decreases rows.len(),
{
    if n < rows.len() {
        assert(rows.drop_last().take(n) == rows.take(n));
        first_failure_stays(table, rows.drop_last(), n);
    } else {
        assert(rows.take(n) == rows);
    }
}

/// The columns of the table, by what its description gave.
pub fn table_columns(table: &str, answer: Result<Vec<FetchedName>, String>) -> (r: Result<
    Vec<String>,
    String,
>)
    ensures
        columns_result(r) == table_columns_of(table@, names_answer(answer)),
{
    let rows = match answer {
        Ok(rows) => rows,
        Err(e) => return Err(concat_four("could not inspect table ", table, ": ", e.as_str())),
    };
    let ghost all = rows@;
    let mut out: Vec<String> = Vec::new();
    assert(all.take(0) == Seq::<FetchedName>::empty());
    assert(texts(out@) == Seq::<Seq<char>>::empty());
    for row in it: rows
        invariant
            it.seq() == all,
            answer matches Ok(v) && v@ == all,
            columns_of(table@, all.take(it.index() as int)) == Ok::<Seq<Seq<char>>, Seq<char>>(
                texts(out@),
            ),
    {
        let ghost k = it.index() as int;
        proof {
            assert(all.take(k + 1).drop_last() == all.take(k));
            assert(all.take(k + 1).last() == all[k]);
        }
        match row {
            Err(e) => {
                proof {
                    first_failure_stays(table@, all, k + 1);
                }
                return Err(concat_four("could not read table ", table, " columns: ", e.as_str()));
            },
            Ok(Err(e)) => {
                proof {
                    first_failure_stays(table@, all, k + 1);
                }
                return Err(concat_four("invalid table ", table, " column: ", e.as_str()));
            },
            Ok(Ok(name)) => {
                let ghost before = out@;
                out.push(name);
                proof {
                    texts_push(before, name);
                }
            },
        }
    }
    assert(all.take(all.len() as int) == all);
    Ok(out)
}

// ---------------------------------------------------------------------------
// The project that a store belongs to.
// ---------------------------------------------------------------------------

/// What is known of a path that may be a project.
pub struct RootFacts {
    pub is_absolute: bool,
    pub is_dir: bool,
    /// The canonical path, when there is one.
    pub canonical: Option<PathBuf>,
    /// The root of the git worktree around the canonical path.
    pub git_root: Option<PathBuf>,
    /// Whether a project database lies at the canonical path.
    pub has_database: bool,
}

/// The project that a path stands for: the git worktree around it, else the
/// path itself when a project database lies there. The user's home and
/// everything inside the Hermes home stand for none.
pub open spec fn project_root(facts: RootFacts, user_home: PathBuf, hermes_home: PathBuf) -> Option<
    PathBuf,
> {
    if !facts.is_absolute || !facts.is_dir {
        None
    } else {
        match facts.canonical {
            None => None,
            Some(canonical) => if same_parts(canonical, user_home) || path_parts(
                hermes_home,
            ).is_prefix_of(path_parts(canonical)) {
                None
            } else {
                match facts.git_root {
                    Some(root) => Some(root),
                    None => if facts.has_database {
                        Some(canonical)
                    } else {
                        None
                    },
                }
            },
        }
    }
}

/// The project that the path stands for; the two homes are canonical.
pub fn real_project_root(facts: RootFacts, user_home: &PathBuf, hermes_home: &PathBuf) -> (r: Option<
    PathBuf,
>)
    ensures
        r == project_root(facts, *user_home, *hermes_home),
{
    if !facts.is_absolute || !facts.is_dir {
        return None;
    }
    let canonical = match facts.canonical {
        Some(canonical) => canonical,
        None => return None,
    };
    if paths_equal(&canonical, user_home) || path_starts_with(&canonical, hermes_home) {
        return None;
    }
    match facts.git_root {
        Some(root) => Some(root),
        None => if facts.has_database {
            Some(canonical)
        } else {
            None
        },
    }
}

/// A path at the user's home or inside the Hermes home is never a project.
pub proof fn homes_are_never_projects(facts: RootFacts, user_home: PathBuf, hermes_home: PathBuf)
    requires
        facts.canonical matches Some(canonical) && (same_parts(canonical, user_home) || path_parts(
            hermes_home,
        ).is_prefix_of(path_parts(canonical))),
    ensures
        project_root(facts, user_home, hermes_home) is None,
{
}

/// Whether stores are kept in the user's own place: only there is a project's
/// store found by the project's identity. Both paths are canonical.
pub fn is_production_profile(default_root: &Option<PathBuf>, root: &PathBuf) -> (r: bool)
    ensures
        r == (*default_root matches Some(d) && same_parts(d, *root)),
{
    match default_root {
        Some(d) => paths_equal(d, root),
        None => false,
    }
}

/// What a session says of its project: its two columns and its metadata.
pub struct ProjectRow {
    pub project_path: Result<Option<String>, String>,
    pub project_key: Result<Option<String>, String>,
    pub metadata: Result<Option<String>, String>,
}

/// The text in a cell, if it holds one.
pub open spec fn cell_text(cell: Result<Option<String>, String>) -> Option<Seq<char>> {
    match cell {
        Ok(Some(s)) => Some(s@),
        _ => None,
    }
}

/// A list with an optional text behind it.
pub open spec fn with_text(list: Seq<Seq<char>>, text: Option<Seq<char>>) -> Seq<Seq<char>> {
    match text {
        Some(s) => list.push(s),
        None => list,
    }
}

/// The paths that a session's metadata names, in the order of its keys.
pub open spec fn metadata_paths(list: Seq<Seq<char>>, metadata: JsonView) -> Seq<Seq<char>> {
    with_text(
        with_text(
            with_text(
                with_text(
                    with_text(list, text_at(metadata, "hermes_session_cwd"@)),
                    text_at(metadata, "hermes_session_worktree"@),
                ),
                text_at(metadata, "cwd"@),
            ),
            text_at(metadata, "worktree"@),
        ),
        text_at(metadata, "project_root"@),
    )
}

/// The paths that a session names: its two columns, then its metadata, when
/// that is JSON.
pub open spec fn row_paths(row: ProjectRow) -> Seq<Seq<char>> {
    let columns = with_text(
        with_text(seq![], cell_text(row.project_path)),
        cell_text(row.project_key),
    );
    match cell_text(row.metadata) {
        None => columns,
        Some(text) => match json_reading(text) {
            Ok(metadata) => metadata_paths(columns, metadata),
            Err(_) => columns,
        },
    }
}

fn push_text(list: &mut Vec<String>, text: Option<&str>)
    ensures
        texts(final(list)@) == with_text(texts(old(list)@), crate::json::text_option(text)),
{
    match text {
        Some(s) => {
            let copy = copy_text(s);
            proof {
                texts_push(list@, copy);
            }
            list.push(copy);
        },
        None => {},
    }
}

/// Adds the paths that a session's metadata names.
pub fn collect_metadata_paths(list: &mut Vec<String>, metadata: &Json)
    ensures
        texts(final(list)@) == metadata_paths(texts(old(list)@), metadata@),
{
    push_text(list, metadata.str_at("hermes_session_cwd"));
    push_text(list, metadata.str_at("hermes_session_worktree"));
    push_text(list, metadata.str_at("cwd"));
    push_text(list, metadata.str_at("worktree"));
    push_text(list, metadata.str_at("project_root"));
}

/// The paths that the session names.
pub fn session_paths(row: &ProjectRow) -> (r: Vec<String>)
    ensures
        texts(r@) == row_paths(*row),
{
    let mut list: Vec<String> = Vec::new();
    assert(texts(list@) == Seq::<Seq<char>>::empty());
    match &row.project_path {
        Ok(Some(s)) => push_text(&mut list, Some(s.as_str())),
        _ => {},
    }
    match &row.project_key {
        Ok(Some(s)) => push_text(&mut list, Some(s.as_str())),
        _ => {},
    }
    match &row.metadata {
        Ok(Some(text)) => match parse_json(text.as_str()) {
            Ok(metadata) => collect_metadata_paths(&mut list, &metadata),
            Err(_) => {},
        },
        _ => {},
    }
    list
}

/// Whether a path is among paths.
pub open spec fn among_paths(paths: Seq<PathBuf>, p: PathBuf) -> bool {
    exists|i: int| 0 <= i < paths.len() && same_parts(#[trigger] paths[i], p)
}

/// Paths, each once.
pub open spec fn distinct_paths(paths: Seq<PathBuf>) -> Seq<PathBuf>
    decreases paths.len(),
{
    if paths.len() == 0 {
        paths
    } else {
        let earlier = distinct_paths(paths.drop_last());
        if among_paths(earlier, paths.last()) {
            earlier
        } else {
            earlier.push(paths.last())
        }
    }
}

/// The project that found roots agree on; none and several are errors.
pub open spec fn target_of_roots(roots: Seq<PathBuf>) -> Result<PathBuf, Seq<char>> {
    let distinct = distinct_paths(roots);
    if distinct.len() == 1 {
        Ok(distinct[0])
    } else if distinct.len() == 0 {
        Err("no durable real project path exists in source session metadata"@)
    } else {
        Err(
            "source session metadata maps to "@ + nat_text(distinct.len())
                + " projects; refusing an ambiguous migration"@,
        )
    }
}

fn has_path(paths: &Vec<PathBuf>, p: &PathBuf) -> (r: bool)
    ensures
        r == among_paths(paths@, *p),
{
    let mut i: usize = 0;
    while i < paths.len()
        invariant
            i <= paths@.len(),
            forall|j: int| 0 <= j < i ==> !same_parts(#[trigger] paths@[j], *p),
        decreases paths@.len() - i,
    {
        if paths_equal(&paths[i], p) {
            return true;
        }
        i += 1;
    }
    false
}

/// The project that the found roots agree on.
pub fn target_from_roots(roots: Vec<PathBuf>) -> (r: Result<PathBuf, String>)
    ensures
        step_result(r) == target_of_roots(roots@),
{
    let ghost all = roots@;
    let mut distinct: Vec<PathBuf> = Vec::new();
    assert(all.take(0) == Seq::<PathBuf>::empty());
    for root in it: roots
        invariant
            it.seq() == all,
            distinct@ == distinct_paths(all.take(it.index() as int)),
    {
        proof {
            let k = it.index() as int;
            assert(all.take(k + 1).drop_last() == all.take(k));
            assert(all.take(k + 1).last() == all[k]);
        }
        if !has_path(&distinct, &root) {
            distinct.push(root);
        }
    }
    assert(all.take(all.len() as int) == all);
    if distinct.len() == 1 {
        return Ok(distinct.swap_remove(0));
    }
    if distinct.len() == 0 {
        return Err(copy_text("no durable real project path exists in source session metadata"));
    }
    let count: u64 = distinct.len() as u64;
    Err(
        concat_three(
            "source session metadata maps to ",
            u64_text(count).as_str(),
            " projects; refusing an ambiguous migration",
        ),
    )
}

/// The project of a store with a pin: the project that the pin stands for.
pub open spec fn pinned_target(pin: Seq<char>, root: Option<PathBuf>) -> Result<PathBuf, Seq<char>> {
    match root {
        Some(p) => Ok(p),
        None => Err("legacy project pin '"@ + pin + "' is not a resolvable code project"@),
    }
}

/// The project of a store with a pin.
pub fn target_from_pin(pin: &str, root: Option<PathBuf>) -> (r: Result<PathBuf, String>)
    ensures
        step_result(r) == pinned_target(pin@, root),
{
    match root {
        Some(p) => Ok(p),
        None => Err(
            concat_three("legacy project pin '", pin, "' is not a resolvable code project"),
        ),
    }
}

/// The roots found in rows, one after the other; the first row that could not
/// be read decides.
pub open spec fn roots_of_rows(rows: Seq<Result<Vec<PathBuf>, String>>) -> Result<
    Seq<PathBuf>,
    Seq<char>,
>
    decreases rows.len(),
{
    if rows.len() == 0 {
        Ok(seq![])
    } else {
        match roots_of_rows(rows.drop_last()) {
            Err(e) => Err(e),
            Ok(earlier) => match rows.last() {
                Ok(found) => Ok(earlier + found@),
                Err(e) => Err("could not read source project metadata row: "@ + e@),
            },
        }
    }
}

/// The project that a store belongs to. A pin decides alone; without one the
/// store must have sessions, and the roots that they name must agree.
pub open spec fn target_project(
    pin: Option<(Seq<char>, Option<PathBuf>)>,
    columns: Result<Seq<Seq<char>>, Seq<char>>,
    rows: Result<Seq<Result<Vec<PathBuf>, String>>, Seq<char>>,
) -> Result<PathBuf, Seq<char>> {
    match pin {
        Some((text, root)) => pinned_target(text, root),
        None => match columns {
            Err(e) => Err(e),
            Ok(names) => if names.len() == 0 {
                Err("source has no sessions table and no legacy project pin"@)
            } else {
                match rows {
                    Err(e) => Err("could not read source project metadata: "@ + e),
                    Ok(all) => match roots_of_rows(all) {
                        Err(e) => Err(e),
                        Ok(roots) => target_of_roots(roots),
                    },
                }
            },
        },
    }
}

/// A pin as a mathematical object.
pub open spec fn pin_option(pin: Option<(String, Option<PathBuf>)>) -> Option<
    (Seq<char>, Option<PathBuf>),
> {
    match pin {
        Some((text, root)) => Some((text@, root)),
        None => None,
    }
}

/// Fetched rows as a mathematical object.
pub open spec fn rows_answer(rows: Result<Vec<Result<Vec<PathBuf>, String>>, String>) -> Result<
    Seq<Result<Vec<PathBuf>, String>>,
    Seq<char>,
> {
    match rows {
        Ok(v) => Ok(v@),
        Err(e) => Err(e@),
    }
}

proof fn first_unread_row_stays(rows: Seq<Result<Vec<PathBuf>, String>>, n: int)
    requires
        0 <= n <= rows.len(),
        roots_of_rows(rows.take(n)) is Err,
    ensures
        roots_of_rows(rows) == roots_of_rows(rows.take(n)),
    decreases rows.len(),
{
    if n < rows.len() {
        assert(rows.drop_last().take(n) == rows.take(n));
        first_unread_row_stays(rows.drop_last(), n);
    } else {
        assert(rows.take(n) == rows);
    }
}

/// The project that a store belongs to, given its pin with the project it
/// stands for, the columns of its sessions, and the roots that each session
/// names. What an earlier answer makes needless is not looked at.
pub fn resolve_target_project(
    pin: Option<(String, Option<PathBuf>)>,
    columns: Result<Vec<String>, String>,
    rows: Result<Vec<Result<Vec<PathBuf>, String>>, String>,
) -> (r: Result<PathBuf, String>)
    ensures
        step_result(r) == target_project(
            pin_option(pin),
            columns_result(columns),
            rows_answer(rows),
        ),
{
    match pin {
        Some((text, root)) => return target_from_pin(text.as_str(), root),
        None => {},
    }
    let names = match columns {
        Ok(names) => names,
        Err(e) => return Err(e),
    };
    assert(texts(names@).len() == names@.len());
    if names.len() == 0 {
        return Err(copy_text("source has no sessions table and no legacy project pin"));
    }
    let fetched = match rows {
        Ok(fetched) => fetched,
        Err(e) => return Err(with_cause("could not read source project metadata: ", e.as_str())),
    };
    let ghost all = fetched@;
    let mut roots: Vec<PathBuf> = Vec::new();
    assert(all.take(0) == Seq::<Result<Vec<PathBuf>, String>>::empty());
    for row in it: fetched
        invariant
            it.seq() == all,
            pin is None,
            columns matches Ok(v) && texts(v@).len() > 0,
            rows matches Ok(v) && v@ == all,
            roots_of_rows(all.take(it.index() as int)) == Ok::<Seq<PathBuf>, Seq<char>>(roots@),
    {
        let ghost k = it.index() as int;
        proof {
            assert(all.take(k + 1).drop_last() == all.take(k));
            assert(all.take(k + 1).last() == all[k]);
        }
        match row {
            Ok(found) => {
                let mut found = found;
                roots.append(&mut found);
            },
            Err(e) => {
                proof {
                    first_unread_row_stays(all, k + 1);
                }
                return Err(
                    with_cause("could not read source project metadata row: ", e.as_str()),
                );
            },
        }
    }
    assert(all.take(all.len() as int) == all);
    target_from_roots(roots)
}

/// A target is found only when the roots are all one project: every root has
/// its components.
pub proof fn target_is_unambiguous(roots: Seq<PathBuf>, i: int)
    requires
        target_of_roots(roots) is Ok,
        0 <= i < roots.len(),
    ensures
        same_parts(roots[i], target_of_roots(roots)->Ok_0),
    decreases roots.len(),
{
    every_path_is_kept(roots, i);
    let distinct = distinct_paths(roots);
    let k = choose|k: int| 0 <= k < distinct.len() && same_parts(#[trigger] distinct[k], roots[i]);
    assert(k == 0);
}

proof fn every_path_is_kept(paths: Seq<PathBuf>, i: int)
    requires
        0 <= i < paths.len(),
    ensures
        among_paths(distinct_paths(paths), paths[i]),
    decreases paths.len(),
{
    let earlier = distinct_paths(paths.drop_last());
    if i < paths.len() - 1 {
        every_path_is_kept(paths.drop_last(), i);
        let k = choose|k: int| 0 <= k < earlier.len() && same_parts(
            #[trigger] earlier[k],
            paths[i],
        );
        assert(distinct_paths(paths)[k] == earlier[k]);
    } else if among_paths(earlier, paths.last()) {
    } else {
        assert(distinct_paths(paths)[earlier.len() as int] == paths.last());
    }
}

/// Whether a row's metadata is an object with this text under the key.
pub open spec fn metadata_names(row: ProjectRow, key: Seq<char>, text: Seq<char>) -> bool {
    row.metadata matches Ok(Some(written)) && json_reading(written@) matches Ok(
        JsonView::Object(entries),
    ) && lookup(entries, key) == Some(JsonView::Text(text))
}

proof fn with_text_contains(list: Seq<Seq<char>>, text: Option<Seq<char>>, path: Seq<char>)
    ensures
        with_text(list, text).contains(path) <==> list.contains(path) || text == Some(path),
{
    if let Some(s) = text {
        let longer = list.push(s);
        assert(longer.last() == s);
        if list.contains(path) {
            let i = choose|i: int| 0 <= i < list.len() && list[i] == path;
            assert(longer[i] == path);
        }
        if longer.contains(path) && s != path {
            let i = choose|i: int| 0 <= i < longer.len() && longer[i] == path;
            assert(list[i] == path);
        }
    }
}

/// A session names the paths in its two columns and the texts that its metadata
/// holds under `hermes_session_cwd`, `hermes_session_worktree`, `cwd`,
/// `worktree` and `project_root`, every one of them and no other.
pub proof fn sessions_name_every_path(row: ProjectRow, path: Seq<char>)
    ensures
        (row.project_path matches Ok(Some(s)) && s@ == path) ==> row_paths(row).contains(path),
        (row.project_key matches Ok(Some(s)) && s@ == path) ==> row_paths(row).contains(path),
        metadata_names(row, "hermes_session_cwd"@, path) ==> row_paths(row).contains(path),
        metadata_names(row, "hermes_session_worktree"@, path) ==> row_paths(row).contains(path),
        metadata_names(row, "cwd"@, path) ==> row_paths(row).contains(path),
        metadata_names(row, "worktree"@, path) ==> row_paths(row).contains(path),
        metadata_names(row, "project_root"@, path) ==> row_paths(row).contains(path),
        row_paths(row).contains(path) ==> {
            ||| row.project_path matches Ok(Some(s)) && s@ == path
            ||| row.project_key matches Ok(Some(s)) && s@ == path
            ||| metadata_names(row, "hermes_session_cwd"@, path)
            ||| metadata_names(row, "hermes_session_worktree"@, path)
            ||| metadata_names(row, "cwd"@, path)
            ||| metadata_names(row, "worktree"@, path)
            ||| metadata_names(row, "project_root"@, path)
        },
{
    let none = Seq::<Seq<char>>::empty();
    let first = with_text(none, cell_text(row.project_path));
    let columns = with_text(first, cell_text(row.project_key));
    with_text_contains(none, cell_text(row.project_path), path);
    with_text_contains(first, cell_text(row.project_key), path);
    if let Some(text) = cell_text(row.metadata) {
        if let Ok(metadata) = json_reading(text) {
            let a = with_text(columns, text_at(metadata, "hermes_session_cwd"@));
            let b = with_text(a, text_at(metadata, "hermes_session_worktree"@));
            let c = with_text(b, text_at(metadata, "cwd"@));
            let d = with_text(c, text_at(metadata, "worktree"@));
            with_text_contains(columns, text_at(metadata, "hermes_session_cwd"@), path);
            with_text_contains(a, text_at(metadata, "hermes_session_worktree"@), path);
            with_text_contains(b, text_at(metadata, "cwd"@), path);
            with_text_contains(c, text_at(metadata, "worktree"@), path);
            with_text_contains(d, text_at(metadata, "project_root"@), path);
        }
    }
}

/// Paths are named in a fixed order: those of the columns, then those of the
/// metadata.
pub proof fn paths_are_named_in_order(
    row: ProjectRow,
    path: String,
    key: String,
    session_cwd: Seq<char>,
    session_worktree: Seq<char>,
    cwd: Seq<char>,
    worktree: Seq<char>,
    root: Seq<char>,
)
    requires
        row.project_path == Ok::<Option<String>, String>(Some(path)),
        row.project_key == Ok::<Option<String>, String>(Some(key)),
    ensures
        metadata_names(row, "hermes_session_cwd"@, session_cwd) && metadata_names(
            row,
            "hermes_session_worktree"@,
            session_worktree,
        ) && metadata_names(row, "cwd"@, cwd) && metadata_names(row, "worktree"@, worktree)
            && metadata_names(row, "project_root"@, root) ==> row_paths(row) == seq![
            path@,
            key@,
            session_cwd,
            session_worktree,
            cwd,
            worktree,
            root,
        ],
        row.metadata == Ok::<Option<String>, String>(None) ==> row_paths(row) == seq![path@, key@],
{
}

/// A store is sound if and only if its check answers `ok`.
pub proof fn sound_stores_answer_ok(answer: FirstCell<String>)
    ensures
        check_result(answer) is Ok <==> (answer matches FirstCell::Cell(s) && s@ == "ok"@),
        answer matches FirstCell::QueryFailed(e) ==> e@.is_suffix_of(check_result(answer)->Err_0),
        answer matches FirstCell::ReadFailed(e) ==> e@.is_suffix_of(check_result(answer)->Err_0),
        answer matches FirstCell::Cell(s) ==> s@ != "ok"@ ==> s@.is_suffix_of(
            check_result(answer)->Err_0,
        ),
{
}

/// The version of a store is the number that it holds. One that holds none is
/// of version zero; one that cannot be read has no version.
pub proof fn versions_are_as_stored(has_table: bool, answer: FirstCell<i64>, version: i64)
    ensures
        !has_table ==> schema_version(has_table, answer) == Ok::<i64, Seq<char>>(0),
        answer is NoRow ==> schema_version(has_table, answer) == Ok::<i64, Seq<char>>(0),
        has_table && answer == FirstCell::Cell(version) ==> schema_version(has_table, answer)
            == Ok::<i64, Seq<char>>(version),
        schema_version(has_table, answer) is Err <==> has_table && (answer is QueryFailed || answer
            is ReadFailed || answer is BadCell),
{
}

/// The columns of a table are the names that were read, in their order; one
/// that could not be read refuses the table.
pub proof fn columns_are_as_read(table: Seq<char>, rows: Seq<FetchedName>)
    ensures
        columns_of(table, rows) is Ok <==> forall|i: int|
            0 <= i < rows.len() ==> (#[trigger] rows[i] matches Ok(Ok(_))),
        columns_of(table, rows) matches Ok(columns) ==> columns.len() == rows.len() && forall|
            i: int,
        |
            0 <= i < rows.len() ==> (rows[i] matches Ok(Ok(name)) && #[trigger] columns[i] == name@),
    decreases rows.len(),
{
    if rows.len() > 0 {
        let front = rows.drop_last();
        columns_are_as_read(table, front);
        assert forall|i: int| 0 <= i < front.len() implies front[i] == #[trigger] rows[i] by {}
        if columns_of(table, rows) is Ok {
            assert forall|i: int| 0 <= i < rows.len() implies (#[trigger] rows[i] matches Ok(
                Ok(_),
            )) by {
                if i < front.len() {
                    assert(front[i] matches Ok(Ok(_)));
                }
            }
            let columns = columns_of(table, rows)->Ok_0;
            assert forall|i: int| 0 <= i < rows.len() implies (rows[i] matches Ok(Ok(name))
                && #[trigger] columns[i] == name@) by {
                if i < front.len() {
                    assert(columns_of(table, front)->Ok_0[i] == columns[i]);
                }
            }
        } else if columns_of(table, front) is Err {
            let i = choose|i: int|
                0 <= i < front.len() && !(#[trigger] front[i] matches Ok(Ok(_)));
            assert(!(rows[i] matches Ok(Ok(_))));
        } else {
            assert(!(rows[rows.len() - 1] matches Ok(Ok(_))));
        }
    }
}

/// A directory stands for its repository where it lies in one, and otherwise
/// for itself where it holds a database; what is no directory, is not named
/// from the root on, or is a home, stands for no project.
pub proof fn projects_are_repositories_or_hold_a_database(
    facts: RootFacts,
    user_home: PathBuf,
    hermes_home: PathBuf,
    canonical: PathBuf,
)
    requires
        facts.canonical == Some(canonical),
    ensures
        project_root(facts, user_home, hermes_home) is Some <==> facts.is_absolute && facts.is_dir
            && path_parts(canonical) != path_parts(user_home) && !path_parts(
            hermes_home,
        ).is_prefix_of(path_parts(canonical)) && (facts.git_root is Some || facts.has_database),
        project_root(facts, user_home, hermes_home) matches Some(root) ==> match facts.git_root {
            Some(repository) => root == repository,
            None => root == canonical,
        },
{
}

proof fn agreeing_roots_are_one(roots: Seq<PathBuf>)
    requires
        roots.len() > 0,
        forall|i: int| 0 <= i < roots.len() ==> same_parts(#[trigger] roots[i], roots[0]),
    ensures
        distinct_paths(roots) == seq![roots[0]],
    decreases roots.len(),
{
    let front = roots.drop_last();
    if front.len() == 0 {
        assert(distinct_paths(front) == Seq::<PathBuf>::empty());
        assert(distinct_paths(roots) == seq![roots[0]]);
    } else {
        assert forall|i: int| 0 <= i < front.len() implies same_parts(#[trigger] front[i], front[0]) by {
            assert(same_parts(roots[i], roots[0]));
        }
        agreeing_roots_are_one(front);
        let one = seq![front[0]];
        assert(same_parts(roots[roots.len() - 1], roots[0]));
        assert(same_parts(one[0], roots.last()));
    }
}

/// Roots give a target if and only if there are some and all of them are the
/// same directory; that directory is the target.
pub proof fn targets_are_what_all_roots_are(roots: Seq<PathBuf>)
    ensures
        target_of_roots(roots) is Ok <==> roots.len() > 0 && forall|i: int|
            0 <= i < roots.len() ==> path_parts(#[trigger] roots[i]) == path_parts(roots[0]),
        target_of_roots(roots) is Ok ==> target_of_roots(roots) == Ok::<PathBuf, Seq<char>>(
            roots[0],
        ),
{
    if target_of_roots(roots) is Ok {
        assert(roots.len() > 0);
        assert forall|i: int| 0 <= i < roots.len() implies same_parts(
            #[trigger] roots[i],
            roots[0],
        ) by {
            target_is_unambiguous(roots, i);
            target_is_unambiguous(roots, 0);
        }
        agreeing_roots_are_one(roots);
    } else if roots.len() > 0 && (forall|i: int|
        0 <= i < roots.len() ==> path_parts(#[trigger] roots[i]) == path_parts(roots[0])) {
        assert forall|i: int| 0 <= i < roots.len() implies same_parts(
            #[trigger] roots[i],
            roots[0],
        ) by {
            assert(path_parts(roots[i]) == path_parts(roots[0]));
        }
        agreeing_roots_are_one(roots);
    }
}

/// The roots of rows are those of each row, in order; a row that could not be
/// read stops the reading.
pub proof fn roots_are_those_of_each_row(
    first: Seq<Result<Vec<PathBuf>, String>>,
    second: Seq<Result<Vec<PathBuf>, String>>,
    found: Vec<PathBuf>,
)
    ensures
        roots_of_rows(first) matches Ok(a) ==> (roots_of_rows(second) matches Ok(b)
            ==> roots_of_rows(first + second) == Ok::<Seq<PathBuf>, Seq<char>>(a + b)),
        roots_of_rows(seq![Ok::<Vec<PathBuf>, String>(found)]) == Ok::<Seq<PathBuf>, Seq<char>>(
            found@,
        ),
        (exists|i: int| 0 <= i < second.len() && (#[trigger] second[i]) is Err) ==> roots_of_rows(
            second,
        ) is Err,
    decreases second.len(),
{
    reveal_with_fuel(roots_of_rows, 2);
    let one = seq![Ok::<Vec<PathBuf>, String>(found)];
    assert(one.drop_last() == Seq::<Result<Vec<PathBuf>, String>>::empty());
    assert(Seq::<PathBuf>::empty() + found@ == found@);
    if second.len() == 0 {
        assert(first + second == first);
        if let Ok(a) = roots_of_rows(first) {
            assert(a + Seq::<PathBuf>::empty() == a);
        }
    } else {
        let front = second.drop_last();
        roots_are_those_of_each_row(first, front, found);
        assert((first + second).drop_last() == first + front);
        if let Ok(a) = roots_of_rows(first) {
            if let Ok(b) = roots_of_rows(front) {
                if let Ok(last) = second.last() {
                    assert(a + b + last@ == a + (b + last@));
                }
            }
        }
        if exists|i: int| 0 <= i < second.len() && (#[trigger] second[i]) is Err {
            let i = choose|i: int| 0 <= i < second.len() && (#[trigger] second[i]) is Err;
            if i < front.len() {
                assert(front[i] is Err);
            }
        }
    }
}

/// A pinned project is the target whatever the sessions say, and nothing else
/// is tried where the pin names no project. Without a pin, a source without
/// sessions has no target, and otherwise the roots that the rows give decide.
pub proof fn pins_come_before_sessions(
    pin: Option<(Seq<char>, Option<PathBuf>)>,
    columns: Result<Seq<Seq<char>>, Seq<char>>,
    rows: Result<Seq<Result<Vec<PathBuf>, String>>, Seq<char>>,
)
    ensures
        pin matches Some((_, Some(root))) ==> target_project(pin, columns, rows) == Ok::<
            PathBuf,
            Seq<char>,
        >(root),
        pin matches Some((_, None)) ==> target_project(pin, columns, rows) is Err,
        pin is None ==> {
            &&& (columns matches Ok(names) && names.len() == 0) ==> target_project(
                pin,
                columns,
                rows,
            ) is Err
            &&& columns is Err || rows is Err ==> target_project(pin, columns, rows) is Err
            &&& columns matches Ok(names) ==> names.len() > 0 ==> (rows matches Ok(all) ==> (
            roots_of_rows(all) matches Ok(roots) ==> target_project(pin, columns, rows)
                == target_of_roots(roots)))
        },
{
}

/// A table whose columns could not be asked for is refused with the cause;
/// otherwise its columns are those that were read.
pub proof fn tables_have_the_columns_read(table: Seq<char>, rows: Seq<FetchedName>, e: Seq<char>)
    ensures
        table_columns_of(table, Err(e)) matches Err(message) && e.is_suffix_of(message),
        table_columns_of(table, Ok(rows)) is Ok <==> forall|i: int|
            0 <= i < rows.len() ==> (#[trigger] rows[i] matches Ok(Ok(_))),
        table_columns_of(table, Ok(rows)) matches Ok(columns) ==> columns.len() == rows.len()
            && forall|i: int|
            0 <= i < rows.len() ==> (rows[i] matches Ok(Ok(name)) && #[trigger] columns[i] == name@),
{
    columns_are_as_read(table, rows);
}

/// What a newer store is refused with names both versions, its own first.
pub proof fn newer_versions_are_named(version: i64, supported: i64)
    ensures
        ("source LCM schema "@ + integer_text(version as int)).is_prefix_of(
            newer_error(version, supported),
        ),
        integer_text(supported as int).is_suffix_of(newer_error(version, supported)),
{
    let head = "source LCM schema "@ + integer_text(version as int);
    let text = newer_error(version, supported);
    assert(text.subrange(0, head.len() as int) == head);
}

} // verus!
