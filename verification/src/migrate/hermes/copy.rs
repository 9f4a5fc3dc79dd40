//! Copying rows from a source store into a target store.

use std::collections::HashMap;
use crate::decimal::{i64_text, i64_text_reads_back, i64_value, integer_text, parse_i64};
use crate::migrate::hermes::source::{step_result, with_cause, FirstCell};
use crate::migrate::hermes::sql::{column_index, column_index_at, column_index_finds, has_column, insert_sql, insert_text, position, raw_insert_sql, raw_insert_text, raw_select_sql, raw_select_text, select_sql, select_text, sql_views, SqlValue, SqlView};
use crate::text::{concat_three, concat_four, contains_text, copy_text, same_text, stands_between, texts, texts_push};
use vstd::prelude::*;

verus! {

/// The tables that are copied, in order.
pub open spec fn copied_tables() -> Seq<Seq<char>> {
    seq![
        "sessions"@,
        "session_messages"@,
        "lcm_external_payloads"@,
        "lcm_raw_messages"@,
        "lcm_summary_nodes"@,
        "lcm_summary_sources"@,
        "lcm_lifecycle_state"@,
        "lcm_maintenance_debt"@,
    ]
}

/// The number of tables that are copied.
pub const TABLE_COUNT: usize = 8;

/// The table that is copied at place `i`.
pub fn copied_table(i: usize) -> (r: &'static str)
    requires
        i < TABLE_COUNT,
    ensures
        r@ == copied_tables()[i as int],
{
    if i == 0 {
        "sessions"
    } else if i == 1 {
        "session_messages"
    } else if i == 2 {
        "lcm_external_payloads"
    } else if i == 3 {
        "lcm_raw_messages"
    } else if i == 4 {
        "lcm_summary_nodes"
    } else if i == 5 {
        "lcm_summary_sources"
    } else if i == 6 {
        "lcm_lifecycle_state"
    } else {
        "lcm_maintenance_debt"
    }
}

/// Whether the table at place `i` holds the raw messages, which are numbered
/// anew when they are copied.
pub fn is_raw_table(i: usize) -> (r: bool)
    requires
        i < TABLE_COUNT,
    ensures
        r == (copied_tables()[i as int] == "lcm_raw_messages"@),
{
    same_text(copied_table(i), "lcm_raw_messages")
}

/// Whether a column is copied: the target has it and it is not left out.
pub open spec fn is_copied(
    column: Seq<char>,
    target: Seq<Seq<char>>,
    left_out: Seq<Seq<char>>,
) -> bool {
    target.contains(column) && !left_out.contains(column)
}

/// The columns that are copied, in the order of the source.
pub open spec fn shared_columns(
    source: Seq<Seq<char>>,
    target: Seq<Seq<char>>,
    left_out: Seq<Seq<char>>,
) -> Seq<Seq<char>>
    decreases source.len(),
{
    if source.len() == 0 {
        seq![]
    } else {
        let earlier = shared_columns(source.drop_last(), target, left_out);
        if is_copied(source.last(), target, left_out) {
            earlier.push(source.last())
        } else {
            earlier
        }
    }
}

/// The columns that are copied, in the order of the source.
pub fn columns_to_copy(source: &Vec<String>, target: &Vec<String>, left_out: &Vec<String>) -> (r: Vec<
    String,
>)
    ensures
        texts(r@) == shared_columns(texts(source@), texts(target@), texts(left_out@)),
{
    let ghost all = texts(source@);
    let mut out: Vec<String> = Vec::new();
    let mut i: usize = 0;
    assert(all.take(0) == Seq::<Seq<char>>::empty());
    assert(texts(out@) == Seq::<Seq<char>>::empty());
    while i < source.len()
        invariant
            i <= source@.len(),
            all == texts(source@),
            texts(out@) == shared_columns(
                all.take(i as int),
                texts(target@),
                texts(left_out@),
            ),
        decreases source@.len() - i,
    {
        proof {
            assert(all.take(i as int + 1).drop_last() == all.take(i as int));
            assert(all.take(i as int + 1).last() == source@[i as int]@);
        }
        if has_column(target, source[i].as_str()) && !has_column(left_out, source[i].as_str()) {
            let ghost before = out@;
            let name = copy_text(source[i].as_str());
            out.push(name);
            proof {
                texts_push(before, name);
            }
        }
        i += 1;
    }
    assert(all.take(all.len() as int) == all);
    out
}

/// Only columns that both tables have are copied.
pub proof fn copied_columns_are_shared(
    source: Seq<Seq<char>>,
    target: Seq<Seq<char>>,
    left_out: Seq<Seq<char>>,
    i: int,
)
    requires
        0 <= i < shared_columns(source, target, left_out).len(),
    ensures
        source.contains(shared_columns(source, target, left_out)[i]),
        target.contains(shared_columns(source, target, left_out)[i]),
        !left_out.contains(shared_columns(source, target, left_out)[i]),
    decreases source.len(),
{
    let front = source.drop_last();
    let earlier = shared_columns(front, target, left_out);
    if i < earlier.len() {
        copied_columns_are_shared(front, target, left_out, i);
        let k = choose|k: int| 0 <= k < front.len() && front[k] == earlier[i];
        assert(source[k] == earlier[i]);
    } else {
        assert(source[source.len() - 1] == source.last());
    }
}

/// How a table is copied.
pub enum CopyPlan {
    /// There is nothing to copy.
    Nothing,
    /// Read with one statement, write each row with the other.
    Copy { columns: Vec<String>, select: String, insert: String },
}

/// Whether a plan is the one for a table: a table that the source lacks, or of
/// which no column is shared, needs nothing; one that only the target lacks is
/// an error.
pub open spec fn is_copy_plan(
    r: Result<CopyPlan, String>,
    table: Seq<char>,
    source: Seq<Seq<char>>,
    target: Seq<Seq<char>>,
    left_out: Seq<Seq<char>>,
) -> bool {
    let shared = shared_columns(source, target, left_out);
    if source.len() == 0 {
        r matches Ok(CopyPlan::Nothing)
    } else if target.len() == 0 {
        r matches Err(e) && e@ == "target is missing required table "@ + table
    } else if shared.len() == 0 {
        r matches Ok(CopyPlan::Nothing)
    } else {
        r matches Ok(CopyPlan::Copy { columns, select, insert }) && texts(columns@) == shared
            && select@ == select_text(shared, table) && insert@ == insert_text(shared, table)
    }
}

/// How the table is copied.
pub fn copy_plan(
    table: &str,
    source: &Vec<String>,
    target: &Vec<String>,
    left_out: &Vec<String>,
) -> (r: Result<CopyPlan, String>)
    ensures
        is_copy_plan(r, table@, texts(source@), texts(target@), texts(left_out@)),
{
    assert(texts(source@).len() == source@.len());
    assert(texts(target@).len() == target@.len());
    if source.len() == 0 {
        return Ok(CopyPlan::Nothing);
    }
    if target.len() == 0 {
        return Err(with_cause("target is missing required table ", table));
    }
    let columns = columns_to_copy(source, target, left_out);
    assert(texts(columns@).len() == columns@.len());
    if columns.len() == 0 {
        return Ok(CopyPlan::Nothing);
    }
    let select = select_sql(&columns, table);
    let insert = insert_sql(&columns, table);
    Ok(CopyPlan::Copy { columns, select, insert })
}

// ---------------------------------------------------------------------------
// Rows.
// ---------------------------------------------------------------------------

/// The values of a row; the first cell that could not be read decides.
pub open spec fn decoded(what: Seq<char>, cells: Seq<Result<SqlValue, String>>) -> Result<
    Seq<SqlView>,
    Seq<char>,
>
    decreases cells.len(),
{
    if cells.len() == 0 {
        Ok(seq![])
    } else {
        match decoded(what, cells.drop_last()) {
            Err(e) => Err(e),
            Ok(earlier) => match cells.last() {
                Ok(v) => Ok(earlier.push(v@)),
                Err(e) => Err(what + e@),
            },
        }
    }
}

/// Values as a mathematical object.
pub open spec fn row_result(r: Result<Vec<SqlValue>, String>) -> Result<Seq<SqlView>, Seq<char>> {
    match r {
        Ok(values) => Ok(sql_views(values@)),
        Err(e) => Err(e@),
    }
}

proof fn first_bad_cell_stays(what: Seq<char>, cells: Seq<Result<SqlValue, String>>, n: int)
    requires
        0 <= n <= cells.len(),
        decoded(what, cells.take(n)) is Err,
    ensures
        decoded(what, cells) == decoded(what, cells.take(n)),
    decreases cells.len(),
{
    if n < cells.len() {
        assert(cells.drop_last().take(n) == cells.take(n));
        first_bad_cell_stays(what, cells.drop_last(), n);
    } else {
        assert(cells.take(n) == cells);
    }
}

/// The values of the row; a message begins with `what`.
pub fn decode_row(what: &str, cells: Vec<Result<SqlValue, String>>) -> (r: Result<
    Vec<SqlValue>,
    String,
>)
    ensures
        row_result(r) == decoded(what@, cells@),
        r matches Ok(values) ==> values@.len() == cells@.len(),
{
    let ghost all = cells@;
    let mut out: Vec<SqlValue> = Vec::new();
    assert(all.take(0) == Seq::<Result<SqlValue, String>>::empty());
    assert(sql_views(out@) == Seq::<SqlView>::empty());
    for cell in it: cells
        invariant
            it.seq() == all,
            cells@ == all,
            out@.len() == it.index(),
            decoded(what@, all.take(it.index() as int)) == Ok::<Seq<SqlView>, Seq<char>>(
                sql_views(out@),
            ),
    {
        let ghost k = it.index() as int;
        proof {
            assert(all.take(k + 1).drop_last() == all.take(k));
            assert(all.take(k + 1).last() == all[k]);
        }
        match cell {
            Ok(v) => {
                let ghost before = out@;
                out.push(v);
                assert(sql_views(before.push(v)) == sql_views(before).push(v@));
            },
            Err(e) => {
                proof {
                    first_bad_cell_stays(what@, all, k + 1);
                }
                return Err(with_cause(what, e.as_str()));
            },
        }
    }
    assert(all.take(all.len() as int) == all);
    Ok(out)
}

/// Session values with the target project in the columns that name the
/// project.
pub open spec fn retargeted(
    columns: Seq<Seq<char>>,
    values: Seq<SqlView>,
    project: Seq<char>,
) -> Seq<SqlView> {
    Seq::new(
        values.len(),
        |i: int|
            if i < columns.len() && (columns[i] == "project_path"@ || columns[i]
                == "project_key"@) {
                SqlView::Text(project)
            } else {
                values[i]
            },
    )
}

/// Puts the target project into the columns that name the project.
pub fn retarget_session(columns: &Vec<String>, values: &mut Vec<SqlValue>, project: &str)
    ensures
        sql_views(final(values)@) == retargeted(
            texts(columns@),
            sql_views(old(values)@),
            project@,
        ),
{
    let ghost names = texts(columns@);
    let ghost before = values@;
    let ghost goal = retargeted(names, sql_views(before), project@);
    let total: usize = values.len();
    let mut i: usize = 0;
    while i < total && i < columns.len()
        invariant
            i <= total,
            i <= columns@.len(),
            total == values@.len(),
            total == before.len(),
            names == texts(columns@),
            goal == retargeted(names, sql_views(before), project@),
            forall|j: int| 0 <= j < i ==> (#[trigger] values@[j])@ == goal[j],
            forall|j: int| i <= j < total ==> #[trigger] values@[j] == before[j],
        decreases total - i,
    {
        assert(names[i as int] == columns@[i as int]@);
        if same_text(columns[i].as_str(), "project_path") || same_text(
            columns[i].as_str(),
            "project_key",
        ) {
            values.set(i, SqlValue::Text(copy_text(project)));
        }
        i += 1;
    }
    assert(sql_views(values@) =~= goal);
}

/// A summary source after renumbering: a reference to a raw message names the
/// message's new store id.
pub open spec fn remapped_source(
    columns: Seq<Seq<char>>,
    values: Seq<SqlView>,
    ids: Map<i64, i64>,
) -> Result<Seq<SqlView>, Seq<char>> {
    match column_index(columns, "source_kind"@) {
        None => Err("summary source has no source_kind"@),
        Some(kind) => match column_index(columns, "source_id"@) {
            None => Err("summary source has no source_id"@),
            Some(at) => if values[kind] == SqlView::Text("raw_message"@) {
                match values[at] {
                    SqlView::Text(text) => match i64_value(text) {
                        None => Err("raw summary source has an invalid store_id"@),
                        Some(old_id) => if ids.contains_key(old_id) {
                            Ok(
                                values.update(
                                    at,
                                    SqlView::Text(integer_text(ids[old_id] as int)),
                                ),
                            )
                        } else {
                            Err(
                                "raw summary source "@ + integer_text(old_id as int)
                                    + " was not copied"@,
                            )
                        },
                    },
                    _ => Err("raw summary source has a non-text source_id"@),
                }
            } else {
                Ok(values)
            },
        },
    }
}

/// Renumbers a summary source.
pub fn remap_summary_source(
    columns: &Vec<String>,
    values: &mut Vec<SqlValue>,
    ids: &HashMap<i64, i64>,
) -> (r: Result<(), String>)
    requires
        old(values)@.len() == columns@.len(),
    ensures
        match r {
            Ok(_) => remapped_source(texts(columns@), sql_views(old(values)@), ids@) == Ok::<
                Seq<SqlView>,
                Seq<char>,
            >(sql_views(final(values)@)),
            Err(e) => remapped_source(texts(columns@), sql_views(old(values)@), ids@) == Err::<
                Seq<SqlView>,
                Seq<char>,
            >(e@),
        },
        final(values)@.len() == old(values)@.len(),
{
    broadcast use vstd::std_specs::hash::group_hash_axioms;

    let kind: usize = match position(columns, "source_kind") {
        Some(i) => i,
        None => return Err(copy_text("summary source has no source_kind")),
    };
    let at: usize = match position(columns, "source_id") {
        Some(i) => i,
        None => return Err(copy_text("summary source has no source_id")),
    };
    let ghost before = values@;
    assert(sql_views(before)[kind as int] == before[kind as int]@);
    assert(sql_views(before)[at as int] == before[at as int]@);
    let is_raw = match &values[kind] {
        SqlValue::Text(text) => same_text(text.as_str(), "raw_message"),
        _ => false,
    };
    if !is_raw {
        return Ok(());
    }
    let old_id: i64 = match &values[at] {
        SqlValue::Text(text) => match parse_i64(text.as_str()) {
            Some(id) => id,
            None => return Err(copy_text("raw summary source has an invalid store_id")),
        },
        _ => return Err(copy_text("raw summary source has a non-text source_id")),
    };
    match ids.get(&old_id) {
        Some(new_id) => {
            let text = SqlValue::Text(i64_text(*new_id));
            values.set(at, text);
            assert(sql_views(values@) =~= sql_views(before).update(at as int, text@));
            Ok(())
        },
        None => Err(
            concat_three("raw summary source ", i64_text(old_id).as_str(), " was not copied"),
        ),
    }
}

/// A value that refers to a raw message after renumbering; other values stay.
pub open spec fn remapped_value(
    column: Seq<char>,
    v: SqlView,
    ids: Map<i64, i64>,
    remapped: Seq<Seq<char>>,
) -> Result<SqlView, Seq<char>> {
    if !remapped.contains(column) {
        Ok(v)
    } else {
        match v {
            SqlView::Integer(old_id) => if ids.contains_key(old_id) {
                Ok(SqlView::Integer(ids[old_id]))
            } else {
                Err(
                    "referenced raw store_id "@ + integer_text(old_id as int)
                        + " was not copied"@,
                )
            },
            _ => Ok(v),
        }
    }
}

/// The first `n` values after renumbering; the first reference to a message
/// that was not copied decides.
pub open spec fn remapped_values(
    columns: Seq<Seq<char>>,
    values: Seq<SqlView>,
    ids: Map<i64, i64>,
    remapped: Seq<Seq<char>>,
    n: int,
) -> Result<Seq<SqlView>, Seq<char>>
    decreases n,
{
    if n <= 0 {
        Ok(values)
    } else {
        match remapped_values(columns, values, ids, remapped, n - 1) {
            Err(e) => Err(e),
            Ok(earlier) => match remapped_value(columns[n - 1], values[n - 1], ids, remapped) {
                Err(e) => Err(e),
                Ok(v) => Ok(earlier.update(n - 1, v)),
            },
        }
    }
}

proof fn remapped_prefix(
    columns: Seq<Seq<char>>,
    values: Seq<SqlView>,
    ids: Map<i64, i64>,
    remapped: Seq<Seq<char>>,
    n: int,
    m: int,
)
    requires
        n <= m,
        remapped_values(columns, values, ids, remapped, n) is Err,
    ensures
        remapped_values(columns, values, ids, remapped, m) == remapped_values(
            columns,
            values,
            ids,
            remapped,
            n,
        ),
    decreases m - n,
{
    if n < m {
        remapped_prefix(columns, values, ids, remapped, n, m - 1);
    }
}

/// Renumbers the values that refer to raw messages.
pub fn remap_store_id_columns(
    columns: &Vec<String>,
    values: &mut Vec<SqlValue>,
    ids: &HashMap<i64, i64>,
    remapped: &Vec<String>,
) -> (r: Result<(), String>)
    requires
        old(values)@.len() == columns@.len(),
    ensures
        match r {
            Ok(_) => remapped_values(
                texts(columns@),
                sql_views(old(values)@),
                ids@,
                texts(remapped@),
                columns@.len() as int,
            ) == Ok::<Seq<SqlView>, Seq<char>>(sql_views(final(values)@)),
            Err(e) => remapped_values(
                texts(columns@),
                sql_views(old(values)@),
                ids@,
                texts(remapped@),
                columns@.len() as int,
            ) == Err::<Seq<SqlView>, Seq<char>>(e@),
        },
        final(values)@.len() == old(values)@.len(),
{
    broadcast use vstd::std_specs::hash::group_hash_axioms;

    let ghost names = texts(columns@);
    let ghost start = sql_views(values@);
    let ghost keys = texts(remapped@);
    let mut i: usize = 0;
    while i < columns.len()
        invariant
            i <= columns@.len(),
            values@.len() == columns@.len(),
            old(values)@.len() == columns@.len(),
            names == texts(columns@),
            start == sql_views(old(values)@),
            keys == texts(remapped@),
            remapped_values(names, start, ids@, keys, i as int) == Ok::<Seq<SqlView>, Seq<char>>(
                sql_views(values@),
            ),
            forall|j: int| i <= j < values@.len() ==> #[trigger] values@[j] == old(values)@[j],
        decreases columns@.len() - i,
    {
        let ghost before = values@;
        assert(names[i as int] == columns@[i as int]@);
        assert(values@[i as int] == old(values)@[i as int]);
        assert(start[i as int] == values@[i as int]@);
        if has_column(remapped, columns[i].as_str()) {
            let old_id = match &values[i] {
                SqlValue::Integer(id) => Some(*id),
                _ => None,
            };
            match old_id {
                Some(id) => match ids.get(&id) {
                    Some(new_id) => {
                        let v = SqlValue::Integer(*new_id);
                        values.set(i, v);
                        assert(sql_views(values@) =~= sql_views(before).update(i as int, v@));
                    },
                    None => {
                        proof {
                            remapped_prefix(
                                names,
                                start,
                                ids@,
                                keys,
                                i as int + 1,
                                columns@.len() as int,
                            );
                        }
                        return Err(
                            concat_three(
                                "referenced raw store_id ",
                                i64_text(id).as_str(),
                                " was not copied",
                            ),
                        );
                    },
                },
                None => {
                    assert(sql_views(before).update(i as int, before[i as int]@) =~= sql_views(
                        before,
                    ));
                },
            }
        } else {
            assert(sql_views(before).update(i as int, before[i as int]@) =~= sql_views(before));
        }
        i += 1;
    }
    Ok(())
}

/// The columns of a table that refer to raw messages by number.
pub open spec fn reference_columns(table: Seq<char>) -> Seq<Seq<char>> {
    if table == "lcm_lifecycle_state"@ {
        seq!["current_frontier_store_id"@, "last_finalized_frontier_store_id"@]
    } else {
        seq!["from_store_id"@, "to_store_id"@]
    }
}

/// A row as it enters the target: sessions name the target project, and
/// references to raw messages are renumbered.
pub open spec fn transformed(
    table: Seq<char>,
    columns: Seq<Seq<char>>,
    values: Seq<SqlView>,
    project: Seq<char>,
    ids: Map<i64, i64>,
) -> Result<Seq<SqlView>, Seq<char>> {
    if table == "sessions"@ {
        Ok(retargeted(columns, values, project))
    } else if table == "lcm_summary_sources"@ {
        remapped_source(columns, values, ids)
    } else if table == "lcm_lifecycle_state"@ || table == "lcm_maintenance_debt"@ {
        remapped_values(columns, values, ids, reference_columns(table), columns.len() as int)
    } else {
        Ok(values)
    }
}

fn reference_names(table: &str) -> (r: Vec<String>)
    ensures
        texts(r@) == reference_columns(table@),
{
    let mut names: Vec<String> = Vec::new();
    if same_text(table, "lcm_lifecycle_state") {
        names.push(copy_text("current_frontier_store_id"));
        names.push(copy_text("last_finalized_frontier_store_id"));
    } else {
        names.push(copy_text("from_store_id"));
        names.push(copy_text("to_store_id"));
    }
    assert(texts(names@) =~= reference_columns(table@));
    names
}

/// The row as it enters the target.
pub fn transform_row(
    table: &str,
    columns: &Vec<String>,
    values: Vec<SqlValue>,
    project: &str,
    ids: &HashMap<i64, i64>,
) -> (r: Result<Vec<SqlValue>, String>)
    requires
        values@.len() == columns@.len(),
    ensures
        row_result(r) == transformed(
            table@,
            texts(columns@),
            sql_views(values@),
            project@,
            ids@,
        ),
{
    let mut values = values;
    if same_text(table, "sessions") {
        retarget_session(columns, &mut values, project);
        return Ok(values);
    }
    if same_text(table, "lcm_summary_sources") {
        return match remap_summary_source(columns, &mut values, ids) {
            Ok(_) => Ok(values),
            Err(e) => Err(e),
        };
    }
    if same_text(table, "lcm_lifecycle_state") || same_text(table, "lcm_maintenance_debt") {
        let names = reference_names(table);
        assert(texts(columns@).len() == columns@.len());
        return match remap_store_id_columns(columns, &mut values, ids, &names) {
            Ok(_) => Ok(values),
            Err(e) => Err(e),
        };
    }
    Ok(values)
}

// ---------------------------------------------------------------------------
// One table.
// ---------------------------------------------------------------------------

/// What happened while a table is copied.
pub enum CopyEvent {
    /// The statement that reads the table was run.
    Opened,
    /// It failed.
    OpenFailed(String),
    /// A row came, cell by cell.
    Row(Vec<Result<SqlValue, String>>),
    /// A row could not be read.
    RowFailed(String),
    /// There are no more rows.
    End,
    /// A row was written; so many rows of the target changed.
    Inserted(u64),
    /// A row could not be written.
    InsertFailed(String),
}

/// What to do next while a table is copied.
pub enum CopyStep {
    /// Read the next row.
    Fetch,
    /// Write this row.
    Insert(Vec<SqlValue>),
    /// The table is copied; so many rows of the target changed.
    Done(u64),
    /// Copying failed.
    Fail(String),
}

/// What a [`CopyStep`] is.
pub enum CopyStepView {
    Fetch,
    Insert(Seq<SqlView>),
    Done(u64),
    Fail(Seq<char>),
}

impl View for CopyStep {
    type V = CopyStepView;

    open spec fn view(&self) -> CopyStepView {
        match self {
            CopyStep::Fetch => CopyStepView::Fetch,
            CopyStep::Insert(values) => CopyStepView::Insert(sql_views(values@)),
            CopyStep::Done(n) => CopyStepView::Done(*n),
            CopyStep::Fail(e) => CopyStepView::Fail(e@),
        }
    }
}

/// The row to write for a row that came, or why there is none.
pub open spec fn prepared(
    table: Seq<char>,
    columns: Seq<Seq<char>>,
    cells: Seq<Result<SqlValue, String>>,
    project: Seq<char>,
    ids: Map<i64, i64>,
) -> Result<Seq<SqlView>, Seq<char>> {
    match decoded("could not decode source row from "@ + table + ": "@, cells) {
        Err(e) => Err(e),
        Ok(values) => transformed(table, columns, values, project, ids),
    }
}

/// A table being copied: its name, its columns, the project and the renumbering
/// that its rows need, and how many rows of the target have changed.
pub struct TableCopy<'a> {
    pub table: String,
    pub columns: Vec<String>,
    pub project: String,
    pub ids: &'a HashMap<i64, i64>,
    pub inserted: u64,
}

/// How many rows have changed after an event.
pub open spec fn inserted_after(inserted: u64, event: CopyEvent) -> int {
    match event {
        CopyEvent::Inserted(n) => inserted + n,
        _ => inserted as int,
    }
}

/// The step after an event.
pub open spec fn copy_step(
    table: Seq<char>,
    columns: Seq<Seq<char>>,
    project: Seq<char>,
    ids: Map<i64, i64>,
    inserted: u64,
    event: CopyEvent,
) -> CopyStepView {
    match event {
        CopyEvent::Opened => CopyStepView::Fetch,
        CopyEvent::OpenFailed(e) => CopyStepView::Fail(
            "could not read source table "@ + table + ": "@ + e@,
        ),
        CopyEvent::Row(cells) => match prepared(table, columns, cells@, project, ids) {
            Ok(values) => CopyStepView::Insert(values),
            Err(e) => CopyStepView::Fail(e),
        },
        CopyEvent::RowFailed(e) => CopyStepView::Fail(
            "could not read source row from "@ + table + ": "@ + e@,
        ),
        CopyEvent::End => CopyStepView::Done(inserted),
        CopyEvent::Inserted(_) => CopyStepView::Fetch,
        CopyEvent::InsertFailed(e) => CopyStepView::Fail(
            "could not copy source row into "@ + table + ": "@ + e@,
        ),
    }
}

impl<'a> TableCopy<'a> {
    /// The step after an event.
    pub fn step(&mut self, event: CopyEvent) -> (r: CopyStep)
        requires
            event matches CopyEvent::Row(cells) ==> cells@.len() == old(self).columns@.len(),
            inserted_after(old(self).inserted, event) <= u64::MAX,
        ensures
            r@ == copy_step(
                old(self).table@,
                texts(old(self).columns@),
                old(self).project@,
                old(self).ids@,
                old(self).inserted,
                event,
            ),
            final(self).inserted == inserted_after(old(self).inserted, event),
            final(self).table == old(self).table,
            final(self).columns == old(self).columns,
            final(self).project == old(self).project,
            final(self).ids == old(self).ids,
    {
        match event {
            CopyEvent::Opened => CopyStep::Fetch,
            CopyEvent::OpenFailed(e) => CopyStep::Fail(
                concat_four("could not read source table ", self.table.as_str(), ": ", e.as_str()),
            ),
            CopyEvent::Row(cells) => {
                let what = concat_three(
                    "could not decode source row from ",
                    self.table.as_str(),
                    ": ",
                );
                match decode_row(what.as_str(), cells) {
                    Ok(values) => match transform_row(
                        self.table.as_str(),
                        &self.columns,
                        values,
                        self.project.as_str(),
                        self.ids,
                    ) {
                        Ok(values) => CopyStep::Insert(values),
                        Err(e) => CopyStep::Fail(e),
                    },
                    Err(e) => CopyStep::Fail(e),
                }
            },
            CopyEvent::RowFailed(e) => CopyStep::Fail(
                concat_four(
                    "could not read source row from ",
                    self.table.as_str(),
                    ": ",
                    e.as_str(),
                ),
            ),
            CopyEvent::End => CopyStep::Done(self.inserted),
            CopyEvent::Inserted(n) => {
                self.inserted = self.inserted + n;
                CopyStep::Fetch
            },
            CopyEvent::InsertFailed(e) => CopyStep::Fail(
                concat_four(
                    "could not copy source row into ",
                    self.table.as_str(),
                    ": ",
                    e.as_str(),
                ),
            ),
        }
    }
}

/// How many rows have changed after events.
pub open spec fn inserted_by(inserted: int, events: Seq<CopyEvent>) -> int
    decreases events.len(),
{
    if events.len() == 0 {
        inserted
    } else {
        inserted_by(inserted, events.drop_last()) + match events.last() {
            CopyEvent::Inserted(n) => n as int,
            _ => 0,
        }
    }
}

/// A table's count is the sum of the rows that its inserts changed.
pub proof fn counts_add_up(inserted: u64, events: Seq<CopyEvent>, event: CopyEvent)
    requires
        inserted == inserted_by(0, events),
    ensures
        inserted_after(inserted, event) == inserted_by(0, events.push(event)),
{
    assert(events.push(event).drop_last() == events);
}

// ---------------------------------------------------------------------------
// Raw messages.
// ---------------------------------------------------------------------------

/// How raw messages are copied.
pub enum RawPlan {
    /// There are none.
    Nothing,
    /// Read with one statement, write each row with the other; the places of
    /// the columns that identify a message.
    Copy {
        columns: Vec<String>,
        provider: usize,
        message_id: usize,
        select: String,
        insert: String,
    },
}

/// Whether a plan is the one for raw messages. The target numbers them itself,
/// so their own numbers are not copied.
pub open spec fn is_raw_plan(
    r: Result<RawPlan, String>,
    source: Seq<Seq<char>>,
    target: Seq<Seq<char>>,
) -> bool {
    let shared = shared_columns(source, target, seq!["store_id"@]);
    if source.len() == 0 {
        r matches Ok(RawPlan::Nothing)
    } else if !source.contains("store_id"@) {
        r matches Err(e) && e@ == "source lcm_raw_messages has no store_id"@
    } else {
        match column_index(shared, "provider"@) {
            None => r matches Err(e) && e@ == "source raw messages have no provider"@,
            Some(p) => match column_index(shared, "message_id"@) {
                None => r matches Err(e) && e@ == "source raw messages have no message_id"@,
                Some(m) => r matches Ok(
                    RawPlan::Copy { columns, provider, message_id, select, insert },
                ) && texts(columns@) == shared && provider == p && message_id == m && select@
                    == raw_select_text(shared) && insert@ == raw_insert_text(shared),
            },
        }
    }
}

/// How the raw messages are copied.
pub fn raw_plan(source: &Vec<String>, target: &Vec<String>) -> (r: Result<RawPlan, String>)
    ensures
        is_raw_plan(r, texts(source@), texts(target@)),
{
    assert(texts(source@).len() == source@.len());
    if source.len() == 0 {
        return Ok(RawPlan::Nothing);
    }
    if !has_column(source, "store_id") {
        return Err(copy_text("source lcm_raw_messages has no store_id"));
    }
    let mut left_out: Vec<String> = Vec::new();
    left_out.push(copy_text("store_id"));
    assert(texts(left_out@) =~= seq!["store_id"@]);
    let columns = columns_to_copy(source, target, &left_out);
    let provider: usize = match position(&columns, "provider") {
        Some(i) => i,
        None => return Err(copy_text("source raw messages have no provider")),
    };
    let message_id: usize = match position(&columns, "message_id") {
        Some(i) => i,
        None => return Err(copy_text("source raw messages have no message_id")),
    };
    let select = raw_select_sql(&columns);
    let insert = raw_insert_sql(&columns);
    Ok(RawPlan::Copy { columns, provider, message_id, select, insert })
}

/// A raw message as it came: its number, the two texts that identify it, and
/// its cells.
pub struct RawRow {
    pub store_id: Result<i64, String>,
    pub provider: Result<String, String>,
    pub message_id: Result<String, String>,
    pub cells: Vec<Result<SqlValue, String>>,
}

/// A raw message to write, and how to find it afterwards.
pub struct RawMessage {
    pub store_id: i64,
    pub provider: String,
    pub message_id: String,
    pub values: Vec<SqlValue>,
}

/// What a [`RawMessage`] holds.
pub struct RawMessageView {
    pub store_id: i64,
    pub provider: Seq<char>,
    pub message_id: Seq<char>,
    pub values: Seq<SqlView>,
}

impl View for RawMessage {
    type V = RawMessageView;

    open spec fn view(&self) -> RawMessageView {
        RawMessageView {
            store_id: self.store_id,
            provider: self.provider@,
            message_id: self.message_id@,
            values: sql_views(self.values@),
        }
    }
}

/// The raw message to write for a row that came, or why there is none.
pub open spec fn raw_message(row: RawRow) -> Result<RawMessageView, Seq<char>> {
    match row.store_id {
        Err(e) => Err("invalid source raw store_id: "@ + e@),
        Ok(store_id) => match row.provider {
            Err(e) => Err("invalid source raw provider: "@ + e@),
            Ok(provider) => match row.message_id {
                Err(e) => Err("invalid source raw message_id: "@ + e@),
                Ok(message_id) => match decoded(
                    "could not decode source raw message: "@,
                    row.cells@,
                ) {
                    Err(e) => Err(e),
                    Ok(values) => Ok(
                        RawMessageView {
                            store_id,
                            provider: provider@,
                            message_id: message_id@,
                            values,
                        },
                    ),
                },
            },
        },
    }
}

/// A raw message as a mathematical object.
pub open spec fn raw_result(r: Result<RawMessage, String>) -> Result<RawMessageView, Seq<char>> {
    match r {
        Ok(m) => Ok(m@),
        Err(e) => Err(e@),
    }
}

/// The raw message to write for the row that came.
pub fn prepare_raw_message(row: RawRow) -> (r: Result<RawMessage, String>)
    ensures
        raw_result(r) == raw_message(row),
{
    let store_id: i64 = match row.store_id {
        Ok(id) => id,
        Err(e) => return Err(with_cause("invalid source raw store_id: ", e.as_str())),
    };
    let provider = match row.provider {
        Ok(s) => s,
        Err(e) => return Err(with_cause("invalid source raw provider: ", e.as_str())),
    };
    let message_id = match row.message_id {
        Ok(s) => s,
        Err(e) => return Err(with_cause("invalid source raw message_id: ", e.as_str())),
    };
    match decode_row("could not decode source raw message: ", row.cells) {
        Ok(values) => Ok(RawMessage { store_id, provider, message_id, values }),
        Err(e) => Err(e),
    }
}

/// The number of a message in the target, or why it is not known.
pub open spec fn target_id(answer: FirstCell<i64>) -> Result<i64, Seq<char>> {
    match answer {
        FirstCell::QueryFailed(e) => Err("could not resolve target raw store_id: "@ + e@),
        FirstCell::ReadFailed(e) => Err("could not read target raw store_id: "@ + e@),
        FirstCell::NoRow => Err("copied raw message is absent from target"@),
        FirstCell::BadCell(e) => Err("invalid target raw store_id: "@ + e@),
        FirstCell::Cell(id) => Ok(id),
    }
}

/// The number of the message in the target.
pub fn target_store_id(answer: FirstCell<i64>) -> (r: Result<i64, String>)
    ensures
        step_result(r) == target_id(answer),
{
    match answer {
        FirstCell::QueryFailed(e) => Err(
            with_cause("could not resolve target raw store_id: ", e.as_str()),
        ),
        FirstCell::ReadFailed(e) => Err(
            with_cause("could not read target raw store_id: ", e.as_str()),
        ),
        FirstCell::NoRow => Err(copy_text("copied raw message is absent from target")),
        FirstCell::BadCell(e) => Err(with_cause("invalid target raw store_id: ", e.as_str())),
        FirstCell::Cell(id) => Ok(id),
    }
}

/// What happened while raw messages are copied.
pub enum RawEvent {
    /// The statement that reads them was run.
    Opened,
    /// It failed.
    OpenFailed(String),
    /// A message came.
    Row(RawRow),
    /// A message could not be read.
    RowFailed(String),
    /// There are no more messages.
    End,
    /// The message at hand was written; so many rows changed.
    Inserted(u64),
    /// The message at hand could not be written.
    InsertFailed(String),
    /// The number under which the message at hand stands in the target.
    Numbered(FirstCell<i64>),
}

/// What to do next while raw messages are copied.
pub enum RawStep {
    /// Read the next message.
    Fetch,
    /// Write this message.
    Insert(RawMessage),
    /// Ask for the number of this message in the target.
    FindNumber { provider: String, message_id: String },
    /// The messages are copied; so many rows of the target changed.
    Done(u64),
    /// Copying failed.
    Fail(String),
}

/// What a [`RawStep`] is.
pub enum RawStepView {
    Fetch,
    Insert(RawMessageView),
    FindNumber { provider: Seq<char>, message_id: Seq<char> },
    Done(int),
    Fail(Seq<char>),
}

impl View for RawStep {
    type V = RawStepView;

    open spec fn view(&self) -> RawStepView {
        match self {
            RawStep::Fetch => RawStepView::Fetch,
            RawStep::Insert(m) => RawStepView::Insert(m@),
            RawStep::FindNumber { provider, message_id } => RawStepView::FindNumber {
                provider: provider@,
                message_id: message_id@,
            },
            RawStep::Done(n) => RawStepView::Done(*n as int),
            RawStep::Fail(e) => RawStepView::Fail(e@),
        }
    }
}

/// The message at hand: its number in the source, and how it is found in the
/// target.
pub struct RawKey {
    pub store_id: i64,
    pub provider: String,
    pub message_id: String,
}

/// What a [`RawKey`] holds.
pub struct RawKeyView {
    pub store_id: i64,
    pub provider: Seq<char>,
    pub message_id: Seq<char>,
}

impl View for RawKey {
    type V = RawKeyView;

    open spec fn view(&self) -> RawKeyView {
        RawKeyView {
            store_id: self.store_id,
            provider: self.provider@,
            message_id: self.message_id@,
        }
    }
}

/// Raw messages being copied: how many rows of the target have changed, which
/// number in the target each number in the source has become, and the message
/// that was handed out and has no number yet.
pub struct RawCopy {
    pub inserted: u64,
    pub ids: HashMap<i64, i64>,
    pub pending: Option<RawKey>,
}

/// What a [`RawCopy`] holds.
pub struct RawCopyView {
    pub inserted: int,
    pub ids: Map<i64, i64>,
    pub pending: Option<RawKeyView>,
}

impl View for RawCopy {
    type V = RawCopyView;

    open spec fn view(&self) -> RawCopyView {
        RawCopyView {
            inserted: self.inserted as int,
            ids: self.ids@,
            pending: match self.pending {
                Some(key) => Some(key@),
                None => None,
            },
        }
    }
}

/// The state before the first message.
pub open spec fn raw_start() -> RawCopyView {
    RawCopyView { inserted: 0, ids: Map::empty(), pending: None }
}

/// How a message is found again.
pub open spec fn key_of(m: RawMessageView) -> RawKeyView {
    RawKeyView { store_id: m.store_id, provider: m.provider, message_id: m.message_id }
}

/// Whether an event can come in a state: what happens to the message at hand
/// needs one, and the next message comes when there is none.
pub open spec fn raw_event_fits(state: RawCopyView, event: RawEvent) -> bool {
    match event {
        RawEvent::Row(_) => state.pending is None,
        RawEvent::End => state.pending is None,
        RawEvent::Inserted(_) => state.pending is Some,
        RawEvent::InsertFailed(_) => state.pending is Some,
        RawEvent::Numbered(_) => state.pending is Some,
        _ => true,
    }
}

/// The state and the step after an event.
pub open spec fn raw_next(state: RawCopyView, event: RawEvent) -> (RawCopyView, RawStepView) {
    match event {
        RawEvent::Opened => (state, RawStepView::Fetch),
        RawEvent::OpenFailed(e) => (
            state,
            RawStepView::Fail("could not read source raw messages: "@ + e@),
        ),
        RawEvent::Row(row) => match raw_message(row) {
            Ok(m) => (
                RawCopyView { pending: Some(key_of(m)), ..state },
                RawStepView::Insert(m),
            ),
            Err(e) => (state, RawStepView::Fail(e)),
        },
        RawEvent::RowFailed(e) => (
            state,
            RawStepView::Fail("could not read source raw message: "@ + e@),
        ),
        RawEvent::End => (state, RawStepView::Done(state.inserted)),
        RawEvent::Inserted(n) => (
            RawCopyView { inserted: state.inserted + n, ..state },
            RawStepView::FindNumber {
                provider: state.pending->0.provider,
                message_id: state.pending->0.message_id,
            },
        ),
        RawEvent::InsertFailed(e) => (
            state,
            RawStepView::Fail("could not copy source raw message: "@ + e@),
        ),
        RawEvent::Numbered(answer) => match target_id(answer) {
            Ok(id) => (
                RawCopyView {
                    ids: state.ids.insert(state.pending->0.store_id, id),
                    pending: None,
                    ..state
                },
                RawStepView::Fetch,
            ),
            Err(e) => (state, RawStepView::Fail(e)),
        },
    }
}

impl RawCopy {
    /// Before the first message.
    pub fn new() -> (r: RawCopy)
        ensures
            r@ == raw_start(),
    {
        broadcast use vstd::std_specs::hash::group_hash_axioms;

        RawCopy { inserted: 0, ids: HashMap::new(), pending: None }
    }

    /// The step after an event.
    pub fn step(&mut self, event: RawEvent) -> (r: RawStep)
        requires
            raw_event_fits(old(self)@, event),
            raw_next(old(self)@, event).0.inserted <= u64::MAX,
        ensures
            (final(self)@, r@) == raw_next(old(self)@, event),
    {
        broadcast use vstd::std_specs::hash::group_hash_axioms;

        match event {
            RawEvent::Opened => RawStep::Fetch,
            RawEvent::OpenFailed(e) => RawStep::Fail(
                with_cause("could not read source raw messages: ", e.as_str()),
            ),
            RawEvent::Row(row) => match prepare_raw_message(row) {
                Ok(m) => {
                    self.pending = Some(
                        RawKey {
                            store_id: m.store_id,
                            provider: copy_text(m.provider.as_str()),
                            message_id: copy_text(m.message_id.as_str()),
                        },
                    );
                    RawStep::Insert(m)
                },
                Err(e) => RawStep::Fail(e),
            },
            RawEvent::RowFailed(e) => RawStep::Fail(
                with_cause("could not read source raw message: ", e.as_str()),
            ),
            RawEvent::End => RawStep::Done(self.inserted),
            RawEvent::Inserted(n) => {
                self.inserted = self.inserted + n;
                let (provider, message_id) = match &self.pending {
                    Some(key) => (
                        copy_text(key.provider.as_str()),
                        copy_text(key.message_id.as_str()),
                    ),
                    None => (String::new(), String::new()),
                };
                RawStep::FindNumber { provider, message_id }
            },
            RawEvent::InsertFailed(e) => RawStep::Fail(
                with_cause("could not copy source raw message: ", e.as_str()),
            ),
            RawEvent::Numbered(answer) => match target_store_id(answer) {
                Ok(id) => {
                    match &self.pending {
                        Some(key) => {
                            let source: i64 = key.store_id;
                            self.ids.insert(source, id);
                        },
                        None => {},
                    }
                    self.pending = None;
                    RawStep::Fetch
                },
                Err(e) => RawStep::Fail(e),
            },
        }
    }
}

/// The state after events, one after the other.
pub open spec fn raw_after(events: Seq<RawEvent>) -> RawCopyView
    decreases events.len(),
{
    if events.len() == 0 {
        raw_start()
    } else {
        raw_next(raw_after(events.drop_last()), events.last()).0
    }
}

/// Whether each event can come where it comes.
pub open spec fn raw_events_fit(events: Seq<RawEvent>) -> bool
    decreases events.len(),
{
    events.len() > 0 ==> {
        &&& raw_events_fit(events.drop_last())
        &&& raw_event_fits(raw_after(events.drop_last()), events.last())
    }
}

/// The messages that were handed out to be written.
pub open spec fn handed_out(events: Seq<RawEvent>) -> Seq<RawMessageView>
    decreases events.len(),
{
    if events.len() == 0 {
        seq![]
    } else {
        let earlier = handed_out(events.drop_last());
        match raw_next(raw_after(events.drop_last()), events.last()).1 {
            RawStepView::Insert(m) => earlier.push(m),
            _ => earlier,
        }
    }
}

/// The messages that were handed out and are not at hand any more.
pub open spec fn settled_messages(events: Seq<RawEvent>) -> Seq<RawMessageView> {
    if raw_after(events).pending is Some {
        handed_out(events).drop_last()
    } else {
        handed_out(events)
    }
}

/// The renumbering knows exactly the messages that were handed out, but for the
/// one at hand, by their numbers in the source.
pub proof fn handed_out_messages_are_numbered(events: Seq<RawEvent>)
    requires
        raw_events_fit(events),
    ensures
        raw_after(events).pending matches Some(key) ==> handed_out(events).len() > 0 && key
            == key_of(handed_out(events).last()),
        forall|id: i64| #[trigger]
            raw_after(events).ids.contains_key(id) <==> exists|i: int|
                0 <= i < settled_messages(events).len() && (
                #[trigger] settled_messages(events)[i]).store_id == id,
    decreases events.len(),
{
    if events.len() > 0 {
        let front = events.drop_last();
        handed_out_messages_are_numbered(front);
        let before = raw_after(front);
        let after = raw_after(events);
        let old_settled = settled_messages(front);
        let settled = settled_messages(events);
        if before.pending is Some && after.pending is None {
            assert(settled == old_settled.push(handed_out(front).last()));
            assert forall|id: i64| #[trigger]
                after.ids.contains_key(id) <==> exists|i: int|
                    0 <= i < settled.len() && (#[trigger] settled[i]).store_id == id by {
                if before.ids.contains_key(id) {
                    let i = choose|i: int|
                        0 <= i < old_settled.len() && (#[trigger] old_settled[i]).store_id == id;
                    assert(settled[i].store_id == id);
                }
                if id == before.pending->0.store_id {
                    assert(settled[settled.len() - 1].store_id == id);
                }
                if exists|i: int| 0 <= i < settled.len() && (#[trigger] settled[i]).store_id == id {
                    let i = choose|i: int|
                        0 <= i < settled.len() && (#[trigger] settled[i]).store_id == id;
                    if i < old_settled.len() {
                        assert(old_settled[i].store_id == id);
                    }
                }
            }
        } else {
            assert(settled == old_settled);
        }
    }
}

/// Once a message has a number in the target, references to it can be
/// renumbered; later messages do not take that away.
pub proof fn numbered_messages_stay_numbered(state: RawCopyView, event: RawEvent, source: i64)
    ensures
        state.ids.contains_key(source) ==> raw_next(state, event).0.ids.contains_key(source),
        event matches RawEvent::Numbered(answer) ==> (target_id(answer) matches Ok(id) ==> {
            &&& raw_next(state, event).0.ids.contains_key(state.pending->0.store_id)
            &&& raw_next(state, event).0.ids[state.pending->0.store_id] == id
        }),
{
}

proof fn remapped_entries(
    columns: Seq<Seq<char>>,
    values: Seq<SqlView>,
    ids: Map<i64, i64>,
    remapped: Seq<Seq<char>>,
    n: int,
)
    requires
        0 <= n <= columns.len(),
        columns.len() == values.len(),
    ensures
        remapped_values(columns, values, ids, remapped, n) matches Ok(after) ==> {
            &&& after.len() == values.len()
            &&& forall|i: int|
                0 <= i < n ==> remapped_value(columns[i], values[i], ids, remapped) == Ok::<
                    SqlView,
                    Seq<char>,
                >(#[trigger] after[i])
            &&& forall|i: int| n <= i < values.len() ==> #[trigger] after[i] == values[i]
        },
    decreases n,
{
    if n > 0 {
        remapped_entries(columns, values, ids, remapped, n - 1);
    }
}

/// Renumbering leaves no stale reference: in a row that is written, every
/// number in a reference column is the new number of the message it named.
pub proof fn references_are_renumbered(
    columns: Seq<Seq<char>>,
    values: Seq<SqlView>,
    ids: Map<i64, i64>,
    remapped: Seq<Seq<char>>,
    i: int,
)
    requires
        columns.len() == values.len(),
        0 <= i < columns.len(),
        remapped.contains(columns[i]),
        remapped_values(columns, values, ids, remapped, columns.len() as int) is Ok,
    ensures
        values[i] matches SqlView::Integer(old_id) ==> ids.contains_key(old_id)
            && remapped_values(
            columns,
            values,
            ids,
            remapped,
            columns.len() as int,
        )->Ok_0[i] == SqlView::Integer(ids[old_id]),
{
    remapped_entries(columns, values, ids, remapped, columns.len() as int);
    let after = remapped_values(columns, values, ids, remapped, columns.len() as int)->Ok_0;
    assert(remapped_value(columns[i], values[i], ids, remapped) == Ok::<SqlView, Seq<char>>(
        after[i],
    ));
}

/// A session that is written names the target project wherever it names one.
pub proof fn sessions_name_the_target(
    columns: Seq<Seq<char>>,
    values: Seq<SqlView>,
    project: Seq<char>,
    i: int,
)
    requires
        0 <= i < columns.len(),
        columns.len() == values.len(),
    ensures
        columns[i] == "project_path"@ || columns[i] == "project_key"@ ==> retargeted(
            columns,
            values,
            project,
        )[i] == SqlView::Text(project),
        columns[i] != "project_path"@ && columns[i] != "project_key"@ ==> retargeted(
            columns,
            values,
            project,
        )[i] == values[i],
{
}

/// Whether a column of a table names a raw message by its number.
pub open spec fn names_raw_message(table: Seq<char>, column: Seq<char>) -> bool {
    ||| table == "lcm_lifecycle_state"@ && (column == "current_frontier_store_id"@ || column
        == "last_finalized_frontier_store_id"@)
    ||| table == "lcm_maintenance_debt"@ && (column == "from_store_id"@ || column
        == "to_store_id"@)
}

proof fn references_by_name(table: Seq<char>, column: Seq<char>)
    requires
        table == "lcm_lifecycle_state"@ || table == "lcm_maintenance_debt"@,
    ensures
        reference_columns(table).contains(column) <==> names_raw_message(table, column),
        table != "sessions"@,
        table != "lcm_summary_sources"@,
{
    reveal_strlit("sessions");
    reveal_strlit("lcm_summary_sources");
    reveal_strlit("lcm_lifecycle_state");
    reveal_strlit("lcm_maintenance_debt");
    assert("lcm_lifecycle_state"@[4] == 'l' && "lcm_maintenance_debt"@[4] == 'm'
        && "lcm_summary_sources"@[4] == 's');
    let names = reference_columns(table);
    if names_raw_message(table, column) {
        assert(column == names[0] || column == names[1]);
    }
}

/// In a row of `lcm_lifecycle_state` that is written, a number under
/// `current_frontier_store_id` and one under `last_finalized_frontier_store_id`
/// are each the new number of the message they named, and likewise those under
/// `from_store_id` and `to_store_id` of `lcm_maintenance_debt`. Every other
/// value of such a row is written as it was read.
pub proof fn written_references_are_renumbered(
    table: Seq<char>,
    columns: Seq<Seq<char>>,
    values: Seq<SqlView>,
    project: Seq<char>,
    ids: Map<i64, i64>,
    i: int,
)
    requires
        columns.len() == values.len(),
        0 <= i < columns.len(),
        table == "lcm_lifecycle_state"@ || table == "lcm_maintenance_debt"@,
    ensures
        transformed(table, columns, values, project, ids) matches Ok(after) ==> {
            &&& after.len() == values.len()
            &&& table == "lcm_lifecycle_state"@ && (columns[i] == "current_frontier_store_id"@
                || columns[i] == "last_finalized_frontier_store_id"@) ==> (
            values[i] matches SqlView::Integer(old_id) ==> ids.contains_key(old_id) && after[i]
                == SqlView::Integer(ids[old_id]))
            &&& table == "lcm_maintenance_debt"@ && (columns[i] == "from_store_id"@ || columns[i]
                == "to_store_id"@) ==> (values[i] matches SqlView::Integer(old_id)
                ==> ids.contains_key(old_id) && after[i] == SqlView::Integer(ids[old_id]))
            &&& !(values[i] is Integer) || !names_raw_message(table, columns[i]) ==> after[i]
                == values[i]
        },
{
    references_by_name(table, columns[i]);
    let remapped = reference_columns(table);
    remapped_entries(columns, values, ids, remapped, columns.len() as int);
    if let Ok(after) = transformed(table, columns, values, project, ids) {
        assert(remapped_value(columns[i], values[i], ids, remapped) == Ok::<SqlView, Seq<char>>(
            after[i],
        ));
    }
}

proof fn remapped_unless_unknown(
    columns: Seq<Seq<char>>,
    values: Seq<SqlView>,
    ids: Map<i64, i64>,
    remapped: Seq<Seq<char>>,
    n: int,
)
    requires
        0 <= n <= columns.len(),
        columns.len() == values.len(),
    ensures
        remapped_values(columns, values, ids, remapped, n) is Err <==> exists|i: int|
            0 <= i < n && remapped.contains(#[trigger] columns[i]) && (
            values[i] matches SqlView::Integer(old_id) && !ids.contains_key(old_id)),
    decreases n,
{
    if n > 0 {
        remapped_unless_unknown(columns, values, ids, remapped, n - 1);
        if remapped_value(columns[n - 1], values[n - 1], ids, remapped) is Err {
            assert(remapped.contains(columns[n - 1]));
        }
    }
}

/// A row of these tables is refused if and only if it names a message that was
/// not copied.
pub proof fn unknown_references_are_refused(
    table: Seq<char>,
    columns: Seq<Seq<char>>,
    values: Seq<SqlView>,
    project: Seq<char>,
    ids: Map<i64, i64>,
)
    requires
        columns.len() == values.len(),
        table == "lcm_lifecycle_state"@ || table == "lcm_maintenance_debt"@,
    ensures
        transformed(table, columns, values, project, ids) is Err <==> exists|i: int|
            0 <= i < columns.len() && names_raw_message(table, #[trigger] columns[i]) && (
            values[i] matches SqlView::Integer(old_id) && !ids.contains_key(old_id)),
{
    let remapped = reference_columns(table);
    references_by_name(table, seq![]);
    remapped_unless_unknown(columns, values, ids, remapped, columns.len() as int);
    assert forall|i: int| 0 <= i < columns.len() implies (remapped.contains(#[trigger] columns[i])
        <==> names_raw_message(table, columns[i])) by {
        references_by_name(table, columns[i]);
    }
}

/// A session that is written names the target project under `project_path` and
/// `project_key`, and is otherwise written as it was read.
pub proof fn written_sessions_name_the_target(
    columns: Seq<Seq<char>>,
    values: Seq<SqlView>,
    project: Seq<char>,
    ids: Map<i64, i64>,
    i: int,
)
    requires
        0 <= i < columns.len(),
        columns.len() == values.len(),
    ensures
        transformed("sessions"@, columns, values, project, ids) matches Ok(after) && {
            &&& after.len() == values.len()
            &&& columns[i] == "project_path"@ || columns[i] == "project_key"@ ==> after[i]
                == SqlView::Text(project)
            &&& columns[i] != "project_path"@ && columns[i] != "project_key"@ ==> after[i]
                == values[i]
        },
{
}

/// A source of a summary that is a raw message is written with the number that
/// this message has in the target, and is refused where it names no copied
/// message. Every other source, and every other value, is written as it was
/// read.
pub proof fn written_sources_are_renumbered(
    columns: Seq<Seq<char>>,
    values: Seq<SqlView>,
    project: Seq<char>,
    ids: Map<i64, i64>,
    kind: int,
    at: int,
    old_id: i64,
)
    requires
        columns.len() == values.len(),
        columns.no_duplicates(),
        0 <= kind < columns.len(),
        0 <= at < columns.len(),
        columns[kind] == "source_kind"@,
        columns[at] == "source_id"@,
    ensures
        values[kind] != SqlView::Text("raw_message"@) ==> transformed(
            "lcm_summary_sources"@,
            columns,
            values,
            project,
            ids,
        ) == Ok::<Seq<SqlView>, Seq<char>>(values),
        values[kind] == SqlView::Text("raw_message"@) ==> (transformed(
            "lcm_summary_sources"@,
            columns,
            values,
            project,
            ids,
        ) matches Ok(after) ==> {
            &&& values[at] matches SqlView::Text(named) && i64_value(named) matches Some(n)
                && ids.contains_key(n) && (after[at] matches SqlView::Text(written)
                && i64_value(written) == Some(ids[n]))
            &&& after.len() == values.len()
            &&& forall|i: int| 0 <= i < values.len() && i != at ==> #[trigger] after[i] == values[i]
        }),
        values[kind] == SqlView::Text("raw_message"@) && values[at] == SqlView::Text(
            integer_text(old_id as int),
        ) ==> (transformed("lcm_summary_sources"@, columns, values, project, ids) is Ok
            <==> ids.contains_key(old_id)),
{
    reveal_strlit("sessions");
    reveal_strlit("lcm_summary_sources");
    assert("sessions"@.len() != "lcm_summary_sources"@.len());
    column_index_at(columns, "source_kind"@, kind);
    column_index_at(columns, "source_id"@, at);
    i64_text_reads_back(old_id);
    if values[kind] == SqlView::Text("raw_message"@) {
        if let SqlView::Text(named) = values[at] {
            if let Some(n) = i64_value(named) {
                if ids.contains_key(n) {
                    i64_text_reads_back(ids[n]);
                }
            }
        }
    }
}

/// The rows of every other table are written as they were read.
pub proof fn other_rows_are_written_as_read(
    table: Seq<char>,
    columns: Seq<Seq<char>>,
    values: Seq<SqlView>,
    project: Seq<char>,
    ids: Map<i64, i64>,
)
    requires
        table != "sessions"@,
        table != "lcm_summary_sources"@,
        table != "lcm_lifecycle_state"@,
        table != "lcm_maintenance_debt"@,
    ensures
        transformed(table, columns, values, project, ids) == Ok::<Seq<SqlView>, Seq<char>>(values),
{
}

/// The tables that are copied are those of the sessions, their messages and
/// what was made of them. Messages are numbered before anything that names them
/// is written, and sessions come before all else.
pub proof fn tables_come_before_what_names_them(table: Seq<char>)
    ensures
        copied_tables().contains(table) <==> (table == "sessions"@ || table == "session_messages"@
            || table == "lcm_external_payloads"@ || table == "lcm_raw_messages"@ || table
            == "lcm_summary_nodes"@ || table == "lcm_summary_sources"@ || table
            == "lcm_lifecycle_state"@ || table == "lcm_maintenance_debt"@),
        copied_tables().len() == TABLE_COUNT,
        copied_tables()[0] == "sessions"@,
        forall|i: int|
            0 <= i < copied_tables().len() && (#[trigger] copied_tables()[i] == "lcm_summary_sources"@
                || copied_tables()[i] == "lcm_lifecycle_state"@ || copied_tables()[i]
                == "lcm_maintenance_debt"@) ==> copied_tables().take(i).contains(
                "lcm_raw_messages"@,
            ),
{
    let all = copied_tables();
    reveal_strlit("sessions");
    reveal_strlit("session_messages");
    reveal_strlit("lcm_external_payloads");
    reveal_strlit("lcm_raw_messages");
    reveal_strlit("lcm_summary_sources");
    reveal_strlit("lcm_lifecycle_state");
    reveal_strlit("lcm_maintenance_debt");
    assert("lcm_lifecycle_state"@[4] == 'l' && "lcm_maintenance_debt"@[4] == 'm'
        && "lcm_summary_sources"@[4] == 's');
    assert("sessions"@[7] == 's' && "session_messages"@[7] == '_' && "lcm_raw_messages"@[4] == 'r'
        && "lcm_external_payloads"@[4] == 'e' && "sessions"@[0] == 's' && "session_messages"@[0]
        == 's' && "lcm_raw_messages"@[0] == 'l');
    assert(all[0] == "sessions"@ && all[1] == "session_messages"@ && all[2]
        == "lcm_external_payloads"@ && all[3] == "lcm_raw_messages"@ && all[4]
        == "lcm_summary_nodes"@ && all[5] == "lcm_summary_sources"@ && all[6]
        == "lcm_lifecycle_state"@ && all[7] == "lcm_maintenance_debt"@);
    assert forall|i: int|
        0 <= i < all.len() && (#[trigger] all[i] == "lcm_summary_sources"@ || all[i]
            == "lcm_lifecycle_state"@ || all[i]
            == "lcm_maintenance_debt"@) implies all.take(i).contains("lcm_raw_messages"@) by {
        if i > 3 {
            assert(all.take(i)[3] == "lcm_raw_messages"@);
        }
    }
}

/// Every column that both stores have, and that is not left out, is copied; the
/// columns keep the order that they have in the source.
pub proof fn shared_columns_are_copied(
    first: Seq<Seq<char>>,
    second: Seq<Seq<char>>,
    target: Seq<Seq<char>>,
    left_out: Seq<Seq<char>>,
    column: Seq<char>,
)
    ensures
        shared_columns(first, target, left_out).contains(column) <==> first.contains(column)
            && target.contains(column) && !left_out.contains(column),
        shared_columns(first + second, target, left_out) == shared_columns(first, target, left_out)
            + shared_columns(second, target, left_out),
        target.contains(column) && !left_out.contains(column) ==> shared_columns(
            seq![column],
            target,
            left_out,
        ) == seq![column],
    decreases first.len() + second.len(),
{
    reveal_with_fuel(shared_columns, 2);
    assert(seq![column].drop_last() == Seq::<Seq<char>>::empty());
    assert(Seq::<Seq<char>>::empty().push(column) == seq![column]);
    if first.len() > 0 {
        let front = first.drop_last();
        shared_columns_are_copied(front, seq![], target, left_out, column);
        assert(first == front.push(first.last()));
        let earlier = shared_columns(front, target, left_out);
        let all = shared_columns(first, target, left_out);
        if first.contains(column) && is_copied(column, target, left_out) {
            let i = choose|i: int| 0 <= i < first.len() && first[i] == column;
            if i < front.len() {
                assert(front[i] == column);
                let k = choose|k: int| 0 <= k < earlier.len() && earlier[k] == column;
                assert(all[k] == column);
            } else {
                assert(all.last() == column);
            }
        }
        if all.contains(column) {
            let k = choose|k: int| 0 <= k < all.len() && all[k] == column;
            copied_columns_are_shared(first, target, left_out, k);
        }
    }
    if second.len() == 0 {
        assert(first + second == first);
    } else {
        shared_columns_are_copied(first, second.drop_last(), target, left_out, column);
        assert((first + second).drop_last() == first + second.drop_last());
        let a = shared_columns(first, target, left_out);
        let b = shared_columns(second.drop_last(), target, left_out);
        assert((a + b).push(second.last()) == a + b.push(second.last()));
    }
}

/// What a plan copies: the columns that both stores have. A source without the
/// table, or one that shares no column, has nothing to copy; a target without
/// it is refused.
pub proof fn plans_copy_shared_columns(
    r: Result<CopyPlan, String>,
    table: Seq<char>,
    source: Seq<Seq<char>>,
    target: Seq<Seq<char>>,
    left_out: Seq<Seq<char>>,
    column: Seq<char>,
)
    requires
        is_copy_plan(r, table, source, target, left_out),
    ensures
        r is Err <==> source.len() > 0 && target.len() == 0,
        r matches Err(message) ==> table.is_suffix_of(message@),
        r matches Ok(CopyPlan::Copy { columns, .. }) ==> (texts(columns@).contains(column)
            <==> source.contains(column) && target.contains(column) && !left_out.contains(column)),
        r matches Ok(CopyPlan::Copy { columns, select, insert }) ==> select@ == select_text(
            texts(columns@),
            table,
        ) && insert@ == insert_text(texts(columns@), table),
        source.contains(column) && target.contains(column) && !left_out.contains(column)
            ==> r matches Ok(CopyPlan::Copy { .. }),
{
    shared_columns_are_copied(source, seq![], target, left_out, column);
}

/// Raw messages are copied without their number, which the target gives anew,
/// and the plan says where a row holds its provider and where its message.
pub proof fn raw_plans_leave_the_number_out(
    r: Result<RawPlan, String>,
    source: Seq<Seq<char>>,
    target: Seq<Seq<char>>,
    column: Seq<char>,
)
    requires
        is_raw_plan(r, source, target),
    ensures
        source.len() == 0 <==> r matches Ok(RawPlan::Nothing),
        r is Err <==> source.len() > 0 && !(source.contains("store_id"@) && source.contains(
            "provider"@,
        ) && target.contains("provider"@) && source.contains("message_id"@) && target.contains(
            "message_id"@,
        )),
        r matches Ok(RawPlan::Copy { columns, select, insert, .. }) ==> select@ == raw_select_text(
            texts(columns@),
        ) && insert@ == raw_insert_text(texts(columns@)),
        r matches Ok(RawPlan::Copy { columns, provider, message_id, .. }) ==> {
            &&& texts(columns@).contains(column) <==> source.contains(column) && target.contains(
                column,
            ) && column != "store_id"@
            &&& provider < texts(columns@).len() && texts(columns@)[provider as int] == "provider"@
            &&& message_id < texts(columns@).len() && texts(columns@)[message_id as int]
                == "message_id"@
        },
{
    let left_out = seq!["store_id"@];
    let shared = shared_columns(source, target, left_out);
    shared_columns_are_copied(source, seq![], target, left_out, column);
    assert(left_out[0] == "store_id"@);
    assert(left_out.contains(column) <==> column == "store_id"@);
    shared_columns_are_copied(source, seq![], target, left_out, "provider"@);
    shared_columns_are_copied(source, seq![], target, left_out, "message_id"@);
    reveal_strlit("store_id");
    reveal_strlit("provider");
    reveal_strlit("message_id");
    assert("store_id"@[0] == 's' && "provider"@[0] == 'p' && "message_id"@[0] == 'm');
    column_index_finds(shared, "provider"@);
    column_index_finds(shared, "message_id"@);
}

/// The cells of a row are read one for one; one that cannot be read refuses the
/// row.
pub proof fn cells_are_read_one_for_one(what: Seq<char>, cells: Seq<Result<SqlValue, String>>)
    ensures
        decoded(what, cells) is Ok <==> forall|i: int|
            0 <= i < cells.len() ==> (#[trigger] cells[i]) is Ok,
        decoded(what, cells) matches Ok(values) ==> values.len() == cells.len() && forall|i: int|
            0 <= i < cells.len() ==> (cells[i] matches Ok(v) && #[trigger] values[i] == v@),
    decreases cells.len(),
{
    if cells.len() > 0 {
        let front = cells.drop_last();
        cells_are_read_one_for_one(what, front);
        assert forall|i: int| 0 <= i < front.len() implies front[i] == #[trigger] cells[i] by {}
        if decoded(what, cells) is Ok {
            assert forall|i: int| 0 <= i < cells.len() implies (#[trigger] cells[i]) is Ok by {
                if i < front.len() {
                    assert(front[i] is Ok);
                }
            }
            let values = decoded(what, cells)->Ok_0;
            assert forall|i: int| 0 <= i < cells.len() implies (cells[i] matches Ok(v)
                && #[trigger] values[i] == v@) by {
                if i < front.len() {
                    assert(decoded(what, front)->Ok_0[i] == values[i]);
                }
            }
        } else if decoded(what, front) is Err {
            let i = choose|i: int| 0 <= i < front.len() && !((#[trigger] front[i]) is Ok);
            assert(!(cells[i] is Ok));
        } else {
            assert(!(cells[cells.len() - 1] is Ok));
        }
    }
}

/// A raw message that is handed out holds its row's own number, provider and
/// message, each in the field of the same name.
pub proof fn raw_messages_hold_their_row(row: RawRow)
    ensures
        raw_message(row) matches Ok(m) ==> {
            &&& row.store_id == Ok::<i64, String>(m.store_id)
            &&& row.provider matches Ok(provider) && provider@ == m.provider
            &&& row.message_id matches Ok(message_id) && message_id@ == m.message_id
            &&& m.values.len() == row.cells@.len()
            &&& forall|i: int|
                0 <= i < m.values.len() ==> (row.cells@[i] matches Ok(v) && #[trigger] m.values[i]
                    == v@)
        },
        raw_message(row) is Err <==> row.store_id is Err || row.provider is Err || row.message_id
            is Err || exists|i: int| 0 <= i < row.cells@.len() && (#[trigger] row.cells@[i]) is Err,
{
    cells_are_read_one_for_one("could not decode source raw message: "@, row.cells@);
    if row.store_id is Ok && row.provider is Ok && row.message_id is Ok && raw_message(row) is Err {
        let i = choose|i: int| 0 <= i < row.cells@.len() && !((#[trigger] row.cells@[i]) is Ok);
        assert(row.cells@[i] is Err);
    }
}

/// A raw message is read, inserted, looked up by its own provider and message,
/// and its number in the source then stands for the number that the target
/// answers; the numbers of other messages stay as they were.
pub proof fn raw_messages_get_their_number(
    state: RawCopyView,
    row: RawRow,
    changed: u64,
    id: i64,
    other: i64,
)
    requires
        state.pending is None,
        raw_message(row) is Ok,
    ensures
        ({
            let (read, first) = raw_next(state, RawEvent::Row(row));
            let (written, second) = raw_next(read, RawEvent::Inserted(changed));
            let (numbered, third) = raw_next(written, RawEvent::Numbered(FirstCell::Cell(id)));
            let (done, last) = raw_next(numbered, RawEvent::End);
            &&& first == RawStepView::Insert(raw_message(row)->Ok_0)
            &&& row.store_id matches Ok(store_id) && numbered.ids.contains_key(store_id)
                && numbered.ids[store_id] == id && (other != store_id
                ==> numbered.ids.contains_key(other) == state.ids.contains_key(other) && (
            state.ids.contains_key(other) ==> numbered.ids[other] == state.ids[other]))
            &&& row.provider matches Ok(p) && row.message_id matches Ok(m) && second
                == (RawStepView::FindNumber { provider: p@, message_id: m@ })
            &&& third == RawStepView::Fetch
            &&& numbered.pending is None
            &&& last == RawStepView::Done(state.inserted + changed)
        }),
{
}

/// A row of a table is inserted as it was made ready, each insertion is counted
/// and followed by the next row, and at the end the count is given; whatever
/// cannot be done stops the copy, with its cause at the end of the message.
pub proof fn copying_goes_on_until_a_failure(
    table: Seq<char>,
    columns: Seq<Seq<char>>,
    project: Seq<char>,
    ids: Map<i64, i64>,
    inserted: u64,
    event: CopyEvent,
)
    ensures
        ({
            let step = copy_step(table, columns, project, ids, inserted, event);
            match event {
                CopyEvent::Opened => step == CopyStepView::Fetch,
                CopyEvent::Inserted(n) => step == CopyStepView::Fetch && inserted_after(
                    inserted,
                    event,
                ) == inserted + n,
                CopyEvent::End => step == CopyStepView::Done(inserted),
                CopyEvent::Row(cells) => step is Insert || step is Fail,
                CopyEvent::OpenFailed(e) => step matches CopyStepView::Fail(message)
                    && e@.is_suffix_of(message),
                CopyEvent::RowFailed(e) => step matches CopyStepView::Fail(message)
                    && e@.is_suffix_of(message),
                CopyEvent::InsertFailed(e) => step matches CopyStepView::Fail(message)
                    && e@.is_suffix_of(message),
            }
        }),
        event matches CopyEvent::Row(cells) ==> (copy_step(
            table,
            columns,
            project,
            ids,
            inserted,
            event,
        ) matches CopyStepView::Insert(after) ==> (forall|i: int|
            0 <= i < cells@.len() ==> (#[trigger] cells@[i]) is Ok) && transformed(
            table,
            columns,
            Seq::new(cells@.len(), |i: int| cells@[i]->Ok_0@),
            project,
            ids,
        ) == Ok::<Seq<SqlView>, Seq<char>>(after)),
{
    if let CopyEvent::Row(cells) = event {
        let what = "could not decode source row from "@ + table + ": "@;
        cells_are_read_one_for_one(what, cells@);
        if let Ok(values) = decoded(what, cells@) {
            assert(values == Seq::new(cells@.len(), |i: int| cells@[i]->Ok_0@));
        }
    }
}

/// Messages, keys and steps are seen with each field under its own name.
pub proof fn raw_messages_are_seen_as_they_are(
    message: RawMessage,
    key: RawKey,
    state: RawCopy,
    provider: String,
    message_id: String,
    values: Vec<SqlValue>,
    n: u64,
)
    ensures
        message@.store_id == message.store_id,
        message@.provider == message.provider@,
        message@.message_id == message.message_id@,
        message@.values == sql_views(message.values@),
        key@.store_id == key.store_id,
        key@.provider == key.provider@,
        key@.message_id == key.message_id@,
        state@.inserted == state.inserted,
        state@.ids == state.ids@,
        (RawStep::FindNumber { provider, message_id })@ == (RawStepView::FindNumber {
            provider: provider@,
            message_id: message_id@,
        }),
        RawStep::Insert(message)@ == RawStepView::Insert(message@),
        CopyStep::Insert(values)@ == CopyStepView::Insert(sql_views(values@)),
        CopyStep::Done(n)@ == CopyStepView::Done(n),
{
}

/// What goes wrong with a table is reported with the table's name.
pub proof fn failures_name_their_table(
    table: Seq<char>,
    columns: Seq<Seq<char>>,
    project: Seq<char>,
    ids: Map<i64, i64>,
    inserted: u64,
    e: String,
)
    ensures
        copy_step(
            table,
            columns,
            project,
            ids,
            inserted,
            CopyEvent::OpenFailed(e),
        ) matches CopyStepView::Fail(message) && contains_text(message, table),
        copy_step(
            table,
            columns,
            project,
            ids,
            inserted,
            CopyEvent::RowFailed(e),
        ) matches CopyStepView::Fail(message) && contains_text(message, table),
        copy_step(
            table,
            columns,
            project,
            ids,
            inserted,
            CopyEvent::InsertFailed(e),
        ) matches CopyStepView::Fail(message) && contains_text(message, table),
{
    let rest = ": "@ + e@;
    let opening = "could not read source table "@;
    let reading = "could not read source row from "@;
    let inserting = "could not copy source row into "@;
    stands_between(opening, table, rest);
    stands_between(reading, table, rest);
    stands_between(inserting, table, rest);
    assert(opening + table + rest == opening + table + ": "@ + e@);
    assert(reading + table + rest == reading + table + ": "@ + e@);
    assert(inserting + table + rest == inserting + table + ": "@ + e@);
}

} // verus!
