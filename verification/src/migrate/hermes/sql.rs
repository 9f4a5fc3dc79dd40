//! Values of the session databases, and the statements that move them.

use crate::decimal::{nat_text, u64_text};
use crate::text::{chars_of, copy_text, join, joined, same_text, texts, texts_push};
use vstd::prelude::*;

verus! {

/// A value in a table. A real number is held by its bits.
#[derive(Debug)]
pub enum SqlValue {
    Null,
    Integer(i64),
    Real(u64),
    Text(String),
    Blob(Vec<u8>),
}

/// What a [`SqlValue`] is.
pub enum SqlView {
    Null,
    Integer(i64),
    Real(u64),
    Text(Seq<char>),
    Blob(Seq<u8>),
}

impl View for SqlValue {
    type V = SqlView;

    open spec fn view(&self) -> SqlView {
        match self {
            SqlValue::Null => SqlView::Null,
            SqlValue::Integer(n) => SqlView::Integer(*n),
            SqlValue::Real(bits) => SqlView::Real(*bits),
            SqlValue::Text(s) => SqlView::Text(s@),
            SqlValue::Blob(b) => SqlView::Blob(b@),
        }
    }
}

/// The values as mathematical objects.
pub open spec fn sql_views(v: Seq<SqlValue>) -> Seq<SqlView> {
    Seq::new(v.len(), |i: int| v[i]@)
}

/// A text with every quotation mark doubled.
pub open spec fn doubled(s: Seq<char>) -> Seq<char>
    decreases s.len(),
{
    if s.len() == 0 {
        s
    } else if s.last() == '"' {
        doubled(s.drop_last()) + seq!['"', '"']
    } else {
        doubled(s.drop_last()).push(s.last())
    }
}

/// An identifier in quotation marks.
pub open spec fn quoted(s: Seq<char>) -> Seq<char> {
    seq!['"'] + doubled(s) + seq!['"']
}

/// The identifier in quotation marks.
pub fn quote_identifier(identifier: &str) -> (r: String)
    ensures
        r@ == quoted(identifier@),
{
    let chars = chars_of(identifier);
    let mut out = String::new();
    out.push('"');
    let mut i: usize = 0;
    assert(identifier@.take(0) == Seq::<char>::empty());
    assert(out@ == seq!['"'] + doubled(identifier@.take(0)));
    while i < chars.len()
        invariant
            i <= chars@.len(),
            chars@ == identifier@,
            out@ == seq!['"'] + doubled(identifier@.take(i as int)),
        decreases chars@.len() - i,
    {
        proof {
            assert(identifier@.take(i as int + 1).drop_last() == identifier@.take(i as int));
            assert(identifier@.take(i as int + 1).last() == identifier@[i as int]);
        }
        let c = chars[i];
        if c == '"' {
            out.push('"');
        }
        out.push(c);
        assert(out@ == seq!['"'] + doubled(identifier@.take(i as int + 1)));
        i += 1;
    }
    assert(identifier@.take(identifier@.len() as int) == identifier@);
    out.push('"');
    assert(out@ == quoted(identifier@));
    out
}

/// What stands between quotation marks, two marks read as one; `None` when a
/// single mark stands inside.
pub open spec fn unquoted_body(s: Seq<char>) -> Option<Seq<char>>
    decreases s.len(),
{
    if s.len() == 0 {
        Some(s)
    } else if s[0] != '"' {
        match unquoted_body(s.skip(1)) {
            Some(rest) => Some(seq![s[0]] + rest),
            None => None,
        }
    } else if s.len() > 1 && s[1] == '"' {
        match unquoted_body(s.skip(2)) {
            Some(rest) => Some(seq!['"'] + rest),
            None => None,
        }
    } else {
        None
    }
}

/// Reads a quoted identifier back.
pub open spec fn unquoted(q: Seq<char>) -> Option<Seq<char>> {
    if q.len() >= 2 && q[0] == '"' && q.last() == '"' {
        unquoted_body(q.subrange(1, q.len() - 1))
    } else {
        None
    }
}

proof fn doubled_front(c: char, s: Seq<char>)
    ensures
        doubled(seq![c] + s) == (if c == '"' {
            seq!['"', '"']
        } else {
            seq![c]
        }) + doubled(s),
    decreases s.len(),
{
    let whole = seq![c] + s;
    if s.len() == 0 {
        assert(whole.drop_last() == Seq::<char>::empty());
        assert(whole.last() == c);
        reveal_with_fuel(doubled, 2);
        assert(doubled(whole) =~= (if c == '"' {
            seq!['"', '"']
        } else {
            seq![c]
        }) + doubled(s));
    } else {
        doubled_front(c, s.drop_last());
        assert(whole.drop_last() == seq![c] + s.drop_last());
        assert(whole.last() == s.last());
        assert(doubled(whole) =~= (if c == '"' {
            seq!['"', '"']
        } else {
            seq![c]
        }) + doubled(s));
    }
}

proof fn doubled_reads_back(s: Seq<char>)
    ensures
        unquoted_body(doubled(s)) == Some(s),
    decreases s.len(),
{
    if s.len() > 0 {
        let rest = s.skip(1);
        doubled_reads_back(rest);
        doubled_front(s[0], rest);
        assert(s == seq![s[0]] + rest);
        if s[0] == '"' {
            assert(doubled(s).skip(2) == doubled(rest));
        } else {
            assert(doubled(s).skip(1) == doubled(rest));
        }
    }
}

/// A quoted identifier reads back as the identifier, whatever characters it
/// has: no name can end its own quotation.
pub proof fn quoting_reads_back(s: Seq<char>)
    ensures
        unquoted(quoted(s)) == Some(s),
{
    doubled_reads_back(s);
    let q = quoted(s);
    assert(q.subrange(1, q.len() - 1) == doubled(s));
}

/// The names as a list of quoted identifiers.
pub open spec fn quoted_list(columns: Seq<Seq<char>>) -> Seq<char> {
    join(Seq::new(columns.len(), |i: int| quoted(columns[i])), ", "@)
}

/// The names as a list of quoted identifiers.
pub fn quote_list(columns: &Vec<String>) -> (r: String)
    ensures
        r@ == quoted_list(texts(columns@)),
{
    let ghost words = texts(columns@);
    let ghost all = Seq::new(words.len(), |i: int| quoted(words[i]));
    let mut parts: Vec<String> = Vec::new();
    let mut i: usize = 0;
    while i < columns.len()
        invariant
            i <= columns@.len(),
            words == texts(columns@),
            all == Seq::new(words.len(), |i: int| quoted(words[i])),
            texts(parts@) == all.take(i as int),
        decreases columns@.len() - i,
    {
        let ghost before = parts@;
        let part = quote_identifier(columns[i].as_str());
        parts.push(part);
        proof {
            texts_push(before, part);
            assert(all.take(i as int + 1) == all.take(i as int).push(part@));
        }
        i += 1;
    }
    assert(all.take(all.len() as int) == all);
    joined(&parts, ", ")
}

/// The placeholders of `n` values.
pub open spec fn placeholder_list(n: nat) -> Seq<char> {
    join(Seq::new(n, |i: int| "?"@ + nat_text((i + 1) as nat)), ", "@)
}

/// The placeholders of `n` values.
pub fn placeholders(n: usize) -> (r: String)
    ensures
        r@ == placeholder_list(n as nat),
{
    let ghost all = Seq::new(n as nat, |i: int| "?"@ + nat_text((i + 1) as nat));
    let mut parts: Vec<String> = Vec::new();
    let mut i: usize = 0;
    while i < n
        invariant
            i <= n,
            all == Seq::new(n as nat, |i: int| "?"@ + nat_text((i + 1) as nat)),
            texts(parts@) == all.take(i as int),
        decreases n - i,
    {
        let ghost before = parts@;
        let number: u64 = i as u64 + 1;
        let mut part = copy_text("?");
        part.append(u64_text(number).as_str());
        parts.push(part);
        proof {
            texts_push(before, part);
            assert(all[i as int] == part@);
            assert(all.take(i as int + 1) == all.take(i as int).push(part@));
        }
        i += 1;
    }
    assert(all.take(all.len() as int) == all);
    joined(&parts, ", ")
}

/// The statement that lists the columns of a table.
pub open spec fn table_info_text(table: Seq<char>) -> Seq<char> {
    "PRAGMA table_info("@ + quoted(table) + ")"@
}

/// The statement that lists the columns of the table.
pub fn table_info_sql(table: &str) -> (r: String)
    ensures
        r@ == table_info_text(table@),
{
    let mut sql = copy_text("PRAGMA table_info(");
    sql.append(quote_identifier(table).as_str());
    sql.append(")");
    sql
}

/// The statement that reads columns of a table, row by row.
pub open spec fn select_text(columns: Seq<Seq<char>>, table: Seq<char>) -> Seq<char> {
    "SELECT "@ + quoted_list(columns) + " FROM "@ + quoted(table) + " ORDER BY rowid"@
}

/// The statement that reads the columns of the table, row by row.
pub fn select_sql(columns: &Vec<String>, table: &str) -> (r: String)
    ensures
        r@ == select_text(texts(columns@), table@),
{
    let mut sql = copy_text("SELECT ");
    sql.append(quote_list(columns).as_str());
    sql.append(" FROM ");
    sql.append(quote_identifier(table).as_str());
    sql.append(" ORDER BY rowid");
    sql
}

/// The statement that puts a row into a table unless it is there.
pub open spec fn insert_text(columns: Seq<Seq<char>>, table: Seq<char>) -> Seq<char> {
    "INSERT OR IGNORE INTO "@ + quoted(table) + " ("@ + quoted_list(columns) + ") VALUES ("@
        + placeholder_list(columns.len()) + ")"@
}

/// The statement that puts a row into the table unless it is there.
pub fn insert_sql(columns: &Vec<String>, table: &str) -> (r: String)
    ensures
        r@ == insert_text(texts(columns@), table@),
{
    assert(texts(columns@).len() == columns@.len());
    let mut sql = copy_text("INSERT OR IGNORE INTO ");
    sql.append(quote_identifier(table).as_str());
    sql.append(" (");
    sql.append(quote_list(columns).as_str());
    sql.append(") VALUES (");
    sql.append(placeholders(columns.len()).as_str());
    sql.append(")");
    sql
}

/// The statement that reads raw messages with their store ids.
pub open spec fn raw_select_text(columns: Seq<Seq<char>>) -> Seq<char> {
    "SELECT store_id, "@ + quoted_list(columns) + " FROM lcm_raw_messages ORDER BY store_id"@
}

/// The statement that reads raw messages with their store ids.
pub fn raw_select_sql(columns: &Vec<String>) -> (r: String)
    ensures
        r@ == raw_select_text(texts(columns@)),
{
    let mut sql = copy_text("SELECT store_id, ");
    sql.append(quote_list(columns).as_str());
    sql.append(" FROM lcm_raw_messages ORDER BY store_id");
    sql
}

/// The statement that puts a raw message in unless it is there.
pub open spec fn raw_insert_text(columns: Seq<Seq<char>>) -> Seq<char> {
    "INSERT OR IGNORE INTO lcm_raw_messages ("@ + quoted_list(columns) + ") VALUES ("@
        + placeholder_list(columns.len()) + ")"@
}

/// The statement that puts a raw message in unless it is there.
pub fn raw_insert_sql(columns: &Vec<String>) -> (r: String)
    ensures
        r@ == raw_insert_text(texts(columns@)),
{
    assert(texts(columns@).len() == columns@.len());
    let mut sql = copy_text("INSERT OR IGNORE INTO lcm_raw_messages (");
    sql.append(quote_list(columns).as_str());
    sql.append(") VALUES (");
    sql.append(placeholders(columns.len()).as_str());
    sql.append(")");
    sql
}

/// The column, or a null in its place when the table does not have it.
pub open spec fn column_or_null(columns: Seq<Seq<char>>, column: Seq<char>) -> Seq<char> {
    if columns.contains(column) {
        column
    } else {
        "NULL"@
    }
}

/// The statement that reads what sessions say of their project, over the
/// columns that an older table may lack.
pub open spec fn project_query_text(columns: Seq<Seq<char>>) -> Seq<char> {
    "SELECT "@ + column_or_null(columns, "project_path"@) + ", "@ + column_or_null(
        columns,
        "project_key"@,
    ) + ", "@ + column_or_null(columns, "metadata_json"@) + " FROM sessions"@
}

/// Whether the column is among the columns.
pub fn has_column(columns: &Vec<String>, column: &str) -> (r: bool)
    ensures
        r == texts(columns@).contains(column@),
{
    let mut i: usize = 0;
    while i < columns.len()
        invariant
            i <= columns@.len(),
            forall|j: int| 0 <= j < i ==> (#[trigger] texts(columns@)[j]) != column@,
        decreases columns@.len() - i,
    {
        assert(texts(columns@)[i as int] == columns@[i as int]@);
        if same_text(columns[i].as_str(), column) {
            return true;
        }
        i += 1;
    }
    false
}

/// The statement that reads the schema version of a store.
pub fn version_sql() -> (r: &'static str)
    ensures
        r@ == "SELECT version FROM session_schema_migrations WHERE name = 'lcm'"@,
{
    "SELECT version FROM session_schema_migrations WHERE name = 'lcm'"
}

/// The statement that finds the number of a raw message by its provider and its
/// id.
pub fn raw_number_sql() -> (r: &'static str)
    ensures
        r@
            == "SELECT store_id FROM lcm_raw_messages WHERE provider = ?1 AND message_id = ?2"@,
{
    "SELECT store_id FROM lcm_raw_messages WHERE provider = ?1 AND message_id = ?2"
}

/// The statement that lists the payloads of a store with their hashes.
pub fn payload_list_sql() -> (r: &'static str)
    ensures
        r@
            == "SELECT payload_ref, content_hash FROM lcm_external_payloads ORDER BY payload_ref"@,
{
    "SELECT payload_ref, content_hash FROM lcm_external_payloads ORDER BY payload_ref"
}

/// The statement that reads what sessions say of their project.
pub fn project_query(columns: &Vec<String>) -> (r: String)
    ensures
        r@ == project_query_text(texts(columns@)),
{
    let mut sql = copy_text("SELECT ");
    sql.append(
        if has_column(columns, "project_path") {
            "project_path"
        } else {
            "NULL"
        },
    );
    sql.append(", ");
    sql.append(
        if has_column(columns, "project_key") {
            "project_key"
        } else {
            "NULL"
        },
    );
    sql.append(", ");
    sql.append(
        if has_column(columns, "metadata_json") {
            "metadata_json"
        } else {
            "NULL"
        },
    );
    sql.append(" FROM sessions");
    sql
}

/// Index of the first column with the name.
pub open spec fn column_index(columns: Seq<Seq<char>>, column: Seq<char>) -> Option<int>
    decreases columns.len(),
{
    if columns.len() == 0 {
        None
    } else if columns[0] == column {
        Some(0)
    } else {
        match column_index(columns.skip(1), column) {
            Some(i) => Some(i + 1),
            None => None,
        }
    }
}

/// A column is found where it first stands.
pub proof fn column_index_at(columns: Seq<Seq<char>>, column: Seq<char>, i: int)
    requires
        0 <= i <= columns.len(),
        forall|j: int| 0 <= j < i ==> (#[trigger] columns[j]) != column,
        i < columns.len() ==> columns[i] == column,
    ensures
        column_index(columns, column) == if i < columns.len() {
            Some(i)
        } else {
            None
        },
    decreases columns.len(),
{
    if i > 0 {
        assert(columns[0] != column);
        assert forall|j: int| 0 <= j < i - 1 implies (#[trigger] columns.skip(1)[j]) != column by {
            assert(columns.skip(1)[j] == columns[j + 1]);
        }
        column_index_at(columns.skip(1), column, i - 1);
    }
}

/// Index of the first column with the name.
pub fn position(columns: &Vec<String>, column: &str) -> (r: Option<usize>)
    ensures
        match r {
            Some(i) => i < columns@.len() && column_index(texts(columns@), column@) == Some(
                i as int,
            ),
            None => column_index(texts(columns@), column@) is None,
        },
{
    let ghost all = texts(columns@);
    let mut i: usize = 0;
    while i < columns.len()
        invariant
            i <= columns@.len(),
            all == texts(columns@),
            forall|j: int| 0 <= j < i ==> (#[trigger] all[j]) != column@,
        decreases columns@.len() - i,
    {
        assert(all[i as int] == columns@[i as int]@);
        if same_text(columns[i].as_str(), column) {
            proof {
                column_index_at(all, column@, i as int);
            }
            return Some(i);
        }
        i += 1;
    }
    proof {
        column_index_at(all, column@, i as int);
    }
    None
}

/// A column is found exactly where it is there, and at a place that holds it.
pub proof fn column_index_finds(columns: Seq<Seq<char>>, column: Seq<char>)
    ensures
        column_index(columns, column) is Some <==> columns.contains(column),
        column_index(columns, column) matches Some(i) ==> 0 <= i < columns.len() && columns[i]
            == column && forall|j: int| 0 <= j < i ==> #[trigger] columns[j] != column,
    decreases columns.len(),
{
    if columns.len() > 0 && columns[0] != column {
        let rest = columns.skip(1);
        column_index_finds(rest, column);
        if columns.contains(column) {
            let i = choose|i: int| 0 <= i < columns.len() && columns[i] == column;
            assert(rest[i - 1] == column);
        }
        if let Some(i) = column_index(rest, column) {
            assert forall|j: int| 0 <= j < i + 1 implies #[trigger] columns[j] != column by {
                if j > 0 {
                    assert(rest[j - 1] == columns[j]);
                }
            }
        }
    }
}

/// Placeholders are numbered from one, in order, and parted by commas.
pub proof fn placeholders_are_numbered(n: nat)
    ensures
        placeholder_list(0).len() == 0,
        placeholder_list(1) == "?"@ + nat_text(1),
        n > 0 ==> placeholder_list(n + 1) == placeholder_list(n) + ", "@ + ("?"@ + nat_text(n + 1)),
{
    let parts = |k: nat| Seq::new(k, |i: int| "?"@ + nat_text((i + 1) as nat));
    assert(parts(1) == seq!["?"@ + nat_text(1)]);
    if n > 0 {
        assert(parts(n + 1).drop_last() == parts(n));
        assert(parts(n + 1).last() == "?"@ + nat_text(n + 1));
    }
}

/// Columns are listed in their order, each quoted, and parted by commas.
pub proof fn columns_are_listed_in_order(columns: Seq<Seq<char>>, column: Seq<char>)
    ensures
        quoted_list(seq![column]) == quoted(column),
        columns.len() > 0 ==> quoted_list(columns.push(column)) == quoted_list(columns) + ", "@
            + quoted(column),
{
    let parts = |c: Seq<Seq<char>>| Seq::new(c.len(), |i: int| quoted(c[i]));
    assert(parts(seq![column]) == seq![quoted(column)]);
    if columns.len() > 0 {
        assert(parts(columns.push(column)).drop_last() == parts(columns));
        assert(parts(columns.push(column)).last() == quoted(column));
    }
}

/// What is read and what is written is the same list of columns of the same
/// table, rows are read in the order in which they were stored, and rows that
/// the target has already are left as they are.
pub proof fn statements_name_columns_and_table(columns: Seq<Seq<char>>, table: Seq<char>)
    ensures
        ("SELECT "@ + quoted_list(columns) + " FROM "@ + quoted(table)).is_prefix_of(
            select_text(columns, table),
        ),
        " ORDER BY rowid"@.is_suffix_of(select_text(columns, table)),
        ("INSERT OR IGNORE INTO "@ + quoted(table) + " ("@ + quoted_list(columns)
            + ") VALUES ("@).is_prefix_of(insert_text(columns, table)),
        (placeholder_list(columns.len()) + ")"@).is_suffix_of(insert_text(columns, table)),
        ("SELECT store_id, "@ + quoted_list(columns) + " FROM lcm_raw_messages"@).is_prefix_of(
            raw_select_text(columns),
        ),
        " ORDER BY store_id"@.is_suffix_of(raw_select_text(columns)),
        ("INSERT OR IGNORE INTO lcm_raw_messages ("@ + quoted_list(columns)
            + ") VALUES ("@).is_prefix_of(raw_insert_text(columns)),
        (placeholder_list(columns.len()) + ")"@).is_suffix_of(raw_insert_text(columns)),
{
    let list = quoted_list(columns);
    let places = placeholder_list(columns.len());
    let select = select_text(columns, table);
    let head = "SELECT "@ + list + " FROM "@ + quoted(table);
    assert(select.subrange(0, head.len() as int) == head);
    assert(select.subrange(head.len() as int, select.len() as int) == " ORDER BY rowid"@);
    let insert = insert_text(columns, table);
    let into = "INSERT OR IGNORE INTO "@ + quoted(table) + " ("@ + list + ") VALUES ("@;
    assert(insert.subrange(0, into.len() as int) == into);
    assert(insert.subrange(into.len() as int, insert.len() as int) == places + ")"@);
    reveal_strlit(" FROM lcm_raw_messages ORDER BY store_id");
    reveal_strlit(" FROM lcm_raw_messages");
    reveal_strlit(" ORDER BY store_id");
    assert(" FROM lcm_raw_messages ORDER BY store_id"@ == " FROM lcm_raw_messages"@
        + " ORDER BY store_id"@);
    let raw = raw_select_text(columns);
    let from = "SELECT store_id, "@ + list + " FROM lcm_raw_messages"@;
    assert(raw == from + " ORDER BY store_id"@);
    assert(raw.subrange(0, from.len() as int) == from);
    assert(raw.subrange(from.len() as int, raw.len() as int) == " ORDER BY store_id"@);
    let stored = raw_insert_text(columns);
    let raws = "INSERT OR IGNORE INTO lcm_raw_messages ("@ + list + ") VALUES ("@;
    assert(stored.subrange(0, raws.len() as int) == raws);
    assert(stored.subrange(raws.len() as int, stored.len() as int) == places + ")"@);
}

/// Of each session its path, its key and its metadata are read, in this order;
/// nothing is read for a column that the store does not have.
pub proof fn sessions_are_asked_for_paths(columns: Seq<Seq<char>>)
    ensures
        columns.contains("project_path"@) ==> ("SELECT "@ + "project_path"@ + ", "@).is_prefix_of(
            project_query_text(columns),
        ),
        !columns.contains("project_path"@) ==> ("SELECT "@ + "NULL"@ + ", "@).is_prefix_of(
            project_query_text(columns),
        ),
        columns.contains("metadata_json"@) ==> (", "@ + "metadata_json"@
            + " FROM sessions"@).is_suffix_of(project_query_text(columns)),
        !columns.contains("metadata_json"@) ==> (", "@ + "NULL"@ + " FROM sessions"@).is_suffix_of(
            project_query_text(columns),
        ),
        columns.contains("project_path"@) && columns.contains("project_key"@) ==> ("SELECT "@
            + "project_path"@ + ", "@ + "project_key"@ + ", "@).is_prefix_of(
            project_query_text(columns),
        ),
        columns.contains("project_path"@) && !columns.contains("project_key"@) ==> ("SELECT "@
            + "project_path"@ + ", "@ + "NULL"@ + ", "@).is_prefix_of(project_query_text(columns)),
{
    let text = project_query_text(columns);
    let path = "SELECT "@ + column_or_null(columns, "project_path"@) + ", "@;
    let key = path + column_or_null(columns, "project_key"@);
    let end = ", "@ + column_or_null(columns, "metadata_json"@) + " FROM sessions"@;
    assert(text == key + end);
    assert(text.subrange(0, path.len() as int) == path);
    assert(text.subrange(0, (key.len() + ", "@.len()) as int) == key + ", "@);
    assert(text.subrange(key.len() as int, text.len() as int) == end);
}

/// A table is asked for its columns by its quoted name.
pub proof fn tables_are_asked_for_columns(table: Seq<char>)
    ensures
        ("PRAGMA table_info("@ + quoted(table)).is_prefix_of(table_info_text(table)),
        ")"@.is_suffix_of(table_info_text(table)),
{
    let head = "PRAGMA table_info("@ + quoted(table);
    let text = table_info_text(table);
    assert(text.subrange(0, head.len() as int) == head);
    assert(text.subrange(head.len() as int, text.len() as int) == ")"@);
}

} // verus!
