//! Messages that show unfinished work.

use crate::json::{string_option, text_at, text_option, Json, JsonView};
use crate::json_io::{json_reading, parse_json};
use crate::text::{capped, cap_chars, capped_length, collapse_spaces, contains_text, copy_text, first_bounds, first_solid, is_space, lower_ascii, lower_ascii_char, one_line, one_line_keeps_words, stands_at, text_contains, to_lower_ascii, trim, trim_keeps_solid, trim_start, trimmed, words};
use vstd::prelude::*;

verus! {

/// The longest evidence text, in characters.
pub const EVIDENCE_CAP: usize = 180;

/// The most messages that one query returns.
pub const QUERY_LIMIT_MAX: usize = 250;

/// One message that shows unfinished work.
#[derive(Debug, Clone, PartialEq, Eq)]
pub struct WorkflowStateItem {
    pub status: String,
    pub provider: String,
    pub session_id: String,
    pub task_id: Option<String>,
    pub message_id: String,
    pub ordinal: i64,
    pub evidence: String,
}

/// What a [`WorkflowStateItem`] says.
pub struct ItemView {
    pub status: Seq<char>,
    pub provider: Seq<char>,
    pub session_id: Seq<char>,
    pub task_id: Option<Seq<char>>,
    pub message_id: Seq<char>,
    pub ordinal: i64,
    pub evidence: Seq<char>,
}

impl View for WorkflowStateItem {
    type V = ItemView;

    open spec fn view(&self) -> ItemView {
        ItemView {
            status: self.status@,
            provider: self.provider@,
            session_id: self.session_id@,
            task_id: string_option(self.task_id),
            message_id: self.message_id@,
            ordinal: self.ordinal,
            evidence: self.evidence@,
        }
    }
}

/// A stored message as the query hands it out: each column is read on its own
/// and reading it may fail.
pub struct MessageRow {
    pub provider: Result<String, String>,
    pub session_id: Result<String, String>,
    pub message_id: Result<String, String>,
    pub ordinal: Result<i64, String>,
    pub content: Result<String, String>,
    pub snippet: Result<String, String>,
    pub metadata_json: Result<String, String>,
}

/// What a [`MessageRow`] says.
pub struct RowView {
    pub provider: Result<Seq<char>, Seq<char>>,
    pub session_id: Result<Seq<char>, Seq<char>>,
    pub message_id: Result<Seq<char>, Seq<char>>,
    pub ordinal: Result<i64, Seq<char>>,
    pub content: Result<Seq<char>, Seq<char>>,
    pub snippet: Result<Seq<char>, Seq<char>>,
    pub metadata_json: Result<Seq<char>, Seq<char>>,
}

/// A column of text, or why it could not be read.
pub open spec fn text_column(c: Result<String, String>) -> Result<Seq<char>, Seq<char>> {
    match c {
        Ok(s) => Ok(s@),
        Err(e) => Err(e@),
    }
}

impl View for MessageRow {
    type V = RowView;

    open spec fn view(&self) -> RowView {
        RowView {
            provider: text_column(self.provider),
            session_id: text_column(self.session_id),
            message_id: text_column(self.message_id),
            ordinal: match self.ordinal {
                Ok(n) => Ok(n),
                Err(e) => Err(e@),
            },
            content: text_column(self.content),
            snippet: text_column(self.snippet),
            metadata_json: text_column(self.metadata_json),
        }
    }
}

/// The statement that reads the messages that may show unfinished work, newest
/// first.
pub fn unfinished_sql() -> (r: &'static str)
    ensures
        r@
            == "SELECT provider, session_id, message_id, ordinal, content, COALESCE(snippet_text, ''), COALESCE(metadata_json, '') FROM lcm_raw_messages WHERE lower(content) LIKE '%session limit%' OR lower(content) LIKE '%blocked%' OR lower(content) LIKE '%interrupted%' OR lower(content) LIKE '%runs:0%' OR lower(content) LIKE '%\"runs\":0%' ORDER BY COALESCE(timestamp, 0) DESC, store_id DESC LIMIT ?1"@,
{
    "SELECT provider, session_id, message_id, ordinal, content, COALESCE(snippet_text, ''), COALESCE(metadata_json, '') FROM lcm_raw_messages WHERE lower(content) LIKE '%session limit%' OR lower(content) LIKE '%blocked%' OR lower(content) LIKE '%interrupted%' OR lower(content) LIKE '%runs:0%' OR lower(content) LIKE '%\"runs\":0%' ORDER BY COALESCE(timestamp, 0) DESC, store_id DESC LIMIT ?1"
}

/// How many messages to ask for: `limit`, but at least 1 and at most
/// [`QUERY_LIMIT_MAX`].
pub fn query_limit(limit: usize) -> (r: i64)
    ensures
        r == if limit < 1 {
            1
        } else if limit > QUERY_LIMIT_MAX {
            QUERY_LIMIT_MAX as int
        } else {
            limit as int
        },
        1 <= r <= 250,
        1 <= limit <= 250 ==> r == limit,
{
    if limit < 1 {
        1
    } else if limit > QUERY_LIMIT_MAX {
        QUERY_LIMIT_MAX as i64
    } else {
        limit as i64
    }
}

/// The status that a message shows: the first of the known markers that it
/// holds, whatever the case of its ASCII letters.
pub open spec fn status_of(text: Seq<char>) -> Option<Seq<char>> {
    let lower = lower_ascii(text);
    if contains_text(lower, "session limit"@) {
        Some("session limit"@)
    } else if contains_text(lower, "runs:0"@) || contains_text(lower, "\"runs\":0"@) {
        Some("runs:0"@)
    } else if contains_text(lower, "blocked"@) {
        Some("blocked"@)
    } else if contains_text(lower, "interrupted"@) {
        Some("interrupted"@)
    } else {
        None
    }
}

/// The status that a message shows.
pub fn classify_status(text: &str) -> (r: Option<&'static str>)
    ensures
        text_option(r) == status_of(text@),
{
    let lower = to_lower_ascii(text);
    if text_contains(lower.as_str(), "session limit") {
        Some("session limit")
    } else if text_contains(lower.as_str(), "runs:0") || text_contains(
        lower.as_str(),
        "\"runs\":0",
    ) {
        Some("runs:0")
    } else if text_contains(lower.as_str(), "blocked") {
        Some("blocked")
    } else if text_contains(lower.as_str(), "interrupted") {
        Some("interrupted")
    } else {
        None
    }
}

/// A text on one line, capped at [`EVIDENCE_CAP`] characters.
pub open spec fn evidence_text(text: Seq<char>) -> Seq<char> {
    capped(one_line(text), EVIDENCE_CAP as nat)
}

/// The text on one line, capped at [`EVIDENCE_CAP`] characters.
pub fn compact_evidence(text: &str) -> (r: String)
    ensures
        r@ == evidence_text(text@),
{
    cap_chars(&collapse_spaces(text), EVIDENCE_CAP)
}

/// Status and evidence of a message. The evidence comes from the snippet,
/// unless that is blank.
pub open spec fn evidence_of(content: Seq<char>, snippet: Seq<char>) -> Option<
    (Seq<char>, Seq<char>),
> {
    match status_of(content) {
        Some(status) => Some(
            (
                status,
                evidence_text(
                    if trim(snippet).len() == 0 {
                        content
                    } else {
                        snippet
                    },
                ),
            ),
        ),
        None => None,
    }
}

/// Status and evidence of a message.
pub fn classify_evidence(content: &str, snippet: &str) -> (r: Option<(String, String)>)
    ensures
        match r {
            Some(pair) => evidence_of(content@, snippet@) == Some((pair.0@, pair.1@)),
            None => evidence_of(content@, snippet@) is None,
        },
{
    match classify_status(content) {
        Some(status) => {
            let source = if trimmed(snippet).as_str().is_empty() {
                content
            } else {
                snippet
            };
            Some((copy_text(status), compact_evidence(source)))
        },
        None => None,
    }
}

/// The task id that message metadata names: the text under the first of the
/// known keys that holds one, unless that text is empty.
pub open spec fn task_id_of(metadata: JsonView) -> Option<Seq<char>> {
    let named = if text_at(metadata, "task_id"@) is Some {
        text_at(metadata, "task_id"@)
    } else if text_at(metadata, "taskId"@) is Some {
        text_at(metadata, "taskId"@)
    } else if text_at(metadata, "task"@) is Some {
        text_at(metadata, "task"@)
    } else {
        text_at(metadata, "id"@)
    };
    match named {
        Some(id) => if id.len() == 0 {
            None
        } else {
            Some(id)
        },
        None => None,
    }
}

/// The task id that parsed message metadata names.
pub fn task_id_in(metadata: &Json) -> (r: Option<String>)
    ensures
        string_option(r) == task_id_of(metadata@),
{
    let named = match metadata.str_at("task_id") {
        Some(id) => Some(id),
        None => match metadata.str_at("taskId") {
            Some(id) => Some(id),
            None => match metadata.str_at("task") {
                Some(id) => Some(id),
                None => metadata.str_at("id"),
            },
        },
    };
    match named {
        Some(id) => if id.is_empty() {
            None
        } else {
            Some(copy_text(id))
        },
        None => None,
    }
}

/// The task id in a metadata text; nothing when the text is no JSON.
pub open spec fn metadata_task_id(metadata_json: Seq<char>) -> Option<Seq<char>> {
    match json_reading(metadata_json) {
        Ok(metadata) => task_id_of(metadata),
        Err(_) => None,
    }
}

/// The task id that message metadata names.
pub fn task_id_from_metadata(metadata_json: &str) -> (r: Option<String>)
    ensures
        string_option(r) == metadata_task_id(metadata_json@),
{
    match parse_json(metadata_json) {
        Ok(metadata) => task_id_in(&metadata),
        Err(_) => None,
    }
}

/// The item that a row gives: none when its content shows no unfinished work,
/// an error when a column that is needed cannot be read.
pub open spec fn row_item(row: RowView) -> Result<Option<ItemView>, Seq<char>> {
    match (row.content, row.snippet) {
        (Err(e), _) => Err(e),
        (Ok(_), Err(e)) => Err(e),
        (Ok(content), Ok(snippet)) => match evidence_of(content, snippet) {
            None => Ok(None),
            Some((status, evidence)) => match (
                row.metadata_json,
                row.provider,
                row.session_id,
                row.message_id,
                row.ordinal,
            ) {
                (Err(e), _, _, _, _) => Err(e),
                (Ok(_), Err(e), _, _, _) => Err(e),
                (Ok(_), Ok(_), Err(e), _, _) => Err(e),
                (Ok(_), Ok(_), Ok(_), Err(e), _) => Err(e),
                (Ok(_), Ok(_), Ok(_), Ok(_), Err(e)) => Err(e),
                (
                    Ok(metadata),
                    Ok(provider),
                    Ok(session_id),
                    Ok(message_id),
                    Ok(ordinal),
                ) => Ok(
                    Some(
                        ItemView {
                            status,
                            provider,
                            session_id,
                            task_id: metadata_task_id(metadata),
                            message_id,
                            ordinal,
                            evidence,
                        },
                    ),
                ),
            },
        },
    }
}

/// The item that a row gives.
pub fn item_from_row(row: &MessageRow) -> (r: Result<Option<WorkflowStateItem>, String>)
    ensures
        match r {
            Ok(Some(item)) => row_item(row@) == Ok::<Option<ItemView>, Seq<char>>(Some(item@)),
            Ok(None) => row_item(row@) == Ok::<Option<ItemView>, Seq<char>>(None),
            Err(e) => row_item(row@) == Err::<Option<ItemView>, Seq<char>>(e@),
        },
{
    let content = match &row.content {
        Ok(s) => s,
        Err(e) => return Err(e.clone()),
    };
    let snippet = match &row.snippet {
        Ok(s) => s,
        Err(e) => return Err(e.clone()),
    };
    let (status, evidence) = match classify_evidence(content.as_str(), snippet.as_str()) {
        Some(pair) => pair,
        None => return Ok(None),
    };
    let metadata = match &row.metadata_json {
        Ok(s) => s,
        Err(e) => return Err(e.clone()),
    };
    let provider = match &row.provider {
        Ok(s) => s.clone(),
        Err(e) => return Err(e.clone()),
    };
    let session_id = match &row.session_id {
        Ok(s) => s.clone(),
        Err(e) => return Err(e.clone()),
    };
    let message_id = match &row.message_id {
        Ok(s) => s.clone(),
        Err(e) => return Err(e.clone()),
    };
    let ordinal: i64 = match &row.ordinal {
        Ok(n) => *n,
        Err(e) => return Err(e.clone()),
    };
    Ok(
        Some(
            WorkflowStateItem {
                status,
                provider,
                session_id,
                task_id: task_id_from_metadata(metadata.as_str()),
                message_id,
                ordinal,
                evidence,
            },
        ),
    )
}

/// A fetched row, or why fetching it failed.
pub open spec fn fetched(row: Result<MessageRow, String>) -> Result<RowView, Seq<char>> {
    match row {
        Ok(row) => Ok(row@),
        Err(e) => Err(e@),
    }
}

/// What the fetched rows say.
pub open spec fn fetched_rows(rows: Seq<Result<MessageRow, String>>) -> Seq<
    Result<RowView, Seq<char>>,
> {
    Seq::new(rows.len(), |i: int| fetched(rows[i]))
}

/// What the items say.
pub open spec fn item_views(items: Seq<WorkflowStateItem>) -> Seq<ItemView> {
    Seq::new(items.len(), |i: int| items[i]@)
}

/// The items of all rows in order, or the first failure.
pub open spec fn rows_items(rows: Seq<Result<RowView, Seq<char>>>) -> Result<
    Seq<ItemView>,
    Seq<char>,
>
    decreases rows.len(),
{
    if rows.len() == 0 {
        Ok(seq![])
    } else {
        match rows[0] {
            Err(e) => Err(e),
            Ok(row) => match row_item(row) {
                Err(e) => Err(e),
                Ok(None) => rows_items(rows.skip(1)),
                Ok(Some(item)) => match rows_items(rows.skip(1)) {
                    Err(e) => Err(e),
                    Ok(items) => Ok(seq![item] + items),
                },
            },
        }
    }
}

/// `items` in front of what comes later.
spec fn after(items: Seq<ItemView>, later: Result<Seq<ItemView>, Seq<char>>) -> Result<
    Seq<ItemView>,
    Seq<char>,
> {
    match later {
        Ok(more) => Ok(items + more),
        Err(e) => Err(e),
    }
}

/// The unfinished work that the fetched rows show.
pub fn unfinished_from_rows(rows: &Vec<Result<MessageRow, String>>) -> (r: Result<
    Vec<WorkflowStateItem>,
    String,
>)
    ensures
        match r {
            Ok(items) => rows_items(fetched_rows(rows@)) == Ok::<Seq<ItemView>, Seq<char>>(
                item_views(items@),
            ),
            Err(e) => rows_items(fetched_rows(rows@)) == Err::<Seq<ItemView>, Seq<char>>(e@),
        },
{
    let mut out: Vec<WorkflowStateItem> = Vec::new();
    let mut i: usize = 0;
    let ghost all = fetched_rows(rows@);
    proof {
        assert(all.skip(0) == all);
        assert(after(item_views(out@), rows_items(all)) =~= rows_items(all)) by {
            if let Ok(more) = rows_items(all) {
                assert(item_views(out@) + more == more);
            }
        }
    }
    while i < rows.len()
        invariant
            i <= rows@.len(),
            all == fetched_rows(rows@),
            rows_items(all) == after(item_views(out@), rows_items(all.skip(i as int))),
        decreases rows@.len() - i,
    {
        let ghost rest = all.skip(i as int);
        let ghost before = out@;
        proof {
            assert(rest[0] == fetched(rows@[i as int]));
            assert(rest.skip(1) == all.skip(i as int + 1));
        }
        match &rows[i] {
            Err(e) => {
                return Err(e.clone());
            },
            Ok(row) => match item_from_row(row) {
                Err(e) => {
                    return Err(e);
                },
                Ok(None) => {},
                Ok(Some(item)) => {
                    out.push(item);
                    proof {
                        assert(item_views(out@) =~= item_views(before).push(item@));
                        if let Ok(more) = rows_items(rest.skip(1)) {
                            assert(item_views(before) + (seq![item@] + more) == item_views(out@)
                                + more);
                        }
                    }
                },
            },
        }
        i += 1;
    }
    proof {
        assert(all.skip(i as int) == Seq::<Result<RowView, Seq<char>>>::empty());
        assert(item_views(out@) + Seq::<ItemView>::empty() == item_views(out@));
    }
    Ok(out)
}

// ---------------------------------------------------------------------------
// Laws.
// ---------------------------------------------------------------------------

/// Evidence is never longer than [`EVIDENCE_CAP`] characters.
pub proof fn evidence_is_bounded(text: Seq<char>)
    ensures
        evidence_text(text).len() <= EVIDENCE_CAP,
{
    capped_length(one_line(text), EVIDENCE_CAP as nat);
}

/// A text whose lower case holds a marker has a character that is no blank.
proof fn marker_is_solid(text: Seq<char>, marker: Seq<char>)
    requires
        marker.len() > 0,
        !is_space(marker[0]),
        contains_text(lower_ascii(text), marker),
    ensures
        one_line(text).len() > 0,
{
    let lower = lower_ascii(text);
    let at = choose|at: int| #[trigger] stands_at(lower, marker, at);
    assert(lower.subrange(at, at + marker.len())[0] == lower[at]);
    assert(lower[at] == lower_ascii_char(text[at]));
    one_line_keeps_words(text, at);
}

/// Evidence is never empty.
pub proof fn evidence_is_never_empty(content: Seq<char>, snippet: Seq<char>)
    ensures
        evidence_of(content, snippet) matches Some((status, evidence)) ==> evidence.len() > 0,
{
    if evidence_of(content, snippet) is Some {
        reveal_strlit("session limit");
        reveal_strlit("runs:0");
        reveal_strlit("\"runs\":0");
        reveal_strlit("blocked");
        reveal_strlit("interrupted");
        let lower = lower_ascii(content);
        if trim(snippet).len() == 0 {
            if contains_text(lower, "session limit"@) {
                marker_is_solid(content, "session limit"@);
            } else if contains_text(lower, "runs:0"@) {
                marker_is_solid(content, "runs:0"@);
            } else if contains_text(lower, "\"runs\":0"@) {
                marker_is_solid(content, "\"runs\":0"@);
            } else if contains_text(lower, "blocked"@) {
                marker_is_solid(content, "blocked"@);
            } else {
                marker_is_solid(content, "interrupted"@);
            }
        } else {
            first_bounds(snippet);
            one_line_keeps_words(snippet, first_solid(snippet));
        }
    }
}

/// Every item that the rows give comes from one of them, with the status and
/// evidence of that row's content.
pub proof fn items_come_from_rows(rows: Seq<Result<RowView, Seq<char>>>, items: Seq<ItemView>, i: int)
    requires
        rows_items(rows) == Ok::<Seq<ItemView>, Seq<char>>(items),
        0 <= i < items.len(),
    ensures
        exists|j: int|
            0 <= j < rows.len() && (#[trigger] rows[j]) is Ok && row_item(rows[j]->Ok_0) == Ok::<
                Option<ItemView>,
                Seq<char>,
            >(Some(items[i])),
    decreases rows.len(),
{
    let row = rows[0]->Ok_0;
    let rest = rows.skip(1);
    match row_item(row) {
        Ok(None) => {
            items_come_from_rows(rest, items, i);
            let j = choose|j: int|
                0 <= j < rest.len() && (#[trigger] rest[j]) is Ok && row_item(rest[j]->Ok_0)
                    == Ok::<Option<ItemView>, Seq<char>>(Some(items[i]));
            assert(rows[j + 1] == rest[j]);
        },
        Ok(Some(item)) => {
            let more = rows_items(rest)->Ok_0;
            if i == 0 {
                assert(rows[0] is Ok);
            } else {
                assert(items[i] == more[i - 1]);
                items_come_from_rows(rest, more, i - 1);
                let j = choose|j: int|
                    0 <= j < rest.len() && (#[trigger] rest[j]) is Ok && row_item(rest[j]->Ok_0)
                        == Ok::<Option<ItemView>, Seq<char>>(Some(more[i - 1]));
                assert(rows[j + 1] == rest[j]);
            }
        },
        Err(_) => {},
    }
}

/// A row and an item are seen with each of their fields under its own name.
pub proof fn rows_and_items_are_seen_as_they_are(row: MessageRow, item: WorkflowStateItem)
    ensures
        row.provider matches Ok(s) ==> row@.provider == Ok::<Seq<char>, Seq<char>>(s@),
        row.session_id matches Ok(s) ==> row@.session_id == Ok::<Seq<char>, Seq<char>>(s@),
        row.message_id matches Ok(s) ==> row@.message_id == Ok::<Seq<char>, Seq<char>>(s@),
        row.ordinal matches Ok(n) ==> row@.ordinal == Ok::<i64, Seq<char>>(n),
        row.content matches Ok(s) ==> row@.content == Ok::<Seq<char>, Seq<char>>(s@),
        row.snippet matches Ok(s) ==> row@.snippet == Ok::<Seq<char>, Seq<char>>(s@),
        row.metadata_json matches Ok(s) ==> row@.metadata_json == Ok::<Seq<char>, Seq<char>>(s@),
        item@.status == item.status@,
        item@.provider == item.provider@,
        item@.session_id == item.session_id@,
        item@.message_id == item.message_id@,
        item@.ordinal == item.ordinal,
        item@.evidence == item.evidence@,
        item@.task_id is Some <==> item.task_id is Some,
        item.task_id matches Some(id) ==> item@.task_id == Some(id@),
{
}

/// An item carries its row's own provider, session, message and place, each in
/// the field of the same name.
pub proof fn items_name_their_row(row: RowView)
    ensures
        row_item(row) matches Ok(Some(item)) ==> {
            &&& row.provider == Ok::<Seq<char>, Seq<char>>(item.provider)
            &&& row.session_id == Ok::<Seq<char>, Seq<char>>(item.session_id)
            &&& row.message_id == Ok::<Seq<char>, Seq<char>>(item.message_id)
            &&& row.ordinal == Ok::<i64, Seq<char>>(item.ordinal)
        },
{
}

/// Whether a text holds a marker, whatever the case of its letters.
pub open spec fn speaks_of(text: Seq<char>, marker: Seq<char>) -> bool {
    contains_text(lower_ascii(text), marker)
}

/// A message that speaks of the session limit has that status whatever else it
/// says; then an empty run, a block and an interruption count, in this order.
/// Without any of them a message shows no unfinished work.
pub proof fn statuses_have_an_order(text: Seq<char>)
    ensures
        speaks_of(text, "session limit"@) ==> status_of(text) == Some("session limit"@),
        !speaks_of(text, "session limit"@) && (speaks_of(text, "runs:0"@) || speaks_of(
            text,
            "\"runs\":0"@,
        )) ==> status_of(text) == Some("runs:0"@),
        status_of(text) == Some("blocked"@) <==> speaks_of(text, "blocked"@) && !speaks_of(
            text,
            "session limit"@,
        ) && !speaks_of(text, "runs:0"@) && !speaks_of(text, "\"runs\":0"@),
        status_of(text) == Some("interrupted"@) <==> speaks_of(text, "interrupted"@) && !speaks_of(
            text,
            "blocked"@,
        ) && !speaks_of(text, "session limit"@) && !speaks_of(text, "runs:0"@) && !speaks_of(
            text,
            "\"runs\":0"@,
        ),
        status_of(text) is None <==> !speaks_of(text, "session limit"@) && !speaks_of(
            text,
            "runs:0"@,
        ) && !speaks_of(text, "\"runs\":0"@) && !speaks_of(text, "blocked"@) && !speaks_of(
            text,
            "interrupted"@,
        ),
{
    reveal_strlit("session limit");
    reveal_strlit("runs:0");
    reveal_strlit("blocked");
    reveal_strlit("interrupted");
    assert("session limit"@[0] == 's' && "runs:0"@[0] == 'r' && "blocked"@[0] == 'b'
        && "interrupted"@[0] == 'i');
}

/// The status of a row is that of its content alone; its evidence is taken from
/// the snippet, and from the content only where the snippet is blank. A row
/// whose content shows nothing gives no item.
pub proof fn evidence_comes_from_the_snippet(row: RowView, content: Seq<char>, snippet: Seq<char>)
    requires
        row.content == Ok::<Seq<char>, Seq<char>>(content),
        row.snippet == Ok::<Seq<char>, Seq<char>>(snippet),
    ensures
        row_item(row) matches Ok(Some(item)) ==> {
            &&& status_of(content) == Some(item.status)
            &&& one_line(snippet).len() == 0 ==> item.evidence == evidence_text(content)
            &&& one_line(snippet).len() > 0 ==> item.evidence == evidence_text(snippet)
        },
        row_item(row) matches Ok(None) ==> status_of(content) is None,
        status_of(content) is None ==> row_item(row) == Ok::<Option<ItemView>, Seq<char>>(None),
{
    blank_is_no_line(snippet);
}

proof fn blank_is_no_line(s: Seq<char>)
    ensures
        trim(s).len() == 0 <==> one_line(s).len() == 0,
{
    if exists|i: int| 0 <= i < s.len() && !is_space(#[trigger] s[i]) {
        let i = choose|i: int| 0 <= i < s.len() && !is_space(#[trigger] s[i]);
        one_line_keeps_words(s, i);
        trim_keeps_solid(s, i);
    } else {
        first_bounds(s);
        assert(trim_start(s).len() == 0);
        assert(words(s) == Seq::<Seq<char>>::empty());
    }
}

/// Evidence of up to 180 characters is the text on one line; of a longer one
/// the first 177 characters are kept, with three dots behind them.
pub proof fn evidence_keeps_the_beginning(text: Seq<char>)
    ensures
        one_line(text).len() <= 180 ==> evidence_text(text) == one_line(text),
        one_line(text).len() > 180 ==> {
            &&& evidence_text(text).len() == 180
            &&& evidence_text(text).take(177) == one_line(text).take(177)
            &&& evidence_text(text).skip(177) == seq!['.', '.', '.']
        },
{
    if one_line(text).len() > 180 {
        assert(evidence_text(text).take(177) == one_line(text).take(177));
        assert(evidence_text(text).skip(177) == seq!['.', '.', '.']);
    }
}

/// The task of a message is the text under the first of `task_id`, `taskId`,
/// `task` and `id` that is there; an empty one is none.
pub proof fn task_names_have_an_order(metadata: JsonView)
    ensures
        text_at(metadata, "task_id"@) matches Some(id) ==> id.len() > 0 ==> task_id_of(metadata)
            == Some(id),
        text_at(metadata, "task_id"@) is None ==> (text_at(metadata, "taskId"@) matches Some(id)
            ==> id.len() > 0 ==> task_id_of(metadata) == Some(id)),
        text_at(metadata, "task_id"@) is None && text_at(metadata, "taskId"@) is None ==> (
        text_at(metadata, "task"@) matches Some(id) ==> id.len() > 0 ==> task_id_of(metadata)
            == Some(id)),
        text_at(metadata, "task_id"@) is None && text_at(metadata, "taskId"@) is None && text_at(
            metadata,
            "task"@,
        ) is None ==> (text_at(metadata, "id"@) matches Some(id) ==> id.len() > 0 ==> task_id_of(
            metadata,
        ) == Some(id)),
        task_id_of(metadata) matches Some(id) ==> id.len() > 0 && (text_at(metadata, "task_id"@)
            == Some(id) || text_at(metadata, "taskId"@) == Some(id) || text_at(metadata, "task"@)
            == Some(id) || text_at(metadata, "id"@) == Some(id)),
{
}

/// The rows of two lists, one after the other, give the items of the first
/// followed by those of the second; a row gives at most its own item.
pub proof fn items_keep_the_order_of_rows(
    first: Seq<Result<RowView, Seq<char>>>,
    second: Seq<Result<RowView, Seq<char>>>,
    row: RowView,
)
    ensures
        rows_items(first) matches Ok(a) ==> (rows_items(second) matches Ok(b) ==> rows_items(
            first + second,
        ) == Ok::<Seq<ItemView>, Seq<char>>(a + b)),
        rows_items(first) matches Err(e) ==> rows_items(first + second) == Err::<
            Seq<ItemView>,
            Seq<char>,
        >(e),
        row_item(row) matches Ok(Some(item)) ==> rows_items(
            seq![Ok::<RowView, Seq<char>>(row)],
        ) == Ok::<Seq<ItemView>, Seq<char>>(seq![item]),
        row_item(row) matches Ok(None) ==> rows_items(seq![Ok::<RowView, Seq<char>>(row)])
            == Ok::<Seq<ItemView>, Seq<char>>(seq![]),
    decreases first.len(),
{
    let one = seq![Ok::<RowView, Seq<char>>(row)];
    assert(one.skip(1) == Seq::<Result<RowView, Seq<char>>>::empty());
    reveal_with_fuel(rows_items, 2);
    if let Ok(Some(item)) = row_item(row) {
        assert(seq![item] + Seq::<ItemView>::empty() == seq![item]);
    }
    if first.len() == 0 {
        assert(first + second == second);
        if let Ok(b) = rows_items(second) {
            assert(Seq::<ItemView>::empty() + b == b);
        }
    } else {
        items_keep_the_order_of_rows(first.skip(1), second, row);
        assert((first + second).skip(1) == first.skip(1) + second);
        if let Ok(b) = rows_items(second) {
            if let Ok(rest) = rows_items(first.skip(1)) {
                if let Ok(given) = first[0] {
                    if let Ok(Some(item)) = row_item(given) {
                        assert(seq![item] + rest + b == seq![item] + (rest + b));
                    }
                }
            }
        }
    }
}

/// Every item that the rows give carries the provider, session, message and
/// place of one of them, each in the field of the same name.
pub proof fn items_name_one_of_the_rows(
    rows: Seq<Result<RowView, Seq<char>>>,
    items: Seq<ItemView>,
    i: int,
)
    requires
        rows_items(rows) == Ok::<Seq<ItemView>, Seq<char>>(items),
        0 <= i < items.len(),
    ensures
        exists|j: int|
            0 <= j < rows.len() && (#[trigger] rows[j] matches Ok(row) && {
                &&& row.provider == Ok::<Seq<char>, Seq<char>>(items[i].provider)
                &&& row.session_id == Ok::<Seq<char>, Seq<char>>(items[i].session_id)
                &&& row.message_id == Ok::<Seq<char>, Seq<char>>(items[i].message_id)
                &&& row.ordinal == Ok::<i64, Seq<char>>(items[i].ordinal)
            }),
{
    items_come_from_rows(rows, items, i);
    let j = choose|j: int|
        0 <= j < rows.len() && (#[trigger] rows[j]) is Ok && row_item(rows[j]->Ok_0) == Ok::<
            Option<ItemView>,
            Seq<char>,
        >(Some(items[i]));
    items_name_their_row(rows[j]->Ok_0);
}

/// The task of an item is the one that its row's metadata names; metadata that
/// is no JSON names none.
pub proof fn tasks_come_from_the_metadata(row: RowView, text: Seq<char>, metadata: JsonView)
    requires
        row.metadata_json == Ok::<Seq<char>, Seq<char>>(text),
    ensures
        row_item(row) matches Ok(Some(item)) ==> {
            &&& json_reading(text) == Ok::<JsonView, Seq<char>>(metadata) ==> item.task_id
                == task_id_of(metadata)
            &&& json_reading(text) is Err ==> item.task_id is None
        },
{
}

/// A row is refused where its content or its snippet cannot be read, and, where
/// its content shows unfinished work, where any other column cannot. No other
/// row is.
pub proof fn unreadable_rows_are_refused(row: RowView)
    ensures
        row_item(row) is Err <==> {
            ||| row.content is Err
            ||| row.snippet is Err
            ||| (row.content matches Ok(content) && status_of(content) is Some) && (row.provider
                is Err || row.session_id is Err || row.message_id is Err || row.ordinal is Err
                || row.metadata_json is Err)
        },
{
}

} // verus!
