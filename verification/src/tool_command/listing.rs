//! The list of tools that is printed when no tool is named.

use crate::json::{field, lookup, Json, JsonView};
use crate::order::{keyed_texts, sort_by_key, sorted_by_key, sorted_by_key_is_in_order, text_before, text_before_asymmetric, text_before_transitive};
use crate::text::{chars_of, contains_text, copy_text, lines, lines_of, same_text, stands_at, stands_between, text_starts_with, texts};
use crate::tool_command::schema::{short_name, short_tool_name, ToolDefinition};
use vstd::prelude::*;
use vstd::utf8::{decode_utf8, decode_utf8_encode_utf8, decode_utf8_split, encode_utf8, encode_utf8_decode_utf8, encode_utf8_valid_utf8, is_char_boundary, is_char_boundary_start_end_of_seq, valid_utf8, valid_utf8_split};

verus! {

/// The tools of the group `git & history`.
pub open spec fn is_git_tool(n: Seq<char>) -> bool {
    "tracedecay_branch_"@.is_prefix_of(n) || n == "tracedecay_commit_context"@
        || n == "tracedecay_pr_context"@
        || n == "tracedecay_changelog"@
        || n == "tracedecay_diff_context"@
        || n == "tracedecay_affected"@
}

fn git_tool(n: &str) -> (r: bool)
    ensures
        r == is_git_tool(n@),
{
    text_starts_with(n, "tracedecay_branch_") || same_text(n, "tracedecay_commit_context")
        || same_text(n, "tracedecay_pr_context")
        || same_text(n, "tracedecay_changelog")
        || same_text(n, "tracedecay_diff_context")
        || same_text(n, "tracedecay_affected")
}

/// The tools of the group `edit`.
pub open spec fn is_edit_tool(n: Seq<char>) -> bool {
    n == "tracedecay_str_replace"@
        || n == "tracedecay_multi_str_replace"@
        || n == "tracedecay_insert_at"@
        || n == "tracedecay_ast_grep_rewrite"@
        || n == "tracedecay_replace_symbol"@
        || n == "tracedecay_insert_at_symbol"@
}

fn edit_tool(n: &str) -> (r: bool)
    ensures
        r == is_edit_tool(n@),
{
    same_text(n, "tracedecay_str_replace")
        || same_text(n, "tracedecay_multi_str_replace")
        || same_text(n, "tracedecay_insert_at")
        || same_text(n, "tracedecay_ast_grep_rewrite")
        || same_text(n, "tracedecay_replace_symbol")
        || same_text(n, "tracedecay_insert_at_symbol")
}

/// The tools of the group `memory & session`.
pub open spec fn is_memory_tool(n: Seq<char>) -> bool {
    n == "tracedecay_fact_store"@
        || n == "tracedecay_fact_feedback"@
        || n == "tracedecay_memory_status"@
        || n == "tracedecay_session_start"@
        || n == "tracedecay_session_end"@
}

fn memory_tool(n: &str) -> (r: bool)
    ensures
        r == is_memory_tool(n@),
{
    same_text(n, "tracedecay_fact_store")
        || same_text(n, "tracedecay_fact_feedback")
        || same_text(n, "tracedecay_memory_status")
        || same_text(n, "tracedecay_session_start")
        || same_text(n, "tracedecay_session_end")
}

/// The tools of the group `health`.
pub open spec fn is_health_tool(n: Seq<char>) -> bool {
    n == "tracedecay_health"@
        || n == "tracedecay_runtime"@
        || n == "tracedecay_dsm"@
        || n == "tracedecay_test_risk"@
        || n == "tracedecay_test_map"@
        || n == "tracedecay_gini"@
        || n == "tracedecay_dependency_depth"@
        || n == "tracedecay_redundancy"@
}

fn health_tool(n: &str) -> (r: bool)
    ensures
        r == is_health_tool(n@),
{
    same_text(n, "tracedecay_health")
        || same_text(n, "tracedecay_runtime")
        || same_text(n, "tracedecay_dsm")
        || same_text(n, "tracedecay_test_risk")
        || same_text(n, "tracedecay_test_map")
        || same_text(n, "tracedecay_gini")
        || same_text(n, "tracedecay_dependency_depth")
        || same_text(n, "tracedecay_redundancy")
}

/// The tools of the group `graph`.
pub open spec fn is_graph_tool(n: Seq<char>) -> bool {
    n == "tracedecay_callers"@
        || n == "tracedecay_callees"@
        || n == "tracedecay_callers_for"@
        || n == "tracedecay_call_chain"@
        || n == "tracedecay_impact"@
        || n == "tracedecay_file_dependents"@
        || n == "tracedecay_by_qualified_name"@
        || n == "tracedecay_signature"@
        || n == "tracedecay_impls"@
        || n == "tracedecay_implementations"@
        || n == "tracedecay_derives"@
        || n == "tracedecay_similar"@
        || n == "tracedecay_rename_preview"@
        || n == "tracedecay_find_exact_symbol"@
        || n == "tracedecay_type_hierarchy"@
}

fn graph_tool(n: &str) -> (r: bool)
    ensures
        r == is_graph_tool(n@),
{
    same_text(n, "tracedecay_callers")
        || same_text(n, "tracedecay_callees")
        || same_text(n, "tracedecay_callers_for")
        || same_text(n, "tracedecay_call_chain")
        || same_text(n, "tracedecay_impact")
        || same_text(n, "tracedecay_file_dependents")
        || same_text(n, "tracedecay_by_qualified_name")
        || same_text(n, "tracedecay_signature")
        || same_text(n, "tracedecay_impls")
        || same_text(n, "tracedecay_implementations")
        || same_text(n, "tracedecay_derives")
        || same_text(n, "tracedecay_similar")
        || same_text(n, "tracedecay_rename_preview")
        || same_text(n, "tracedecay_find_exact_symbol")
        || same_text(n, "tracedecay_type_hierarchy")
}

/// The tools of the group `workflow`.
pub open spec fn is_workflow_tool(n: Seq<char>) -> bool {
    n == "tracedecay_diagnose"@
        || n == "tracedecay_diagnostics"@
        || n == "tracedecay_run_affected_tests"@
}

fn workflow_tool(n: &str) -> (r: bool)
    ensures
        r == is_workflow_tool(n@),
{
    same_text(n, "tracedecay_diagnose")
        || same_text(n, "tracedecay_diagnostics")
        || same_text(n, "tracedecay_run_affected_tests")
}

/// The tools of the group `analysis`.
pub open spec fn is_analysis_tool(n: Seq<char>) -> bool {
    n == "tracedecay_dead_code"@
        || n == "tracedecay_unused_imports"@
        || n == "tracedecay_module_api"@
        || n == "tracedecay_circular"@
        || n == "tracedecay_hotspots"@
        || n == "tracedecay_rank"@
        || n == "tracedecay_largest"@
        || n == "tracedecay_coupling"@
        || n == "tracedecay_inheritance_depth"@
        || n == "tracedecay_distribution"@
        || n == "tracedecay_recursion"@
        || n == "tracedecay_complexity"@
        || n == "tracedecay_doc_coverage"@
        || n == "tracedecay_god_class"@
        || n == "tracedecay_unsafe_patterns"@
        || n == "tracedecay_constructors"@
        || n == "tracedecay_field_sites"@
}

fn analysis_tool(n: &str) -> (r: bool)
    ensures
        r == is_analysis_tool(n@),
{
    same_text(n, "tracedecay_dead_code")
        || same_text(n, "tracedecay_unused_imports")
        || same_text(n, "tracedecay_module_api")
        || same_text(n, "tracedecay_circular")
        || same_text(n, "tracedecay_hotspots")
        || same_text(n, "tracedecay_rank")
        || same_text(n, "tracedecay_largest")
        || same_text(n, "tracedecay_coupling")
        || same_text(n, "tracedecay_inheritance_depth")
        || same_text(n, "tracedecay_distribution")
        || same_text(n, "tracedecay_recursion")
        || same_text(n, "tracedecay_complexity")
        || same_text(n, "tracedecay_doc_coverage")
        || same_text(n, "tracedecay_god_class")
        || same_text(n, "tracedecay_unsafe_patterns")
        || same_text(n, "tracedecay_constructors")
        || same_text(n, "tracedecay_field_sites")
}

/// The group under which a tool is listed: `other` for one that no group names.
pub open spec fn group_of(n: Seq<char>) -> Seq<char> {
    if is_git_tool(n) {
        "git & history"@
    } else if is_edit_tool(n) {
        "edit"@
    } else if is_memory_tool(n) {
        "memory & session"@
    } else if is_health_tool(n) {
        "health"@
    } else if is_graph_tool(n) {
        "graph"@
    } else if is_workflow_tool(n) {
        "workflow"@
    } else if is_analysis_tool(n) {
        "analysis"@
    } else {
        "other"@
    }
}

/// The group under which the tool is listed.
pub fn group_for(def: &ToolDefinition) -> (r: &'static str)
    ensures
        r@ == group_of(def.name@),
{
    let n = def.name.as_str();
    if git_tool(n) {
        "git & history"
    } else if edit_tool(n) {
        "edit"
    } else if memory_tool(n) {
        "memory & session"
    } else if health_tool(n) {
        "health"
    } else if graph_tool(n) {
        "graph"
    } else if workflow_tool(n) {
        "workflow"
    } else if analysis_tool(n) {
        "analysis"
    } else {
        "other"
    }
}

/// The names of the groups, in the order of their texts.
pub open spec fn group_names() -> Seq<Seq<char>> {
    seq![
        "analysis"@,
        "edit"@,
        "git & history"@,
        "graph"@,
        "health"@,
        "memory & session"@,
        "other"@,
        "workflow"@,
    ]
}

fn group_name(i: usize) -> (r: &'static str)
    requires
        i < 8,
    ensures
        r@ == group_names()[i as int],
{
    if i == 0 {
        "analysis"
    } else if i == 1 {
        "edit"
    } else if i == 2 {
        "git & history"
    } else if i == 3 {
        "graph"
    } else if i == 4 {
        "health"
    } else if i == 5 {
        "memory & session"
    } else if i == 6 {
        "other"
    } else {
        "workflow"
    }
}

/// Every tool is listed under one of the groups.
pub proof fn every_group_is_listed(n: Seq<char>)
    ensures
        group_names().contains(group_of(n)),
{
    let all = group_names();
    assert(all[0] == "analysis"@ && all[1] == "edit"@ && all[2] == "git & history"@ && all[3]
        == "graph"@ && all[4] == "health"@ && all[5] == "memory & session"@ && all[6] == "other"@
        && all[7] == "workflow"@);
}

/// The groups are listed in the order of their names.
pub proof fn groups_are_in_order(i: int)
    requires
        0 <= i < 7,
    ensures
        text_before(group_names()[i], group_names()[i + 1]),
{
    reveal_strlit("analysis");
    reveal_strlit("edit");
    reveal_strlit("git & history");
    reveal_strlit("graph");
    reveal_strlit("health");
    reveal_strlit("memory & session");
    reveal_strlit("other");
    reveal_strlit("workflow");
    assert("git & history"@.skip(1)[0] == 'i');
    assert("graph"@.skip(1)[0] == 'r');
    reveal_with_fuel(text_before, 3);
}

/// The first line of a text; nothing when it is empty.
pub open spec fn head_line(s: Seq<char>) -> Seq<char> {
    if lines(s).len() > 0 {
        lines(s)[0]
    } else {
        ""@
    }
}

/// The last place at or before byte `n` where a character ends.
pub open spec fn cut_place(bytes: Seq<u8>, n: int) -> int
    decreases n,
{
    if n <= 0 || is_char_boundary(bytes, n) {
        n
    } else {
        cut_place(bytes, n - 1)
    }
}

/// The first line of a description as the list shows it: over ninety bytes, as
/// many whole characters as fit into eighty-nine, and an ellipsis.
pub open spec fn shown_line(s: Seq<char>) -> Seq<char> {
    let bytes = encode_utf8(head_line(s));
    if bytes.len() > 90 {
        decode_utf8(bytes.take(cut_place(bytes, 89))) + "…"@
    } else {
        head_line(s)
    }
}

fn head_line_of(s: &str) -> (r: String)
    ensures
        r@ == head_line(s@),
{
    let all = lines_of(s);
    if all.len() > 0 {
        assert(texts(all@)[0] == all@[0]@);
        copy_text(all[0].as_str())
    } else {
        copy_text("")
    }
}

/// The first line of the description as the list shows it.
pub fn first_line(s: &str) -> (r: String)
    ensures
        r@ == shown_line(s@),
{
    let line = head_line_of(s);
    let text = line.as_str();
    if text.as_bytes().len() > 90 {
        let ghost bytes = encode_utf8(line@);
        let mut place: usize = 89;
        while place > 0 && !text.is_char_boundary(place)
            invariant
                text@ == line@,
                bytes == encode_utf8(line@),
                place <= 89,
                bytes.len() > 90,
                cut_place(bytes, 89) == cut_place(bytes, place as int),
            decreases place,
        {
            place -= 1;
        }
        proof {
            encode_utf8_valid_utf8(line@);
            is_char_boundary_start_end_of_seq(bytes);
        }
        let (head, _) = text.split_at(place);
        proof {
            encode_utf8_decode_utf8(head@);
            assert(encode_utf8(head@) == bytes.take(place as int));
        }
        let mut shown = copy_text(head);
        shown.append("…");
        shown
    } else {
        line
    }
}

proof fn cut_place_is_boundary(bytes: Seq<u8>, n: int)
    requires
        valid_utf8(bytes),
        0 <= n <= bytes.len(),
    ensures
        0 <= cut_place(bytes, n) <= n,
        is_char_boundary(bytes, cut_place(bytes, n)),
        forall|k: int| cut_place(bytes, n) < k <= n ==> !is_char_boundary(bytes, k),
    decreases n,
{
    is_char_boundary_start_end_of_seq(bytes);
    if n > 0 && !is_char_boundary(bytes, n) {
        cut_place_is_boundary(bytes, n - 1);
    }
}

/// A first line of at most ninety bytes is shown whole. A longer one is cut
/// behind a beginning of it that takes at most eighty-nine bytes: all of these
/// where a character ends there.
pub proof fn shown_lines_are_short(s: Seq<char>)
    ensures
        encode_utf8(head_line(s)).len() <= 90 ==> shown_line(s) == head_line(s),
        encode_utf8(head_line(s)).len() > 90 ==> exists|k: int| #[trigger]
            is_cut_at(head_line(s), k) && shown_line(s) == head_line(s).take(k) + "…"@,
{
    let line = head_line(s);
    let bytes = encode_utf8(line);
    if bytes.len() > 90 {
        encode_utf8_valid_utf8(line);
        cut_place_is_boundary(bytes, 89);
        let place = cut_place(bytes, 89);
        let head = decode_utf8(bytes.subrange(0, place));
        let tail = decode_utf8(bytes.subrange(place, bytes.len() as int));
        valid_utf8_split(bytes, place);
        decode_utf8_split(bytes, place);
        encode_utf8_decode_utf8(line);
        decode_utf8_encode_utf8(bytes.subrange(0, place));
        assert(line == head + tail);
        assert(line.take(head.len() as int) == head);
        assert(bytes.take(place) == bytes.subrange(0, place));
        assert(is_cut_at(line, head.len() as int));
    }
}

/// Whether a line is cut behind its first `k` characters for the list: they
/// take at most eighty-nine bytes, and just these where a character ends there.
pub open spec fn is_cut_at(line: Seq<char>, k: int) -> bool {
    &&& 0 <= k <= line.len()
    &&& encode_utf8(line.take(k)).len() <= 89
    &&& is_char_boundary(encode_utf8(line), 89) ==> encode_utf8(line.take(k))
        == encode_utf8(line).take(89)
}

/// `n` spaces.
pub open spec fn spaces(n: nat) -> Seq<char> {
    Seq::new(n, |i: int| ' ')
}

/// `s` with spaces behind it up to a width in characters.
pub open spec fn padded(s: Seq<char>, width: nat) -> Seq<char> {
    if s.len() < width {
        s + spaces((width - s.len()) as nat)
    } else {
        s
    }
}

fn pad_to(s: &str, width: usize) -> (r: String)
    ensures
        r@ == padded(s@, width as nat),
{
    let mut count: usize = chars_of(s).len();
    let mut out = copy_text(s);
    while count < width
        invariant
            s@.len() <= count,
            count == s@.len() || count <= width,
            out@ == s@ + spaces((count - s@.len()) as nat),
        decreases width - count,
    {
        let ghost done = (count - s@.len()) as nat;
        out.push(' ');
        count += 1;
        assert(spaces(done).push(' ') == spaces(done + 1));
    }
    assert(count == s@.len() ==> s@ + spaces(0) == s@);
    out
}

/// The line of one tool.
pub open spec fn tool_line(name: Seq<char>, description: Seq<char>) -> Seq<char> {
    "  "@ + padded(short_name(name), 32) + "  "@ + shown_line(description) + "\n"@
}

fn line_for(def: &ToolDefinition) -> (r: String)
    ensures
        r@ == tool_line(def.name@, def.description@),
{
    let mut line = copy_text("  ");
    line.append(pad_to(short_tool_name(def.name.as_str()).as_str(), 32).as_str());
    line.append("  ");
    line.append(first_line(def.description.as_str()).as_str());
    line.append("\n");
    line
}

/// Whether annotations say that a tool is always loaded.
pub open spec fn always_loaded(meta: Option<JsonView>) -> bool {
    match meta {
        Some(m) => field(m, "anthropic/alwaysLoad"@) == Some(JsonView::Bool(true)),
        None => false,
    }
}

/// The annotations of a tool.
pub open spec fn annotations(meta: Option<Json>) -> Option<JsonView> {
    match meta {
        Some(m) => Some(m@),
        None => None,
    }
}

fn is_always_loaded(def: &ToolDefinition) -> (r: bool)
    ensures
        r == always_loaded(annotations(def.meta)),
{
    match &def.meta {
        Some(m) => match m.get("anthropic/alwaysLoad") {
            Some(Json::Bool(b)) => *b,
            _ => false,
        },
        None => false,
    }
}

/// The lines of the tools that are always loaded, in the order given.
pub open spec fn always_lines(defs: Seq<ToolDefinition>) -> Seq<char>
    decreases defs.len(),
{
    if defs.len() == 0 {
        ""@
    } else {
        let earlier = always_lines(defs.drop_last());
        let def = defs.last();
        if always_loaded(annotations(def.meta)) {
            earlier + tool_line(def.name@, def.description@)
        } else {
            earlier
        }
    }
}

/// The names and lines of the other tools of a group, in the order given.
pub open spec fn group_members(defs: Seq<ToolDefinition>, group: Seq<char>) -> Seq<
    (Seq<char>, Seq<char>),
>
    decreases defs.len(),
{
    if defs.len() == 0 {
        seq![]
    } else {
        let earlier = group_members(defs.drop_last(), group);
        let def = defs.last();
        if !always_loaded(annotations(def.meta)) && group_of(def.name@) == group {
            earlier.push((def.name@, tool_line(def.name@, def.description@)))
        } else {
            earlier
        }
    }
}

/// The texts one after the other.
pub open spec fn run_together(members: Seq<(Seq<char>, Seq<char>)>) -> Seq<char>
    decreases members.len(),
{
    if members.len() == 0 {
        ""@
    } else {
        run_together(members.drop_last()) + members.last().1
    }
}

/// The section of a group: its tools in the order of their names; nothing when
/// it has none.
pub open spec fn group_section(defs: Seq<ToolDefinition>, group: Seq<char>) -> Seq<char> {
    let members = group_members(defs, group);
    if members.len() == 0 {
        ""@
    } else {
        "["@ + group + "]\n"@ + run_together(sorted_by_key(members)) + "\n"@
    }
}

/// The sections of the first `n` groups.
pub open spec fn group_sections(defs: Seq<ToolDefinition>, n: nat) -> Seq<char>
    decreases n,
{
    if n == 0 {
        ""@
    } else {
        group_sections(defs, (n - 1) as nat) + group_section(defs, group_names()[n - 1])
    }
}

/// The list of tools: those that are always loaded first, then group by group.
pub open spec fn tool_list(defs: Seq<ToolDefinition>, footer: Seq<char>) -> Seq<char> {
    let always = always_lines(defs);
    "Available tools — run `tracedecay tool <name> --help` for parameters, then\ninvoke with `tracedecay tool <name> --args '<json>'` (the same JSON arguments\nobject as the MCP tool; `--args -` reads a heredoc from stdin) or, for quick\nscalar calls, `--key value` flags.\n\n"@
        + (if always.len() > 0 {
        "[always-loaded]\n"@ + always + "\n"@
    } else {
        ""@
    }) + group_sections(defs, 8) + footer + "\n"@
}

fn section_for(defs: &Vec<ToolDefinition>, group: &str) -> (r: String)
    ensures
        r@ == group_section(defs@, group@),
{
    let mut members: Vec<(String, String)> = Vec::new();
    let mut i: usize = 0;
    assert(defs@.take(0) == Seq::<ToolDefinition>::empty());
    assert(keyed_texts(members@) == group_members(defs@.take(0), group@));
    while i < defs.len()
        invariant
            i <= defs@.len(),
            keyed_texts(members@) == group_members(defs@.take(i as int), group@),
        decreases defs@.len() - i,
    {
        proof {
            assert(defs@.take(i as int + 1).drop_last() == defs@.take(i as int));
            assert(defs@.take(i as int + 1).last() == defs@[i as int]);
        }
        if !is_always_loaded(&defs[i]) && same_text(group_for(&defs[i]), group) {
            let ghost before = members@;
            let entry = (copy_text(defs[i].name.as_str()), line_for(&defs[i]));
            members.push(entry);
            assert(keyed_texts(members@) == keyed_texts(before).push((entry.0@, entry.1@)));
        }
        i += 1;
    }
    assert(defs@.take(defs@.len() as int) == defs@);
    if members.len() == 0 {
        return copy_text("");
    }
    let ghost chosen = keyed_texts(members@);
    let members = sort_by_key(members);
    let ghost ordered = keyed_texts(members@);
    let mut body = copy_text("");
    let mut k: usize = 0;
    assert(ordered.take(0) == Seq::<(Seq<char>, Seq<char>)>::empty());
    while k < members.len()
        invariant
            k <= members@.len(),
            ordered == keyed_texts(members@),
            body@ == run_together(ordered.take(k as int)),
        decreases members@.len() - k,
    {
        proof {
            assert(ordered.take(k as int + 1).drop_last() == ordered.take(k as int));
            assert(ordered.take(k as int + 1).last() == ordered[k as int]);
        }
        body.append(members[k].1.as_str());
        k += 1;
    }
    assert(ordered.take(ordered.len() as int) == ordered);
    let mut section = copy_text("[");
    section.append(group);
    section.append("]\n");
    section.append(body.as_str());
    section.append("\n");
    section
}

/// The list of tools.
pub fn render_tool_list(defs: &Vec<ToolDefinition>, footer: &str) -> (r: String)
    ensures
        r@ == tool_list(defs@, footer@),
{
    let mut always = copy_text("");
    let mut i: usize = 0;
    assert(defs@.take(0) == Seq::<ToolDefinition>::empty());
    while i < defs.len()
        invariant
            i <= defs@.len(),
            always@ == always_lines(defs@.take(i as int)),
        decreases defs@.len() - i,
    {
        proof {
            assert(defs@.take(i as int + 1).drop_last() == defs@.take(i as int));
            assert(defs@.take(i as int + 1).last() == defs@[i as int]);
        }
        if is_always_loaded(&defs[i]) {
            always.append(line_for(&defs[i]).as_str());
        }
        i += 1;
    }
    assert(defs@.take(defs@.len() as int) == defs@);
    let mut pinned = copy_text("");
    if !always.as_str().is_empty() {
        pinned = copy_text("[always-loaded]\n");
        pinned.append(always.as_str());
        pinned.append("\n");
    }
    let mut sections = copy_text("");
    let mut g: usize = 0;
    while g < 8
        invariant
            g <= 8,
            sections@ == group_sections(defs@, g as nat),
        decreases 8 - g,
    {
        sections.append(section_for(defs, group_name(g)).as_str());
        g += 1;
    }
    let mut list = copy_text(
        "Available tools — run `tracedecay tool <name> --help` for parameters, then\ninvoke with `tracedecay tool <name> --args '<json>'` (the same JSON arguments\nobject as the MCP tool; `--args -` reads a heredoc from stdin) or, for quick\nscalar calls, `--key value` flags.\n\n",
    );
    list.append(pinned.as_str());
    list.append(sections.as_str());
    list.append(footer);
    list.append("\n");
    list
}

proof fn part_is_contained(before: Seq<char>, part: Seq<char>, after: Seq<char>, needle: Seq<char>)
    requires
        contains_text(part, needle),
    ensures
        contains_text(before + part + after, needle),
{
    let at = choose|at: int| 0 <= at <= part.len() && stands_at(part, needle, at);
    let whole = before + part + after;
    assert(whole.subrange(before.len() + at, before.len() + at + needle.len()) == part.subrange(
        at,
        at + needle.len(),
    ));
    assert(stands_at(whole, needle, before.len() + at));
}

proof fn whole_is_contained(s: Seq<char>)
    ensures
        contains_text(s, s),
{
    assert(s.subrange(0, s.len() as int) == s);
    assert(stands_at(s, s, 0));
}

proof fn always_line_is_listed(defs: Seq<ToolDefinition>, i: int)
    requires
        0 <= i < defs.len(),
        always_loaded(annotations(defs[i].meta)),
    ensures
        contains_text(always_lines(defs), tool_line(defs[i].name@, defs[i].description@)),
        always_lines(defs).len() > 0,
    decreases defs.len(),
{
    let front = defs.drop_last();
    let line = tool_line(defs[i].name@, defs[i].description@);
    let none = Seq::<char>::empty();
    reveal_strlit("  ");
    assert(line.len() > 0);
    if i < defs.len() - 1 {
        always_line_is_listed(front, i);
        let earlier = always_lines(front);
        let last = tool_line(defs.last().name@, defs.last().description@);
        part_is_contained(none, earlier, last, line);
        assert(none + earlier + last == earlier + last);
    } else {
        whole_is_contained(line);
        part_is_contained(always_lines(front), line, none, line);
        assert(always_lines(front) + line + none == always_lines(front) + line);
    }
}

proof fn member_is_collected(defs: Seq<ToolDefinition>, group: Seq<char>, i: int)
    requires
        0 <= i < defs.len(),
        !always_loaded(annotations(defs[i].meta)),
        group_of(defs[i].name@) == group,
    ensures
        group_members(defs, group).contains(
            (defs[i].name@, tool_line(defs[i].name@, defs[i].description@)),
        ),
    decreases defs.len(),
{
    let front = defs.drop_last();
    let earlier = group_members(front, group);
    let entry = (defs[i].name@, tool_line(defs[i].name@, defs[i].description@));
    if i < defs.len() - 1 {
        member_is_collected(front, group, i);
        let k = choose|k: int| 0 <= k < earlier.len() && earlier[k] == entry;
        assert(group_members(defs, group)[k] == entry);
    } else {
        assert(group_members(defs, group)[earlier.len() as int] == entry);
    }
}

proof fn member_is_run_together(members: Seq<(Seq<char>, Seq<char>)>, k: int)
    requires
        0 <= k < members.len(),
    ensures
        contains_text(run_together(members), members[k].1),
    decreases members.len(),
{
    let front = members.drop_last();
    let none = Seq::<char>::empty();
    let last = members.last().1;
    if k < members.len() - 1 {
        member_is_run_together(front, k);
        part_is_contained(none, run_together(front), last, members[k].1);
        assert(none + run_together(front) + last == run_together(front) + last);
    } else {
        whole_is_contained(last);
        part_is_contained(run_together(front), last, none, last);
        assert(run_together(front) + last + none == run_together(front) + last);
    }
}

proof fn section_is_listed(defs: Seq<ToolDefinition>, g: int, n: nat, needle: Seq<char>)
    requires
        0 <= g < n,
        contains_text(group_section(defs, group_names()[g]), needle),
    ensures
        contains_text(group_sections(defs, n), needle),
    decreases n,
{
    let none = Seq::<char>::empty();
    let earlier = group_sections(defs, (n - 1) as nat);
    let last = group_section(defs, group_names()[n - 1]);
    if g < n - 1 {
        section_is_listed(defs, g, (n - 1) as nat, needle);
        part_is_contained(none, earlier, last, needle);
        assert(none + earlier + last == earlier + last);
    } else {
        part_is_contained(earlier, last, none, needle);
        assert(earlier + last + none == earlier + last);
    }
}

/// How many tools are always loaded.
pub open spec fn always_count(defs: Seq<ToolDefinition>) -> nat
    decreases defs.len(),
{
    if defs.len() == 0 {
        0
    } else {
        always_count(defs.drop_last()) + if always_loaded(annotations(defs.last().meta)) {
            1nat
        } else {
            0nat
        }
    }
}

/// How many tools the sections of the first `n` groups list.
pub open spec fn grouped_count(defs: Seq<ToolDefinition>, n: nat) -> nat
    decreases n,
{
    if n == 0 {
        0
    } else {
        grouped_count(defs, (n - 1) as nat) + group_members(defs, group_names()[n - 1]).len()
    }
}

proof fn groups_differ(i: int, j: int)
    requires
        0 <= i < j < 8,
    ensures
        text_before(group_names()[i], group_names()[j]),
    decreases j - i,
{
    groups_are_in_order(j - 1);
    if i < j - 1 {
        groups_differ(i, j - 1);
        text_before_transitive(
            group_names()[i],
            group_names()[j - 1],
            group_names()[j],
        );
    }
}

proof fn one_more_is_grouped(defs: Seq<ToolDefinition>, g: int, n: nat)
    requires
        defs.len() > 0,
        n <= 8,
        0 <= g < 8,
        group_of(defs.last().name@) == group_names()[g],
    ensures
        grouped_count(defs, n) == grouped_count(defs.drop_last(), n) + if !always_loaded(
            annotations(defs.last().meta),
        ) && g < n {
            1nat
        } else {
            0nat
        },
    decreases n,
{
    if n > 0 {
        one_more_is_grouped(defs, g, (n - 1) as nat);
        if g < n - 1 {
            groups_differ(g, n - 1);
            text_before_asymmetric(group_names()[g], group_names()[n - 1]);
        } else if g > n - 1 {
            groups_differ(n - 1, g);
            text_before_asymmetric(group_names()[n - 1], group_names()[g]);
        }
    }
}

/// Every tool is listed once: as often as there are tools, a tool is listed as
/// always loaded or in the section of a group.
pub proof fn every_tool_is_listed_once(defs: Seq<ToolDefinition>)
    ensures
        always_count(defs) + grouped_count(defs, 8) == defs.len(),
    decreases defs.len(),
{
    if defs.len() == 0 {
        reveal_with_fuel(grouped_count, 9);
    } else {
        let group = group_of(defs.last().name@);
        every_tool_is_listed_once(defs.drop_last());
        every_group_is_listed(defs.last().name@);
        let g = choose|g: int| 0 <= g < group_names().len() && group_names()[g] == group;
        one_more_is_grouped(defs, g, 8);
    }
}

/// Every tool is in the list.
pub proof fn every_tool_is_listed(defs: Seq<ToolDefinition>, footer: Seq<char>, i: int)
    requires
        0 <= i < defs.len(),
    ensures
        contains_text(
            tool_list(defs, footer),
            tool_line(defs[i].name@, defs[i].description@),
        ),
{
    let line = tool_line(defs[i].name@, defs[i].description@);
    let always = always_lines(defs);
    let sections = group_sections(defs, 8);
    let head =
        "Available tools — run `tracedecay tool <name> --help` for parameters, then\ninvoke with `tracedecay tool <name> --args '<json>'` (the same JSON arguments\nobject as the MCP tool; `--args -` reads a heredoc from stdin) or, for quick\nscalar calls, `--key value` flags.\n\n"@;
    let pinned = if always.len() > 0 {
        "[always-loaded]\n"@ + always + "\n"@
    } else {
        ""@
    };
    let whole = tool_list(defs, footer);
    assert(whole == head + pinned + sections + footer + "\n"@);
    if always_loaded(annotations(defs[i].meta)) {
        always_line_is_listed(defs, i);
        part_is_contained("[always-loaded]\n"@, always, "\n"@, line);
        part_is_contained(head, pinned, sections + footer + "\n"@, line);
        assert(head + pinned + (sections + footer + "\n"@) == whole);
    } else {
        let group = group_of(defs[i].name@);
        let members = group_members(defs, group);
        let entry = (defs[i].name@, line);
        member_is_collected(defs, group, i);
        sorted_by_key_is_in_order(members);
        let ordered = sorted_by_key(members);
        assert(ordered.contains(entry)) by {
            broadcast use vstd::seq_lib::group_to_multiset_ensures;

            assert(members.to_multiset().contains(entry));
            assert(ordered.to_multiset().contains(entry));
        }
        let k = choose|k: int| 0 <= k < ordered.len() && ordered[k] == entry;
        member_is_run_together(ordered, k);
        part_is_contained("["@ + group + "]\n"@, run_together(ordered), "\n"@, line);
        every_group_is_listed(defs[i].name@);
        let g = choose|g: int| 0 <= g < group_names().len() && group_names()[g] == group;
        section_is_listed(defs, g, 8, line);
        part_is_contained(head + pinned, sections, footer + "\n"@, line);
        assert(head + pinned + sections + (footer + "\n"@) == whole);
    }
}

/// Names of tools are told apart by their lengths and a few of their letters.
#[verifier::spinoff_prover]
proof fn names_differ()
    ensures
        "tracedecay_branch_"@.len() == 18,
        "tracedecay_branch_"@[11] == 'b',
        "tracedecay_branch_"@[12] == 'r',
        "tracedecay_commit_context"@.len() == 25 && "tracedecay_commit_context"@[11] == 'c' && "tracedecay_commit_context"@[12] == 'o' && "tracedecay_commit_context"@[16] == 't',
        "tracedecay_pr_context"@.len() == 21 && "tracedecay_pr_context"@[11] == 'p' && "tracedecay_pr_context"@[12] == 'r' && "tracedecay_pr_context"@[16] == 'n',
        "tracedecay_changelog"@.len() == 20 && "tracedecay_changelog"@[11] == 'c' && "tracedecay_changelog"@[12] == 'h' && "tracedecay_changelog"@[16] == 'e',
        "tracedecay_diff_context"@.len() == 23 && "tracedecay_diff_context"@[11] == 'd' && "tracedecay_diff_context"@[12] == 'i' && "tracedecay_diff_context"@[16] == 'c',
        "tracedecay_affected"@.len() == 19 && "tracedecay_affected"@[11] == 'a' && "tracedecay_affected"@[12] == 'f' && "tracedecay_affected"@[16] == 't',
        "tracedecay_str_replace"@.len() == 22 && "tracedecay_str_replace"@[11] == 's' && "tracedecay_str_replace"@[12] == 't' && "tracedecay_str_replace"@[16] == 'e',
        "tracedecay_multi_str_replace"@.len() == 28 && "tracedecay_multi_str_replace"@[11] == 'm' && "tracedecay_multi_str_replace"@[12] == 'u' && "tracedecay_multi_str_replace"@[16] == '_',
        "tracedecay_insert_at"@.len() == 20 && "tracedecay_insert_at"@[11] == 'i' && "tracedecay_insert_at"@[12] == 'n' && "tracedecay_insert_at"@[16] == 't',
        "tracedecay_ast_grep_rewrite"@.len() == 27 && "tracedecay_ast_grep_rewrite"@[11] == 'a' && "tracedecay_ast_grep_rewrite"@[12] == 's' && "tracedecay_ast_grep_rewrite"@[16] == 'r',
        "tracedecay_replace_symbol"@.len() == 25 && "tracedecay_replace_symbol"@[11] == 'r' && "tracedecay_replace_symbol"@[12] == 'e' && "tracedecay_replace_symbol"@[16] == 'c',
        "tracedecay_insert_at_symbol"@.len() == 27 && "tracedecay_insert_at_symbol"@[11] == 'i' && "tracedecay_insert_at_symbol"@[12] == 'n' && "tracedecay_insert_at_symbol"@[16] == 't',
        "tracedecay_fact_store"@.len() == 21 && "tracedecay_fact_store"@[11] == 'f' && "tracedecay_fact_store"@[12] == 'a' && "tracedecay_fact_store"@[16] == 's',
        "tracedecay_fact_feedback"@.len() == 24 && "tracedecay_fact_feedback"@[11] == 'f' && "tracedecay_fact_feedback"@[12] == 'a' && "tracedecay_fact_feedback"@[16] == 'f',
        "tracedecay_memory_status"@.len() == 24 && "tracedecay_memory_status"@[11] == 'm' && "tracedecay_memory_status"@[12] == 'e' && "tracedecay_memory_status"@[16] == 'y',
        "tracedecay_session_start"@.len() == 24 && "tracedecay_session_start"@[11] == 's' && "tracedecay_session_start"@[12] == 'e' && "tracedecay_session_start"@[16] == 'o',
        "tracedecay_session_end"@.len() == 22 && "tracedecay_session_end"@[11] == 's' && "tracedecay_session_end"@[12] == 'e' && "tracedecay_session_end"@[16] == 'o',
        "tracedecay_health"@.len() == 17 && "tracedecay_health"@[11] == 'h' && "tracedecay_health"@[12] == 'e' && "tracedecay_health"@[16] == 'h',
        "tracedecay_runtime"@.len() == 18 && "tracedecay_runtime"@[11] == 'r' && "tracedecay_runtime"@[12] == 'u' && "tracedecay_runtime"@[16] == 'm',
        "tracedecay_dsm"@.len() == 14 && "tracedecay_dsm"@[11] == 'd' && "tracedecay_dsm"@[12] == 's',
        "tracedecay_test_risk"@.len() == 20 && "tracedecay_test_risk"@[11] == 't' && "tracedecay_test_risk"@[12] == 'e' && "tracedecay_test_risk"@[16] == 'r',
        "tracedecay_test_map"@.len() == 19 && "tracedecay_test_map"@[11] == 't' && "tracedecay_test_map"@[12] == 'e' && "tracedecay_test_map"@[16] == 'm',
        "tracedecay_gini"@.len() == 15 && "tracedecay_gini"@[11] == 'g' && "tracedecay_gini"@[12] == 'i',
        "tracedecay_dependency_depth"@.len() == 27 && "tracedecay_dependency_depth"@[11] == 'd' && "tracedecay_dependency_depth"@[12] == 'e' && "tracedecay_dependency_depth"@[16] == 'd',
        "tracedecay_redundancy"@.len() == 21 && "tracedecay_redundancy"@[11] == 'r' && "tracedecay_redundancy"@[12] == 'e' && "tracedecay_redundancy"@[16] == 'd',
        "tracedecay_callers"@.len() == 18 && "tracedecay_callers"@[11] == 'c' && "tracedecay_callers"@[12] == 'a' && "tracedecay_callers"@[16] == 'r',
        "tracedecay_callees"@.len() == 18 && "tracedecay_callees"@[11] == 'c' && "tracedecay_callees"@[12] == 'a' && "tracedecay_callees"@[16] == 'e',
        "tracedecay_callers_for"@.len() == 22 && "tracedecay_callers_for"@[11] == 'c' && "tracedecay_callers_for"@[12] == 'a' && "tracedecay_callers_for"@[16] == 'r',
        "tracedecay_call_chain"@.len() == 21 && "tracedecay_call_chain"@[11] == 'c' && "tracedecay_call_chain"@[12] == 'a' && "tracedecay_call_chain"@[16] == 'c',
        "tracedecay_impact"@.len() == 17 && "tracedecay_impact"@[11] == 'i' && "tracedecay_impact"@[12] == 'm' && "tracedecay_impact"@[16] == 't',
        "tracedecay_file_dependents"@.len() == 26 && "tracedecay_file_dependents"@[11] == 'f' && "tracedecay_file_dependents"@[12] == 'i' && "tracedecay_file_dependents"@[16] == 'd',
        "tracedecay_by_qualified_name"@.len() == 28 && "tracedecay_by_qualified_name"@[11] == 'b' && "tracedecay_by_qualified_name"@[12] == 'y' && "tracedecay_by_qualified_name"@[16] == 'a',
        "tracedecay_signature"@.len() == 20 && "tracedecay_signature"@[11] == 's' && "tracedecay_signature"@[12] == 'i' && "tracedecay_signature"@[16] == 't',
        "tracedecay_impls"@.len() == 16 && "tracedecay_impls"@[11] == 'i' && "tracedecay_impls"@[12] == 'm',
        "tracedecay_implementations"@.len() == 26 && "tracedecay_implementations"@[11] == 'i' && "tracedecay_implementations"@[12] == 'm' && "tracedecay_implementations"@[16] == 'm',
        "tracedecay_derives"@.len() == 18 && "tracedecay_derives"@[11] == 'd' && "tracedecay_derives"@[12] == 'e' && "tracedecay_derives"@[16] == 'e',
        "tracedecay_similar"@.len() == 18 && "tracedecay_similar"@[11] == 's' && "tracedecay_similar"@[12] == 'i' && "tracedecay_similar"@[16] == 'a',
        "tracedecay_rename_preview"@.len() == 25 && "tracedecay_rename_preview"@[11] == 'r' && "tracedecay_rename_preview"@[12] == 'e' && "tracedecay_rename_preview"@[16] == 'e',
        "tracedecay_find_exact_symbol"@.len() == 28 && "tracedecay_find_exact_symbol"@[11] == 'f' && "tracedecay_find_exact_symbol"@[12] == 'i' && "tracedecay_find_exact_symbol"@[16] == 'e',
        "tracedecay_type_hierarchy"@.len() == 25 && "tracedecay_type_hierarchy"@[11] == 't' && "tracedecay_type_hierarchy"@[12] == 'y' && "tracedecay_type_hierarchy"@[16] == 'h',
        "tracedecay_diagnose"@.len() == 19 && "tracedecay_diagnose"@[11] == 'd' && "tracedecay_diagnose"@[12] == 'i' && "tracedecay_diagnose"@[16] == 'o',
        "tracedecay_diagnostics"@.len() == 22 && "tracedecay_diagnostics"@[11] == 'd' && "tracedecay_diagnostics"@[12] == 'i' && "tracedecay_diagnostics"@[16] == 'o',
        "tracedecay_run_affected_tests"@.len() == 29 && "tracedecay_run_affected_tests"@[11] == 'r' && "tracedecay_run_affected_tests"@[12] == 'u' && "tracedecay_run_affected_tests"@[16] == 'f',
        "tracedecay_dead_code"@.len() == 20 && "tracedecay_dead_code"@[11] == 'd' && "tracedecay_dead_code"@[12] == 'e' && "tracedecay_dead_code"@[16] == 'c',
        "tracedecay_unused_imports"@.len() == 25 && "tracedecay_unused_imports"@[11] == 'u' && "tracedecay_unused_imports"@[12] == 'n' && "tracedecay_unused_imports"@[16] == 'd',
        "tracedecay_module_api"@.len() == 21 && "tracedecay_module_api"@[11] == 'm' && "tracedecay_module_api"@[12] == 'o' && "tracedecay_module_api"@[16] == 'e',
        "tracedecay_circular"@.len() == 19 && "tracedecay_circular"@[11] == 'c' && "tracedecay_circular"@[12] == 'i' && "tracedecay_circular"@[16] == 'l',
        "tracedecay_hotspots"@.len() == 19 && "tracedecay_hotspots"@[11] == 'h' && "tracedecay_hotspots"@[12] == 'o' && "tracedecay_hotspots"@[16] == 'o',
        "tracedecay_rank"@.len() == 15 && "tracedecay_rank"@[11] == 'r' && "tracedecay_rank"@[12] == 'a',
        "tracedecay_largest"@.len() == 18 && "tracedecay_largest"@[11] == 'l' && "tracedecay_largest"@[12] == 'a' && "tracedecay_largest"@[16] == 's',
        "tracedecay_coupling"@.len() == 19 && "tracedecay_coupling"@[11] == 'c' && "tracedecay_coupling"@[12] == 'o' && "tracedecay_coupling"@[16] == 'i',
        "tracedecay_inheritance_depth"@.len() == 28 && "tracedecay_inheritance_depth"@[11] == 'i' && "tracedecay_inheritance_depth"@[12] == 'n' && "tracedecay_inheritance_depth"@[16] == 'i',
        "tracedecay_distribution"@.len() == 23 && "tracedecay_distribution"@[11] == 'd' && "tracedecay_distribution"@[12] == 'i' && "tracedecay_distribution"@[16] == 'i',
        "tracedecay_recursion"@.len() == 20 && "tracedecay_recursion"@[11] == 'r' && "tracedecay_recursion"@[12] == 'e' && "tracedecay_recursion"@[16] == 's',
        "tracedecay_complexity"@.len() == 21 && "tracedecay_complexity"@[11] == 'c' && "tracedecay_complexity"@[12] == 'o' && "tracedecay_complexity"@[16] == 'e',
        "tracedecay_doc_coverage"@.len() == 23 && "tracedecay_doc_coverage"@[11] == 'd' && "tracedecay_doc_coverage"@[12] == 'o' && "tracedecay_doc_coverage"@[16] == 'o',
        "tracedecay_god_class"@.len() == 20 && "tracedecay_god_class"@[11] == 'g' && "tracedecay_god_class"@[12] == 'o' && "tracedecay_god_class"@[16] == 'l',
        "tracedecay_unsafe_patterns"@.len() == 26 && "tracedecay_unsafe_patterns"@[11] == 'u' && "tracedecay_unsafe_patterns"@[12] == 'n' && "tracedecay_unsafe_patterns"@[16] == 'e',
        "tracedecay_constructors"@.len() == 23 && "tracedecay_constructors"@[11] == 'c' && "tracedecay_constructors"@[12] == 'o' && "tracedecay_constructors"@[16] == 'r',
        "tracedecay_field_sites"@.len() == 22 && "tracedecay_field_sites"@[11] == 'f' && "tracedecay_field_sites"@[12] == 'i' && "tracedecay_field_sites"@[16] == '_',
{
    reveal_strlit("tracedecay_branch_");
    reveal_strlit("tracedecay_commit_context");
    reveal_strlit("tracedecay_pr_context");
    reveal_strlit("tracedecay_changelog");
    reveal_strlit("tracedecay_diff_context");
    reveal_strlit("tracedecay_affected");
    reveal_strlit("tracedecay_str_replace");
    reveal_strlit("tracedecay_multi_str_replace");
    reveal_strlit("tracedecay_insert_at");
    reveal_strlit("tracedecay_ast_grep_rewrite");
    reveal_strlit("tracedecay_replace_symbol");
    reveal_strlit("tracedecay_insert_at_symbol");
    reveal_strlit("tracedecay_fact_store");
    reveal_strlit("tracedecay_fact_feedback");
    reveal_strlit("tracedecay_memory_status");
    reveal_strlit("tracedecay_session_start");
    reveal_strlit("tracedecay_session_end");
    reveal_strlit("tracedecay_health");
    reveal_strlit("tracedecay_runtime");
    reveal_strlit("tracedecay_dsm");
    reveal_strlit("tracedecay_test_risk");
    reveal_strlit("tracedecay_test_map");
    reveal_strlit("tracedecay_gini");
    reveal_strlit("tracedecay_dependency_depth");
    reveal_strlit("tracedecay_redundancy");
    reveal_strlit("tracedecay_callers");
    reveal_strlit("tracedecay_callees");
    reveal_strlit("tracedecay_callers_for");
    reveal_strlit("tracedecay_call_chain");
    reveal_strlit("tracedecay_impact");
    reveal_strlit("tracedecay_file_dependents");
    reveal_strlit("tracedecay_by_qualified_name");
    reveal_strlit("tracedecay_signature");
    reveal_strlit("tracedecay_impls");
    reveal_strlit("tracedecay_implementations");
    reveal_strlit("tracedecay_derives");
    reveal_strlit("tracedecay_similar");
    reveal_strlit("tracedecay_rename_preview");
    reveal_strlit("tracedecay_find_exact_symbol");
    reveal_strlit("tracedecay_type_hierarchy");
    reveal_strlit("tracedecay_diagnose");
    reveal_strlit("tracedecay_diagnostics");
    reveal_strlit("tracedecay_run_affected_tests");
    reveal_strlit("tracedecay_dead_code");
    reveal_strlit("tracedecay_unused_imports");
    reveal_strlit("tracedecay_module_api");
    reveal_strlit("tracedecay_circular");
    reveal_strlit("tracedecay_hotspots");
    reveal_strlit("tracedecay_rank");
    reveal_strlit("tracedecay_largest");
    reveal_strlit("tracedecay_coupling");
    reveal_strlit("tracedecay_inheritance_depth");
    reveal_strlit("tracedecay_distribution");
    reveal_strlit("tracedecay_recursion");
    reveal_strlit("tracedecay_complexity");
    reveal_strlit("tracedecay_doc_coverage");
    reveal_strlit("tracedecay_god_class");
    reveal_strlit("tracedecay_unsafe_patterns");
    reveal_strlit("tracedecay_constructors");
    reveal_strlit("tracedecay_field_sites");
}

/// Tools about branches, commits and what they change are listed together.
pub proof fn git_tools_are_grouped(n: Seq<char>)
    ensures
        (exists|rest: Seq<char>| n == "tracedecay_branch_"@ + rest) ==> group_of(n)
            == "git & history"@,
        n == "tracedecay_commit_context"@
            || n == "tracedecay_pr_context"@
            || n == "tracedecay_changelog"@
            || n == "tracedecay_diff_context"@
            || n == "tracedecay_affected"@ ==> group_of(n)
            == "git & history"@,
{
    if exists|rest: Seq<char>| n == "tracedecay_branch_"@ + rest {
        let rest = choose|rest: Seq<char>| n == "tracedecay_branch_"@ + rest;
        assert(n.subrange(0, "tracedecay_branch_"@.len() as int) == "tracedecay_branch_"@);
    }
}

/// Tools about changing text are listed together.
#[verifier::spinoff_prover]
pub proof fn edit_tools_are_grouped(n: Seq<char>)
    requires
        n == "tracedecay_str_replace"@
            || n == "tracedecay_multi_str_replace"@
            || n == "tracedecay_insert_at"@
            || n == "tracedecay_ast_grep_rewrite"@
            || n == "tracedecay_replace_symbol"@
            || n == "tracedecay_insert_at_symbol"@,
    ensures
        group_of(n) == "edit"@,
{
    names_differ();
    if "tracedecay_branch_"@.is_prefix_of(n) {
        let head = n.subrange(0, "tracedecay_branch_"@.len() as int);
        assert(head[11] == "tracedecay_branch_"@[11] && head[12] == "tracedecay_branch_"@[12]);
    }
}

/// Tools about facts and sessions are listed together.
#[verifier::spinoff_prover]
pub proof fn memory_tools_are_grouped(n: Seq<char>)
    requires
        n == "tracedecay_fact_store"@
            || n == "tracedecay_fact_feedback"@
            || n == "tracedecay_memory_status"@
            || n == "tracedecay_session_start"@
            || n == "tracedecay_session_end"@,
    ensures
        group_of(n) == "memory & session"@,
{
    names_differ();
    if "tracedecay_branch_"@.is_prefix_of(n) {
        let head = n.subrange(0, "tracedecay_branch_"@.len() as int);
        assert(head[11] == "tracedecay_branch_"@[11] && head[12] == "tracedecay_branch_"@[12]);
    }
}

/// Tools about the state of a project and its tests are listed together.
#[verifier::spinoff_prover]
pub proof fn health_tools_are_grouped(n: Seq<char>)
    requires
        n == "tracedecay_health"@
            || n == "tracedecay_runtime"@
            || n == "tracedecay_dsm"@
            || n == "tracedecay_test_risk"@
            || n == "tracedecay_test_map"@
            || n == "tracedecay_gini"@
            || n == "tracedecay_dependency_depth"@
            || n == "tracedecay_redundancy"@,
    ensures
        group_of(n) == "health"@,
{
    names_differ();
    if "tracedecay_branch_"@.is_prefix_of(n) {
        let head = n.subrange(0, "tracedecay_branch_"@.len() as int);
        assert(head[11] == "tracedecay_branch_"@[11] && head[12] == "tracedecay_branch_"@[12]);
    }
}

/// Tools about how symbols hang together are listed together.
#[verifier::spinoff_prover]
pub proof fn graph_tools_are_grouped(n: Seq<char>)
    requires
        n == "tracedecay_callers"@
            || n == "tracedecay_callees"@
            || n == "tracedecay_callers_for"@
            || n == "tracedecay_call_chain"@
            || n == "tracedecay_impact"@
            || n == "tracedecay_file_dependents"@
            || n == "tracedecay_by_qualified_name"@
            || n == "tracedecay_signature"@
            || n == "tracedecay_impls"@
            || n == "tracedecay_implementations"@
            || n == "tracedecay_derives"@
            || n == "tracedecay_similar"@
            || n == "tracedecay_rename_preview"@
            || n == "tracedecay_find_exact_symbol"@
            || n == "tracedecay_type_hierarchy"@,
    ensures
        group_of(n) == "graph"@,
{
    names_differ();
    if "tracedecay_branch_"@.is_prefix_of(n) {
        let head = n.subrange(0, "tracedecay_branch_"@.len() as int);
        assert(head[11] == "tracedecay_branch_"@[11] && head[12] == "tracedecay_branch_"@[12]);
    }
}

/// Tools about diagnosing and running tests are listed together.
#[verifier::spinoff_prover]
pub proof fn workflow_tools_are_grouped(n: Seq<char>)
    requires
        n == "tracedecay_diagnose"@
            || n == "tracedecay_diagnostics"@
            || n == "tracedecay_run_affected_tests"@,
    ensures
        group_of(n) == "workflow"@,
{
    names_differ();
    if "tracedecay_branch_"@.is_prefix_of(n) {
        let head = n.subrange(0, "tracedecay_branch_"@.len() as int);
        assert(head[11] == "tracedecay_branch_"@[11] && head[12] == "tracedecay_branch_"@[12]);
    }
}

/// Tools about the quality of the code are listed together.
#[verifier::spinoff_prover]
pub proof fn analysis_tools_are_grouped(n: Seq<char>)
    requires
        n == "tracedecay_dead_code"@
            || n == "tracedecay_unused_imports"@
            || n == "tracedecay_module_api"@
            || n == "tracedecay_circular"@
            || n == "tracedecay_hotspots"@
            || n == "tracedecay_rank"@
            || n == "tracedecay_largest"@
            || n == "tracedecay_coupling"@
            || n == "tracedecay_inheritance_depth"@
            || n == "tracedecay_distribution"@
            || n == "tracedecay_recursion"@
            || n == "tracedecay_complexity"@
            || n == "tracedecay_doc_coverage"@
            || n == "tracedecay_god_class"@
            || n == "tracedecay_unsafe_patterns"@
            || n == "tracedecay_constructors"@
            || n == "tracedecay_field_sites"@,
    ensures
        group_of(n) == "analysis"@,
{
    names_differ();
    if "tracedecay_branch_"@.is_prefix_of(n) {
        let head = n.subrange(0, "tracedecay_branch_"@.len() as int);
        assert(head[11] == "tracedecay_branch_"@[11] && head[12] == "tracedecay_branch_"@[12]);
    }
}

/// A tool of no group is listed among the others.
pub proof fn other_tools_are_grouped(n: Seq<char>)
    requires
        !"tracedecay_branch_"@.is_prefix_of(n),
        n != "tracedecay_commit_context"@,
        n != "tracedecay_pr_context"@,
        n != "tracedecay_changelog"@,
        n != "tracedecay_diff_context"@,
        n != "tracedecay_affected"@,
        n != "tracedecay_str_replace"@,
        n != "tracedecay_multi_str_replace"@,
        n != "tracedecay_insert_at"@,
        n != "tracedecay_ast_grep_rewrite"@,
        n != "tracedecay_replace_symbol"@,
        n != "tracedecay_insert_at_symbol"@,
        n != "tracedecay_fact_store"@,
        n != "tracedecay_fact_feedback"@,
        n != "tracedecay_memory_status"@,
        n != "tracedecay_session_start"@,
        n != "tracedecay_session_end"@,
        n != "tracedecay_health"@,
        n != "tracedecay_runtime"@,
        n != "tracedecay_dsm"@,
        n != "tracedecay_test_risk"@,
        n != "tracedecay_test_map"@,
        n != "tracedecay_gini"@,
        n != "tracedecay_dependency_depth"@,
        n != "tracedecay_redundancy"@,
        n != "tracedecay_callers"@,
        n != "tracedecay_callees"@,
        n != "tracedecay_callers_for"@,
        n != "tracedecay_call_chain"@,
        n != "tracedecay_impact"@,
        n != "tracedecay_file_dependents"@,
        n != "tracedecay_by_qualified_name"@,
        n != "tracedecay_signature"@,
        n != "tracedecay_impls"@,
        n != "tracedecay_implementations"@,
        n != "tracedecay_derives"@,
        n != "tracedecay_similar"@,
        n != "tracedecay_rename_preview"@,
        n != "tracedecay_find_exact_symbol"@,
        n != "tracedecay_type_hierarchy"@,
        n != "tracedecay_diagnose"@,
        n != "tracedecay_diagnostics"@,
        n != "tracedecay_run_affected_tests"@,
        n != "tracedecay_dead_code"@,
        n != "tracedecay_unused_imports"@,
        n != "tracedecay_module_api"@,
        n != "tracedecay_circular"@,
        n != "tracedecay_hotspots"@,
        n != "tracedecay_rank"@,
        n != "tracedecay_largest"@,
        n != "tracedecay_coupling"@,
        n != "tracedecay_inheritance_depth"@,
        n != "tracedecay_distribution"@,
        n != "tracedecay_recursion"@,
        n != "tracedecay_complexity"@,
        n != "tracedecay_doc_coverage"@,
        n != "tracedecay_god_class"@,
        n != "tracedecay_unsafe_patterns"@,
        n != "tracedecay_constructors"@,
        n != "tracedecay_field_sites"@,
    ensures
        group_of(n) == "other"@,
{
}

/// A line names its tool without the common prefix and says the first line of
/// what the tool is for; it is indented, and ends where the line ends.
pub proof fn lines_name_and_describe(name: Seq<char>, description: Seq<char>)
    ensures
        contains_text(tool_line(name, description), short_name(name)),
        contains_text(tool_line(name, description), shown_line(description)),
        tool_line(name, description).len() > 0,
        tool_line(name, description).last() == '\n',
        tool_line(name, description)[0] == ' ',
{
    reveal_strlit("  ");
    reveal_strlit("\n");
    let line = tool_line(name, description);
    let short = short_name(name);
    let pad = padded(short, 32).skip(short.len() as int);
    assert(padded(short, 32) == short + pad);
    let tail = pad + "  "@ + shown_line(description) + "\n"@;
    assert(line == "  "@ + short + tail);
    stands_between("  "@, short, tail);
    let head = "  "@ + padded(short, 32) + "  "@;
    stands_between(head, shown_line(description), "\n"@);
    assert(line.last() == "\n"@[0]);
    assert(line[0] == "  "@[0]);
}

/// Descriptions of short names stand in one column, the thirty-seventh.
pub proof fn descriptions_stand_in_one_column(name: Seq<char>, description: Seq<char>, i: int)
    requires
        short_name(name).len() <= 32,
    ensures
        tool_line(name, description).skip(36) == shown_line(description) + "\n"@,
        short_name(name).len() <= i < 32 ==> tool_line(name, description)[i + 2] == ' ',
{
    reveal_strlit("  ");
    let head = "  "@ + padded(short_name(name), 32) + "  "@;
    assert(head.len() == 36);
    assert(tool_line(name, description) == head + (shown_line(description) + "\n"@));
}

/// A tool is always loaded if and only if its annotations say so with the JSON
/// value true.
pub proof fn annotations_say_always(meta: Option<JsonView>, entries: Seq<(Seq<char>, JsonView)>)
    ensures
        meta is None ==> !always_loaded(meta),
        meta == Some(JsonView::Object(entries)) ==> (always_loaded(meta) <==> lookup(
            entries,
            "anthropic/alwaysLoad"@,
        ) == Some(JsonView::Bool(true))),
        always_loaded(meta) ==> meta is Some && meta->0 is Object,
{
}

/// The list begins with what can be done with it and ends with its footer.
pub proof fn lists_end_with_their_footer(defs: Seq<ToolDefinition>, footer: Seq<char>)
    ensures
        "Available tools"@.is_prefix_of(tool_list(defs, footer)),
        (footer + "\n"@).is_suffix_of(tool_list(defs, footer)),
{
    reveal_strlit("Available tools");
    reveal_strlit(
        "Available tools — run `tracedecay tool <name> --help` for parameters, then\ninvoke with `tracedecay tool <name> --args '<json>'` (the same JSON arguments\nobject as the MCP tool; `--args -` reads a heredoc from stdin) or, for quick\nscalar calls, `--key value` flags.\n\n",
    );
    let list = tool_list(defs, footer);
    assert(list.subrange(0, "Available tools"@.len() as int) == "Available tools"@);
    let end = footer + "\n"@;
    assert(list.subrange(list.len() - end.len(), list.len() as int) == end);
}

/// Tools that are always loaded are listed in their own order, before all
/// groups and in none of them.
pub proof fn always_loaded_tools_keep_their_order(
    defs: Seq<ToolDefinition>,
    def: ToolDefinition,
    group: Seq<char>,
)
    ensures
        always_loaded(annotations(def.meta)) ==> always_lines(defs.push(def)) == always_lines(defs)
            + tool_line(def.name@, def.description@) && group_members(defs.push(def), group)
            == group_members(defs, group),
        !always_loaded(annotations(def.meta)) ==> always_lines(defs.push(def)) == always_lines(defs),
        !always_loaded(annotations(def.meta)) && group_of(def.name@) == group ==> group_members(
            defs.push(def),
            group,
        ) == group_members(defs, group).push(
            (def.name@, tool_line(def.name@, def.description@)),
        ),
        group_of(def.name@) != group ==> group_members(defs.push(def), group) == group_members(
            defs,
            group,
        ),
{
    assert(defs.push(def).drop_last() == defs);
}

/// A group stands under its own name, and only where it has a tool.
pub proof fn groups_stand_under_their_name(defs: Seq<ToolDefinition>, group: Seq<char>)
    ensures
        group_members(defs, group).len() == 0 <==> group_section(defs, group).len() == 0,
        group_members(defs, group).len() > 0 ==> (seq!['['] + group + seq![']']).is_prefix_of(
            group_section(defs, group),
        ),
{
    reveal_strlit("[");
    reveal_strlit("]\n");
    reveal_strlit("");
    if group_members(defs, group).len() > 0 {
        let section = group_section(defs, group);
        let head = seq!['['] + group + seq![']'];
        assert(section.subrange(0, head.len() as int) == head);
    }
}

} // verus!
