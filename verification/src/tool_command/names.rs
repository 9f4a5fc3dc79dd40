//! The names of tools.

use crate::json::string_option;
use crate::text::{contains_text, copy_text, replace_char, same_text, stands_between, texts, texts_push, with_char_replaced};
use crate::tool_command::schema::{short_name, short_tool_name, ToolDefinition};
use crate::tool_command::suggest::{nearest, nearest_by_edit_distance};
use vstd::prelude::*;

verus! {

/// The tool that an old command name stands for; any other name is its own.
pub open spec fn unaliased(name: Seq<char>) -> Seq<char> {
    if name == "query"@ {
        "search"@
    } else {
        name
    }
}

/// The full name of the tool that a user's word names: the prefix may be left
/// out, dashes stand for underscores, and old names are accepted.
pub open spec fn canonical(raw: Seq<char>) -> Seq<char> {
    "tracedecay_"@ + unaliased(replace_char(short_name(raw), '-', '_'))
}

/// The full name of the tool that a user's word names.
pub fn canonical_tool_name(raw: &str) -> (r: String)
    ensures
        r@ == canonical(raw@),
{
    let trimmed = short_tool_name(raw);
    let normalized = with_char_replaced(trimmed.as_str(), '-', '_');
    let mut name = copy_text("tracedecay_");
    if same_text(normalized.as_str(), "query") {
        name.append("search");
    } else {
        name.append(normalized.as_str());
    }
    name
}

/// The names of tools, in order.
pub open spec fn tool_names(defs: Seq<ToolDefinition>) -> Seq<Seq<char>> {
    Seq::new(defs.len(), |i: int| defs[i].name@)
}

/// The names of tools without their prefix, in order.
pub open spec fn short_names(defs: Seq<ToolDefinition>) -> Seq<Seq<char>> {
    Seq::new(defs.len(), |i: int| short_name(defs[i].name@))
}

/// Index of the first tool with the name.
pub open spec fn tool_index(names: Seq<Seq<char>>, name: Seq<char>) -> Option<int>
    decreases names.len(),
{
    if names.len() == 0 {
        None
    } else if names[0] == name {
        Some(0)
    } else {
        match tool_index(names.skip(1), name) {
            Some(i) => Some(i + 1),
            None => None,
        }
    }
}

/// `tool_index` is the index of the first of the names that equals `name`.
pub proof fn tool_index_is_first(names: Seq<Seq<char>>, name: Seq<char>)
    ensures
        match tool_index(names, name) {
            Some(i) => {
                &&& 0 <= i < names.len()
                &&& names[i] == name
                &&& forall|j: int| 0 <= j < i ==> #[trigger] names[j] != name
            },
            None => !names.contains(name),
        },
    decreases names.len(),
{
    if names.len() > 0 {
        let rest = names.skip(1);
        tool_index_is_first(rest, name);
        if names[0] != name {
            match tool_index(rest, name) {
                Some(i) => {
                    assert forall|j: int| 0 <= j < i + 1 implies #[trigger] names[j] != name by {
                        if j > 0 {
                            assert(rest[j - 1] == names[j]);
                        }
                    }
                },
                None => {
                    if names.contains(name) {
                        let k = choose|k: int| 0 <= k < names.len() && names[k] == name;
                        assert(rest[k - 1] == name);
                    }
                },
            }
        }
    }
}

proof fn tool_index_at(names: Seq<Seq<char>>, name: Seq<char>, i: int)
    requires
        0 <= i <= names.len(),
        forall|j: int| 0 <= j < i ==> (#[trigger] names[j]) != name,
        i < names.len() ==> names[i] == name,
    ensures
        tool_index(names, name) == if i < names.len() {
            Some(i)
        } else {
            None
        },
    decreases names.len(),
{
    if i > 0 {
        assert(names[0] != name);
        assert forall|j: int| 0 <= j < i - 1 implies (#[trigger] names.skip(1)[j]) != name by {
            assert(names.skip(1)[j] == names[j + 1]);
        }
        tool_index_at(names.skip(1), name, i - 1);
    }
}

/// Index of the first tool with the name.
pub fn find_tool(defs: &Vec<ToolDefinition>, name: &str) -> (r: Option<usize>)
    ensures
        match r {
            Some(i) => i < defs@.len() && tool_index(tool_names(defs@), name@) == Some(i as int),
            None => tool_index(tool_names(defs@), name@) is None,
        },
{
    let ghost names = tool_names(defs@);
    let mut i: usize = 0;
    while i < defs.len()
        invariant
            i <= defs@.len(),
            names == tool_names(defs@),
            forall|j: int| 0 <= j < i ==> (#[trigger] names[j]) != name@,
        decreases defs@.len() - i,
    {
        assert(names[i as int] == defs@[i as int].name@);
        if same_text(defs[i].name.as_str(), name) {
            proof {
                tool_index_at(names, name@, i as int);
            }
            return Some(i);
        }
        i += 1;
    }
    proof {
        tool_index_at(names, name@, i as int);
    }
    None
}

/// The name of the tool nearest to an unknown one, without its prefix.
pub fn nearest_tool_name(canonical_name: &str, defs: &Vec<ToolDefinition>) -> (r: Option<String>)
    ensures
        string_option(r) == nearest(short_name(canonical_name@), short_names(defs@)),
{
    let ghost all = short_names(defs@);
    let mut names: Vec<String> = Vec::new();
    let mut i: usize = 0;
    while i < defs.len()
        invariant
            i <= defs@.len(),
            all == short_names(defs@),
            texts(names@) == all.take(i as int),
        decreases defs@.len() - i,
    {
        let ghost before = names@;
        let name = short_tool_name(defs[i].name.as_str());
        names.push(name);
        proof {
            texts_push(before, name);
            assert(all.take(i as int + 1) == all.take(i as int).push(name@));
        }
        i += 1;
    }
    assert(all.take(all.len() as int) == all);
    nearest_by_edit_distance(short_tool_name(canonical_name).as_str(), &names)
}

/// The error for a word that names no tool.
pub open spec fn unknown_tool_error(raw: Seq<char>, near: Option<Seq<char>>) -> Seq<char> {
    "unknown tool: '"@ + raw + "'."@ + match near {
        Some(name) => " Did you mean '"@ + name + "'?"@,
        None => ""@,
    } + " Run `tracedecay tool` to list available tools."@
}

/// The error for a word that names no tool.
pub fn unknown_tool_message(raw: &str, near: Option<String>) -> (r: String)
    ensures
        r@ == unknown_tool_error(raw@, string_option(near)),
{
    let mut hint = copy_text("");
    match near {
        Some(name) => {
            hint = copy_text(" Did you mean '");
            hint.append(name.as_str());
            hint.append("'?");
        },
        None => {},
    }
    let mut message = copy_text("unknown tool: '");
    message.append(raw);
    message.append("'.");
    message.append(hint.as_str());
    message.append(" Run `tracedecay tool` to list available tools.");
    message
}

proof fn prefixed_short_name(name: Seq<char>)
    ensures
        short_name("tracedecay_"@ + name) == name,
{
    let whole = "tracedecay_"@ + name;
    assert(whole.subrange(0, "tracedecay_"@.len() as int) == "tracedecay_"@);
    assert(whole.skip("tracedecay_"@.len() as int) == name);
}

proof fn no_dash_stays(name: Seq<char>)
    requires
        !name.contains('-'),
    ensures
        replace_char(name, '-', '_') == name,
{
    assert forall|i: int| 0 <= i < name.len() implies replace_char(name, '-', '_')[i]
        == #[trigger] name[i] by {
        assert(name.contains(name[i]));
    }
    assert(replace_char(name, '-', '_') =~= name);
}

/// A full name names its own tool.
pub proof fn canonical_is_idempotent(raw: Seq<char>)
    ensures
        canonical(canonical(raw)) == canonical(raw),
{
    reveal_strlit("search");
    reveal_strlit("query");
    let normal = replace_char(short_name(raw), '-', '_');
    let name = unaliased(normal);
    prefixed_short_name(name);
    assert(!name.contains('-'));
    no_dash_stays(name);
    assert("search"@.len() != "query"@.len());
}

/// Leaving out the prefix does not change which tool is named.
pub proof fn prefix_is_optional(name: Seq<char>)
    requires
        !"tracedecay_"@.is_prefix_of(name),
    ensures
        canonical("tracedecay_"@ + name) == canonical(name),
{
    prefixed_short_name(name);
}

/// Dashes and underscores name the same tool. Words that take the prefix on
/// only through the replacement, such as `tracedecay-x`, are left out.
pub proof fn dashes_stand_for_underscores(raw: Seq<char>)
    requires
        "tracedecay_"@.is_prefix_of(replace_char(raw, '-', '_')) ==> "tracedecay_"@.is_prefix_of(
            raw,
        ),
    ensures
        canonical(replace_char(raw, '-', '_')) == canonical(raw),
{
    let replaced = replace_char(raw, '-', '_');
    let cut = "tracedecay_"@.len() as int;
    if "tracedecay_"@.is_prefix_of(raw) {
        assert(raw.subrange(0, cut) == "tracedecay_"@);
        reveal_strlit("tracedecay_");
        assert forall|i: int| 0 <= i < cut implies replaced[i] == raw[i] by {
            assert(raw[i] == raw.subrange(0, cut)[i]);
        }
        assert(replaced.subrange(0, cut) == "tracedecay_"@);
        assert(replace_char(replaced.skip(cut), '-', '_') == replace_char(raw.skip(cut), '-', '_'));
    } else {
        assert(replace_char(replaced, '-', '_') == replace_char(raw, '-', '_'));
    }
}

/// A plain name is that of the tool with the common prefix before it, but for
/// `query`, which is another name of `search`.
pub proof fn names_get_the_prefix(name: Seq<char>)
    requires
        !"tracedecay_"@.is_prefix_of(name),
        !name.contains('-'),
    ensures
        name == "query"@ ==> canonical(name) == "tracedecay_"@ + "search"@,
        name != "query"@ ==> canonical(name) == "tracedecay_"@ + name,
{
    no_dash_stays(name);
}

/// A tool that is not known is answered with its name as it was written, and
/// with the nearest name where there is one.
pub proof fn unknown_names_are_shown(raw: Seq<char>, near: Seq<char>)
    ensures
        contains_text(unknown_tool_error(raw, None), raw),
        contains_text(unknown_tool_error(raw, Some(near)), raw),
        contains_text(unknown_tool_error(raw, Some(near)), "Did you mean '"@ + near + "'?"@),
{
    reveal_strlit("");
    reveal_strlit(" Did you mean '");
    reveal_strlit("Did you mean '");
    let head = "unknown tool: '"@;
    let tail = " Run `tracedecay tool` to list available tools."@;
    let plain = "'."@ + ""@ + tail;
    assert(unknown_tool_error(raw, None) == head + raw + plain);
    stands_between(head, raw, plain);
    let lead = " Did you mean '"@;
    let ask = "Did you mean '"@;
    assert(lead == lead.take(1) + ask);
    let hint = ask + near + "'?"@;
    let rest = "'."@ + (lead + near + "'?"@) + tail;
    assert(unknown_tool_error(raw, Some(near)) == head + raw + rest);
    stands_between(head, raw, rest);
    let before = head + raw + "'."@ + lead.take(1);
    assert(unknown_tool_error(raw, Some(near)) == before + hint + tail);
    stands_between(before, hint, tail);
}

} // verus!
