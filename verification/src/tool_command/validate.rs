//! The check of the final arguments object against a tool's schema.

use crate::json::{as_items, field, json_items, lookup, same_json, string_option, text_at, Json, JsonMap, JsonView};
use crate::json_io::{json_writing, write_json};
use crate::order::{sort_texts, sorted, sorted_is_in_order};
use crate::text::{contains_text, copy_text, join, joined, joined_parts_stand, same_text, stands_between, stands_within, texts, texts_push, three_more_stand};
use crate::tool_command::coerce::{flag_name, json_type, json_type_name, kebab, matches_type, types_admit_their_values, value_matches_type};
use crate::tool_command::schema::{properties, required_keys, schema_properties, schema_required_keys, short_name, short_tool_name, ToolDefinition};
use crate::tool_command::suggest::{nearest, nearest_by_edit_distance};
use vstd::prelude::*;

verus! {

/// The parameters that integrations add for routing and that no schema has to
/// declare.
pub open spec fn is_routing_key(key: Seq<char>) -> bool {
    key == "project_root"@ || key == "storage_scope"@ || key == "hermes_home"@ || key
        == "response_handle_project_root"@ || key == "cwd"@
}

/// Whether the parameter is one that integrations add for routing.
pub fn is_dispatch_routing_key(key: &str) -> (r: bool)
    ensures
        r == is_routing_key(key@),
{
    same_text(key, "project_root") || same_text(key, "storage_scope") || same_text(
        key,
        "hermes_home",
    ) || same_text(key, "response_handle_project_root") || same_text(key, "cwd")
}

/// The names among entries, in order.
pub open spec fn keys_of(entries: Seq<(Seq<char>, JsonView)>) -> Seq<Seq<char>> {
    Seq::new(entries.len(), |i: int| entries[i].0)
}

/// The names in the map, in order.
pub fn map_keys(map: &JsonMap) -> (r: Vec<String>)
    ensures
        texts(r@) == keys_of(map@),
{
    let mut out: Vec<String> = Vec::new();
    let total: usize = map.len();
    let mut i: usize = 0;
    while i < total
        invariant
            i <= total,
            total == map@.len(),
            texts(out@) == keys_of(map@).take(i as int),
        decreases total - i,
    {
        let ghost before = out@;
        let key = copy_text(map.key(i));
        out.push(key);
        proof {
            texts_push(before, key);
            assert(keys_of(map@).take(i as int + 1) == keys_of(map@).take(i as int).push(key@));
        }
        i += 1;
    }
    assert(keys_of(map@).take(total as int) == keys_of(map@));
    out
}

/// Whether the text is among the texts.
pub fn has_text(v: &Vec<String>, s: &str) -> (r: bool)
    ensures
        r == texts(v@).contains(s@),
{
    let mut i: usize = 0;
    while i < v.len()
        invariant
            i <= v@.len(),
            forall|j: int| 0 <= j < i ==> (#[trigger] texts(v@)[j]) != s@,
        decreases v@.len() - i,
    {
        assert(texts(v@)[i as int] == v@[i as int]@);
        if same_text(v[i].as_str(), s) {
            return true;
        }
        i += 1;
    }
    false
}

/// The name of a parameter near to an unknown one.
pub open spec fn nearest_name(key: Seq<char>, props: Seq<(Seq<char>, JsonView)>) -> Option<
    Seq<char>,
> {
    nearest(key, keys_of(props))
}

/// The name of the parameter nearest to an unknown one.
pub fn nearest_key(key: &str, props: &JsonMap) -> (r: Option<String>)
    ensures
        string_option(r) == nearest_name(key@, props@),
{
    nearest_by_edit_distance(key, &map_keys(props))
}

/// The flag of a parameter, marked when the parameter is required.
pub open spec fn valid_flag(key: Seq<char>, required: Seq<Seq<char>>) -> Seq<char> {
    if required.contains(key) {
        "--"@ + kebab(key) + " (required)"@
    } else {
        "--"@ + kebab(key)
    }
}

/// The flags of all parameters, in the order of their texts.
pub open spec fn valid_flags(
    props: Seq<(Seq<char>, JsonView)>,
    required: Seq<Seq<char>>,
) -> Seq<Seq<char>> {
    sorted(Seq::new(props.len(), |i: int| valid_flag(props[i].0, required)))
}

/// The hint at the nearest parameter.
pub open spec fn suggestion(key: Seq<char>, props: Seq<(Seq<char>, JsonView)>) -> Seq<char> {
    match nearest_name(key, props) {
        Some(k) => " — did you mean `--"@ + kebab(k) + "`?"@,
        None => ""@,
    }
}

/// The error for a parameter that the schema does not declare.
pub open spec fn unknown_error(
    key: Seq<char>,
    short: Seq<char>,
    props: Seq<(Seq<char>, JsonView)>,
    required: Seq<Seq<char>>,
) -> Seq<char> {
    "unknown parameter `--"@ + kebab(key) + "` for `"@ + short + "`"@ + suggestion(key, props)
        + " Valid: "@ + join(valid_flags(props, required), ", "@)
}

fn flags_in_order(props: &JsonMap, required: &Vec<String>) -> (r: Vec<String>)
    ensures
        texts(r@) == valid_flags(props@, texts(required@)),
{
    let ghost all = Seq::new(props@.len(), |i: int| valid_flag(props@[i].0, texts(required@)));
    let mut out: Vec<String> = Vec::new();
    let total: usize = props.len();
    let mut i: usize = 0;
    while i < total
        invariant
            i <= total,
            total == props@.len(),
            all == Seq::new(props@.len(), |i: int| valid_flag(props@[i].0, texts(required@))),
            texts(out@) == all.take(i as int),
        decreases total - i,
    {
        let ghost before = out@;
        let key = props.key(i);
        let mut flag = copy_text("--");
        flag.append(flag_name(key).as_str());
        if has_text(required, key) {
            flag.append(" (required)");
        }
        proof {
            assert(flag@ == valid_flag(props@[i as int].0, texts(required@)));
        }
        out.push(flag);
        proof {
            texts_push(before, flag);
            assert(all.take(i as int + 1) == all.take(i as int).push(flag@));
        }
        i += 1;
    }
    assert(all.take(total as int) == all);
    sort_texts(out)
}

fn unknown_message(key: &str, short: &str, props: &JsonMap, required: &Vec<String>) -> (r: String)
    ensures
        r@ == unknown_error(key@, short@, props@, texts(required@)),
{
    let mut hint = copy_text("");
    match nearest_key(key, props) {
        Some(k) => {
            hint = copy_text(" — did you mean `--");
            hint.append(flag_name(k.as_str()).as_str());
            hint.append("`?");
        },
        None => {},
    }
    let mut message = copy_text("unknown parameter `--");
    message.append(flag_name(key).as_str());
    message.append("` for `");
    message.append(short);
    message.append("`");
    message.append(hint.as_str());
    message.append(" Valid: ");
    message.append(joined(&flags_in_order(props, required), ", ").as_str());
    message
}

/// A value as an error message shows it: a text as it is, another value in
/// JSON.
pub open spec fn shown(v: JsonView) -> Seq<char> {
    match v {
        JsonView::Text(s) => s,
        _ => json_writing(v),
    }
}

/// The value as an error message shows it.
pub fn shown_value(v: &Json) -> (r: String)
    ensures
        r@ == shown(v@),
{
    match v {
        Json::Text(s) => copy_text(s.as_str()),
        _ => write_json(v),
    }
}

/// Whether a value equals one of the items.
pub open spec fn is_among(items: Seq<JsonView>, v: JsonView) -> bool {
    exists|i: int| 0 <= i < items.len() && same_json(#[trigger] items[i], v)
}

fn among(items: &Vec<Json>, v: &Json) -> (r: bool)
    ensures
        r == is_among(json_items(items@), v@),
{
    let mut i: usize = 0;
    while i < items.len()
        invariant
            i <= items@.len(),
            forall|j: int| 0 <= j < i ==> !same_json(#[trigger] json_items(items@)[j], v@),
        decreases items@.len() - i,
    {
        assert(json_items(items@)[i as int] == items@[i as int]@);
        if items[i].same(v) {
            return true;
        }
        i += 1;
    }
    false
}

/// The error for a value that is none of the allowed ones.
pub open spec fn enum_error(key: Seq<char>, v: JsonView, allowed: Seq<JsonView>) -> Seq<char> {
    "--"@ + kebab(key) + ": `"@ + shown(v) + "` is not one of: "@ + join(
        Seq::new(allowed.len(), |i: int| shown(allowed[i])),
        ", "@,
    )
}

fn enum_message(key: &str, v: &Json, allowed: &Vec<Json>) -> (r: String)
    ensures
        r@ == enum_error(key@, v@, json_items(allowed@)),
{
    let ghost items = json_items(allowed@);
    let ghost all = Seq::new(items.len(), |i: int| shown(items[i]));
    let mut names: Vec<String> = Vec::new();
    let mut i: usize = 0;
    while i < allowed.len()
        invariant
            i <= allowed@.len(),
            items == json_items(allowed@),
            all == Seq::new(items.len(), |i: int| shown(items[i])),
            texts(names@) == all.take(i as int),
        decreases allowed@.len() - i,
    {
        let ghost before = names@;
        let name = shown_value(&allowed[i]);
        names.push(name);
        proof {
            texts_push(before, name);
            assert(items[i as int] == allowed@[i as int]@);
            assert(all.take(i as int + 1) == all.take(i as int).push(name@));
        }
        i += 1;
    }
    assert(all.take(all.len() as int) == all);
    let mut message = copy_text("--");
    message.append(flag_name(key).as_str());
    message.append(": `");
    message.append(shown_value(v).as_str());
    message.append("` is not one of: ");
    message.append(joined(&names, ", ").as_str());
    message
}

/// The hint at the ways to pass JSON.
pub open spec fn json_hint(flag: Seq<char>, short: Seq<char>, declared: Seq<char>) -> Seq<char> {
    if declared == "array"@ || declared == "object"@ {
        " Pass JSON (e.g. --"@ + flag
            + " '<json>'), or the whole payload via stdin: tracedecay tool "@ + short
            + " --args - <<'JSON' {…} JSON"@
    } else {
        ""@
    }
}

/// The error for a value of another type than the declared one.
pub open spec fn type_error(
    key: Seq<char>,
    short: Seq<char>,
    v: JsonView,
    declared: Seq<char>,
) -> Seq<char> {
    "--"@ + kebab(key) + " expects a JSON "@ + declared + ", got "@ + json_type(v) + "."@
        + json_hint(kebab(key), short, declared)
}

fn type_message(key: &str, short: &str, v: &Json, declared: &str) -> (r: String)
    ensures
        r@ == type_error(key@, short@, v@, declared@),
{
    let flag = flag_name(key);
    let mut hint = copy_text("");
    if same_text(declared, "array") || same_text(declared, "object") {
        hint = copy_text(" Pass JSON (e.g. --");
        hint.append(flag.as_str());
        hint.append(" '<json>'), or the whole payload via stdin: tracedecay tool ");
        hint.append(short);
        hint.append(" --args - <<'JSON' {…} JSON");
    }
    let mut message = copy_text("--");
    message.append(flag.as_str());
    message.append(" expects a JSON ");
    message.append(declared);
    message.append(", got ");
    message.append(json_type_name(v));
    message.append(".");
    message.append(hint.as_str());
    message
}

/// The first item that does not fit a type.
pub open spec fn first_misfit(items: Seq<JsonView>, expected: Seq<char>) -> Option<JsonView>
    decreases items.len(),
{
    if items.len() == 0 {
        None
    } else if matches_type(items[0], expected) {
        first_misfit(items.skip(1), expected)
    } else {
        Some(items[0])
    }
}

fn find_misfit<'a>(items: &'a Vec<Json>, expected: &str) -> (r: Option<&'a Json>)
    ensures
        match r {
            Some(v) => first_misfit(json_items(items@), expected@) == Some(v@),
            None => first_misfit(json_items(items@), expected@) is None,
        },
{
    let ghost all = json_items(items@);
    let mut i: usize = 0;
    assert(all.skip(0) == all);
    while i < items.len()
        invariant
            i <= items@.len(),
            all == json_items(items@),
            first_misfit(all, expected@) == first_misfit(all.skip(i as int), expected@),
        decreases items@.len() - i,
    {
        proof {
            assert(all.skip(i as int)[0] == items@[i as int]@);
            assert(all.skip(i as int).skip(1) == all.skip(i as int + 1));
        }
        if !value_matches_type(&items[i], expected) {
            return Some(&items[i]);
        }
        i += 1;
    }
    None
}

/// The error for an element of another type than the declared one.
pub open spec fn element_error(
    key: Seq<char>,
    short: Seq<char>,
    items_type: Seq<char>,
    bad: JsonView,
) -> Seq<char> {
    "--"@ + kebab(key) + " expects a JSON array of "@ + items_type + "s, but an element is a "@
        + json_type(bad) + ". Pass JSON: --"@ + kebab(key)
        + " '<json>' — or the whole payload via stdin: tracedecay tool "@ + short
        + " --args - <<'JSON' {…} JSON"@
}

fn element_message(key: &str, short: &str, items_type: &str, bad: &Json) -> (r: String)
    ensures
        r@ == element_error(key@, short@, items_type@, bad@),
{
    let flag = flag_name(key);
    let mut message = copy_text("--");
    message.append(flag.as_str());
    message.append(" expects a JSON array of ");
    message.append(items_type);
    message.append("s, but an element is a ");
    message.append(json_type_name(bad));
    message.append(". Pass JSON: --");
    message.append(flag.as_str());
    message.append(" '<json>' — or the whole payload via stdin: tracedecay tool ");
    message.append(short);
    message.append(" --args - <<'JSON' {…} JSON");
    message
}

/// The type that a schema declares for the elements of an array.
pub open spec fn element_type(schema: JsonView) -> Option<Seq<char>> {
    match field(schema, "items"@) {
        Some(items) => text_at(items, "type"@),
        None => None,
    }
}

/// What is wrong with the type of a value, if anything is.
pub open spec fn type_problem(
    schema: JsonView,
    short: Seq<char>,
    key: Seq<char>,
    v: JsonView,
) -> Option<Seq<char>> {
    match text_at(schema, "type"@) {
        None => None,
        Some(declared) => if !matches_type(v, declared) {
            Some(type_error(key, short, v, declared))
        } else if declared == "array"@ {
            match (element_type(schema), as_items(v)) {
                (Some(items_type), Some(items)) => if items_type == "array"@ || items_type
                    == "object"@ {
                    match first_misfit(items, items_type) {
                        Some(bad) => Some(element_error(key, short, items_type, bad)),
                        None => None,
                    }
                } else {
                    None
                },
                _ => None,
            }
        } else {
            None
        },
    }
}

/// What is wrong with one argument, if anything is. An undeclared parameter is
/// an error unless it is there for routing; a null for an optional parameter
/// is always accepted; otherwise the value must be one of those that the schema
/// allows, and of the declared type.
pub open spec fn entry_problem(
    props: Seq<(Seq<char>, JsonView)>,
    required: Seq<Seq<char>>,
    short: Seq<char>,
    key: Seq<char>,
    v: JsonView,
) -> Option<Seq<char>> {
    match lookup(props, key) {
        None => if is_routing_key(key) {
            None
        } else {
            Some(unknown_error(key, short, props, required))
        },
        Some(schema) => if v is Null && !required.contains(key) {
            None
        } else {
            match field(schema, "enum"@) {
                Some(JsonView::Array(allowed)) => if is_among(allowed, v) {
                    type_problem(schema, short, key, v)
                } else {
                    Some(enum_error(key, v, allowed))
                },
                _ => type_problem(schema, short, key, v),
            }
        },
    }
}

fn type_check(schema: &Json, short: &str, key: &str, v: &Json) -> (r: Option<String>)
    ensures
        string_option(r) == type_problem(schema@, short@, key@, v@),
{
    let declared = match schema.str_at("type") {
        Some(t) => t,
        None => return None,
    };
    if !value_matches_type(v, declared) {
        return Some(type_message(key, short, v, declared));
    }
    if !same_text(declared, "array") {
        return None;
    }
    let items_type = match schema.get("items") {
        Some(items) => match items.str_at("type") {
            Some(t) => t,
            None => return None,
        },
        None => return None,
    };
    let items = match v.as_array() {
        Some(items) => items,
        None => return None,
    };
    if !same_text(items_type, "array") && !same_text(items_type, "object") {
        return None;
    }
    match find_misfit(items, items_type) {
        Some(bad) => Some(element_message(key, short, items_type, bad)),
        None => None,
    }
}

/// What is wrong with one argument, if anything is.
pub fn entry_check(
    props: &JsonMap,
    required: &Vec<String>,
    short: &str,
    key: &str,
    v: &Json,
) -> (r: Option<String>)
    ensures
        string_option(r) == entry_problem(props@, texts(required@), short@, key@, v@),
{
    let schema = match props.get(key) {
        Some(schema) => schema,
        None => {
            if is_dispatch_routing_key(key) {
                return None;
            }
            return Some(unknown_message(key, short, props, required));
        },
    };
    if matches!(v, Json::Null) && !has_text(required, key) {
        return None;
    }
    match schema.array_at("enum") {
        Some(allowed) => {
            if !among(allowed, v) {
                return Some(enum_message(key, v, allowed));
            }
        },
        None => {},
    }
    type_check(schema, short, key, v)
}

/// The first problem among arguments, in order.
pub open spec fn first_problem(
    props: Seq<(Seq<char>, JsonView)>,
    required: Seq<Seq<char>>,
    short: Seq<char>,
    entries: Seq<(Seq<char>, JsonView)>,
) -> Option<Seq<char>>
    decreases entries.len(),
{
    if entries.len() == 0 {
        None
    } else {
        match entry_problem(props, required, short, entries[0].0, entries[0].1) {
            Some(e) => Some(e),
            None => first_problem(props, required, short, entries.skip(1)),
        }
    }
}

/// The first required parameter that has no argument.
pub open spec fn first_missing(
    required: Seq<Seq<char>>,
    entries: Seq<(Seq<char>, JsonView)>,
) -> Option<Seq<char>>
    decreases required.len(),
{
    if required.len() == 0 {
        None
    } else if lookup(entries, required[0]) is None {
        Some(required[0])
    } else {
        first_missing(required.skip(1), entries)
    }
}

/// Index of the first required parameter that has no argument.
pub fn find_missing(required: &Vec<String>, args: &JsonMap) -> (r: Option<usize>)
    ensures
        match r {
            Some(i) => i < required@.len() && first_missing(texts(required@), args@) == Some(
                required@[i as int]@,
            ),
            None => first_missing(texts(required@), args@) is None,
        },
{
    let ghost all = texts(required@);
    let mut i: usize = 0;
    assert(all.skip(0) == all);
    while i < required.len()
        invariant
            i <= required@.len(),
            all == texts(required@),
            first_missing(all, args@) == first_missing(all.skip(i as int), args@),
        decreases required@.len() - i,
    {
        proof {
            assert(all.skip(i as int)[0] == required@[i as int]@);
            assert(all.skip(i as int).skip(1) == all.skip(i as int + 1));
        }
        if !args.contains_key(required[i].as_str()) {
            return Some(i);
        }
        i += 1;
    }
    None
}

/// The error for a required parameter without an argument.
pub open spec fn missing_error(key: Seq<char>, short: Seq<char>) -> Seq<char> {
    "missing required parameter `--"@ + kebab(key) + "` for tool `"@ + short + "`"@
}

/// What is wrong with the final arguments, if anything is. A schema without
/// declared parameters accepts everything.
pub open spec fn validation(
    name: Seq<char>,
    schema: JsonView,
    entries: Seq<(Seq<char>, JsonView)>,
) -> Option<Seq<char>> {
    let props = properties(schema);
    let required = required_keys(schema);
    let short = short_name(name);
    if props.len() == 0 {
        None
    } else {
        match first_problem(props, required, short, entries) {
            Some(e) => Some(e),
            None => match first_missing(required, entries) {
                Some(key) => Some(missing_error(key, short)),
                None => None,
            },
        }
    }
}

/// Checks the final arguments against the tool's schema: the message of the
/// first problem, or nothing when they are in order.
pub fn validate_tool_args(def: &ToolDefinition, args: &JsonMap) -> (r: Option<String>)
    ensures
        string_option(r) == validation(def.name@, def.input_schema@, args@),
{
    let props = match schema_properties(&def.input_schema) {
        Some(props) => props,
        None => return None,
    };
    if props.is_empty() {
        return None;
    }
    let short = short_tool_name(def.name.as_str());
    let required = schema_required_keys(&def.input_schema);
    let ghost all = args@;
    let total: usize = args.len();
    let mut i: usize = 0;
    assert(all.skip(0) == all);
    while i < total
        invariant
            i <= total,
            total == args@.len(),
            all == args@,
            first_problem(props@, texts(required@), short@, all) == first_problem(
                props@,
                texts(required@),
                short@,
                all.skip(i as int),
            ),
            props@ == properties(def.input_schema@),
            props@.len() > 0,
            texts(required@) == required_keys(def.input_schema@),
            short@ == short_name(def.name@),
        decreases total - i,
    {
        proof {
            assert(all.skip(i as int)[0] == all[i as int]);
            assert(all.skip(i as int).skip(1) == all.skip(i as int + 1));
        }
        match entry_check(props, &required, short.as_str(), args.key(i), args.value(i)) {
            Some(e) => return Some(e),
            None => {},
        }
        i += 1;
    }
    match find_missing(&required, args) {
        Some(k) => {
            let mut message = copy_text("missing required parameter `--");
            message.append(flag_name(required[k].as_str()).as_str());
            message.append("` for tool `");
            message.append(short.as_str());
            message.append("`");
            Some(message)
        },
        None => None,
    }
}

/// The usage text of required parameters.
pub open spec fn required_usage(required: Seq<Seq<char>>) -> Seq<char>
    decreases required.len(),
{
    if required.len() == 0 {
        ""@
    } else {
        required_usage(required.drop_last()) + " --"@ + kebab(required.last()) + " <value>"@
    }
}

/// What is missing among collected arguments, if anything is, with a line that
/// shows how to call the tool.
pub open spec fn missing_required(
    name: Seq<char>,
    required: Seq<Seq<char>>,
    entries: Seq<(Seq<char>, JsonView)>,
) -> Option<Seq<char>> {
    let short = short_name(name);
    match first_missing(required, entries) {
        Some(key) => Some(
            missing_error(key, short) + " — e.g. tracedecay tool "@ + short + required_usage(
                required,
            ),
        ),
        None => None,
    }
}

/// Checks that every required parameter has an argument.
pub fn validate_required_args(name: &str, required: &Vec<String>, collected: &JsonMap) -> (r:
    Option<String>)
    ensures
        string_option(r) == missing_required(name@, texts(required@), collected@),
{
    let short = short_tool_name(name);
    let missing: usize = match find_missing(required, collected) {
        Some(k) => k,
        None => return None,
    };
    let ghost all = texts(required@);
    let mut usage = copy_text("");
    let mut i: usize = 0;
    assert(all.take(0) == Seq::<Seq<char>>::empty());
    while i < required.len()
        invariant
            i <= required@.len(),
            all == texts(required@),
            usage@ == required_usage(all.take(i as int)),
        decreases required@.len() - i,
    {
        proof {
            assert(all.take(i as int + 1).drop_last() == all.take(i as int));
            assert(all.take(i as int + 1).last() == required@[i as int]@);
        }
        usage.append(" --");
        usage.append(flag_name(required[i].as_str()).as_str());
        usage.append(" <value>");
        i += 1;
    }
    assert(all.take(all.len() as int) == all);
    let mut message = copy_text("missing required parameter `--");
    message.append(flag_name(required[missing].as_str()).as_str());
    message.append("` for tool `");
    message.append(short.as_str());
    message.append("`");
    message.append(" — e.g. tracedecay tool ");
    message.append(short.as_str());
    message.append(usage.as_str());
    Some(message)
}

/// A parameter that a tool does not declare is refused, but for those that say
/// where a call is to go: `project_root`, `storage_scope`, `hermes_home`,
/// `response_handle_project_root` and `cwd`.
pub proof fn undeclared_parameters_are_refused(
    props: Seq<(Seq<char>, JsonView)>,
    required: Seq<Seq<char>>,
    short: Seq<char>,
    key: Seq<char>,
    v: JsonView,
)
    requires
        lookup(props, key) is None,
    ensures
        entry_problem(props, required, short, key, v) is None <==> key == "project_root"@ || key
            == "storage_scope"@ || key == "hermes_home"@ || key == "response_handle_project_root"@
            || key == "cwd"@,
        entry_problem(props, required, short, key, v) matches Some(message) ==> contains_text(
            message,
            kebab(key),
        ) && contains_text(message, short),
{
    if entry_problem(props, required, short, key, v) is Some {
        let head = "unknown parameter `--"@;
        let valid = join(valid_flags(props, required), ", "@);
        let tail = "` for `"@ + short + "`"@ + suggestion(key, props) + " Valid: "@ + valid;
        let rest = "`"@ + suggestion(key, props) + " Valid: "@ + valid;
        let message = unknown_error(key, short, props, required);
        assert(message == head + kebab(key) + tail);
        stands_between(head, kebab(key), tail);
        assert(message == (head + kebab(key) + "` for `"@) + short + rest);
        stands_between(head + kebab(key) + "` for `"@, short, rest);
    }
}

/// Null is a value that an optional parameter may always have.
pub proof fn optional_parameters_may_be_null(
    props: Seq<(Seq<char>, JsonView)>,
    required: Seq<Seq<char>>,
    short: Seq<char>,
    key: Seq<char>,
)
    requires
        lookup(props, key) is Some,
        !required.contains(key),
    ensures
        entry_problem(props, required, short, key, JsonView::Null) is None,
{
}

/// A value is refused where its schema lists values and it is none of them, or
/// where its schema declares a type that does not admit it.
pub proof fn misfits_are_refused(
    props: Seq<(Seq<char>, JsonView)>,
    required: Seq<Seq<char>>,
    short: Seq<char>,
    key: Seq<char>,
    schema: JsonView,
    v: JsonView,
    allowed: Seq<JsonView>,
    declared: Seq<char>,
)
    requires
        lookup(props, key) == Some(schema),
        !(v is Null),
    ensures
        field(schema, "enum"@) == Some(JsonView::Array(allowed)) && (forall|i: int|
            0 <= i < allowed.len() ==> !same_json(#[trigger] allowed[i], v)) ==> entry_problem(
            props,
            required,
            short,
            key,
            v,
        ) is Some,
        text_at(schema, "type"@) == Some(declared) && !matches_type(v, declared) ==> entry_problem(
            props,
            required,
            short,
            key,
            v,
        ) is Some,
        text_at(schema, "type"@) is None && field(schema, "enum"@) is None ==> entry_problem(
            props,
            required,
            short,
            key,
            v,
        ) is None,
{
}

/// The elements of an array are looked at where they are declared arrays or
/// objects.
pub proof fn misfit_elements_are_refused(
    props: Seq<(Seq<char>, JsonView)>,
    required: Seq<Seq<char>>,
    short: Seq<char>,
    key: Seq<char>,
    schema: JsonView,
    inner: JsonView,
    items: Seq<JsonView>,
    i: int,
)
    requires
        lookup(props, key) == Some(schema),
        text_at(schema, "type"@) == Some("array"@),
        field(schema, "items"@) == Some(inner),
        0 <= i < items.len(),
        (text_at(inner, "type"@) == Some("array"@) && !(items[i] is Array)) || (text_at(
            inner,
            "type"@,
        ) == Some("object"@) && !(items[i] is Object)),
    ensures
        entry_problem(props, required, short, key, JsonView::Array(items)) is Some,
{
    types_admit_their_values(items[i], ""@);
    types_admit_their_values(JsonView::Array(items), ""@);
    first_misfit_is_found(items, text_at(inner, "type"@)->0, i);
}

proof fn first_misfit_is_found(items: Seq<JsonView>, expected: Seq<char>, i: int)
    requires
        0 <= i < items.len(),
        !matches_type(items[i], expected),
    ensures
        first_misfit(items, expected) is Some,
    decreases items.len(),
{
    if matches_type(items[0], expected) {
        assert(items.skip(1)[i - 1] == items[i]);
        first_misfit_is_found(items.skip(1), expected, i - 1);
    }
}

/// The parameter that is reported missing is the first of the required ones
/// that has no value; none is reported only where all have one.
pub proof fn first_missing_is_reported(
    name: Seq<char>,
    required: Seq<Seq<char>>,
    entries: Seq<(Seq<char>, JsonView)>,
    i: int,
)
    requires
        0 <= i <= required.len(),
        forall|j: int| 0 <= j < i ==> lookup(entries, #[trigger] required[j]) is Some,
        i < required.len() ==> lookup(entries, required[i]) is None,
    ensures
        i == required.len() ==> missing_required(name, required, entries) is None,
        i < required.len() ==> (missing_required(name, required, entries) matches Some(message)
            && contains_text(message, kebab(required[i])) && ("missing required parameter `--"@
            + kebab(required[i]) + "` for tool `"@ + short_name(name) + "`"@).is_prefix_of(message)),
{
    first_missing_at(required, entries, i);
    if i < required.len() {
        let short = short_name(name);
        let head = "missing required parameter `--"@;
        let flag = kebab(required[i]);
        let error = head + flag + "` for tool `"@ + short + "`"@;
        let hint = " — e.g. tracedecay tool "@ + short + required_usage(required);
        let message = missing_required(name, required, entries)->0;
        assert(message == error + hint);
        assert(message.subrange(0, error.len() as int) == error);
        let tail = "` for tool `"@ + short + "`"@ + hint;
        assert(message == head + flag + tail);
        stands_between(head, flag, tail);
    }
}

proof fn first_missing_at(
    required: Seq<Seq<char>>,
    entries: Seq<(Seq<char>, JsonView)>,
    i: int,
)
    requires
        0 <= i <= required.len(),
        forall|j: int| 0 <= j < i ==> lookup(entries, #[trigger] required[j]) is Some,
        i < required.len() ==> lookup(entries, required[i]) is None,
    ensures
        first_missing(required, entries) == if i < required.len() {
            Some(required[i])
        } else {
            None
        },
    decreases required.len(),
{
    if i > 0 {
        let rest = required.skip(1);
        assert forall|j: int| 0 <= j < i - 1 implies lookup(entries, #[trigger] rest[j]) is Some by {
            assert(rest[j] == required[j + 1]);
        }
        assert(lookup(entries, required[0]) is Some);
        first_missing_at(rest, entries, i - 1);
    }
}

/// A misspelt parameter is answered with the nearest one that the tool has,
/// where one is near enough.
pub proof fn misspelt_parameters_are_answered(
    props: Seq<(Seq<char>, JsonView)>,
    required: Seq<Seq<char>>,
    short: Seq<char>,
    key: Seq<char>,
    v: JsonView,
    near: Seq<char>,
)
    requires
        lookup(props, key) is None,
        nearest(key, Seq::new(props.len(), |i: int| props[i].0)) == Some(near),
    ensures
        entry_problem(props, required, short, key, v) matches Some(message) ==> contains_text(
            message,
            "did you mean `--"@ + kebab(near) + "`?"@,
        ),
{
    assert(keys_of(props) == Seq::new(props.len(), |i: int| props[i].0));
    if entry_problem(props, required, short, key, v) is Some {
        reveal_strlit(" — did you mean `--");
        reveal_strlit("did you mean `--");
        let lead = " — did you mean `--"@;
        let ask = "did you mean `--"@;
        assert(lead == lead.take(3) + ask);
        let hint = ask + kebab(near) + "`?"@;
        let before = "unknown parameter `--"@ + kebab(key) + "` for `"@ + short + "`"@ + lead.take(
            3,
        );
        let after = " Valid: "@ + join(valid_flags(props, required), ", "@);
        assert(lead + kebab(near) + "`?"@ == lead.take(3) + hint);
        assert(unknown_error(key, short, props, required) == before + hint + after);
        stands_between(before, hint, after);
    }
}

/// A value of another type is refused under the flag of its parameter; both
/// types are named, and how to write an array or an object is shown.
pub proof fn type_errors_name_both_types(
    key: Seq<char>,
    short: Seq<char>,
    v: JsonView,
    declared: Seq<char>,
)
    ensures
        ("--"@ + kebab(key)).is_prefix_of(type_error(key, short, v, declared)),
        contains_text(type_error(key, short, v, declared), declared),
        contains_text(type_error(key, short, v, declared), json_type(v)),
        declared == "array"@ || declared == "object"@ ==> contains_text(
            type_error(key, short, v, declared),
            short,
        ),
        declared != "array"@ && declared != "object"@ ==> "."@.is_suffix_of(
            type_error(key, short, v, declared),
        ),
{
    reveal_strlit("");
    let message = type_error(key, short, v, declared);
    let head = "--"@ + kebab(key);
    let hint = json_hint(kebab(key), short, declared);
    assert(message.subrange(0, head.len() as int) == head);
    let expects = head + " expects a JSON "@;
    let rest = ", got "@ + json_type(v) + "."@ + hint;
    assert(message == expects + declared + rest);
    stands_between(expects, declared, rest);
    let got = expects + declared + ", got "@;
    assert(message == got + json_type(v) + ("."@ + hint));
    stands_between(got, json_type(v), "."@ + hint);
    if declared == "array"@ || declared == "object"@ {
        let before = " Pass JSON (e.g. --"@ + kebab(key)
            + " '<json>'), or the whole payload via stdin: tracedecay tool "@;
        let after = " --args - <<'JSON' {…} JSON"@;
        stands_between(before, short, after);
        let none = Seq::<char>::empty();
        stands_within(got + json_type(v) + "."@, hint, none, short);
        assert(got + json_type(v) + "."@ + hint + none == message);
    } else {
        assert(message == got + json_type(v) + "."@);
        assert(message.subrange(message.len() - "."@.len(), message.len() as int) == "."@);
    }
}

/// A value that is none of those listed is shown, and so is every value that is
/// listed.
pub proof fn listed_values_are_shown(key: Seq<char>, v: JsonView, allowed: Seq<JsonView>, i: int)
    requires
        0 <= i < allowed.len(),
    ensures
        ("--"@ + kebab(key)).is_prefix_of(enum_error(key, v, allowed)),
        v matches JsonView::Text(s) ==> contains_text(enum_error(key, v, allowed), s),
        allowed[i] matches JsonView::Text(s) ==> contains_text(enum_error(key, v, allowed), s),
        !(allowed[i] is Text) ==> contains_text(
            enum_error(key, v, allowed),
            json_writing(allowed[i]),
        ),
{
    let message = enum_error(key, v, allowed);
    let head = "--"@ + kebab(key);
    assert(message.subrange(0, head.len() as int) == head);
    let parts = Seq::new(allowed.len(), |i: int| shown(allowed[i]));
    let list = join(parts, ", "@);
    let middle = head + ": `"@;
    let rest = "` is not one of: "@ + list;
    assert(message == middle + shown(v) + rest);
    stands_between(middle, shown(v), rest);
    joined_parts_stand(parts, ", "@, i);
    let before = middle + shown(v) + "` is not one of: "@;
    let none = Seq::<char>::empty();
    stands_within(before, list, none, parts[i]);
    assert(before + list + none == message);
}

/// With an unknown parameter every flag of the tool is shown, and which of them
/// are required.
pub proof fn flags_are_shown(
    key: Seq<char>,
    short: Seq<char>,
    props: Seq<(Seq<char>, JsonView)>,
    required: Seq<Seq<char>>,
    i: int,
)
    requires
        0 <= i < props.len(),
    ensures
        required.contains(props[i].0) ==> contains_text(
            unknown_error(key, short, props, required),
            "--"@ + kebab(props[i].0) + " (required)"@,
        ),
        !required.contains(props[i].0) ==> contains_text(
            unknown_error(key, short, props, required),
            "--"@ + kebab(props[i].0),
        ),
{
    broadcast use vstd::seq_lib::group_to_multiset_ensures;

    let flags = Seq::new(props.len(), |i: int| valid_flag(props[i].0, required));
    let ordered = sorted(flags);
    sorted_is_in_order(flags);
    assert(flags[i] == valid_flag(props[i].0, required));
    assert(flags.to_multiset().count(flags[i]) > 0);
    assert(ordered.contains(flags[i]));
    let k = choose|k: int| 0 <= k < ordered.len() && ordered[k] == flags[i];
    joined_parts_stand(ordered, ", "@, k);
    let before = "unknown parameter `--"@ + kebab(key) + "` for `"@ + short + "`"@ + suggestion(
        key,
        props,
    ) + " Valid: "@;
    let none = Seq::<char>::empty();
    stands_within(before, join(ordered, ", "@), none, flags[i]);
    assert(before + join(ordered, ", "@) + none == unknown_error(key, short, props, required));
}

/// The example that is shown for missing parameters holds the flag of every
/// required one.
pub proof fn examples_hold_required_flags(required: Seq<Seq<char>>, i: int)
    requires
        0 <= i < required.len(),
    ensures
        contains_text(required_usage(required), " --"@ + kebab(required[i]) + " <value>"@),
    decreases required.len(),
{
    let front = required.drop_last();
    let wanted = " --"@ + kebab(required[i]) + " <value>"@;
    three_more_stand(
        required_usage(front),
        wanted,
        " --"@,
        kebab(required.last()),
        " <value>"@,
    );
    if i < front.len() {
        examples_hold_required_flags(front, i);
        assert(front[i] == required[i]);
    }
}

/// Where no parameter of the tool is near, none is suggested.
pub proof fn far_parameters_are_not_suggested(
    key: Seq<char>,
    short: Seq<char>,
    props: Seq<(Seq<char>, JsonView)>,
    required: Seq<Seq<char>>,
)
    requires
        nearest(key, Seq::new(props.len(), |i: int| props[i].0)) is None,
    ensures
        ("unknown parameter `--"@ + kebab(key) + "` for `"@ + short + "`"@ + " Valid: "@).is_prefix_of(
            unknown_error(key, short, props, required),
        ),
{
    reveal_strlit("");
    assert(keys_of(props) == Seq::new(props.len(), |i: int| props[i].0));
    let named = "unknown parameter `--"@ + kebab(key) + "` for `"@ + short + "`"@;
    assert(named + ""@ == named);
    let head = named + " Valid: "@;
    let message = unknown_error(key, short, props, required);
    assert(message.subrange(0, head.len() as int) == head);
}

} // verus!
