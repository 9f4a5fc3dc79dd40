//! From flag values to JSON values of the declared types.

use crate::decimal::{i64_text_reads_back, i64_value, integer_text, parse_i64};
use crate::json::{array_model, as_integer, ascending, entries_model, inserted, inserted_after_removed, inserted_last, integer_number, json_items, json_items_push, lookup, number_copy, number_from_i64, number_u64, number_i64, removed, removed_is_gone, same_json, stored_is_found, text_at, Json, JsonMap, JsonView};
use crate::json_io::{json_reading, parse_json};
use crate::order::text_before;
use crate::table::supplied;
use crate::text::{contains_text, copy_text, first_char, first_char_points, find_char, chars_of, join, replace_char, same_text, split_at_char, split_on, split_parts_rejoin, stands_between, texts, trim, trimmed, with_char_replaced};
use crate::tool_command::inputs::{invalid, stop_invalid, Inputs, InputsView, Source, SourceView, Stop, StopView};
use crate::tool_command::schema::{declared_type, json_option, property, type_of};
use vstd::prelude::*;

verus! {

/// A parameter name as its flag writes it, without the leading dashes.
pub open spec fn kebab(key: Seq<char>) -> Seq<char> {
    replace_char(key, '_', '-')
}

/// The parameter name as its flag writes it, without the leading dashes.
pub fn flag_name(key: &str) -> (r: String)
    ensures
        r@ == kebab(key@),
{
    with_char_replaced(key, '_', '-')
}

/// Whether a value fits a schema `type`. `number` accepts integers, `integer`
/// a whole number only; an unknown type accepts everything.
pub open spec fn matches_type(v: JsonView, expected: Seq<char>) -> bool {
    if expected == "string"@ {
        v is Text
    } else if expected == "boolean"@ {
        v is Bool
    } else if expected == "integer"@ {
        v matches JsonView::Number(n) && (number_i64(n) is Some || number_u64(n) is Some)
    } else if expected == "number"@ {
        v is Number
    } else if expected == "array"@ {
        v is Array
    } else if expected == "object"@ {
        v is Object
    } else {
        true
    }
}

/// Whether the value fits a schema `type`.
pub fn value_matches_type(value: &Json, expected: &str) -> (r: bool)
    ensures
        r == matches_type(value@, expected@),
{
    if same_text(expected, "string") {
        matches!(value, Json::Text(_))
    } else if same_text(expected, "boolean") {
        matches!(value, Json::Bool(_))
    } else if same_text(expected, "integer") {
        value.as_i64().is_some() || value.as_u64().is_some()
    } else if same_text(expected, "number") {
        matches!(value, Json::Number(_))
    } else if same_text(expected, "array") {
        matches!(value, Json::Array(_))
    } else if same_text(expected, "object") {
        matches!(value, Json::Object(_))
    } else {
        true
    }
}

/// The name of a value's JSON type.
pub open spec fn json_type(v: JsonView) -> Seq<char> {
    match v {
        JsonView::Null => "null"@,
        JsonView::Bool(_) => "boolean"@,
        JsonView::Number(_) => "number"@,
        JsonView::Text(_) => "string"@,
        JsonView::Array(_) => "array"@,
        JsonView::Object(_) => "object"@,
    }
}

/// The name of the value's JSON type.
pub fn json_type_name(value: &Json) -> (r: &'static str)
    ensures
        r@ == json_type(value@),
{
    match value {
        Json::Null => "null",
        Json::Bool(_) => "boolean",
        Json::Number(_) => "number",
        Json::Text(_) => "string",
        Json::Array(_) => "array",
        Json::Object(_) => "object",
    }
}

/// The flag values that mean true.
pub open spec fn means_true(raw: Seq<char>) -> bool {
    raw == "true"@ || raw == "1"@ || raw == "yes"@ || raw == "on"@
}

/// The flag values that mean false.
pub open spec fn means_false(raw: Seq<char>) -> bool {
    raw == "false"@ || raw == "0"@ || raw == "no"@ || raw == "off"@
}

/// The error for a value that is no boolean.
pub open spec fn boolean_error(key: Seq<char>, raw: Seq<char>) -> Seq<char> {
    "--"@ + kebab(key) + ": expected a boolean (true/false), got `"@ + raw + "` — pass `--"@
        + kebab(key) + " true` or `--"@ + kebab(key) + " false`"@
}

/// The error for a value that is no integer.
pub open spec fn integer_error(key: Seq<char>, raw: Seq<char>) -> Seq<char> {
    "--"@ + kebab(key) + ": expected integer, got `"@ + raw + "`"@
}

/// The error for a value that is no finite number.
pub open spec fn number_error(key: Seq<char>, raw: Seq<char>) -> Seq<char> {
    "--"@ + kebab(key) + ": expected a finite number, got `"@ + raw + "`"@
}

/// The value of an array or object parameter: what the text writes in JSON when
/// that is of the declared type, else the text.
pub open spec fn structured(
    declared: Seq<char>,
    parsed: Result<JsonView, Seq<char>>,
    raw: Seq<char>,
) -> JsonView {
    match parsed {
        Ok(v) => if matches_type(v, declared) {
            v
        } else {
            JsonView::Text(raw)
        },
        Err(_) => JsonView::Text(raw),
    }
}

/// The JSON value that a flag value stands for, by the type that the
/// parameter's schema declares; a parameter without a known type takes a text.
pub open spec fn coerced(
    key: Seq<char>,
    schema: Option<JsonView>,
    raw: Seq<char>,
    inputs: InputsView,
) -> Result<JsonView, StopView> {
    match declared_type(schema) {
        None => Ok(JsonView::Text(raw)),
        Some(declared) => if declared == "boolean"@ {
            if means_true(raw) {
                Ok(JsonView::Bool(true))
            } else if means_false(raw) {
                Ok(JsonView::Bool(false))
            } else {
                invalid(boolean_error(key, raw))
            }
        } else if declared == "integer"@ {
            match i64_value(raw) {
                Some(n) => Ok(JsonView::Number(integer_number(n))),
                None => invalid(integer_error(key, raw)),
            }
        } else if declared == "number"@ {
            match i64_value(raw) {
                Some(n) => Ok(JsonView::Number(integer_number(n))),
                None => match supplied(inputs.numbers, raw) {
                    None => Err(StopView::Needs(SourceView::Number(raw))),
                    Some(Some(n)) => Ok(JsonView::Number(n)),
                    Some(None) => invalid(number_error(key, raw)),
                },
            }
        } else if declared == "array"@ || declared == "object"@ {
            Ok(structured(declared, json_reading(raw), raw))
        } else {
            Ok(JsonView::Text(raw))
        },
    }
}

/// What a step that gives a value gives.
pub open spec fn value_outcome(r: Result<Json, Stop>) -> Result<JsonView, StopView> {
    match r {
        Ok(v) => Ok(v@),
        Err(stop) => Err(stop@),
    }
}

/// What a parse gives.
pub open spec fn parse_outcome(r: Result<Json, String>) -> Result<JsonView, Seq<char>> {
    match r {
        Ok(v) => Ok(v@),
        Err(e) => Err(e@),
    }
}

/// The value of an array or object parameter, given what its text writes.
pub fn structured_value(declared: &str, parsed: Result<Json, String>, raw: &str) -> (r: Json)
    ensures
        r@ == structured(declared@, parse_outcome(parsed), raw@),
{
    match parsed {
        Ok(v) => if value_matches_type(&v, declared) {
            v
        } else {
            Json::Text(copy_text(raw))
        },
        Err(_) => Json::Text(copy_text(raw)),
    }
}

fn flag_message(key: &str, middle: &str, raw: &str) -> (r: String)
    ensures
        r@ == "--"@ + kebab(key@) + middle@ + raw@ + "`"@,
{
    let flag = flag_name(key);
    let mut message = copy_text("--");
    message.append(flag.as_str());
    message.append(middle);
    message.append(raw);
    message.append("`");
    message
}

fn boolean_message(key: &str, raw: &str) -> (r: String)
    ensures
        r@ == boolean_error(key@, raw@),
{
    let flag = flag_name(key);
    let mut message = copy_text("--");
    message.append(flag.as_str());
    message.append(": expected a boolean (true/false), got `");
    message.append(raw);
    message.append("` — pass `--");
    message.append(flag.as_str());
    message.append(" true` or `--");
    message.append(flag.as_str());
    message.append(" false`");
    message
}

/// The JSON value that a flag value stands for.
pub fn coerce_value(key: &str, schema: Option<&Json>, raw: &str, inputs: &Inputs) -> (r: Result<
    Json,
    Stop,
>)
    ensures
        value_outcome(r) == coerced(key@, json_option(schema), raw@, inputs@),
{
    let declared = match type_of(schema) {
        Some(t) => t,
        None => return Ok(Json::Text(copy_text(raw))),
    };
    if same_text(declared, "boolean") {
        if same_text(raw, "true") || same_text(raw, "1") || same_text(raw, "yes") || same_text(
            raw,
            "on",
        ) {
            Ok(Json::Bool(true))
        } else if same_text(raw, "false") || same_text(raw, "0") || same_text(raw, "no")
            || same_text(raw, "off") {
            Ok(Json::Bool(false))
        } else {
            Err(stop_invalid(boolean_message(key, raw)))
        }
    } else if same_text(declared, "integer") {
        match parse_i64(raw) {
            Some(n) => Ok(Json::Number(number_from_i64(n))),
            None => Err(stop_invalid(flag_message(key, ": expected integer, got `", raw))),
        }
    } else if same_text(declared, "number") {
        match parse_i64(raw) {
            Some(n) => Ok(Json::Number(number_from_i64(n))),
            None => match inputs.number(raw) {
                None => Err(Stop::Needs(Source::Number(copy_text(raw)))),
                Some(Some(n)) => Ok(Json::Number(number_copy(n))),
                Some(None) => Err(
                    stop_invalid(flag_message(key, ": expected a finite number, got `", raw)),
                ),
            },
        }
    } else if same_text(declared, "array") || same_text(declared, "object") {
        Ok(structured_value(declared, parse_json(raw), raw))
    } else {
        Ok(Json::Text(copy_text(raw)))
    }
}

/// The entries after one more value came for `key`: a second value makes an
/// array of both, a value that comes for an array joins it.
pub open spec fn merged(
    entries: Seq<(Seq<char>, JsonView)>,
    key: Seq<char>,
    value: JsonView,
) -> Seq<(Seq<char>, JsonView)> {
    match lookup(entries, key) {
        None => inserted(entries, key, value),
        Some(JsonView::Array(items)) => inserted(entries, key, JsonView::Array(items.push(value))),
        Some(earlier) => inserted(entries, key, JsonView::Array(seq![earlier, value])),
    }
}

/// Adds one more value for `key`.
pub fn merge_value(map: &mut JsonMap, key: &str, value: Json)
    ensures
        final(map)@ == merged(old(map)@, key@, value@),
{
    let _ = map.len();
    match map.remove(key) {
        None => {
            proof {
                inserted_after_removed(old(map)@, key@, value@);
            }
            map.insert(copy_text(key), value);
        },
        Some(Json::Array(items)) => {
            let mut items = items;
            let ghost before = items@;
            proof {
                array_model(items);
            }
            items.push(value);
            proof {
                json_items_push(before, value);
                array_model(items);
                inserted_after_removed(
                    old(map)@,
                    key@,
                    JsonView::Array(json_items(before).push(value@)),
                );
            }
            map.insert(copy_text(key), Json::Array(items));
        },
        Some(earlier) => {
            let mut items: Vec<Json> = Vec::new();
            items.push(earlier);
            items.push(value);
            proof {
                array_model(items);
                assert(json_items(items@) =~= seq![earlier@, value@]);
                inserted_after_removed(
                    old(map)@,
                    key@,
                    JsonView::Array(seq![earlier@, value@]),
                );
            }
            map.insert(copy_text(key), Json::Array(items));
        },
    }
}

/// The items that a text given for an array parameter stands for: the trimmed
/// parts between commas, or the text as it is when there is no comma.
pub open spec fn array_parts(s: Seq<char>) -> Seq<JsonView> {
    if first_char(s, ',') < s.len() {
        Seq::new(
            split_on(s, ',').len(),
            |i: int| JsonView::Text(trim(split_on(s, ',')[i])),
        )
    } else {
        seq![JsonView::Text(s)]
    }
}

/// A collected value in its final form: a text given for an array parameter
/// becomes an array.
pub open spec fn finalized_value(schema: Option<JsonView>, v: JsonView) -> JsonView {
    if declared_type(schema) == Some("array"@) {
        match v {
            JsonView::Text(s) => JsonView::Array(array_parts(s)),
            _ => v,
        }
    } else {
        v
    }
}

/// The collected entries in their final form.
pub open spec fn finalized(
    props: Seq<(Seq<char>, JsonView)>,
    entries: Seq<(Seq<char>, JsonView)>,
) -> Seq<(Seq<char>, JsonView)> {
    Seq::new(
        entries.len(),
        |i: int| (entries[i].0, finalized_value(lookup(props, entries[i].0), entries[i].1)),
    )
}

fn split_parts(s: &str) -> (r: Vec<Json>)
    ensures
        json_items(r@) == array_parts(s@),
{
    let chars = chars_of(s);
    assert(s@.skip(0) == s@);
    let mut out: Vec<Json> = Vec::new();
    if find_char(&chars, 0, ',') == chars.len() {
        out.push(Json::Text(copy_text(s)));
        assert(json_items(out@) =~= array_parts(s@));
        return out;
    }
    let parts = split_at_char(s, ',');
    let mut i: usize = 0;
    while i < parts.len()
        invariant
            i <= parts@.len(),
            texts(parts@) == split_on(s@, ','),
            first_char(s@, ',') < s@.len(),
            json_items(out@) == array_parts(s@).take(i as int),
        decreases parts@.len() - i,
    {
        let ghost before = out@;
        assert(split_on(s@, ',')[i as int] == parts@[i as int]@);
        let part = Json::Text(trimmed(parts[i].as_str()));
        out.push(part);
        proof {
            json_items_push(before, part);
            assert(array_parts(s@).take(i as int + 1) == array_parts(s@).take(i as int).push(
                part@,
            ));
        }
        i += 1;
    }
    assert(parts@.len() == texts(parts@).len());
    assert(array_parts(s@).take(array_parts(s@).len() as int) == array_parts(s@));
    out
}

/// The collected entries in their final form.
pub fn finalize_arrays(schema: &Json, map: JsonMap) -> (r: JsonMap)
    ensures
        r@ == finalized(crate::tool_command::schema::properties(schema@), map@),
{
    let ghost all = map@;
    let ghost props = crate::tool_command::schema::properties(schema@);
    let ghost goal = finalized(props, all);
    let entries = map.into_entries();
    let mut out = JsonMap::new();
    for entry in it: entries
        invariant
            ascending(all),
            entries_model(it.seq()) == all,
            props == crate::tool_command::schema::properties(schema@),
            goal == finalized(props, all),
            out@ == goal.take(it.index() as int),
    {
        let ghost k = it.index() as int;
        let (key, value) = entry;
        proof {
            assert(all[k] == entries_model(it.seq())[k]);
            assert(all[k] == (key@, value@));
        }
        let declared = property(schema, key.as_str());
        let is_array = match type_of(declared) {
            Some(t) => same_text(t, "array"),
            None => false,
        };
        let last = match value {
            Json::Text(s) => if is_array {
                let parts = split_parts(s.as_str());
                proof {
                    array_model(parts);
                }
                Json::Array(parts)
            } else {
                Json::Text(s)
            },
            other => other,
        };
        proof {
            assert(goal[k] == (key@, last@));
            assert forall|j: int| 0 <= j < k implies text_before(
                (#[trigger] goal.take(k)[j]).0,
                key@,
            ) by {
                assert(text_before(all[j].0, all[k].0));
            }
            inserted_last(goal.take(k), key@, last@);
            assert(goal.take(k + 1) == goal.take(k).push(goal[k]));
        }
        out.insert(key, last);
    }
    proof {
        assert(goal.take(goal.len() as int) == goal);
    }
    out
}

/// The message for a legacy alias that contradicts the current parameter.
pub open spec fn legacy_error() -> Seq<char> {
    "`fact_type` is a legacy alias for `category`; pass only `category`"@
}

/// The arguments with the legacy `fact_type` of the fact store turned into
/// `category`; the two must agree when both are there.
pub open spec fn normalized(name: Seq<char>, entries: Seq<(Seq<char>, JsonView)>) -> Result<
    Seq<(Seq<char>, JsonView)>,
    Seq<char>,
> {
    if name != "tracedecay_fact_store"@ {
        Ok(entries)
    } else {
        match lookup(entries, "fact_type"@) {
            None => Ok(entries),
            Some(legacy) => {
                let rest = removed(entries, "fact_type"@);
                match lookup(rest, "category"@) {
                    Some(category) => if same_json(category, legacy) {
                        Ok(rest)
                    } else {
                        Err(legacy_error())
                    },
                    None => Ok(inserted(rest, "category"@, legacy)),
                }
            },
        }
    }
}

/// Accepted arguments of the fact store hold no legacy name, and replacing
/// legacy names a second time changes nothing.
pub proof fn legacy_names_are_replaced(name: Seq<char>, entries: Seq<(Seq<char>, JsonView)>)
    requires
        ascending(entries),
    ensures
        normalized(name, entries) matches Ok(current) ==> {
            &&& name == "tracedecay_fact_store"@ ==> lookup(current, "fact_type"@) is None
            &&& normalized(name, current) == Ok::<Seq<(Seq<char>, JsonView)>, Seq<char>>(current)
        },
{
    if name == "tracedecay_fact_store"@ {
        if let Some(legacy) = lookup(entries, "fact_type"@) {
            removed_is_gone(entries, "fact_type"@, "category"@);
            let rest = removed(entries, "fact_type"@);
            reveal_strlit("fact_type");
            reveal_strlit("category");
            assert("fact_type"@.len() != "category"@.len());
            stored_is_found(rest, "category"@, legacy, "fact_type"@);
        }
    }
}

/// Whether arguments hold no legacy name of the tool.
pub open spec fn is_current(name: Seq<char>, entries: Seq<(Seq<char>, JsonView)>) -> bool {
    name == "tracedecay_fact_store"@ ==> lookup(entries, "fact_type"@) is None
}

/// Turns the legacy `fact_type` of the fact store into `category`; it is gone
/// from what comes back.
pub fn normalize_legacy_tool_args(name: &str, args: JsonMap) -> (r: Result<JsonMap, String>)
    ensures
        match r {
            Ok(map) => normalized(name@, args@) == Ok::<
                Seq<(Seq<char>, JsonView)>,
                Seq<char>,
            >(map@) && is_current(name@, map@),
            Err(e) => normalized(name@, args@) == Err::<Seq<(Seq<char>, JsonView)>, Seq<char>>(
                e@,
            ),
        },
{
    let mut map = args;
    if !same_text(name, "tracedecay_fact_store") {
        return Ok(map);
    }
    if !map.contains_key("fact_type") {
        return Ok(map);
    }
    proof {
        legacy_names_are_replaced(name@, args@);
    }
    match map.remove("fact_type") {
        None => Ok(map),
        Some(legacy) => {
            let agrees = match map.get("category") {
                Some(category) => Some(category.same(&legacy)),
                None => None,
            };
            match agrees {
                Some(true) => Ok(map),
                Some(false) => Err(
                    copy_text("`fact_type` is a legacy alias for `category`; pass only `category`"),
                ),
                None => {
                    map.insert(copy_text("category"), legacy);
                    Ok(map)
                },
            }
        },
    }
}

/// Types have different names.
proof fn types_differ()
    ensures
        "boolean"@ != "integer"@,
        "boolean"@ != "number"@,
        "boolean"@ != "array"@,
        "boolean"@ != "object"@,
        "boolean"@ != "string"@,
        "integer"@ != "number"@,
        "integer"@ != "array"@,
        "integer"@ != "object"@,
        "integer"@ != "string"@,
        "number"@ != "array"@,
        "number"@ != "object"@,
        "number"@ != "string"@,
        "array"@ != "object"@,
        "array"@ != "string"@,
        "object"@ != "string"@,
{
    reveal_strlit("boolean");
    reveal_strlit("integer");
    reveal_strlit("number");
    reveal_strlit("array");
    reveal_strlit("object");
    reveal_strlit("string");
    assert("boolean"@[0] == 'b' && "integer"@[0] == 'i' && "number"@[0] == 'n' && "array"@[0] == 'a'
        && "object"@[0] == 'o' && "string"@[0] == 's');
}

/// For a parameter declared boolean, each of the words `true`, `1`, `yes` and
/// `on` gives the JSON value true, each of `false`, `0`, `no` and `off` gives
/// the JSON value false, and every other word is refused.
pub proof fn boolean_words_mean_what_they_say(
    key: Seq<char>,
    schema: JsonView,
    raw: Seq<char>,
    inputs: InputsView,
)
    requires
        text_at(schema, "type"@) == Some("boolean"@),
    ensures
        coerced(key, Some(schema), raw, inputs) == Ok::<JsonView, StopView>(JsonView::Bool(true))
            <==> raw == "true"@ || raw == "1"@ || raw == "yes"@ || raw == "on"@,
        coerced(key, Some(schema), raw, inputs) == Ok::<JsonView, StopView>(JsonView::Bool(false))
            <==> raw == "false"@ || raw == "0"@ || raw == "no"@ || raw == "off"@,
        coerced(key, Some(schema), raw, inputs) is Ok ==> coerced(key, Some(schema), raw, inputs)
            == Ok::<JsonView, StopView>(JsonView::Bool(true)) || coerced(
            key,
            Some(schema),
            raw,
            inputs,
        ) == Ok::<JsonView, StopView>(JsonView::Bool(false)),
        coerced(key, Some(schema), raw, inputs) matches Err(stop) ==> stop is Invalid,
{
    reveal_strlit("true");
    reveal_strlit("1");
    reveal_strlit("yes");
    reveal_strlit("on");
    reveal_strlit("false");
    reveal_strlit("0");
    reveal_strlit("no");
    reveal_strlit("off");
    assert("true"@[0] == 't' && "1"@[0] == '1' && "yes"@[0] == 'y' && "on"@[0] == 'o' && "on"@[1]
        == 'n' && "false"@[0] == 'f' && "0"@[0] == '0' && "no"@[0] == 'n' && "off"@[0] == 'o'
        && "off"@[1] == 'f');
}

/// An integer parameter holds the number that its word writes, and a word that
/// writes none is refused.
pub proof fn integers_hold_their_number(
    key: Seq<char>,
    schema: JsonView,
    raw: Seq<char>,
    n: i64,
    inputs: InputsView,
)
    requires
        text_at(schema, "type"@) == Some("integer"@),
    ensures
        coerced(key, Some(schema), integer_text(n as int), inputs) matches Ok(v) && as_integer(v)
            == Some(n),
        i64_value(raw) matches Some(m) ==> (coerced(key, Some(schema), raw, inputs) matches Ok(v)
            && as_integer(v) == Some(m)),
        i64_value(raw) is None ==> (coerced(key, Some(schema), raw, inputs) matches Err(stop) && stop
            is Invalid),
{
    types_differ();
    i64_text_reads_back(n);
}

/// A parameter of type `number` holds a whole number as `integer` does; of any
/// other word the reading of floating point decides, and is asked for where it
/// is not there yet.
pub proof fn numbers_hold_their_number(
    key: Seq<char>,
    schema: JsonView,
    raw: Seq<char>,
    inputs: InputsView,
)
    requires
        text_at(schema, "type"@) == Some("number"@),
    ensures
        i64_value(raw) matches Some(m) ==> (coerced(key, Some(schema), raw, inputs) matches Ok(v)
            && as_integer(v) == Some(m)),
        i64_value(raw) is None ==> match supplied(inputs.numbers, raw) {
            None => coerced(key, Some(schema), raw, inputs) == Err::<JsonView, StopView>(
                StopView::Needs(SourceView::Number(raw)),
            ),
            Some(None) => coerced(key, Some(schema), raw, inputs) matches Err(stop) && stop
                is Invalid,
            Some(Some(n)) => coerced(key, Some(schema), raw, inputs) == Ok::<JsonView, StopView>(
                JsonView::Number(n),
            ),
        },
{
    types_differ();
}

/// A parameter that is declared a string, that has a type of another name, or
/// that is not declared at all holds its word as it stands.
pub proof fn texts_stand_as_written(
    key: Seq<char>,
    schema: JsonView,
    declared: Seq<char>,
    raw: Seq<char>,
    inputs: InputsView,
)
    ensures
        coerced(key, None, raw, inputs) == Ok::<JsonView, StopView>(JsonView::Text(raw)),
        text_at(schema, "type"@) is None ==> coerced(key, Some(schema), raw, inputs) == Ok::<
            JsonView,
            StopView,
        >(JsonView::Text(raw)),
        text_at(schema, "type"@) == Some("string"@) ==> coerced(key, Some(schema), raw, inputs)
            == Ok::<JsonView, StopView>(JsonView::Text(raw)),
        text_at(schema, "type"@) == Some(declared) && declared != "boolean"@ && declared
            != "integer"@ && declared != "number"@ && declared != "array"@ && declared != "object"@
            ==> coerced(key, Some(schema), raw, inputs) == Ok::<JsonView, StopView>(
            JsonView::Text(raw),
        ),
{
    types_differ();
}

/// A parameter of type `array` or `object` holds the JSON that its word writes
/// where that is an array, or an object, and else the word itself.
pub proof fn structures_are_read_as_json(
    key: Seq<char>,
    schema: JsonView,
    raw: Seq<char>,
    items: Seq<JsonView>,
    entries: Seq<(Seq<char>, JsonView)>,
    inputs: InputsView,
)
    ensures
        text_at(schema, "type"@) == Some("array"@) ==> {
            &&& json_reading(raw) == Ok::<JsonView, Seq<char>>(JsonView::Array(items)) ==> coerced(
                key,
                Some(schema),
                raw,
                inputs,
            ) == Ok::<JsonView, StopView>(JsonView::Array(items))
            &&& (json_reading(raw) matches Ok(v) ==> !(v is Array)) ==> coerced(
                key,
                Some(schema),
                raw,
                inputs,
            ) == Ok::<JsonView, StopView>(JsonView::Text(raw))
        },
        text_at(schema, "type"@) == Some("object"@) ==> {
            &&& json_reading(raw) == Ok::<JsonView, Seq<char>>(JsonView::Object(entries))
                ==> coerced(key, Some(schema), raw, inputs) == Ok::<JsonView, StopView>(
                JsonView::Object(entries),
            )
            &&& (json_reading(raw) matches Ok(v) ==> !(v is Object)) ==> coerced(
                key,
                Some(schema),
                raw,
                inputs,
            ) == Ok::<JsonView, StopView>(JsonView::Text(raw))
        },
{
    types_differ();
}

/// A word that is refused is refused under the flag of its parameter, and is
/// shown.
pub proof fn refused_words_are_shown(
    key: Seq<char>,
    schema: Option<JsonView>,
    raw: Seq<char>,
    inputs: InputsView,
)
    ensures
        coerced(key, schema, raw, inputs) matches Err(StopView::Invalid(message)) ==> (
        "--"@ + kebab(key)).is_prefix_of(message) && contains_text(message, raw),
{
    if let Err(StopView::Invalid(message)) = coerced(key, schema, raw, inputs) {
        let head = "--"@ + kebab(key);
        let declared = declared_type(schema)->0;
        if declared == "boolean"@ {
            let before = head + ": expected a boolean (true/false), got `"@;
            let after = "` — pass `--"@ + kebab(key) + " true` or `--"@ + kebab(key) + " false`"@;
            assert(message == before + raw + after);
            stands_between(before, raw, after);
        } else if declared == "integer"@ {
            let before = head + ": expected integer, got `"@;
            stands_between(before, raw, "`"@);
        } else {
            let before = head + ": expected a finite number, got `"@;
            stands_between(before, raw, "`"@);
        }
        assert(message.subrange(0, head.len() as int) == head);
    }
}

/// What values a type admits: `integer` admits every whole number and nothing
/// that has a fraction, `number` both; a type of another name admits everything.
pub proof fn types_admit_their_values(v: JsonView, expected: Seq<char>)
    ensures
        matches_type(v, "string"@) <==> v is Text,
        matches_type(v, "boolean"@) <==> v is Bool,
        matches_type(v, "integer"@) <==> (v matches JsonView::Number(n) && !(n is Fraction)),
        matches_type(v, "number"@) <==> v is Number,
        matches_type(v, "array"@) <==> v is Array,
        matches_type(v, "object"@) <==> v is Object,
        expected != "string"@ && expected != "boolean"@ && expected != "integer"@ && expected
            != "number"@ && expected != "array"@ && expected != "object"@ ==> matches_type(
            v,
            expected,
        ),
{
    types_differ();
}

/// The name of a value's type is one that admits it.
pub proof fn values_have_the_type_they_show(v: JsonView)
    ensures
        matches_type(v, json_type(v)),
        v is Null <==> json_type(v) == "null"@,
        json_type(v) == "string"@ <==> v is Text,
        json_type(v) == "number"@ <==> v is Number,
        json_type(v) == "boolean"@ <==> v is Bool,
        json_type(v) == "array"@ <==> v is Array,
        json_type(v) == "object"@ <==> v is Object,
{
    types_differ();
    reveal_strlit("null");
    reveal_strlit("boolean");
    reveal_strlit("number");
    reveal_strlit("array");
    reveal_strlit("object");
    reveal_strlit("string");
    reveal_strlit("integer");
    assert("null"@.len() == 4 && "string"@.len() == 6 && "boolean"@.len() == 7 && "integer"@.len()
        == 7 && "number"@.len() == 6 && "array"@.len() == 5 && "object"@.len() == 6);
}

/// A text for an array parameter becomes the array of what stands between its
/// commas, each without the white space round it; one without a comma becomes
/// its only element, as it is.
pub proof fn commas_part_array_values(schema: JsonView, s: Seq<char>)
    requires
        text_at(schema, "type"@) == Some("array"@),
    ensures
        finalized_value(Some(schema), JsonView::Text(s)) matches JsonView::Array(items) && {
            &&& !s.contains(',') ==> items == seq![JsonView::Text(s)]
            &&& s.contains(',') ==> exists|parts: Seq<Seq<char>>|
                {
                    &&& join(parts, seq![',']) == s
                    &&& parts.len() == items.len()
                    &&& forall|i: int|
                        0 <= i < parts.len() ==> !(#[trigger] parts[i]).contains(',') && items[i]
                            == JsonView::Text(trim(parts[i]))
                }
        },
{
    first_char_points(s, ',');
    let parts = split_on(s, ',');
    split_parts_rejoin(s, ',');
    let items = array_parts(s);
    if s.contains(',') {
        let i = choose|i: int| 0 <= i < s.len() && s[i] == ',';
        assert(join(parts, seq![',']) == s && parts.len() == items.len() && (forall|i: int|
            0 <= i < parts.len() ==> !(#[trigger] parts[i]).contains(',') && items[i]
                == JsonView::Text(trim(parts[i]))));
    } else if first_char(s, ',') < s.len() {
        assert(s.contains(s[first_char(s, ',')]));
    }
}

/// Values of other types, and values that are no texts, are left as they are by
/// finishing; every value stays under its key.
pub proof fn finishing_leaves_other_values(
    props: Seq<(Seq<char>, JsonView)>,
    entries: Seq<(Seq<char>, JsonView)>,
    i: int,
)
    requires
        0 <= i < entries.len(),
    ensures
        finalized(props, entries).len() == entries.len(),
        finalized(props, entries)[i].0 == entries[i].0,
        !(entries[i].1 is Text) ==> finalized(props, entries)[i] == entries[i],
        (lookup(props, entries[i].0) matches Some(schema) ==> text_at(schema, "type"@) != Some(
            "array"@,
        )) ==> finalized(props, entries)[i] == entries[i],
        (lookup(props, entries[i].0) matches Some(schema) && text_at(schema, "type"@) == Some(
            "array"@,
        )) ==> !(finalized(props, entries)[i].1 is Text),
{
}

/// A fact that is stored under the old name of its category is stored under
/// the present name, with the value that it had. Both names may be given only
/// with the same value. Nothing else changes, and no other tool's arguments do.
pub proof fn legacy_values_are_kept(
    name: Seq<char>,
    entries: Seq<(Seq<char>, JsonView)>,
    legacy: JsonView,
    other: Seq<char>,
)
    requires
        ascending(entries),
        other != "fact_type"@,
        other != "category"@,
    ensures
        name != "tracedecay_fact_store"@ || lookup(entries, "fact_type"@) is None ==> normalized(
            name,
            entries,
        ) == Ok::<Seq<(Seq<char>, JsonView)>, Seq<char>>(entries),
        normalized(name, entries) matches Ok(current) ==> lookup(current, other) == lookup(
            entries,
            other,
        ),
        name == "tracedecay_fact_store"@ && lookup(entries, "fact_type"@) == Some(legacy) ==> {
            &&& lookup(entries, "category"@) is None ==> (normalized(name, entries) matches Ok(
                current,
            ) && lookup(current, "category"@) == Some(legacy))
            &&& lookup(entries, "category"@) matches Some(category) ==> {
                &&& normalized(name, entries) is Ok <==> same_json(category, legacy)
                &&& normalized(name, entries) matches Ok(current) ==> lookup(current, "category"@)
                    == Some(category)
            }
        },
{
    reveal_strlit("fact_type");
    reveal_strlit("category");
    assert("fact_type"@.len() != "category"@.len());
    let rest = removed(entries, "fact_type"@);
    removed_is_gone(entries, "fact_type"@, other);
    removed_is_gone(entries, "fact_type"@, "category"@);
    if let Some(v) = lookup(entries, "fact_type"@) {
        stored_is_found(rest, "category"@, v, other);
        stored_is_found(rest, "category"@, v, "category"@);
    }
}

/// Values given to a parameter one after the other make one array, in order;
/// values that came as an array are joined.
pub proof fn arrays_are_joined(
    entries: Seq<(Seq<char>, JsonView)>,
    key: Seq<char>,
    items: Seq<JsonView>,
    value: JsonView,
)
    requires
        lookup(entries, key) == Some(JsonView::Array(items)),
    ensures
        lookup(merged(entries, key, value), key) == Some(JsonView::Array(items.push(value))),
{
    stored_is_found(entries, key, JsonView::Array(items.push(value)), key);
}

/// A flag is written with dashes where its parameter has underscores, and is
/// otherwise the same.
pub proof fn flags_have_dashes(key: Seq<char>, i: int)
    requires
        0 <= i < key.len(),
    ensures
        kebab(key).len() == key.len(),
        key[i] == '_' ==> kebab(key)[i] == '-',
        key[i] != '_' ==> kebab(key)[i] == key[i],
{
}

} // verus!
