//! From the words of a command line to the arguments object of a tool.

use crate::json::{inserted, lookup, string_option, Json, JsonMap, JsonView};
use crate::json_io::{json_reading, parse_json};
use crate::text::{chars_of, copy_text, join, joined, replace_char, same_text, split_first, split_pair, text_between, text_starts_with, texts, texts_push, with_char_replaced};
use crate::tool_command::coerce::{coerce_value, coerced, finalize_arrays, finalized, flag_name, is_current, kebab, merge_value, merged, normalize_legacy_tool_args, normalized, parse_outcome};
use crate::tool_command::inputs::{invalid, payload_text, resolve_args_payload, resolve_at_file, stop_invalid, value_text, Inputs, InputsView, Stop, StopView};
use crate::tool_command::schema::{declared_type, json_option, properties, property, required_keys, schema_required_keys, short_name, short_tool_name, type_of, ToolDefinition};
use crate::tool_command::validate::{missing_required, validate_required_args, validate_tool_args, validation};
use vstd::prelude::*;

verus! {

/// A parsed command line: the arguments object and the reserved flags.
pub struct ParsedInvocation {
    pub tool_args: Json,
    pub project: Option<String>,
    pub raw_json: bool,
    pub dry_run: bool,
    pub show_help: bool,
}

/// What a [`ParsedInvocation`] says.
pub struct InvocationView {
    pub tool_args: JsonView,
    pub project: Option<Seq<char>>,
    pub raw_json: bool,
    pub dry_run: bool,
    pub show_help: bool,
}

impl View for ParsedInvocation {
    type V = InvocationView;

    open spec fn view(&self) -> InvocationView {
        InvocationView {
            tool_args: self.tool_args@,
            project: string_option(self.project),
            raw_json: self.raw_json,
            dry_run: self.dry_run,
            show_help: self.show_help,
        }
    }
}

/// What the words read so far have given.
pub struct Scan {
    pub project: Option<String>,
    pub raw_json: bool,
    pub dry_run: bool,
    pub show_help: bool,
    pub explicit: Option<JsonMap>,
    pub collected: JsonMap,
    pub positionals: Vec<String>,
}

/// What a [`Scan`] holds.
pub struct ScanView {
    pub project: Option<Seq<char>>,
    pub raw_json: bool,
    pub dry_run: bool,
    pub show_help: bool,
    pub explicit: Option<Seq<(Seq<char>, JsonView)>>,
    pub collected: Seq<(Seq<char>, JsonView)>,
    pub positionals: Seq<Seq<char>>,
}

/// The entries of an optional object.
pub open spec fn map_option(m: Option<JsonMap>) -> Option<Seq<(Seq<char>, JsonView)>> {
    match m {
        Some(map) => Some(map@),
        None => None,
    }
}

impl View for Scan {
    type V = ScanView;

    open spec fn view(&self) -> ScanView {
        ScanView {
            project: string_option(self.project),
            raw_json: self.raw_json,
            dry_run: self.dry_run,
            show_help: self.show_help,
            explicit: map_option(self.explicit),
            collected: self.collected@,
            positionals: texts(self.positionals@),
        }
    }
}

/// Before the first word.
pub open spec fn scan_start() -> ScanView {
    ScanView {
        project: None,
        raw_json: false,
        dry_run: false,
        show_help: false,
        explicit: None,
        collected: seq![],
        positionals: seq![],
    }
}

/// The flag of a word: a word with two leading dashes up to its first `=`, any
/// other word as a whole.
pub open spec fn flag_part(raw: Seq<char>) -> Seq<char> {
    if "--"@.is_prefix_of(raw) {
        match split_pair(raw, '=') {
            Some((flag, _)) => flag,
            None => raw,
        }
    } else {
        raw
    }
}

/// The value that a word carries behind its flag and an `=`.
pub open spec fn inline_value(raw: Seq<char>) -> Option<Seq<char>> {
    if "--"@.is_prefix_of(raw) {
        match split_pair(raw, '=') {
            Some((_, value)) => Some(value),
            None => None,
        }
    } else {
        None
    }
}

/// Splits a word into its flag and the value it carries.
pub fn split_flag(raw: &str) -> (r: (String, Option<String>))
    ensures
        r.0@ == flag_part(raw@),
        string_option(r.1) == inline_value(raw@),
{
    if text_starts_with(raw, "--") {
        match split_first(raw, '=') {
            Some((flag, value)) => (flag, Some(value)),
            None => (copy_text(raw), None),
        }
    } else {
        (copy_text(raw), None)
    }
}

/// Whether a flag takes a value.
pub open spec fn takes_value(flag: Seq<char>) -> bool {
    "--"@.is_prefix_of(flag) && flag != "--help"@ && flag != "--json"@ && flag != "--dry-run"@
}

/// How many words after the first belong to it: one when it is a flag that
/// takes a value and does not carry it.
pub open spec fn consumed(words: Seq<Seq<char>>) -> int {
    if takes_value(flag_part(words[0])) && inline_value(words[0]) is None {
        1
    } else {
        0
    }
}

/// The value of the flag in the first word: the one it carries, else the next
/// word.
pub open spec fn flag_value(words: Seq<Seq<char>>) -> Option<Seq<char>> {
    match inline_value(words[0]) {
        Some(value) => Some(value),
        None => if words.len() > 1 {
            Some(words[1])
        } else {
            None
        },
    }
}

/// `s` without its leading dashes.
pub open spec fn without_dashes(s: Seq<char>) -> Seq<char>
    decreases s.len(),
{
    if s.len() > 0 && s[0] == '-' {
        without_dashes(s.skip(1))
    } else {
        s
    }
}

/// The parameter that a flag names.
pub open spec fn flag_key(flag: Seq<char>) -> Seq<char> {
    replace_char(without_dashes(flag), '-', '_')
}

/// The parameter that the flag names.
pub fn parameter_of_flag(flag: &str) -> (r: String)
    ensures
        r@ == flag_key(flag@),
{
    let chars = chars_of(flag);
    let mut i: usize = 0;
    assert(flag@.skip(0) == flag@);
    while i < chars.len() && chars[i] == '-'
        invariant
            i <= chars@.len(),
            chars@ == flag@,
            without_dashes(flag@) == without_dashes(flag@.skip(i as int)),
        decreases chars@.len() - i,
    {
        assert(flag@.skip(i as int).skip(1) == flag@.skip(i as int + 1));
        i += 1;
    }
    let name = text_between(&chars, i, chars.len());
    assert(name@ == flag@.skip(i as int));
    with_char_replaced(name.as_str(), '-', '_')
}

/// The flag that a word with a single leading dash was meant to be, when it
/// names a parameter.
pub open spec fn single_dash_typo(raw: Seq<char>, props: Seq<(Seq<char>, JsonView)>) -> Option<
    Seq<char>,
> {
    if raw.len() > 1 && raw[0] == '-' && raw[1] != '-' {
        let key = replace_char(raw.skip(1), '-', '_');
        if lookup(props, key) is Some {
            Some(kebab(key))
        } else {
            None
        }
    } else {
        None
    }
}

/// The flag that a word with a single leading dash was meant to be.
pub fn single_dash_flag_typo(raw: &str, schema: &Json) -> (r: Option<String>)
    ensures
        string_option(r) == single_dash_typo(raw@, properties(schema@)),
{
    let chars = chars_of(raw);
    if chars.len() > 1 && chars[0] == '-' && chars[1] != '-' {
        let name = text_between(&chars, 1, chars.len());
        assert(name@ == raw@.skip(1));
        let key = with_char_replaced(name.as_str(), '-', '_');
        if property(schema, key.as_str()).is_some() {
            Some(flag_name(key.as_str()))
        } else {
            None
        }
    } else {
        None
    }
}

/// The error for a parameter's flag without a value.
pub open spec fn missing_value_error(flag: Seq<char>, schema: Option<JsonView>) -> Seq<char> {
    if declared_type(schema) == Some("boolean"@) {
        "flag `"@ + flag + "` requires a value — pass `"@ + flag + " true` or `"@ + flag
            + " false`"@
    } else {
        "flag `"@ + flag + "` requires a value — write `"@ + flag + " <value>` or `"@ + flag
            + "=<value>`"@
    }
}

/// The error for a parameter's flag without a value.
pub fn missing_flag_value_error(flag: &str, schema: Option<&Json>) -> (r: String)
    ensures
        r@ == missing_value_error(flag@, json_option(schema)),
{
    let is_boolean = match type_of(schema) {
        Some(t) => same_text(t, "boolean"),
        None => false,
    };
    let mut message = copy_text("flag `");
    message.append(flag);
    if is_boolean {
        message.append("` requires a value — pass `");
        message.append(flag);
        message.append(" true` or `");
        message.append(flag);
        message.append(" false`");
    } else {
        message.append("` requires a value — write `");
        message.append(flag);
        message.append(" <value>` or `");
        message.append(flag);
        message.append("=<value>`");
    }
    message
}

/// The error for a reserved flag without a value.
pub open spec fn bare_flag_error(flag: Seq<char>) -> Seq<char> {
    "flag `"@ + flag + "` requires a value"@
}

fn bare_flag_message(flag: &str) -> (r: String)
    ensures
        r@ == bare_flag_error(flag@),
{
    let mut message = copy_text("flag `");
    message.append(flag);
    message.append("` requires a value");
    message
}

/// The arguments that an `--args` payload gives, by what its text writes.
pub open spec fn payload_entries(parsed: Result<JsonView, Seq<char>>) -> Result<
    Seq<(Seq<char>, JsonView)>,
    Seq<char>,
> {
    match parsed {
        Err(e) => Err(
            "--args: invalid JSON: "@ + e
                + " — if the payload contains quotes or newlines, pipe it: tracedecay tool <name> --args - <<'JSON' … JSON"@,
        ),
        Ok(JsonView::Object(entries)) => Ok(entries),
        Ok(_) => Err(
            "--args must be a JSON object — the same object you would pass as MCP arguments, e.g. {\"query\":\"…\"}"@,
        ),
    }
}

/// The arguments that an `--args` payload gives, given what its text writes.
pub fn accept_args_payload(parsed: Result<Json, String>) -> (r: Result<JsonMap, String>)
    ensures
        match r {
            Ok(map) => payload_entries(parse_outcome(parsed)) == Ok::<
                Seq<(Seq<char>, JsonView)>,
                Seq<char>,
            >(map@),
            Err(e) => payload_entries(parse_outcome(parsed)) == Err::<
                Seq<(Seq<char>, JsonView)>,
                Seq<char>,
            >(e@),
        },
{
    match parsed {
        Err(e) => {
            let mut message = copy_text("--args: invalid JSON: ");
            message.append(e.as_str());
            message.append(
                " — if the payload contains quotes or newlines, pipe it: tracedecay tool <name> --args - <<'JSON' … JSON",
            );
            Err(message)
        },
        Ok(Json::Object(map)) => Ok(map),
        Ok(_) => Err(
            copy_text(
                "--args must be a JSON object — the same object you would pass as MCP arguments, e.g. {\"query\":\"…\"}",
            ),
        ),
    }
}

/// What the first word, with the value that belongs to it, makes of the state.
pub open spec fn advanced(
    schema: JsonView,
    words: Seq<Seq<char>>,
    state: ScanView,
    inputs: InputsView,
) -> Result<ScanView, StopView> {
    let flag = flag_part(words[0]);
    if flag == "-h"@ || flag == "--help"@ {
        Ok(ScanView { show_help: true, ..state })
    } else if flag == "--json"@ {
        Ok(ScanView { raw_json: true, ..state })
    } else if flag == "--dry-run"@ {
        Ok(ScanView { dry_run: true, ..state })
    } else if flag == "--project"@ {
        match flag_value(words) {
            Some(value) => Ok(ScanView { project: Some(value), ..state }),
            None => invalid(bare_flag_error("--project"@)),
        }
    } else if flag == "--args"@ {
        match flag_value(words) {
            None => invalid(bare_flag_error("--args"@)),
            Some(value) => match payload_text(value, inputs) {
                Err(stop) => Err(stop),
                Ok(text) => match payload_entries(json_reading(text)) {
                    Err(message) => invalid(message),
                    Ok(entries) => Ok(ScanView { explicit: Some(entries), ..state }),
                },
            },
        }
    } else if "--"@.is_prefix_of(flag) {
        let key = flag_key(flag);
        let declared = lookup(properties(schema), key);
        match flag_value(words) {
            None => invalid(missing_value_error(flag, declared)),
            Some(value) => match value_text(value, inputs) {
                Err(stop) => Err(stop),
                Ok(text) => match coerced(key, declared, text, inputs) {
                    Err(stop) => Err(stop),
                    Ok(v) => Ok(ScanView { collected: merged(state.collected, key, v), ..state }),
                },
            },
        }
    } else {
        match single_dash_typo(words[0], properties(schema)) {
            Some(known) => invalid(
                "unknown argument `"@ + words[0] + "` — did you mean `--"@ + known + "`?"@,
            ),
            None => Ok(ScanView { positionals: state.positionals.push(words[0]), ..state }),
        }
    }
}

/// What the words make of the state: each in turn, up to the end or to a
/// request for help.
pub open spec fn scanned(
    schema: JsonView,
    words: Seq<Seq<char>>,
    state: ScanView,
    inputs: InputsView,
) -> Result<ScanView, StopView>
    decreases words.len(),
{
    if words.len() == 0 {
        Ok(state)
    } else {
        match advanced(schema, words, state, inputs) {
            Err(stop) => Err(stop),
            Ok(next) => if next.show_help || 1 + consumed(words) >= words.len() {
                Ok(next)
            } else {
                scanned(schema, words.skip(1 + consumed(words)), next, inputs)
            },
        }
    }
}

/// What a scanning step gives.
pub open spec fn scan_outcome(r: Result<Scan, Stop>) -> Result<ScanView, StopView> {
    match r {
        Ok(state) => Ok(state@),
        Err(stop) => Err(stop@),
    }
}

/// What the word at `at`, with the value that belongs to it, makes of the
/// state.
fn advance(
    schema: &Json,
    args: &Vec<String>,
    at: usize,
    flag: &str,
    carried: Option<String>,
    state: Scan,
    inputs: &Inputs,
) -> (r: Result<Scan, Stop>)
    requires
        at < args@.len(),
        flag@ == flag_part(args@[at as int]@),
        string_option(carried) == inline_value(args@[at as int]@),
    ensures
        scan_outcome(r) == advanced(schema@, texts(args@).skip(at as int), state@, inputs@),
{
    let ghost words = texts(args@).skip(at as int);
    assert(words[0] == args@[at as int]@);
    assert(at + 1 < args@.len() ==> words[1] == args@[at as int + 1]@);
    let mut state = state;
    if same_text(flag, "-h") || same_text(flag, "--help") {
        state.show_help = true;
        return Ok(state);
    }
    if same_text(flag, "--json") {
        state.raw_json = true;
        return Ok(state);
    }
    if same_text(flag, "--dry-run") {
        state.dry_run = true;
        return Ok(state);
    }
    let value = match carried {
        Some(value) => Some(value),
        None => if args.len() - at > 1 {
            Some(copy_text(args[at + 1].as_str()))
        } else {
            None
        },
    };
    assert(string_option(value) == flag_value(words));
    if same_text(flag, "--project") {
        match value {
            Some(value) => {
                state.project = Some(value);
                return Ok(state);
            },
            None => return Err(stop_invalid(bare_flag_message("--project"))),
        }
    }
    if same_text(flag, "--args") {
        let value = match value {
            Some(value) => value,
            None => return Err(stop_invalid(bare_flag_message("--args"))),
        };
        let text = match resolve_args_payload(value.as_str(), inputs) {
            Ok(text) => text,
            Err(stop) => return Err(stop),
        };
        match accept_args_payload(parse_json(text.as_str())) {
            Ok(map) => {
                state.explicit = Some(map);
                return Ok(state);
            },
            Err(message) => return Err(stop_invalid(message)),
        }
    }
    if text_starts_with(flag, "--") {
        let key = parameter_of_flag(flag);
        let declared = property(schema, key.as_str());
        let value = match value {
            Some(value) => value,
            None => return Err(stop_invalid(missing_flag_value_error(flag, declared))),
        };
        let text = match resolve_at_file(value.as_str(), inputs) {
            Ok(text) => text,
            Err(stop) => return Err(stop),
        };
        match coerce_value(key.as_str(), declared, text.as_str(), inputs) {
            Ok(v) => {
                merge_value(&mut state.collected, key.as_str(), v);
                return Ok(state);
            },
            Err(stop) => return Err(stop),
        }
    }
    let raw = args[at].as_str();
    match single_dash_flag_typo(raw, schema) {
        Some(known) => {
            let mut message = copy_text("unknown argument `");
            message.append(raw);
            message.append("` — did you mean `--");
            message.append(known.as_str());
            message.append("`?");
            Err(stop_invalid(message))
        },
        None => {
            let word = copy_text(raw);
            proof {
                texts_push(state.positionals@, word);
            }
            state.positionals.push(word);
            Ok(state)
        },
    }
}

/// Whether the flag takes a value.
fn flag_takes_value(flag: &str) -> (r: bool)
    ensures
        r == takes_value(flag@),
{
    text_starts_with(flag, "--") && !same_text(flag, "--help") && !same_text(flag, "--json")
        && !same_text(flag, "--dry-run")
}

/// Reads the words one after the other.
pub fn scan_words(schema: &Json, args: &Vec<String>, inputs: &Inputs) -> (r: Result<Scan, Stop>)
    ensures
        scan_outcome(r) == scanned(schema@, texts(args@), scan_start(), inputs@),
{
    let mut state = Scan {
        project: None,
        raw_json: false,
        dry_run: false,
        show_help: false,
        explicit: None,
        collected: JsonMap::new(),
        positionals: Vec::new(),
    };
    let ghost all = texts(args@);
    let mut at: usize = 0;
    assert(all.skip(0) == all);
    assert(state@.positionals == scan_start().positionals);
    while at < args.len()
        invariant
            at <= args@.len(),
            all == texts(args@),
            scanned(schema@, all, scan_start(), inputs@) == scanned(
                schema@,
                all.skip(at as int),
                state@,
                inputs@,
            ),
        decreases args@.len() - at,
    {
        let ghost words = all.skip(at as int);
        assert(words[0] == args@[at as int]@);
        let (flag, carried) = split_flag(args[at].as_str());
        let takes_next = flag_takes_value(flag.as_str()) && carried.is_none();
        state = match advance(schema, args, at, flag.as_str(), carried, state, inputs) {
            Ok(next) => next,
            Err(stop) => return Err(stop),
        };
        if state.show_help {
            return Ok(state);
        }
        let left: usize = args.len() - at;
        let step: usize = if takes_next {
            2
        } else {
            1
        };
        if step >= left {
            return Ok(state);
        }
        assert(words.skip(step as int) == all.skip(at as int + step as int));
        at += step;
    }
    Ok(state)
}

/// Positional words bound to the required parameters without an argument, in
/// the order of the schema, and the words that are left over.
pub open spec fn filled(
    props: Seq<(Seq<char>, JsonView)>,
    required: Seq<Seq<char>>,
    collected: Seq<(Seq<char>, JsonView)>,
    positionals: Seq<Seq<char>>,
    inputs: InputsView,
) -> Result<(Seq<(Seq<char>, JsonView)>, Seq<Seq<char>>), StopView>
    decreases required.len(),
{
    if required.len() == 0 {
        Ok((collected, positionals))
    } else if lookup(collected, required[0]) is Some || lookup(props, required[0]) is None {
        filled(props, required.skip(1), collected, positionals, inputs)
    } else if positionals.len() == 0 {
        Ok((collected, positionals))
    } else {
        match value_text(positionals[0], inputs) {
            Err(stop) => Err(stop),
            Ok(text) => match coerced(required[0], lookup(props, required[0]), text, inputs) {
                Err(stop) => Err(stop),
                Ok(v) => filled(
                    props,
                    required.skip(1),
                    inserted(collected, required[0], v),
                    positionals.skip(1),
                    inputs,
                ),
            },
        }
    }
}

/// The arguments after binding positional words; a word left over is an error.
pub open spec fn bound(
    name: Seq<char>,
    schema: JsonView,
    required: Seq<Seq<char>>,
    collected: Seq<(Seq<char>, JsonView)>,
    positionals: Seq<Seq<char>>,
    inputs: InputsView,
) -> Result<Seq<(Seq<char>, JsonView)>, StopView> {
    match filled(properties(schema), required, collected, positionals, inputs) {
        Err(stop) => Err(stop),
        Ok((entries, leftover)) => if leftover.len() == 0 {
            Ok(entries)
        } else {
            invalid(
                "unexpected positional argument(s): "@ + join(leftover, " "@)
                    + " — use --key value flags or run `tracedecay tool "@ + short_name(name)
                    + " --help`"@,
            )
        },
    }
}

/// What a step that gives arguments gives.
pub open spec fn map_outcome(r: Result<JsonMap, Stop>) -> Result<
    Seq<(Seq<char>, JsonView)>,
    StopView,
> {
    match r {
        Ok(map) => Ok(map@),
        Err(stop) => Err(stop@),
    }
}

/// The texts from `from` on.
fn texts_from(v: &Vec<String>, from: usize) -> (r: Vec<String>)
    requires
        from <= v@.len(),
    ensures
        texts(r@) == texts(v@).skip(from as int),
{
    let ghost all = texts(v@);
    let mut out: Vec<String> = Vec::new();
    let mut i: usize = from;
    while i < v.len()
        invariant
            from <= i <= v@.len(),
            all == texts(v@),
            texts(out@) == all.subrange(from as int, i as int),
        decreases v@.len() - i,
    {
        let ghost before = out@;
        let s = copy_text(v[i].as_str());
        out.push(s);
        proof {
            texts_push(before, s);
            assert(all.subrange(from as int, i as int + 1) == all.subrange(
                from as int,
                i as int,
            ).push(s@));
        }
        i += 1;
    }
    assert(all.subrange(from as int, i as int) == all.skip(from as int));
    out
}

/// Binds positional words to the required parameters without an argument.
pub fn bind_positionals(
    def: &ToolDefinition,
    required: &Vec<String>,
    collected: JsonMap,
    positionals: &Vec<String>,
    inputs: &Inputs,
) -> (r: Result<JsonMap, Stop>)
    ensures
        map_outcome(r) == bound(
            def.name@,
            def.input_schema@,
            texts(required@),
            collected@,
            texts(positionals@),
            inputs@,
        ),
{
    let ghost props = properties(def.input_schema@);
    let ghost keys = texts(required@);
    let ghost words = texts(positionals@);
    let ghost goal = filled(props, keys, collected@, words, inputs@);
    let mut entries = collected;
    let mut i: usize = 0;
    let mut next: usize = 0;
    assert(keys.skip(0) == keys);
    assert(words.skip(0) == words);
    while i < required.len()
        invariant_except_break
            i <= required@.len(),
            next <= positionals@.len(),
            props == properties(def.input_schema@),
            keys == texts(required@),
            words == texts(positionals@),
            goal == filled(props, keys, collected@, words, inputs@),
            goal == filled(
                props,
                keys.skip(i as int),
                entries@,
                words.skip(next as int),
                inputs@,
            ),
        ensures
            next <= positionals@.len(),
            goal == Ok::<(Seq<(Seq<char>, JsonView)>, Seq<Seq<char>>), StopView>(
                (entries@, words.skip(next as int)),
            ),
        decreases required@.len() - i,
    {
        proof {
            assert(keys.skip(i as int)[0] == required@[i as int]@);
            assert(keys.skip(i as int).skip(1) == keys.skip(i as int + 1));
        }
        let key = required[i].as_str();
        let declared = property(&def.input_schema, key);
        if entries.contains_key(key) || declared.is_none() {
            i += 1;
            continue;
        }
        if next >= positionals.len() {
            break;
        }
        proof {
            assert(words.skip(next as int)[0] == positionals@[next as int]@);
            assert(words.skip(next as int).skip(1) == words.skip(next as int + 1));
        }
        let text = match resolve_at_file(positionals[next].as_str(), inputs) {
            Ok(text) => text,
            Err(stop) => return Err(stop),
        };
        let v = match coerce_value(key, declared, text.as_str(), inputs) {
            Ok(v) => v,
            Err(stop) => return Err(stop),
        };
        entries.insert(copy_text(key), v);
        next += 1;
        i += 1;
    }
    if next == positionals.len() {
        return Ok(entries);
    }
    let leftover = texts_from(positionals, next);
    let mut message = copy_text("unexpected positional argument(s): ");
    message.append(joined(&leftover, " ").as_str());
    message.append(" — use --key value flags or run `tracedecay tool ");
    message.append(short_tool_name(def.name.as_str()).as_str());
    message.append(" --help`");
    Err(stop_invalid(message))
}

/// Arguments in their final form: legacy names replaced, then checked.
pub open spec fn checked(
    name: Seq<char>,
    schema: JsonView,
    entries: Seq<(Seq<char>, JsonView)>,
) -> Result<Seq<(Seq<char>, JsonView)>, StopView> {
    match normalized(name, entries) {
        Err(message) => invalid(message),
        Ok(current) => match validation(name, schema, current) {
            Some(message) => invalid(message),
            None => Ok(current),
        },
    }
}

/// The arguments that a finished scan gives: the `--args` payload alone, or the
/// flags and positional words.
pub open spec fn settled(
    name: Seq<char>,
    schema: JsonView,
    state: ScanView,
    inputs: InputsView,
) -> Result<Seq<(Seq<char>, JsonView)>, StopView> {
    match state.explicit {
        Some(entries) => if state.collected.len() > 0 || state.positionals.len() > 0 {
            invalid(
                "--args cannot be combined with other tool flags or positionals — either put everything in --args, or use only --key value flags"@,
            )
        } else {
            checked(name, schema, entries)
        },
        None => match bound(
            name,
            schema,
            required_keys(schema),
            state.collected,
            state.positionals,
            inputs,
        ) {
            Err(stop) => Err(stop),
            Ok(entries) => match missing_required(name, required_keys(schema), entries) {
                Some(message) => invalid(message),
                None => checked(name, schema, finalized(properties(schema), entries)),
            },
        },
    }
}

/// The invocation that the words of a command line write down. A request for
/// help ends the reading and leaves the arguments empty.
pub open spec fn invocation(
    name: Seq<char>,
    schema: JsonView,
    words: Seq<Seq<char>>,
    inputs: InputsView,
) -> Result<InvocationView, StopView> {
    match scanned(schema, words, scan_start(), inputs) {
        Err(stop) => Err(stop),
        Ok(state) => if state.show_help {
            Ok(
                InvocationView {
                    tool_args: JsonView::Object(seq![]),
                    project: state.project,
                    raw_json: state.raw_json,
                    dry_run: state.dry_run,
                    show_help: true,
                },
            )
        } else {
            match settled(name, schema, state, inputs) {
                Err(stop) => Err(stop),
                Ok(entries) => Ok(
                    InvocationView {
                        tool_args: JsonView::Object(entries),
                        project: state.project,
                        raw_json: state.raw_json,
                        dry_run: state.dry_run,
                        show_help: false,
                    },
                ),
            }
        },
    }
}

/// Whether a tool can be called with arguments: they are an object that passes
/// the check of the tool's schema and holds no legacy name.
pub open spec fn fit_for_call(name: Seq<char>, schema: JsonView, args: JsonView) -> bool {
    args matches JsonView::Object(entries) && validation(name, schema, entries) is None
        && is_current(name, entries)
}

fn check_args(def: &ToolDefinition, args: JsonMap) -> (r: Result<JsonMap, Stop>)
    ensures
        map_outcome(r) == checked(def.name@, def.input_schema@, args@),
        r matches Ok(map) ==> fit_for_call(def.name@, def.input_schema@, JsonView::Object(map@)),
{
    let current = match normalize_legacy_tool_args(def.name.as_str(), args) {
        Ok(map) => map,
        Err(message) => return Err(stop_invalid(message)),
    };
    match validate_tool_args(def, &current) {
        Some(message) => Err(stop_invalid(message)),
        None => Ok(current),
    }
}

fn settle(
    def: &ToolDefinition,
    explicit: Option<JsonMap>,
    collected: JsonMap,
    positionals: &Vec<String>,
    inputs: &Inputs,
) -> (r: Result<JsonMap, Stop>)
    ensures
        forall|state: ScanView|
            state.explicit == map_option(explicit) && state.collected == collected@
                && state.positionals == texts(positionals@) ==> map_outcome(r)
                == #[trigger] settled(def.name@, def.input_schema@, state, inputs@),
        r matches Ok(map) ==> fit_for_call(def.name@, def.input_schema@, JsonView::Object(map@)),
{
    match explicit {
        Some(map) => {
            if !collected.is_empty() || positionals.len() > 0 {
                return Err(
                    stop_invalid(
                        copy_text(
                            "--args cannot be combined with other tool flags or positionals — either put everything in --args, or use only --key value flags",
                        ),
                    ),
                );
            }
            check_args(def, map)
        },
        None => {
            let required = schema_required_keys(&def.input_schema);
            let entries = match bind_positionals(def, &required, collected, positionals, inputs) {
                Ok(map) => map,
                Err(stop) => return Err(stop),
            };
            match validate_required_args(def.name.as_str(), &required, &entries) {
                Some(message) => return Err(stop_invalid(message)),
                None => {},
            }
            check_args(def, finalize_arrays(&def.input_schema, entries))
        },
    }
}

/// What parsing a command line gives.
pub open spec fn invocation_outcome(r: Result<ParsedInvocation, Stop>) -> Result<
    InvocationView,
    StopView,
> {
    match r {
        Ok(parsed) => Ok(parsed@),
        Err(stop) => Err(stop@),
    }
}

/// Parses the words of a command line against the tool's schema. However the
/// arguments were given, a command line that is accepted and asks for no help
/// gives some that the tool can be called with.
pub fn parse_invocation(def: &ToolDefinition, args: &Vec<String>, inputs: &Inputs) -> (r: Result<
    ParsedInvocation,
    Stop,
>)
    ensures
        invocation_outcome(r) == invocation(def.name@, def.input_schema@, texts(args@), inputs@),
        r matches Ok(parsed) ==> !parsed.show_help ==> fit_for_call(
            def.name@,
            def.input_schema@,
            parsed.tool_args@,
        ),
{
    let state = match scan_words(&def.input_schema, args, inputs) {
        Ok(state) => state,
        Err(stop) => return Err(stop),
    };
    let ghost reached = state@;
    if state.show_help {
        return Ok(
            ParsedInvocation {
                tool_args: Json::Object(JsonMap::new()),
                project: state.project,
                raw_json: state.raw_json,
                dry_run: state.dry_run,
                show_help: true,
            },
        );
    }
    let Scan { project, raw_json, dry_run, explicit, collected, positionals, .. } = state;
    match settle(def, explicit, collected, &positionals, inputs) {
        Ok(map) => Ok(
            ParsedInvocation {
                tool_args: Json::Object(map),
                project,
                raw_json,
                dry_run,
                show_help: false,
            },
        ),
        Err(stop) => {
            assert(settled(def.name@, def.input_schema@, reached, inputs@)
                == Err::<Seq<(Seq<char>, JsonView)>, StopView>(stop@));
            Err(stop)
        },
    }
}

} // verus!
