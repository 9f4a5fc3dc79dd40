//! What holds of every command line.

use crate::decimal::i64_value;
use crate::json::{field, inserted, integer_number, lookup, stored_is_found, text_at, JsonView};
use crate::json_io::json_reading;
use crate::table::supplied;
use crate::text::{contains_text, first_char_is, join, joined_parts_stand, replace_char, stands_between, stands_within, three_more_stand};
use crate::tool_command::coerce::{coerced, finalized, kebab, matches_type, merged};
use crate::tool_command::inputs::{has_source, payload_text, value_text, InputsView, StopView};
use crate::tool_command::parse::{advanced, bare_flag_error, bound, consumed, filled, fit_for_call, flag_key, flag_part, flag_value, inline_value, invocation, missing_value_error, scan_start, scanned, settled, takes_value, without_dashes, InvocationView, ParsedInvocation, ScanView};
use crate::tool_command::schema::{properties, required_keys, short_name};
use crate::tool_command::validate::{element_type, entry_problem, first_misfit, first_missing, first_problem, is_among, is_routing_key, validation};
use vstd::prelude::*;

verus! {

/// Whether elements are of the type that a schema declares for them: a type of
/// single values is not looked at.
pub open spec fn elements_fit(schema: JsonView, items: Seq<JsonView>) -> bool {
    element_type(schema) matches Some(expected) ==> (expected == "array"@ || expected
        == "object"@) ==> forall|i: int|
        0 <= i < items.len() ==> matches_type(#[trigger] items[i], expected)
}

/// What a valid argument is: declared or there for routing, and, unless it is
/// a null for an optional parameter, one of the allowed values and of the
/// declared type, as are the elements of an array.
pub open spec fn acceptable(
    props: Seq<(Seq<char>, JsonView)>,
    required: Seq<Seq<char>>,
    key: Seq<char>,
    v: JsonView,
) -> bool {
    match lookup(props, key) {
        None => is_routing_key(key),
        Some(schema) => {
            ||| v is Null && !required.contains(key)
            ||| {
                &&& (field(schema, "enum"@) matches Some(JsonView::Array(allowed)) ==> is_among(
                    allowed,
                    v,
                ))
                &&& (text_at(schema, "type"@) matches Some(declared) ==> {
                    &&& matches_type(v, declared)
                    &&& declared == "array"@ ==> (v matches JsonView::Array(items)
                        ==> elements_fit(schema, items))
                })
            }
        },
    }
}

proof fn misfit_is_found(items: Seq<JsonView>, expected: Seq<char>)
    ensures
        first_misfit(items, expected) is None <==> forall|i: int|
            0 <= i < items.len() ==> matches_type(#[trigger] items[i], expected),
    decreases items.len(),
{
    if items.len() > 0 {
        let rest = items.skip(1);
        misfit_is_found(rest, expected);
        assert(forall|i: int| 0 <= i < rest.len() ==> rest[i] == items[i + 1]);
        if first_misfit(items, expected) is None {
            assert forall|i: int| 0 <= i < items.len() implies matches_type(
                #[trigger] items[i],
                expected,
            ) by {
                if i > 0 {
                    assert(rest[i - 1] == items[i]);
                }
            }
        } else if matches_type(items[0], expected) {
            let i = choose|i: int|
                0 <= i < rest.len() && !matches_type(#[trigger] rest[i], expected);
            assert(!matches_type(items[i + 1], expected));
        }
    }
}

proof fn entry_problem_is_unacceptable(
    props: Seq<(Seq<char>, JsonView)>,
    required: Seq<Seq<char>>,
    short: Seq<char>,
    key: Seq<char>,
    v: JsonView,
)
    ensures
        entry_problem(props, required, short, key, v) is None <==> acceptable(
            props,
            required,
            key,
            v,
        ),
{
    if let JsonView::Array(items) = v {
        if let Some(schema) = lookup(props, key) {
            if let Some(expected) = element_type(schema) {
                misfit_is_found(items, expected);
            }
        }
    }
}

proof fn no_problem_is_acceptable(
    props: Seq<(Seq<char>, JsonView)>,
    required: Seq<Seq<char>>,
    short: Seq<char>,
    entries: Seq<(Seq<char>, JsonView)>,
)
    ensures
        first_problem(props, required, short, entries) is None <==> forall|i: int|
            0 <= i < entries.len() ==> acceptable(
                props,
                required,
                (#[trigger] entries[i]).0,
                entries[i].1,
            ),
    decreases entries.len(),
{
    if entries.len() > 0 {
        let rest = entries.skip(1);
        entry_problem_is_unacceptable(props, required, short, entries[0].0, entries[0].1);
        no_problem_is_acceptable(props, required, short, rest);
        if first_problem(props, required, short, entries) is None {
            assert forall|i: int| 0 <= i < entries.len() implies acceptable(
                props,
                required,
                (#[trigger] entries[i]).0,
                entries[i].1,
            ) by {
                if i > 0 {
                    assert(rest[i - 1] == entries[i]);
                }
            }
        } else if acceptable(props, required, entries[0].0, entries[0].1) {
            let i = choose|i: int|
                0 <= i < rest.len() && !acceptable(
                    props,
                    required,
                    (#[trigger] rest[i]).0,
                    rest[i].1,
                );
            assert(entries[i + 1] == rest[i]);
        }
    }
}

proof fn none_missing_is_present(
    required: Seq<Seq<char>>,
    entries: Seq<(Seq<char>, JsonView)>,
)
    ensures
        first_missing(required, entries) is None <==> forall|i: int|
            0 <= i < required.len() ==> lookup(entries, #[trigger] required[i]) is Some,
    decreases required.len(),
{
    if required.len() > 0 {
        let rest = required.skip(1);
        none_missing_is_present(rest, entries);
        if first_missing(required, entries) is None {
            assert forall|i: int| 0 <= i < required.len() implies lookup(
                entries,
                #[trigger] required[i],
            ) is Some by {
                if i > 0 {
                    assert(rest[i - 1] == required[i]);
                }
            }
        } else if lookup(entries, required[0]) is Some {
            let i = choose|i: int|
                0 <= i < rest.len() && lookup(entries, #[trigger] rest[i]) is None;
            assert(required[i + 1] == rest[i]);
        }
    }
}

/// Where a schema declares parameters, arguments pass the check exactly when
/// all of them are acceptable and no required parameter is left out.
pub proof fn valid_arguments_are_acceptable(
    name: Seq<char>,
    schema: JsonView,
    entries: Seq<(Seq<char>, JsonView)>,
)
    requires
        properties(schema).len() > 0,
    ensures
        validation(name, schema, entries) is None <==> {
            &&& forall|i: int|
                0 <= i < entries.len() ==> acceptable(
                    properties(schema),
                    required_keys(schema),
                    (#[trigger] entries[i]).0,
                    entries[i].1,
                )
            &&& forall|i: int|
                0 <= i < required_keys(schema).len() ==> lookup(
                    entries,
                    #[trigger] required_keys(schema)[i],
                ) is Some
        },
{
    no_problem_is_acceptable(
        properties(schema),
        required_keys(schema),
        short_name(name),
        entries,
    );
    none_missing_is_present(required_keys(schema), entries);
}

/// A command line that is accepted, other than a request for help, gives an
/// arguments object that passes the check of the tool's schema.
pub proof fn parsed_arguments_are_valid(
    name: Seq<char>,
    schema: JsonView,
    words: Seq<Seq<char>>,
    inputs: InputsView,
)
    requires
        invocation(name, schema, words, inputs) matches Ok(parsed) && !parsed.show_help,
    ensures
        invocation(name, schema, words, inputs) matches Ok(parsed) && (parsed.tool_args matches JsonView::Object(
            entries,
        ) && validation(name, schema, entries) is None),
{
}

// ---------------------------------------------------------------------------
// Sources.
// ---------------------------------------------------------------------------

/// A step does not ask for a source that is there.
pub open spec fn asks_for_missing<T>(r: Result<T, StopView>, inputs: InputsView) -> bool {
    r matches Err(StopView::Needs(source)) ==> !has_source(inputs, source)
}

proof fn scan_asks_for_missing(
    schema: JsonView,
    words: Seq<Seq<char>>,
    state: ScanView,
    inputs: InputsView,
)
    ensures
        asks_for_missing(scanned(schema, words, state, inputs), inputs),
    decreases words.len(),
{
    if words.len() > 0 {
        match advanced(schema, words, state, inputs) {
            Ok(next) => {
                if !next.show_help && 1 + consumed(words) < words.len() {
                    scan_asks_for_missing(schema, words.skip(1 + consumed(words)), next, inputs);
                }
            },
            Err(_) => {},
        }
    }
}

proof fn binding_asks_for_missing(
    props: Seq<(Seq<char>, JsonView)>,
    required: Seq<Seq<char>>,
    collected: Seq<(Seq<char>, JsonView)>,
    positionals: Seq<Seq<char>>,
    inputs: InputsView,
)
    ensures
        asks_for_missing(filled(props, required, collected, positionals, inputs), inputs),
    decreases required.len(),
{
    if required.len() > 0 {
        let rest = required.skip(1);
        if lookup(collected, required[0]) is Some || lookup(props, required[0]) is None {
            binding_asks_for_missing(props, rest, collected, positionals, inputs);
        } else if positionals.len() > 0 {
            if let Ok(text) = value_text(positionals[0], inputs) {
                if let Ok(v) = coerced(required[0], lookup(props, required[0]), text, inputs) {
                    binding_asks_for_missing(
                        props,
                        rest,
                        inserted(collected, required[0], v),
                        positionals.skip(1),
                        inputs,
                    );
                }
            }
        }
    }
}

/// Parsing asks only for sources that were not supplied yet. So a caller that
/// supplies what is asked for reads each source at most once, however often
/// the words refer to it.
pub proof fn sources_are_asked_for_once(
    name: Seq<char>,
    schema: JsonView,
    words: Seq<Seq<char>>,
    inputs: InputsView,
)
    ensures
        asks_for_missing(invocation(name, schema, words, inputs), inputs),
{
    scan_asks_for_missing(schema, words, scan_start(), inputs);
    if let Ok(state) = scanned(schema, words, scan_start(), inputs) {
        binding_asks_for_missing(
            properties(schema),
            required_keys(schema),
            state.collected,
            state.positionals,
            inputs,
        );
    }
}

/// `more` holds what `inputs` hold, and possibly further sources.
pub open spec fn extends(more: InputsView, inputs: InputsView) -> bool {
    &&& inputs.stdin is Some ==> more.stdin == inputs.stdin
    &&& forall|path: Seq<char>|
        supplied(inputs.files, path) is Some ==> #[trigger] supplied(more.files, path) == supplied(
            inputs.files,
            path,
        )
    &&& forall|text: Seq<char>|
        supplied(inputs.numbers, text) is Some ==> #[trigger] supplied(more.numbers, text)
            == supplied(inputs.numbers, text)
}

/// A step that did not ask for a source gives the same with further sources.
pub open spec fn settles<T>(first: Result<T, StopView>, second: Result<T, StopView>) -> bool {
    !(first matches Err(StopView::Needs(_))) ==> second == first
}

proof fn scan_settles(
    schema: JsonView,
    words: Seq<Seq<char>>,
    state: ScanView,
    inputs: InputsView,
    more: InputsView,
)
    requires
        extends(more, inputs),
    ensures
        settles(scanned(schema, words, state, inputs), scanned(schema, words, state, more)),
    decreases words.len(),
{
    if words.len() > 0 {
        assert(settles(
            advanced(schema, words, state, inputs),
            advanced(schema, words, state, more),
        ));
        if let Ok(next) = advanced(schema, words, state, inputs) {
            if !next.show_help && 1 + consumed(words) < words.len() {
                scan_settles(schema, words.skip(1 + consumed(words)), next, inputs, more);
            }
        }
    }
}

proof fn binding_settles(
    props: Seq<(Seq<char>, JsonView)>,
    required: Seq<Seq<char>>,
    collected: Seq<(Seq<char>, JsonView)>,
    positionals: Seq<Seq<char>>,
    inputs: InputsView,
    more: InputsView,
)
    requires
        extends(more, inputs),
    ensures
        settles(
            filled(props, required, collected, positionals, inputs),
            filled(props, required, collected, positionals, more),
        ),
    decreases required.len(),
{
    if required.len() > 0 {
        let rest = required.skip(1);
        if lookup(collected, required[0]) is Some || lookup(props, required[0]) is None {
            binding_settles(props, rest, collected, positionals, inputs, more);
        } else if positionals.len() > 0 {
            assert(settles(value_text(positionals[0], inputs), value_text(positionals[0], more)));
            if let Ok(text) = value_text(positionals[0], inputs) {
                let declared = lookup(props, required[0]);
                assert(settles(
                    coerced(required[0], declared, text, inputs),
                    coerced(required[0], declared, text, more),
                ));
                if let Ok(v) = coerced(required[0], declared, text, inputs) {
                    binding_settles(
                        props,
                        rest,
                        inserted(collected, required[0], v),
                        positionals.skip(1),
                        inputs,
                        more,
                    );
                }
            }
        }
    }
}

/// Once parsing gives an invocation or an error, further sources do not change
/// it.
pub proof fn further_sources_change_nothing(
    name: Seq<char>,
    schema: JsonView,
    words: Seq<Seq<char>>,
    inputs: InputsView,
    more: InputsView,
)
    requires
        extends(more, inputs),
    ensures
        settles(invocation(name, schema, words, inputs), invocation(name, schema, words, more)),
{
    scan_settles(schema, words, scan_start(), inputs, more);
    if let Ok(state) = scanned(schema, words, scan_start(), inputs) {
        binding_settles(
            properties(schema),
            required_keys(schema),
            state.collected,
            state.positionals,
            inputs,
            more,
        );
    }
}

// ---------------------------------------------------------------------------
// Flags.
// ---------------------------------------------------------------------------

proof fn split_at_equals(flag: Seq<char>, value: Seq<char>)
    requires
        "--"@.is_prefix_of(flag),
        !flag.contains('='),
    ensures
        flag_part(flag + seq!['='] + value) == flag,
        inline_value(flag + seq!['='] + value) == Some(value),
        flag_part(flag) == flag,
        inline_value(flag) is None,
{
    let word = flag + seq!['='] + value;
    assert("--"@.is_prefix_of(word)) by {
        assert(word.subrange(0, "--"@.len() as int) == flag.subrange(0, "--"@.len() as int));
    }
    assert forall|j: int| 0 <= j < flag.len() implies (#[trigger] word[j]) != '=' by {
        assert(word[j] == flag[j]);
        assert(flag.contains(flag[j]));
    }
    first_char_is(word, '=', flag.len() as int);
    assert(word.take(flag.len() as int) == flag);
    assert(word.skip(flag.len() as int + 1) == value);
    assert forall|j: int| 0 <= j < flag.len() implies (#[trigger] flag[j]) != '=' by {
        assert(flag.contains(flag[j]));
    }
    first_char_is(flag, '=', flag.len() as int);
}

/// `--flag=value` means what `--flag value` means, for every flag that takes a
/// value.
pub proof fn inline_value_is_next_word(
    schema: JsonView,
    flag: Seq<char>,
    value: Seq<char>,
    rest: Seq<Seq<char>>,
    state: ScanView,
    inputs: InputsView,
)
    requires
        takes_value(flag),
        !flag.contains('='),
    ensures
        scanned(schema, seq![flag + seq!['='] + value] + rest, state, inputs) == scanned(
            schema,
            seq![flag, value] + rest,
            state,
            inputs,
        ),
{
    split_at_equals(flag, value);
    let carried = seq![flag + seq!['='] + value] + rest;
    let apart = seq![flag, value] + rest;
    assert(carried.skip(1) == rest);
    assert(apart.skip(2) == rest);
    assert(flag_value(carried) == flag_value(apart));
    reveal_strlit("-h");
    reveal_strlit("--");
    assert(flag[1] == "--"@[1]) by {
        assert(flag.subrange(0, 2) == "--"@);
    }
    assert(advanced(schema, carried, state, inputs) == advanced(schema, apart, state, inputs));
}

/// The flag of a parameter names that parameter. A name that begins with an
/// underscore is left out: its flag would begin with three dashes, all of
/// which are dropped.
pub proof fn flag_names_its_parameter(key: Seq<char>)
    requires
        key.len() > 0 ==> key[0] != '_',
        !key.contains('-'),
    ensures
        flag_key("--"@ + kebab(key)) == key,
{
    reveal_strlit("--");
    let name = kebab(key);
    let flag = "--"@ + name;
    assert(flag[0] == '-');
    assert(flag.skip(1)[0] == '-');
    assert(flag.skip(1).skip(1) == name);
    if key.len() > 0 {
        assert(key.contains(key[0]));
        assert(name[0] != '-');
    }
    reveal_with_fuel(without_dashes, 3);
    assert(without_dashes(flag) == name);
    assert forall|i: int| 0 <= i < key.len() implies replace_char(name, '-', '_')[i]
        == #[trigger] key[i] by {
        assert(key.contains(key[i]));
    }
    assert(replace_char(name, '-', '_') == key);
}

/// A request for help ends the reading: what follows does not matter.
pub proof fn help_ends_reading(
    schema: JsonView,
    rest: Seq<Seq<char>>,
    state: ScanView,
    inputs: InputsView,
)
    ensures
        scanned(schema, seq!["-h"@] + rest, state, inputs) == Ok::<ScanView, StopView>(
            ScanView { show_help: true, ..state },
        ),
        scanned(schema, seq!["--help"@] + rest, state, inputs) == Ok::<ScanView, StopView>(
            ScanView { show_help: true, ..state },
        ),
{
    reveal_strlit("-h");
    reveal_strlit("--");
    reveal_strlit("--help");
    assert((seq!["-h"@] + rest)[0] == "-h"@);
    assert((seq!["--help"@] + rest)[0] == "--help"@);
    assert(!"--"@.is_prefix_of("-h"@)) by {
        if "--"@.is_prefix_of("-h"@) {
            assert("-h"@.subrange(0, 2)[1] == "--"@[1]);
        }
    }
    first_char_is("--help"@, '=', "--help"@.len() as int);
}

/// Repeated values of one flag accumulate in order: the second makes an array
/// of both, each further one joins it.
pub proof fn repeated_values_accumulate(
    entries: Seq<(Seq<char>, JsonView)>,
    key: Seq<char>,
    first: JsonView,
    second: JsonView,
    third: JsonView,
)
    requires
        lookup(entries, key) is None,
        !(first is Array),
    ensures
        lookup(merged(entries, key, first), key) == Some(first),
        lookup(merged(merged(entries, key, first), key, second), key) == Some(
            JsonView::Array(seq![first, second]),
        ),
        lookup(
            merged(merged(merged(entries, key, first), key, second), key, third),
            key,
        ) == Some(JsonView::Array(seq![first, second, third])),
{
    let one = merged(entries, key, first);
    stored_is_found(entries, key, first, key);
    let two = merged(one, key, second);
    stored_is_found(one, key, JsonView::Array(seq![first, second]), key);
    stored_is_found(two, key, JsonView::Array(seq![first, second].push(third)), key);
    assert(seq![first, second].push(third) == seq![first, second, third]);
}

/// A value of one parameter leaves the others as they were.
pub proof fn values_stay_apart(
    entries: Seq<(Seq<char>, JsonView)>,
    key: Seq<char>,
    value: JsonView,
    other: Seq<char>,
)
    requires
        other != key,
    ensures
        lookup(merged(entries, key, value), other) == lookup(entries, other),
{
    match lookup(entries, key) {
        None => {
            stored_is_found(entries, key, value, other);
        },
        Some(JsonView::Array(items)) => {
            stored_is_found(entries, key, JsonView::Array(items.push(value)), other);
        },
        Some(earlier) => {
            stored_is_found(entries, key, JsonView::Array(seq![earlier, value]), other);
        },
    }
}

/// Finishing arrays a second time changes nothing.
pub proof fn finishing_arrays_is_idempotent(
    props: Seq<(Seq<char>, JsonView)>,
    entries: Seq<(Seq<char>, JsonView)>,
)
    ensures
        finalized(props, finalized(props, entries)) == finalized(props, entries),
{
    assert(finalized(props, finalized(props, entries)) =~= finalized(props, entries));
}

/// A whole payload stands alone: together with flags or positional words it is
/// an error, whatever these are.
pub proof fn payload_stands_alone(
    name: Seq<char>,
    schema: JsonView,
    state: ScanView,
    inputs: InputsView,
)
    requires
        state.explicit is Some,
        state.collected.len() > 0 || state.positionals.len() > 0,
    ensures
        settled(name, schema, state, inputs) matches Err(StopView::Invalid(_)),
{
}

/// A schema that declares no parameters accepts every argument.
pub proof fn undeclared_schemas_accept_everything(
    name: Seq<char>,
    schema: JsonView,
    entries: Seq<(Seq<char>, JsonView)>,
)
    requires
        properties(schema).len() == 0,
    ensures
        validation(name, schema, entries) is None,
{
}

/// A whole number is stored as an integer, for a parameter of type `number` as
/// for one of type `integer`.
pub proof fn whole_numbers_stay_integers(
    key: Seq<char>,
    schema: JsonView,
    raw: Seq<char>,
    n: i64,
    inputs: InputsView,
)
    requires
        text_at(schema, "type"@) == Some("number"@) || text_at(schema, "type"@) == Some("integer"@),
        i64_value(raw) == Some(n),
    ensures
        coerced(key, Some(schema), raw, inputs) == Ok::<JsonView, StopView>(
            JsonView::Number(integer_number(n)),
        ),
{
    reveal_strlit("number");
    reveal_strlit("integer");
    reveal_strlit("boolean");
    assert("number"@.len() != "boolean"@.len());
    assert("integer"@[0] != "boolean"@[0]);
    assert("number"@.len() != "integer"@.len());
}

// ---------------------------------------------------------------------------
// Words.
// ---------------------------------------------------------------------------

/// A word with two dashes and without `=` is its own flag, with no value in it.
proof fn bare_flag(flag: Seq<char>)
    requires
        "--"@.is_prefix_of(flag),
        !flag.contains('='),
    ensures
        flag_part(flag) == flag,
        inline_value(flag) is None,
        flag != "-h"@,
{
    reveal_strlit("-h");
    reveal_strlit("--");
    assert(flag[1] == "--"@[1]) by {
        assert(flag.subrange(0, 2) == "--"@);
    }
    assert forall|j: int| 0 <= j < flag.len() implies #[trigger] flag[j] != '=' by {
        assert(flag.contains(flag[j]));
    }
    first_char_is(flag, '=', flag.len() as int);
}

proof fn reserved_flags()
    ensures
        "--"@.is_prefix_of("--json"@),
        "--"@.is_prefix_of("--dry-run"@),
        "--"@.is_prefix_of("--project"@),
        "--"@.is_prefix_of("--args"@),
        "--"@.is_prefix_of("--help"@),
        !"--json"@.contains('='),
        !"--dry-run"@.contains('='),
        !"--project"@.contains('='),
        !"--args"@.contains('='),
        !"--help"@.contains('='),
        "--json"@ != "--dry-run"@,
        "--json"@ != "--project"@,
        "--json"@ != "--args"@,
        "--json"@ != "--help"@,
        "--dry-run"@ != "--project"@,
        "--dry-run"@ != "--args"@,
        "--dry-run"@ != "--help"@,
        "--project"@ != "--args"@,
        "--project"@ != "--help"@,
        "--args"@ != "--help"@,
{
    reveal_strlit("--");
    reveal_strlit("--json");
    reveal_strlit("--dry-run");
    reveal_strlit("--project");
    reveal_strlit("--args");
    reveal_strlit("--help");
    assert("--json"@[2] == 'j' && "--dry-run"@[2] == 'd' && "--project"@[2] == 'p' && "--args"@[2]
        == 'a' && "--help"@[2] == 'h');
    assert("--json"@.subrange(0, 2) == "--"@);
    assert("--dry-run"@.subrange(0, 2) == "--"@);
    assert("--project"@.subrange(0, 2) == "--"@);
    assert("--args"@.subrange(0, 2) == "--"@);
    assert("--help"@.subrange(0, 2) == "--"@);
}

/// `--json` asks for raw output, `--dry-run` for no call, and `--project` names
/// the project by the word that follows; none of them is an argument of the
/// tool, and the words after them are read as they would be without them.
pub proof fn options_are_no_arguments(
    schema: JsonView,
    project: Seq<char>,
    rest: Seq<Seq<char>>,
    state: ScanView,
    inputs: InputsView,
)
    requires
        !state.show_help,
    ensures
        scanned(schema, seq!["--json"@] + rest, state, inputs) == scanned(
            schema,
            rest,
            ScanView { raw_json: true, ..state },
            inputs,
        ),
        scanned(schema, seq!["--dry-run"@] + rest, state, inputs) == scanned(
            schema,
            rest,
            ScanView { dry_run: true, ..state },
            inputs,
        ),
        scanned(schema, seq!["--project"@, project] + rest, state, inputs) == scanned(
            schema,
            rest,
            ScanView { project: Some(project), ..state },
            inputs,
        ),
        scanned(schema, seq!["--project"@], state, inputs) matches Err(StopView::Invalid(_)),
{
    reserved_flags();
    bare_flag("--json"@);
    bare_flag("--dry-run"@);
    bare_flag("--project"@);
    let json = seq!["--json"@] + rest;
    let dry = seq!["--dry-run"@] + rest;
    let named = seq!["--project"@, project] + rest;
    assert(json[0] == "--json"@ && json.skip(1) == rest);
    assert(dry[0] == "--dry-run"@ && dry.skip(1) == rest);
    assert(named[0] == "--project"@ && named[1] == project && named.skip(2) == rest);
    assert(seq!["--project"@][0] == "--project"@);
    assert(consumed(json) == 0 && consumed(dry) == 0 && consumed(named) == 1);
}

/// `--args` is followed by the whole payload, which is to be a JSON object and
/// becomes the arguments; anything else is refused.
pub proof fn payloads_are_objects(
    schema: JsonView,
    raw: Seq<char>,
    text: Seq<char>,
    entries: Seq<(Seq<char>, JsonView)>,
    rest: Seq<Seq<char>>,
    state: ScanView,
    inputs: InputsView,
)
    requires
        !state.show_help,
        payload_text(raw, inputs) == Ok::<Seq<char>, StopView>(text),
    ensures
        json_reading(text) == Ok::<JsonView, Seq<char>>(JsonView::Object(entries)) ==> scanned(
            schema,
            seq!["--args"@, raw] + rest,
            state,
            inputs,
        ) == scanned(schema, rest, ScanView { explicit: Some(entries), ..state }, inputs),
        (json_reading(text) matches Ok(v) ==> !(v is Object)) ==> (scanned(
            schema,
            seq!["--args"@, raw] + rest,
            state,
            inputs,
        ) matches Err(StopView::Invalid(_))),
{
    reserved_flags();
    bare_flag("--args"@);
    let words = seq!["--args"@, raw] + rest;
    assert(words[0] == "--args"@ && words[1] == raw && words.skip(2) == rest);
    assert(consumed(words) == 1);
}

/// The flag of a parameter, with the word that follows it, gives that parameter
/// the value that the word has by the parameter's own schema. Parameters named
/// as one of the options are left out: their flags are the options.
pub proof fn flags_give_their_parameter_a_value(
    schema: JsonView,
    key: Seq<char>,
    value: Seq<char>,
    text: Seq<char>,
    v: JsonView,
    rest: Seq<Seq<char>>,
    state: ScanView,
    inputs: InputsView,
)
    requires
        !state.show_help,
        key.len() > 0 ==> key[0] != '_',
        !key.contains('-'),
        !key.contains('='),
        key != "help"@,
        key != "json"@,
        key != "dry_run"@,
        key != "project"@,
        key != "args"@,
        value_text(value, inputs) == Ok::<Seq<char>, StopView>(text),
    ensures
        coerced(key, lookup(properties(schema), key), text, inputs) == Ok::<JsonView, StopView>(v)
            ==> scanned(schema, seq!["--"@ + kebab(key), value] + rest, state, inputs) == scanned(
            schema,
            rest,
            ScanView { collected: merged(state.collected, key, v), ..state },
            inputs,
        ),
        coerced(key, lookup(properties(schema), key), text, inputs) matches Err(stop) ==> scanned(
            schema,
            seq!["--"@ + kebab(key), value] + rest,
            state,
            inputs,
        ) == Err::<ScanView, StopView>(stop),
        scanned(schema, seq!["--"@ + kebab(key)], state, inputs) matches Err(StopView::Invalid(_)),
{
    let flag = "--"@ + kebab(key);
    reserved_flags();
    option_names();
    flag_names_its_parameter(key);
    assert(flag.subrange(0, "--"@.len() as int) == "--"@);
    assert(!flag.contains('=')) by {
        reveal_strlit("--");
        if flag.contains('=') {
            let i = choose|i: int| 0 <= i < flag.len() && flag[i] == '=';
            assert(kebab(key)[i - 2] == '=');
            assert(key[i - 2] == '=');
        }
    }
    bare_flag(flag);
    assert(flag_key(flag) == key);
    let words = seq![flag, value] + rest;
    assert(words[0] == flag && words[1] == value && words.skip(2) == rest);
    assert(consumed(words) == 1);
    assert(seq![flag][0] == flag);
}

/// What the options would be called as parameters.
proof fn option_names()
    ensures
        flag_key("--help"@) == "help"@,
        flag_key("--json"@) == "json"@,
        flag_key("--dry-run"@) == "dry_run"@,
        flag_key("--project"@) == "project"@,
        flag_key("--args"@) == "args"@,
{
    reveal_strlit("--");
    reveal_strlit("--help");
    reveal_strlit("--json");
    reveal_strlit("--dry-run");
    reveal_strlit("--project");
    reveal_strlit("--args");
    reveal_strlit("help");
    reveal_strlit("json");
    reveal_strlit("dry_run");
    reveal_strlit("project");
    reveal_strlit("args");
    assert("--"@ + kebab("help"@) == "--help"@);
    assert("--"@ + kebab("json"@) == "--json"@);
    assert("--"@ + kebab("dry_run"@) == "--dry-run"@);
    assert("--"@ + kebab("project"@) == "--project"@);
    assert("--"@ + kebab("args"@) == "--args"@);
    flag_names_its_parameter("help"@);
    flag_names_its_parameter("json"@);
    flag_names_its_parameter("dry_run"@);
    flag_names_its_parameter("project"@);
    flag_names_its_parameter("args"@);
}

/// A word that does not begin with a dash is kept for the parameters without a
/// flag, in the order of the words. A declared parameter behind a single dash is
/// a slip, and refused.
pub proof fn plain_words_are_positional(
    schema: JsonView,
    word: Seq<char>,
    key: Seq<char>,
    rest: Seq<Seq<char>>,
    state: ScanView,
    inputs: InputsView,
)
    requires
        !state.show_help,
        word.len() > 0 ==> word[0] != '-',
    ensures
        scanned(schema, seq![word] + rest, state, inputs) == scanned(
            schema,
            rest,
            ScanView { positionals: state.positionals.push(word), ..state },
            inputs,
        ),
        lookup(properties(schema), key) is Some && key.len() > 0 && key[0] != '_' && key != "h"@
            && !key.contains('-') ==> (scanned(
            schema,
            seq![seq!['-'] + kebab(key)] + rest,
            state,
            inputs,
        ) matches Err(StopView::Invalid(_))),
{
    reveal_strlit("--");
    reveal_strlit("-h");
    reveal_strlit("--help");
    reveal_strlit("--json");
    reveal_strlit("--dry-run");
    reveal_strlit("--project");
    reveal_strlit("--args");
    let words = seq![word] + rest;
    assert(words[0] == word && words.skip(1) == rest);
    assert(!"--"@.is_prefix_of(word)) by {
        if "--"@.is_prefix_of(word) {
            assert(word.subrange(0, 2)[0] == "--"@[0]);
        }
    }
    assert(word != "-h"@ && word != "--help"@ && word != "--json"@ && word != "--dry-run"@ && word
        != "--project"@ && word != "--args"@) by {
        assert("-h"@[0] == '-' && "--help"@[0] == '-' && "--json"@[0] == '-' && "--dry-run"@[0]
            == '-' && "--project"@[0] == '-' && "--args"@[0] == '-');
    }
    assert(consumed(words) == 0);
    if lookup(properties(schema), key) is Some && key.len() > 0 && key[0] != '_' && key != "h"@
        && !key.contains('-') {
        let slip = seq!['-'] + kebab(key);
        let line = seq![slip] + rest;
        assert(line[0] == slip);
        assert(key.contains(key[0]));
        assert(slip[1] == key[0] && slip[1] != '-');
        assert(!"--"@.is_prefix_of(slip)) by {
            if "--"@.is_prefix_of(slip) {
                assert(slip.subrange(0, 2)[1] == "--"@[1]);
            }
        }
        assert(slip.skip(1) == kebab(key));
        assert forall|i: int| 0 <= i < key.len() implies replace_char(kebab(key), '-', '_')[i]
            == #[trigger] key[i] by {
            assert(key.contains(key[i]));
        }
        assert(replace_char(kebab(key), '-', '_') == key);
        reveal_strlit("h");
        assert(slip != "-h"@) by {
            if slip == "-h"@ {
                assert(slip.len() == 2 && slip[1] == 'h');
                assert(key == "h"@);
            }
        }
        assert("--help"@[1] == '-' && "--json"@[1] == '-' && "--dry-run"@[1] == '-'
            && "--project"@[1] == '-' && "--args"@[1] == '-');
    }
}

/// What a command line asks for beside the call reaches the invocation: the
/// project, raw output, no call, and help.
pub proof fn options_reach_the_invocation(
    name: Seq<char>,
    schema: JsonView,
    words: Seq<Seq<char>>,
    inputs: InputsView,
)
    ensures
        invocation(name, schema, words, inputs) matches Ok(parsed) ==> (scanned(
            schema,
            words,
            scan_start(),
            inputs,
        ) matches Ok(state) && {
            &&& parsed.project == state.project
            &&& parsed.raw_json == state.raw_json
            &&& parsed.dry_run == state.dry_run
            &&& parsed.show_help == state.show_help
            &&& parsed.show_help ==> parsed.tool_args == JsonView::Object(seq![])
            &&& !parsed.show_help ==> (settled(name, schema, state, inputs) matches Ok(entries)
                && parsed.tool_args == JsonView::Object(entries))
        }),
        scanned(schema, words, scan_start(), inputs) matches Err(stop) ==> invocation(
            name,
            schema,
            words,
            inputs,
        ) == Err::<InvocationView, StopView>(stop),
        scan_start().project is None && !scan_start().raw_json && !scan_start().dry_run
            && !scan_start().show_help && scan_start().explicit is None && scan_start().collected
            == Seq::<(Seq<char>, JsonView)>::empty() && scan_start().positionals == Seq::<
            Seq<char>,
        >::empty(),
{
}

/// The first word without a flag is the value of the first required parameter
/// that has none yet; the next words go on from there.
pub proof fn words_fill_required_parameters(
    props: Seq<(Seq<char>, JsonView)>,
    key: Seq<char>,
    more: Seq<Seq<char>>,
    collected: Seq<(Seq<char>, JsonView)>,
    word: Seq<char>,
    others: Seq<Seq<char>>,
    text: Seq<char>,
    v: JsonView,
    inputs: InputsView,
)
    requires
        lookup(props, key) is Some,
        value_text(word, inputs) == Ok::<Seq<char>, StopView>(text),
        coerced(key, lookup(props, key), text, inputs) == Ok::<JsonView, StopView>(v),
    ensures
        lookup(collected, key) is None ==> filled(
            props,
            seq![key] + more,
            collected,
            seq![word] + others,
            inputs,
        ) == filled(props, more, inserted(collected, key, v), others, inputs),
        lookup(collected, key) is Some ==> filled(
            props,
            seq![key] + more,
            collected,
            seq![word] + others,
            inputs,
        ) == filled(props, more, collected, seq![word] + others, inputs),
{
    assert((seq![key] + more)[0] == key);
    assert((seq![key] + more).skip(1) == more);
    assert((seq![word] + others)[0] == word);
    assert((seq![word] + others).skip(1) == others);
}

/// Words without a flag never replace a value that a flag gave, and give none to
/// a parameter that is not required. Where words are left over, every required
/// parameter that is declared has a value.
pub proof fn flags_come_before_words(
    props: Seq<(Seq<char>, JsonView)>,
    required: Seq<Seq<char>>,
    collected: Seq<(Seq<char>, JsonView)>,
    positionals: Seq<Seq<char>>,
    inputs: InputsView,
    key: Seq<char>,
)
    ensures
        filled(props, required, collected, positionals, inputs) matches Ok((entries, left)) ==> {
            &&& lookup(collected, key) is Some ==> lookup(entries, key) == lookup(collected, key)
            &&& !required.contains(key) ==> lookup(entries, key) == lookup(collected, key)
            &&& left.is_suffix_of(positionals)
            &&& left.len() > 0 && required.contains(key) && lookup(props, key) is Some ==> lookup(
                entries,
                key,
            ) is Some
        },
    decreases required.len(),
{
    if required.len() > 0 {
        let first = required[0];
        let rest = required.skip(1);
        assert(required.contains(first));
        if required.contains(key) && key != first {
            let i = choose|i: int| 0 <= i < required.len() && required[i] == key;
            assert(rest[i - 1] == key);
        }
        if rest.contains(key) {
            let i = choose|i: int| 0 <= i < rest.len() && rest[i] == key;
            assert(required[i + 1] == key);
        }
        if lookup(collected, first) is Some || lookup(props, first) is None {
            flags_come_before_words(props, rest, collected, positionals, inputs, key);
        } else if positionals.len() > 0 {
            if let Ok(text) = value_text(positionals[0], inputs) {
                if let Ok(v) = coerced(first, lookup(props, first), text, inputs) {
                    let next = inserted(collected, first, v);
                    flags_come_before_words(props, rest, next, positionals.skip(1), inputs, key);
                    stored_is_found(collected, first, v, key);
                    stored_is_found(collected, first, v, first);
                    if let Ok((entries, left)) = filled(
                        props,
                        required,
                        collected,
                        positionals,
                        inputs,
                    ) {
                        let from = positionals.len() - left.len();
                        assert(positionals.skip(1).subrange(from - 1, positionals.len() - 1)
                            == positionals.subrange(from, positionals.len() as int));
                        assert(left == positionals.skip(1).subrange(from - 1, positionals.len() - 1));
                    }
                }
            }
        }
    }
    assert(positionals.subrange(0, positionals.len() as int) == positionals);
}

/// A word that no parameter takes is refused, and shown.
pub proof fn left_over_words_are_refused(
    name: Seq<char>,
    schema: JsonView,
    collected: Seq<(Seq<char>, JsonView)>,
    word: Seq<char>,
    inputs: InputsView,
)
    requires
        forall|i: int|
            0 <= i < required_keys(schema).len() ==> lookup(
                collected,
                #[trigger] required_keys(schema)[i],
            ) is Some,
    ensures
        bound(name, schema, required_keys(schema), collected, seq![word], inputs) matches Err(
            StopView::Invalid(message),
        ) && contains_text(message, word),
        bound(name, schema, required_keys(schema), collected, seq![], inputs) == Ok::<
            Seq<(Seq<char>, JsonView)>,
            StopView,
        >(collected),
{
    nothing_is_filled(properties(schema), required_keys(schema), collected, seq![word], inputs);
    nothing_is_filled(properties(schema), required_keys(schema), collected, seq![], inputs);
    assert(join(seq![word], " "@) == word);
    let hint = " — use --key value flags or run `tracedecay tool "@ + short_name(name) + " --help`"@;
    let before = "unexpected positional argument(s): "@;
    stands_between(before, word, hint);
    assert(before + word + hint == before + word
        + " — use --key value flags or run `tracedecay tool "@ + short_name(name) + " --help`"@);
}

proof fn nothing_is_filled(
    props: Seq<(Seq<char>, JsonView)>,
    required: Seq<Seq<char>>,
    collected: Seq<(Seq<char>, JsonView)>,
    positionals: Seq<Seq<char>>,
    inputs: InputsView,
)
    requires
        forall|i: int|
            0 <= i < required.len() ==> lookup(collected, #[trigger] required[i]) is Some,
    ensures
        filled(props, required, collected, positionals, inputs) == Ok::<
            (Seq<(Seq<char>, JsonView)>, Seq<Seq<char>>),
            StopView,
        >((collected, positionals)),
    decreases required.len(),
{
    if required.len() > 0 {
        let rest = required.skip(1);
        assert forall|i: int| 0 <= i < rest.len() implies lookup(collected, #[trigger] rest[i])
            is Some by {
            assert(rest[i] == required[i + 1]);
        }
        assert(lookup(collected, required[0]) is Some);
        nothing_is_filled(props, rest, collected, positionals, inputs);
    }
}

/// A whole payload is passed to the tool as it was written, but for the old name
/// of a fact's category.
pub proof fn payloads_are_passed_on(
    name: Seq<char>,
    schema: JsonView,
    state: ScanView,
    entries: Seq<(Seq<char>, JsonView)>,
    inputs: InputsView,
)
    requires
        state.explicit == Some(entries),
        state.collected.len() == 0,
        state.positionals.len() == 0,
        name != "tracedecay_fact_store"@ || lookup(entries, "fact_type"@) is None,
    ensures
        validation(name, schema, entries) is None ==> settled(name, schema, state, inputs) == Ok::<
            Seq<(Seq<char>, JsonView)>,
            StopView,
        >(entries),
        validation(name, schema, entries) matches Some(message) ==> settled(
            name,
            schema,
            state,
            inputs,
        ) == Err::<Seq<(Seq<char>, JsonView)>, StopView>(StopView::Invalid(message)),
{
}

/// Arguments given by flags and words alone lack no required parameter.
pub proof fn required_parameters_are_given(
    name: Seq<char>,
    schema: JsonView,
    state: ScanView,
    inputs: InputsView,
    i: int,
)
    requires
        state.explicit is None,
        state.positionals.len() == 0,
        0 <= i < required_keys(schema).len(),
        lookup(state.collected, required_keys(schema)[i]) is None,
    ensures
        settled(name, schema, state, inputs) matches Err(StopView::Invalid(_)),
{
    let required = required_keys(schema);
    nothing_to_fill(properties(schema), required, state.collected, state.positionals, inputs);
    none_missing_is_present(required, state.collected);
}

proof fn nothing_to_fill(
    props: Seq<(Seq<char>, JsonView)>,
    required: Seq<Seq<char>>,
    collected: Seq<(Seq<char>, JsonView)>,
    positionals: Seq<Seq<char>>,
    inputs: InputsView,
)
    requires
        positionals.len() == 0,
    ensures
        filled(props, required, collected, positionals, inputs) == Ok::<
            (Seq<(Seq<char>, JsonView)>, Seq<Seq<char>>),
            StopView,
        >((collected, positionals)),
    decreases required.len(),
{
    if required.len() > 0 {
        nothing_to_fill(props, required.skip(1), collected, positionals, inputs);
    }
}

/// An invocation is seen with each of its fields under its own name.
pub proof fn invocations_are_seen_as_they_are(parsed: ParsedInvocation)
    ensures
        parsed@.tool_args == parsed.tool_args@,
        parsed.project matches Some(project) ==> parsed@.project == Some(project@),
        parsed.project is None ==> parsed@.project is None,
        parsed@.raw_json == parsed.raw_json,
        parsed@.dry_run == parsed.dry_run,
        parsed@.show_help == parsed.show_help,
{
}

/// Every word that is left over is shown.
pub proof fn left_over_words_are_shown(
    name: Seq<char>,
    schema: JsonView,
    required: Seq<Seq<char>>,
    collected: Seq<(Seq<char>, JsonView)>,
    positionals: Seq<Seq<char>>,
    inputs: InputsView,
    i: int,
)
    ensures
        filled(properties(schema), required, collected, positionals, inputs) matches Ok(
            (entries, left),
        ) ==> {
            &&& left.len() == 0 ==> bound(name, schema, required, collected, positionals, inputs)
                == Ok::<Seq<(Seq<char>, JsonView)>, StopView>(entries)
            &&& 0 <= i < left.len() ==> (bound(
                name,
                schema,
                required,
                collected,
                positionals,
                inputs,
            ) matches Err(StopView::Invalid(message)) && contains_text(message, left[i]))
        },
{
    if let Ok((entries, left)) = filled(
        properties(schema),
        required,
        collected,
        positionals,
        inputs,
    ) {
        if 0 <= i < left.len() {
            joined_parts_stand(left, " "@, i);
            let before = "unexpected positional argument(s): "@;
            let hint = " — use --key value flags or run `tracedecay tool "@ + short_name(name)
                + " --help`"@;
            stands_within(before, join(left, " "@), hint, left[i]);
            assert(before + join(left, " "@) + hint == before + join(left, " "@)
                + " — use --key value flags or run `tracedecay tool "@ + short_name(name)
                + " --help`"@);
        }
    }
}

/// A flag without a value is named in the error.
pub proof fn bare_flags_are_named(flag: Seq<char>, schema: JsonView)
    ensures
        contains_text(bare_flag_error(flag), flag),
        contains_text(missing_value_error(flag, Some(schema)), flag),
        text_at(schema, "type"@) == Some("boolean"@) ==> contains_text(
            missing_value_error(flag, Some(schema)),
            flag + " false`"@,
        ),
{
    let none = Seq::<char>::empty();
    three_more_stand(none, none, "flag `"@, flag, "` requires a value"@);
    assert(none + "flag `"@ == "flag `"@);
    if text_at(schema, "type"@) == Some("boolean"@) {
        let asked = "flag `"@ + flag + "` requires a value — pass `"@ + flag;
        three_more_stand(asked, none, " true` or `"@, flag, " false`"@);
    } else {
        let asked = "flag `"@ + flag + "` requires a value — write `"@ + flag;
        three_more_stand(asked, none, " <value>` or `"@, flag, "=<value>`"@);
    }
}

/// Arguments that a tool may be called with are an object that passes the check
/// of its schema and holds no old name of a fact's category.
pub proof fn fit_arguments_use_present_names(
    name: Seq<char>,
    schema: JsonView,
    entries: Seq<(Seq<char>, JsonView)>,
    v: JsonView,
)
    ensures
        fit_for_call(name, schema, JsonView::Object(entries)) <==> validation(name, schema, entries)
            is None && (name == "tracedecay_fact_store"@ ==> lookup(entries, "fact_type"@) is None),
        !(v is Object) ==> !fit_for_call(name, schema, v),
{
}

} // verus!
