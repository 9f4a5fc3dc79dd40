//! Tool definitions and what their JSON Schemas declare.

use crate::json::{as_text, field, json_items, lookup, text_at, Json, JsonMap, JsonView};
use crate::text::{chars_of, copy_text, text_between, text_of, text_starts_with, texts, texts_push};
use vstd::prelude::*;

verus! {

/// A tool that can be called: its name, what it does, the JSON Schema of its
/// arguments, and its annotations.
pub struct ToolDefinition {
    pub name: String,
    pub description: String,
    pub input_schema: Json,
    pub meta: Option<Json>,
}

/// The texts among JSON values, in order.
pub open spec fn texts_among(items: Seq<JsonView>) -> Seq<Seq<char>>
    decreases items.len(),
{
    if items.len() == 0 {
        seq![]
    } else {
        let earlier = texts_among(items.drop_last());
        match as_text(items.last()) {
            Some(s) => earlier.push(s),
            None => earlier,
        }
    }
}

/// The parameters that a schema declares; none when it declares no object of
/// properties.
pub open spec fn properties(schema: JsonView) -> Seq<(Seq<char>, JsonView)> {
    match field(schema, "properties"@) {
        Some(JsonView::Object(entries)) => entries,
        _ => seq![],
    }
}

/// The names of the parameters that a schema requires.
pub open spec fn required_keys(schema: JsonView) -> Seq<Seq<char>> {
    match field(schema, "required"@) {
        Some(JsonView::Array(items)) => texts_among(items),
        _ => seq![],
    }
}

/// The `type` that a parameter's schema declares.
pub open spec fn declared_type(schema: Option<JsonView>) -> Option<Seq<char>> {
    match schema {
        Some(s) => text_at(s, "type"@),
        None => None,
    }
}

/// A tool name without its `tracedecay_` prefix.
pub open spec fn short_name(name: Seq<char>) -> Seq<char> {
    if "tracedecay_"@.is_prefix_of(name) {
        name.skip("tracedecay_"@.len() as int)
    } else {
        name
    }
}

/// An optional value as a mathematical object.
pub open spec fn json_option(v: Option<&Json>) -> Option<JsonView> {
    match v {
        Some(j) => Some(j@),
        None => None,
    }
}

/// The parameters that the schema declares.
pub fn schema_properties(schema: &Json) -> (r: Option<&JsonMap>)
    ensures
        match r {
            Some(map) => map@ == properties(schema@),
            None => properties(schema@) == Seq::<(Seq<char>, JsonView)>::empty(),
        },
{
    match schema.get("properties") {
        Some(v) => v.as_object(),
        None => None,
    }
}

/// The schema of parameter `key`.
pub fn property<'a>(schema: &'a Json, key: &str) -> (r: Option<&'a Json>)
    ensures
        json_option(r) == lookup(properties(schema@), key@),
{
    match schema_properties(schema) {
        Some(map) => map.get(key),
        None => None,
    }
}

/// The names of the parameters that the tool requires.
pub fn schema_required_keys(schema: &Json) -> (r: Vec<String>)
    ensures
        texts(r@) == required_keys(schema@),
{
    let mut out: Vec<String> = Vec::new();
    assert(texts(out@) =~= Seq::<Seq<char>>::empty());
    match schema.array_at("required") {
        Some(items) => {
            let ghost all = json_items(items@);
            let mut i: usize = 0;
            assert(all.take(0) =~= Seq::<JsonView>::empty());
            while i < items.len()
                invariant
                    i <= items@.len(),
                    all == json_items(items@),
                    texts(out@) == texts_among(all.take(i as int)),
                decreases items@.len() - i,
            {
                proof {
                    assert(all.take(i as int + 1).drop_last() == all.take(i as int));
                    assert(all.take(i as int + 1).last() == items@[i as int]@);
                }
                match items[i].as_str() {
                    Some(s) => {
                        let ghost before = out@;
                        let key = copy_text(s);
                        out.push(key);
                        proof {
                            texts_push(before, key);
                        }
                    },
                    None => {},
                }
                i += 1;
            }
            assert(all.take(all.len() as int) == all);
            out
        },
        None => out,
    }
}

/// The `type` that a parameter's schema declares.
pub fn type_of(schema: Option<&Json>) -> (r: Option<&str>)
    ensures
        crate::json::text_option(r) == declared_type(json_option(schema)),
{
    match schema {
        Some(s) => s.str_at("type"),
        None => None,
    }
}

/// The tool name without its `tracedecay_` prefix.
pub fn short_tool_name(name: &str) -> (r: String)
    ensures
        r@ == short_name(name@),
{
    let chars = chars_of(name);
    if text_starts_with(name, "tracedecay_") {
        let prefix = chars_of("tracedecay_");
        let rest = text_between(&chars, prefix.len(), chars.len());
        assert(rest@ == name@.skip("tracedecay_"@.len() as int));
        rest
    } else {
        text_of(&chars)
    }
}

/// The parameters that a schema requires are the texts of its `required` list,
/// in their order, and those that it declares are the entries of its
/// `properties`.
pub proof fn schemas_list_their_parameters(
    schema: JsonView,
    items: Seq<JsonView>,
    entries: Seq<(Seq<char>, JsonView)>,
    key: Seq<char>,
)
    ensures
        field(schema, "required"@) == Some(JsonView::Array(items)) ==> (required_keys(
            schema,
        ).contains(key) <==> items.contains(JsonView::Text(key))),
        !(field(schema, "required"@) matches Some(JsonView::Array(_))) ==> required_keys(
            schema,
        ).len() == 0,
        field(schema, "properties"@) == Some(JsonView::Object(entries)) ==> properties(schema)
            == entries,
        !(field(schema, "properties"@) matches Some(JsonView::Object(_))) ==> properties(
            schema,
        ).len() == 0,
{
    texts_are_found(items, key);
}

proof fn texts_are_found(items: Seq<JsonView>, key: Seq<char>)
    ensures
        texts_among(items).contains(key) <==> items.contains(JsonView::Text(key)),
    decreases items.len(),
{
    if items.len() > 0 {
        let front = items.drop_last();
        texts_are_found(front, key);
        let earlier = texts_among(front);
        let all = texts_among(items);
        if items.contains(JsonView::Text(key)) {
            let i = choose|i: int| 0 <= i < items.len() && items[i] == JsonView::Text(key);
            if i < front.len() {
                assert(front[i] == JsonView::Text(key));
                let k = choose|k: int| 0 <= k < earlier.len() && earlier[k] == key;
                assert(all[k] == key);
            } else {
                assert(all.last() == key);
            }
        }
        if all.contains(key) {
            let k = choose|k: int| 0 <= k < all.len() && all[k] == key;
            if k < earlier.len() {
                assert(earlier[k] == key);
                let i = choose|i: int| 0 <= i < front.len() && front[i] == JsonView::Text(key);
                assert(items[i] == JsonView::Text(key));
            } else {
                assert(items[items.len() - 1] == JsonView::Text(key));
            }
        }
    }
}

/// Required parameters stand in the order in which the schema lists them.
pub proof fn required_parameters_keep_their_order(
    first: Seq<JsonView>,
    second: Seq<JsonView>,
    key: Seq<char>,
    other: JsonView,
)
    ensures
        texts_among(first + second) == texts_among(first) + texts_among(second),
        texts_among(seq![JsonView::Text(key)]) == seq![key],
        !(other is Text) ==> texts_among(seq![other]) == Seq::<Seq<char>>::empty(),
    decreases second.len(),
{
    reveal_with_fuel(texts_among, 2);
    assert(seq![JsonView::Text(key)].drop_last() == Seq::<JsonView>::empty());
    assert(seq![other].drop_last() == Seq::<JsonView>::empty());
    assert(Seq::<Seq<char>>::empty().push(key) == seq![key]);
    if second.len() == 0 {
        assert(first + second == first);
        assert(texts_among(first) + Seq::<Seq<char>>::empty() == texts_among(first));
    } else {
        required_parameters_keep_their_order(first, second.drop_last(), key, other);
        assert((first + second).drop_last() == first + second.drop_last());
        if let Some(s) = as_text(second.last()) {
            let a = texts_among(first);
            let b = texts_among(second.drop_last());
            assert((a + b).push(s) == a + b.push(s));
        }
    }
}

/// The short name of a tool is its name without the prefix that all tools have.
pub proof fn short_names_lack_the_prefix(name: Seq<char>)
    ensures
        short_name("tracedecay_"@ + name) == name,
        !"tracedecay_"@.is_prefix_of(name) ==> short_name(name) == name,
{
    let whole = "tracedecay_"@ + name;
    assert(whole.subrange(0, "tracedecay_"@.len() as int) == "tracedecay_"@);
    assert(whole.skip("tracedecay_"@.len() as int) == name);
}

} // verus!
