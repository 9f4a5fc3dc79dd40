//! JSON text and `serde_json` values to and from [`Json`].

use crate::json::{ascending, array_model, inserted, inserted_last, json_items, json_items_push, number_content, number_copy, Json, JsonMap, JsonView};
use crate::order::text_before;
use crate::text::copy_text;
use vstd::prelude::*;

verus! {

/// `serde_json::Value`, opaque here.
#[verifier::external_type_specification]
#[verifier::external_body]
pub struct ExValue(serde_json::Value);

/// `serde_json::Map`, opaque here.
#[verifier::external_type_specification]
#[verifier::external_body]
#[verifier::reject_recursive_types(K)]
#[verifier::reject_recursive_types(V)]
pub struct ExMap<K, V>(serde_json::Map<K, V>);

/// What a `serde_json::Value` holds.
pub uninterp spec fn value_content(v: serde_json::Value) -> JsonView;

/// The entries of a `serde_json::Map`, in the order in which it is walked.
pub uninterp spec fn map_content(m: serde_json::Map<String, serde_json::Value>) -> Seq<
    (Seq<char>, JsonView),
>;

/// What `serde_json::from_str` makes of a text: the value that it reads, or the
/// text of the error that it reports.
pub uninterp spec fn json_reading(text: Seq<char>) -> Result<JsonView, Seq<char>>;

/// The text that `serde_json::to_string` writes for a value.
pub uninterp spec fn json_writing(v: JsonView) -> Seq<char>;

/// The indented JSON text of a value.
pub uninterp spec fn json_pretty(v: JsonView) -> Seq<char>;

/// A `serde_json::Value` taken apart by one level.
pub enum ValueParts {
    Null,
    Bool(bool),
    Number(serde_json::Number),
    Text(String),
    Array(Vec<serde_json::Value>),
    Object(serde_json::Map<String, serde_json::Value>),
}

/// What the items of an array hold.
pub open spec fn value_items(items: Seq<serde_json::Value>) -> Seq<JsonView> {
    Seq::new(items.len(), |i: int| value_content(items[i]))
}

/// What the entries of an object hold.
pub open spec fn value_entries(entries: Seq<(String, serde_json::Value)>) -> Seq<
    (Seq<char>, JsonView),
> {
    Seq::new(entries.len(), |i: int| (entries[i].0@, value_content(entries[i].1)))
}

/// What the parts of a value hold together.
pub open spec fn parts_content(parts: ValueParts) -> JsonView {
    match parts {
        ValueParts::Null => JsonView::Null,
        ValueParts::Bool(b) => JsonView::Bool(b),
        ValueParts::Number(n) => JsonView::Number(number_content(n)),
        ValueParts::Text(s) => JsonView::Text(s@),
        ValueParts::Array(items) => JsonView::Array(value_items(items@)),
        ValueParts::Object(map) => JsonView::Object(map_content(map)),
    }
}

/// The variants of `serde_json::Value`: its parts hold what it holds.
#[verifier::external_body]
fn open_value(v: serde_json::Value) -> (r: ValueParts)
    ensures
        parts_content(r) == value_content(v),
{
    match v {
        serde_json::Value::Null => ValueParts::Null,
        serde_json::Value::Bool(b) => ValueParts::Bool(b),
        serde_json::Value::Number(n) => ValueParts::Number(n),
        serde_json::Value::String(s) => ValueParts::Text(s),
        serde_json::Value::Array(items) => ValueParts::Array(items),
        serde_json::Value::Object(map) => ValueParts::Object(map),
    }
}

/// The constructors of `serde_json::Value`: it holds what its parts hold.
#[verifier::external_body]
fn close_value(parts: ValueParts) -> (r: serde_json::Value)
    ensures
        value_content(r) == parts_content(parts),
{
    match parts {
        ValueParts::Null => serde_json::Value::Null,
        ValueParts::Bool(b) => serde_json::Value::Bool(b),
        ValueParts::Number(n) => serde_json::Value::Number(n),
        ValueParts::Text(s) => serde_json::Value::String(s),
        ValueParts::Array(items) => serde_json::Value::Array(items),
        ValueParts::Object(map) => serde_json::Value::Object(map),
    }
}

/// `serde_json::Map::into_iter`: the entries one by one. The map is backed by a
/// `BTreeMap`, so its keys come in ascending order, each once.
#[verifier::external_body]
fn map_entries(m: serde_json::Map<String, serde_json::Value>) -> (r: Vec<
    (String, serde_json::Value),
>)
    ensures
        value_entries(r@) == map_content(m),
        ascending(value_entries(r@)),
{
    m.into_iter().collect()
}

/// `serde_json::Map::new`: a map without entries.
#[verifier::external_body]
fn map_new() -> (r: serde_json::Map<String, serde_json::Value>)
    ensures
        map_content(r) == Seq::<(Seq<char>, JsonView)>::empty(),
{
    serde_json::Map::new()
}

/// `serde_json::Map::insert`: stores the value under the key, in place of what
/// was stored there. The map is backed by a `BTreeMap`, so the entry stands
/// where the order of keys puts it.
#[verifier::external_body]
fn map_insert(
    m: &mut serde_json::Map<String, serde_json::Value>,
    key: String,
    value: serde_json::Value,
)
    ensures
        map_content(*final(m)) == inserted(map_content(*old(m)), key@, value_content(value)),
{
    m.insert(key, value);
}

/// `serde_json::from_str::<serde_json::Value>`: the value that the text writes
/// down, or the text of the error. Which texts are JSON is left to the name.
#[verifier::external_body]
fn read_value(text: &str) -> (r: Result<serde_json::Value, String>)
    ensures
        match r {
            Ok(v) => json_reading(text@) == Ok::<JsonView, Seq<char>>(value_content(v)),
            Err(e) => json_reading(text@) == Err::<JsonView, Seq<char>>(e@),
        },
{
    match serde_json::from_str::<serde_json::Value>(text) {
        Ok(v) => Ok(v),
        Err(e) => Err(e.to_string()),
    }
}

/// `serde_json::to_string` of a `serde_json::Value`: the compact JSON text. A
/// value of this type has text keys and finite numbers only, so that writing
/// it to memory does not fail.
#[verifier::external_body]
fn write_value(v: &serde_json::Value) -> (r: Option<String>)
    ensures
        r is Some,
        r->0@ == json_writing(value_content(*v)),
{
    serde_json::to_string(v).ok()
}

/// `serde_json::to_string_pretty` of a `serde_json::Value`: the JSON text with
/// line breaks and indentation. Writing such a value to memory does not fail.
#[verifier::external_body]
fn write_value_pretty(v: &serde_json::Value) -> (r: Option<String>)
    ensures
        r is Some,
        r->0@ == json_pretty(value_content(*v)),
{
    serde_json::to_string_pretty(v).ok()
}

impl Json {
    /// The value that a `serde_json::Value` holds.
    pub fn from_value(v: serde_json::Value) -> (r: Json)
        ensures
            r@ == value_content(v),
        decreases value_content(v),
    {
        let ghost content = value_content(v);
        match open_value(v) {
            ValueParts::Null => Json::Null,
            ValueParts::Bool(b) => Json::Bool(b),
            ValueParts::Number(n) => Json::Number(n),
            ValueParts::Text(s) => Json::Text(s),
            ValueParts::Array(items) => {
                let mut out: Vec<Json> = Vec::new();
                let ghost all = value_items(items@);
                for item in it: items
                    invariant
                        content == JsonView::Array(all),
                        content == value_content(v),
                        all == value_items(it.seq()),
                        json_items(out@) == all.take(it.index() as int),
                {
                    let ghost before = out@;
                    let ghost k = it.index() as int;
                    assert(all[k] == value_content(item));
                    assert(decreases_to!(content => content->Array_0));
                    assert(decreases_to!(all => all[k]));
                    let one = Json::from_value(item);
                    out.push(one);
                    proof {
                        json_items_push(before, one);
                        assert(all.take(k + 1) == all.take(k).push(all[k]));
                    }
                }
                proof {
                    array_model(out);
                    assert(all.take(all.len() as int) == all);
                }
                Json::Array(out)
            },
            ValueParts::Object(map) => {
                let entries = map_entries(map);
                let mut out = JsonMap::new();
                let ghost all = value_entries(entries@);
                for entry in it: entries
                    invariant
                        content == JsonView::Object(all),
                        content == value_content(v),
                        all == value_entries(it.seq()),
                        ascending(all),
                        out@ == all.take(it.index() as int),
                {
                    let ghost k = it.index() as int;
                    let (key, item) = entry;
                    assert(all[k] == (key@, value_content(item)));
                    assert(decreases_to!(content => content->Object_0));
                    assert(decreases_to!(all => all[k]));
                    assert(decreases_to!(all[k] => all[k].1));
                    let one = Json::from_value(item);
                    proof {
                        assert forall|j: int| 0 <= j < k implies text_before(
                            (#[trigger] all.take(k)[j]).0,
                            key@,
                        ) by {
                            assert(text_before(all[j].0, all[k].0));
                        }
                        inserted_last(all.take(k), key@, one@);
                        assert(all.take(k + 1) == all.take(k).push(all[k]));
                    }
                    out.insert(key, one);
                }
                assert(all.take(all.len() as int) == all);
                Json::Object(out)
            },
        }
    }

    /// The `serde_json::Value` that holds the value.
    pub fn to_value(&self) -> (r: serde_json::Value)
        ensures
            value_content(r) == self@,
        decreases self@,
    {
        match self {
            Json::Null => close_value(ValueParts::Null),
            Json::Bool(b) => close_value(ValueParts::Bool(*b)),
            Json::Number(n) => close_value(ValueParts::Number(number_copy(n))),
            Json::Text(s) => close_value(ValueParts::Text(s.clone())),
            Json::Array(items) => {
                let mut out: Vec<serde_json::Value> = Vec::new();
                let ghost all = json_items(items@);
                proof {
                    array_model(*items);
                }
                let mut i: usize = 0;
                while i < items.len()
                    invariant
                        i <= items@.len(),
                        all == json_items(items@),
                        self@ == JsonView::Array(all),
                        value_items(out@) == all.take(i as int),
                    decreases items@.len() - i,
                {
                    let ghost before = out@;
                    assert(decreases_to!(self@ => self@->Array_0));
                    assert(decreases_to!(all => all[i as int]));
                    let one = items[i].to_value();
                    out.push(one);
                    proof {
                        value_items_push(before, one);
                        assert(all.take(i as int + 1) == all.take(i as int).push(all[i as int]));
                    }
                    i += 1;
                }
                assert(all.take(all.len() as int) == all);
                close_value(ValueParts::Array(out))
            },
            Json::Object(map) => {
                let mut out = map_new();
                let total: usize = map.len();
                let mut i: usize = 0;
                while i < total
                    invariant
                        i <= total,
                        total == map@.len(),
                        ascending(map@),
                        self@ == JsonView::Object(map@),
                        map_content(out) == map@.take(i as int),
                    decreases total - i,
                {
                    let ghost k = i as int;
                    assert(decreases_to!(self@ => self@->Object_0));
                    assert(decreases_to!(map@ => map@[k]));
                    assert(decreases_to!(map@[k] => map@[k].1));
                    let one = map.value(i).to_value();
                    proof {
                        assert forall|j: int| 0 <= j < k implies text_before(
                            (#[trigger] map@.take(k)[j]).0,
                            map@[k].0,
                        ) by {
                            assert(text_before(map@[j].0, map@[k].0));
                        }
                        inserted_last(map@.take(k), map@[k].0, map@[k].1);
                        assert(map@.take(k + 1) == map@.take(k).push(map@[k]));
                    }
                    map_insert(&mut out, copy_text(map.key(i)), one);
                    i += 1;
                }
                assert(map@.take(map@.len() as int) == map@);
                close_value(ValueParts::Object(out))
            },
        }
    }
}

/// Pushing a value pushes what it holds.
proof fn value_items_push(items: Seq<serde_json::Value>, v: serde_json::Value)
    ensures
        value_items(items.push(v)) == value_items(items).push(value_content(v)),
{
    assert(value_items(items.push(v)) =~= value_items(items).push(value_content(v)));
}

/// The value that `text` writes down in JSON, or the text of the error.
pub fn parse_json(text: &str) -> (r: Result<Json, String>)
    ensures
        match r {
            Ok(v) => json_reading(text@) == Ok::<JsonView, Seq<char>>(v@),
            Err(e) => json_reading(text@) == Err::<JsonView, Seq<char>>(e@),
        },
{
    match read_value(text) {
        Ok(v) => Ok(Json::from_value(v)),
        Err(e) => Err(e),
    }
}

/// The compact JSON text of the value.
pub fn write_json(v: &Json) -> (r: String)
    ensures
        r@ == json_writing(v@),
{
    match write_value(&v.to_value()) {
        Some(text) => text,
        None => String::new(),
    }
}

/// The indented JSON text of the value.
pub fn write_json_pretty(v: &Json) -> (r: String)
    ensures
        r@ == json_pretty(v@),
{
    match write_value_pretty(&v.to_value()) {
        Some(text) => text,
        None => String::new(),
    }
}

} // verus!
