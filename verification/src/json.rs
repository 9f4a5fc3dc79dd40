//! JSON values and the objects made of them.

use crate::order::{is_text_before, text_before, text_before_asymmetric, text_before_total, text_before_transitive};
use crate::text::same_text;
use vstd::prelude::*;

verus! {

/// `serde_json::Number`: a JSON number, opaque here.
#[verifier::external_type_specification]
#[verifier::external_body]
pub struct ExNumber(serde_json::Number);

/// What a JSON number is: an unsigned integer, a negative integer, or a
/// finite fraction, given by the text that JSON writes for it.
pub enum NumberView {
    Unsigned(u64),
    Negative(i64),
    Fraction(Seq<char>),
}

/// What a JSON value is.
pub enum JsonView {
    Null,
    Bool(bool),
    Number(NumberView),
    Text(Seq<char>),
    Array(Seq<JsonView>),
    Object(Seq<(Seq<char>, JsonView)>),
}

/// The number as an `i64`, when it is an integer that fits.
pub open spec fn number_i64(n: NumberView) -> Option<i64> {
    match n {
        NumberView::Unsigned(u) => if u <= i64::MAX {
            Some(u as i64)
        } else {
            None
        },
        NumberView::Negative(i) => Some(i),
        NumberView::Fraction(_) => None,
    }
}

/// The number as a `u64`, when it is an integer that fits.
pub open spec fn number_u64(n: NumberView) -> Option<u64> {
    match n {
        NumberView::Unsigned(u) => Some(u),
        _ => None,
    }
}

/// What a `serde_json::Number` holds.
pub uninterp spec fn number_content(n: serde_json::Number) -> NumberView;

/// `serde_json::Number::as_i64`: the number when it is an integer that an
/// `i64` can hold.
#[verifier::external_body]
pub(crate) fn number_as_i64(n: &serde_json::Number) -> (r: Option<i64>)
    ensures
        r == number_i64(number_content(*n)),
{
    n.as_i64()
}

/// `Display` of `serde_json::Number`: the text that JSON writes for the number,
/// claimed here for a fraction only.
#[verifier::external_body]
pub(crate) fn number_text(n: &serde_json::Number) -> (r: String)
    ensures
        number_content(*n) matches NumberView::Fraction(text) ==> r@ == text,
{
    n.to_string()
}

/// `serde_json::Number::as_u64`: the number when it is an unsigned integer.
#[verifier::external_body]
pub(crate) fn number_as_u64(n: &serde_json::Number) -> (r: Option<u64>)
    ensures
        r == number_u64(number_content(*n)),
{
    n.as_u64()
}

/// The number that an `i64` is.
pub open spec fn integer_number(n: i64) -> NumberView {
    if n < 0 {
        NumberView::Negative(n)
    } else {
        NumberView::Unsigned(n as u64)
    }
}

/// `From<i64>` of `serde_json::Number`: the number with that value.
#[verifier::external_body]
pub(crate) fn number_from_i64(n: i64) -> (r: serde_json::Number)
    ensures
        number_content(r) == integer_number(n),
{
    serde_json::Number::from(n)
}

/// `Clone` of `serde_json::Number`: a number that holds the same.
#[verifier::external_body]
pub(crate) fn number_copy(n: &serde_json::Number) -> (r: serde_json::Number)
    ensures
        number_content(r) == number_content(*n),
{
    n.clone()
}

/// A JSON value.
pub enum Json {
    Null,
    Bool(bool),
    Number(serde_json::Number),
    Text(String),
    Array(Vec<Json>),
    Object(JsonMap),
}

/// A JSON object: its keys are distinct and stand in the order of texts.
pub struct JsonMap {
    entries: Vec<(String, Json)>,
}

/// Keys stand in strictly ascending order.
pub open spec fn ascending(entries: Seq<(Seq<char>, JsonView)>) -> bool {
    forall|i: int, j: int|
        0 <= i < j < entries.len() ==> text_before(#[trigger] entries[i].0, #[trigger] entries[j].0)
}

impl Json {
    /// The value as a mathematical object.
    pub open spec fn model(self) -> JsonView
        decreases self,
    {
        match self {
            Json::Null => JsonView::Null,
            Json::Bool(b) => JsonView::Bool(b),
            Json::Number(n) => JsonView::Number(number_content(n)),
            Json::Text(s) => JsonView::Text(s@),
            Json::Array(items) => JsonView::Array(
                Seq::new(
                    items@.len(),
                    |i: int|
                        if 0 <= i < items@.len() {
                            items@[i].model()
                        } else {
                            JsonView::Null
                        },
                ),
            ),
            Json::Object(map) => JsonView::Object(map.model()),
        }
    }
}

impl JsonMap {
    /// The entries as mathematical objects.
    pub closed spec fn model(self) -> Seq<(Seq<char>, JsonView)>
        decreases self,
    {
        Seq::new(
            self.entries@.len(),
            |i: int|
                if 0 <= i < self.entries@.len() {
                    (self.entries@[i].0@, self.entries@[i].1.model())
                } else {
                    (seq![], JsonView::Null)
                },
        )
    }

    #[verifier::type_invariant]
    spec fn well_formed(self) -> bool {
        ascending(self.model())
    }
}

impl View for Json {
    type V = JsonView;

    open spec fn view(&self) -> JsonView {
        self.model()
    }
}

impl View for JsonMap {
    type V = Seq<(Seq<char>, JsonView)>;

    open spec fn view(&self) -> Seq<(Seq<char>, JsonView)> {
        self.model()
    }
}

/// The value stored under `key`.
pub open spec fn lookup(entries: Seq<(Seq<char>, JsonView)>, key: Seq<char>) -> Option<JsonView>
    decreases entries.len(),
{
    if entries.len() == 0 {
        None
    } else if entries[0].0 == key {
        Some(entries[0].1)
    } else {
        lookup(entries.skip(1), key)
    }
}

/// `entries` with `value` stored under `key`, at the place that the order of
/// keys gives it.
pub open spec fn inserted(
    entries: Seq<(Seq<char>, JsonView)>,
    key: Seq<char>,
    value: JsonView,
) -> Seq<(Seq<char>, JsonView)>
    decreases entries.len(),
{
    if entries.len() == 0 {
        seq![(key, value)]
    } else if entries[0].0 == key {
        seq![(key, value)] + entries.skip(1)
    } else if text_before(key, entries[0].0) {
        seq![(key, value)] + entries
    } else {
        seq![entries[0]] + inserted(entries.skip(1), key, value)
    }
}

/// `entries` without the one stored under `key`.
pub open spec fn removed(
    entries: Seq<(Seq<char>, JsonView)>,
    key: Seq<char>,
) -> Seq<(Seq<char>, JsonView)>
    decreases entries.len(),
{
    if entries.len() == 0 {
        seq![]
    } else if entries[0].0 == key {
        entries.skip(1)
    } else {
        seq![entries[0]] + removed(entries.skip(1), key)
    }
}

/// `lookup` finds the entry at `i` when no earlier entry has its key.
pub proof fn lookup_at(entries: Seq<(Seq<char>, JsonView)>, key: Seq<char>, i: int)
    requires
        0 <= i < entries.len(),
        entries[i].0 == key,
        forall|j: int| 0 <= j < i ==> (#[trigger] entries[j]).0 != key,
    ensures
        lookup(entries, key) == Some(entries[i].1),
    decreases entries.len(),
{
    if i > 0 {
        assert(entries[0].0 != key);
        assert forall|j: int| 0 <= j < i - 1 implies (#[trigger] entries.skip(1)[j]).0 != key by {
            assert(entries.skip(1)[j] == entries[j + 1]);
        }
        lookup_at(entries.skip(1), key, i - 1);
    }
}

/// `lookup` finds nothing when no entry has the key.
pub proof fn lookup_absent(entries: Seq<(Seq<char>, JsonView)>, key: Seq<char>)
    requires
        forall|j: int| 0 <= j < entries.len() ==> (#[trigger] entries[j]).0 != key,
    ensures
        lookup(entries, key) is None,
    decreases entries.len(),
{
    if entries.len() > 0 {
        assert(entries[0].0 != key);
        assert forall|j: int| 0 <= j < entries.len() - 1 implies (#[trigger] entries.skip(1)[j]).0
            != key by {
            assert(entries.skip(1)[j] == entries[j + 1]);
        }
        lookup_absent(entries.skip(1), key);
    }
}

/// `inserted` replaces the entry at `i` when that is the one with the key.
proof fn inserted_at(entries: Seq<(Seq<char>, JsonView)>, key: Seq<char>, value: JsonView, i: int)
    requires
        0 <= i < entries.len(),
        entries[i].0 == key,
        forall|j: int| 0 <= j < i ==> text_before((#[trigger] entries[j]).0, key),
    ensures
        inserted(entries, key, value) == entries.update(i, (key, value)),
    decreases entries.len(),
{
    if i > 0 {
        text_before_asymmetric(entries[0].0, key);
        assert forall|j: int| 0 <= j < i - 1 implies text_before(
            (#[trigger] entries.skip(1)[j]).0,
            key,
        ) by {
            assert(entries.skip(1)[j] == entries[j + 1]);
        }
        inserted_at(entries.skip(1), key, value, i - 1);
        assert(seq![entries[0]] + entries.skip(1).update(i - 1, (key, value)) == entries.update(
            i,
            (key, value),
        ));
    } else {
        assert(seq![(key, value)] + entries.skip(1) == entries.update(0, (key, value)));
    }
}

/// `inserted` puts a new entry at `i` when the keys before are smaller and the
/// one at `i` is greater.
proof fn inserted_before(
    entries: Seq<(Seq<char>, JsonView)>,
    key: Seq<char>,
    value: JsonView,
    i: int,
)
    requires
        0 <= i <= entries.len(),
        i < entries.len() ==> text_before(key, entries[i].0),
        forall|j: int| 0 <= j < i ==> text_before((#[trigger] entries[j]).0, key),
    ensures
        inserted(entries, key, value) == entries.insert(i, (key, value)),
    decreases entries.len(),
{
    if i > 0 {
        text_before_asymmetric(entries[0].0, key);
        assert forall|j: int| 0 <= j < i - 1 implies text_before(
            (#[trigger] entries.skip(1)[j]).0,
            key,
        ) by {
            assert(entries.skip(1)[j] == entries[j + 1]);
        }
        inserted_before(entries.skip(1), key, value, i - 1);
        assert(seq![entries[0]] + entries.skip(1).insert(i - 1, (key, value)) == entries.insert(
            i,
            (key, value),
        ));
    } else if entries.len() > 0 {
        text_before_asymmetric(key, entries[0].0);
        assert(seq![(key, value)] + entries == entries.insert(0, (key, value)));
    } else {
        assert(seq![(key, value)] == entries.insert(0, (key, value)));
    }
}

/// Putting in an entry whose key comes after all others puts it at the end.
pub proof fn inserted_last(entries: Seq<(Seq<char>, JsonView)>, key: Seq<char>, value: JsonView)
    requires
        forall|j: int| 0 <= j < entries.len() ==> text_before((#[trigger] entries[j]).0, key),
    ensures
        inserted(entries, key, value) == entries.push((key, value)),
{
    inserted_before(entries, key, value, entries.len() as int);
    assert(entries.insert(entries.len() as int, (key, value)) == entries.push((key, value)));
}

/// Taking an entry out before storing under its key again changes nothing.
pub proof fn inserted_after_removed(
    entries: Seq<(Seq<char>, JsonView)>,
    key: Seq<char>,
    value: JsonView,
)
    requires
        ascending(entries),
    ensures
        inserted(removed(entries, key), key, value) == inserted(entries, key, value),
    decreases entries.len(),
{
    if entries.len() > 0 {
        let rest = entries.skip(1);
        assert(ascending(rest)) by {
            assert forall|i: int, j: int| 0 <= i < j < rest.len() implies text_before(
                #[trigger] rest[i].0,
                #[trigger] rest[j].0,
            ) by {
                assert(text_before(entries[i + 1].0, entries[j + 1].0));
            }
        }
        if entries[0].0 == key {
            if rest.len() > 0 {
                assert(text_before(entries[0].0, entries[1].0));
                text_before_asymmetric(key, rest[0].0);
            } else {
                assert(seq![(key, value)] + rest == seq![(key, value)]);
            }
        } else {
            inserted_after_removed(rest, key, value);
            let kept = seq![entries[0]] + removed(rest, key);
            assert(kept[0] == entries[0]);
            assert(kept.skip(1) == removed(rest, key));
            if text_before(key, entries[0].0) {
                assert forall|j: int| 0 <= j < entries.len() implies (#[trigger] entries[j]).0
                    != key by {
                    if j > 0 {
                        assert(text_before(entries[0].0, entries[j].0));
                        text_before_transitive(key, entries[0].0, entries[j].0);
                    }
                    text_before_asymmetric(key, entries[j].0);
                }
                removed_absent(entries, key);
            }
        }
    }
}

/// `removed` drops the entry at `i` when that is the first with the key.
proof fn removed_at(entries: Seq<(Seq<char>, JsonView)>, key: Seq<char>, i: int)
    requires
        0 <= i < entries.len(),
        entries[i].0 == key,
        forall|j: int| 0 <= j < i ==> (#[trigger] entries[j]).0 != key,
    ensures
        removed(entries, key) == entries.remove(i),
    decreases entries.len(),
{
    if i > 0 {
        assert(entries[0].0 != key);
        assert forall|j: int| 0 <= j < i - 1 implies (#[trigger] entries.skip(1)[j]).0 != key by {
            assert(entries.skip(1)[j] == entries[j + 1]);
        }
        removed_at(entries.skip(1), key, i - 1);
        assert(seq![entries[0]] + entries.skip(1).remove(i - 1) == entries.remove(i));
    } else {
        assert(entries.skip(1) == entries.remove(0));
    }
}

/// `removed` changes nothing when no entry has the key.
proof fn removed_absent(entries: Seq<(Seq<char>, JsonView)>, key: Seq<char>)
    requires
        forall|j: int| 0 <= j < entries.len() ==> (#[trigger] entries[j]).0 != key,
    ensures
        removed(entries, key) == entries,
    decreases entries.len(),
{
    if entries.len() > 0 {
        assert(entries[0].0 != key);
        assert forall|j: int| 0 <= j < entries.len() - 1 implies (#[trigger] entries.skip(1)[j]).0
            != key by {
            assert(entries.skip(1)[j] == entries[j + 1]);
        }
        removed_absent(entries.skip(1), key);
        assert(seq![entries[0]] + entries.skip(1) == entries);
    } else {
        assert(entries == Seq::<(Seq<char>, JsonView)>::empty());
    }
}

/// What is stored under a key is found there, and storing changes nothing
/// under another key.
pub proof fn stored_is_found(
    entries: Seq<(Seq<char>, JsonView)>,
    key: Seq<char>,
    value: JsonView,
    other: Seq<char>,
)
    ensures
        lookup(inserted(entries, key, value), key) == Some(value),
        other != key ==> lookup(inserted(entries, key, value), other) == lookup(entries, other),
    decreases entries.len(),
{
    let after = inserted(entries, key, value);
    if entries.len() == 0 {
        assert(after.skip(1) == entries);
    } else if entries[0].0 == key {
        assert(after.skip(1) == entries.skip(1));
    } else if text_before(key, entries[0].0) {
        assert(after.skip(1) == entries);
    } else {
        stored_is_found(entries.skip(1), key, value, other);
        assert(after.skip(1) == inserted(entries.skip(1), key, value));
    }
}

/// What is taken out under a key is gone, and taking out changes nothing under
/// another key.
pub proof fn removed_is_gone(
    entries: Seq<(Seq<char>, JsonView)>,
    key: Seq<char>,
    other: Seq<char>,
)
    requires
        ascending(entries),
    ensures
        lookup(removed(entries, key), key) is None,
        other != key ==> lookup(removed(entries, key), other) == lookup(entries, other),
    decreases entries.len(),
{
    if entries.len() > 0 {
        let rest = entries.skip(1);
        assert(ascending(rest)) by {
            assert forall|i: int, j: int| 0 <= i < j < rest.len() implies text_before(
                #[trigger] rest[i].0,
                #[trigger] rest[j].0,
            ) by {
                assert(text_before(entries[i + 1].0, entries[j + 1].0));
            }
        }
        if entries[0].0 == key {
            assert forall|j: int| 0 <= j < rest.len() implies (#[trigger] rest[j]).0 != key by {
                assert(text_before(entries[0].0, entries[j + 1].0));
                text_before_asymmetric(key, rest[j].0);
            }
            lookup_absent(rest, key);
        } else {
            removed_is_gone(rest, key, other);
            assert((seq![entries[0]] + removed(rest, key)).skip(1) == removed(rest, key));
        }
    }
}

impl JsonMap {
    /// The object without entries.
    pub fn new() -> (r: Self)
        ensures
            r@ == Seq::<(Seq<char>, JsonView)>::empty(),
    {
        let entries: Vec<(String, Json)> = Vec::new();
        JsonMap { entries }
    }

    /// How many entries there are; they stand in ascending order of their keys.
    pub fn len(&self) -> (r: usize)
        ensures
            r == self@.len(),
            ascending(self@),
    {
        proof {
            use_type_invariant(self);
        }
        self.entries.len()
    }

    /// Whether there is no entry.
    pub fn is_empty(&self) -> (r: bool)
        ensures
            r == (self@.len() == 0),
    {
        self.entries.len() == 0
    }

    /// The key of entry `i`.
    pub fn key(&self, i: usize) -> (r: &str)
        requires
            i < self@.len(),
        ensures
            r@ == self@[i as int].0,
    {
        self.entries[i].0.as_str()
    }

    /// The value of entry `i`.
    pub fn value(&self, i: usize) -> (r: &Json)
        requires
            i < self@.len(),
        ensures
            r@ == self@[i as int].1,
    {
        &self.entries[i].1
    }

    /// The entries, keys ascending.
    pub fn into_entries(self) -> (r: Vec<(String, Json)>)
        ensures
            entries_model(r@) == self@,
            ascending(self@),
    {
        proof {
            use_type_invariant(&self);
            map_model_is(self);
        }
        self.entries
    }

    /// Where `key` is, or where it would stand.
    fn place(&self, key: &str) -> (r: (usize, bool))
        ensures
            ascending(self@),
            r.0 <= self@.len(),
            r.1 ==> r.0 < self@.len() && self@[r.0 as int].0 == key@,
            !r.1 ==> (r.0 < self@.len() ==> text_before(key@, self@[r.0 as int].0)),
            forall|j: int| 0 <= j < r.0 ==> text_before((#[trigger] self@[j]).0, key@),
    {
        proof {
            use_type_invariant(self);
        }
        let mut i: usize = 0;
        while i < self.entries.len()
            invariant
                ascending(self@),
                i <= self@.len(),
                self@.len() == self.entries@.len(),
                forall|j: int| 0 <= j < i ==> text_before((#[trigger] self@[j]).0, key@),
            decreases self@.len() - i,
        {
            let here = self.key(i);
            if same_text(here, key) {
                return (i, true);
            }
            if is_text_before(key, here) {
                return (i, false);
            }
            proof {
                text_before_total(key@, here@);
            }
            i += 1;
        }
        (i, false)
    }

    /// The value stored under `key`; the entries stand in ascending order of
    /// their keys.
    pub fn get(&self, key: &str) -> (r: Option<&Json>)
        ensures
            match r {
                Some(v) => lookup(self@, key@) == Some(v@),
                None => lookup(self@, key@) is None,
            },
            ascending(self@),
    {
        let (i, found) = self.place(key);
        proof {
            place_lookup(self@, key@, i as int, found);
        }
        if found {
            Some(self.value(i))
        } else {
            None
        }
    }

    /// Whether a value is stored under `key`; the entries stand in ascending
    /// order of their keys.
    pub fn contains_key(&self, key: &str) -> (r: bool)
        ensures
            r == lookup(self@, key@) is Some,
            ascending(self@),
    {
        self.get(key).is_some()
    }

    /// Stores `value` under `key`, in place of what was stored there.
    pub fn insert(&mut self, key: String, value: Json)
        ensures
            final(self)@ == inserted(old(self)@, key@, value@),
    {
        let (i, found) = self.place(key.as_str());
        let ghost before = self@;
        let ghost raw = self.entries@;
        proof {
            map_model_is(*self);
        }
        let mut entries: Vec<(String, Json)> = Vec::new();
        std::mem::swap(&mut entries, &mut self.entries);
        let ghost pair = (key@, value@);
        let ghost added = (key, value);
        if found {
            proof {
                inserted_at(before, key@, value@, i as int);
            }
            entries[i] = (key, value);
            proof {
                updated_model(raw, added, i as int);
                updated_ascends(before, pair, i as int);
            }
        } else {
            proof {
                inserted_before(before, key@, value@, i as int);
            }
            entries.insert(i, (key, value));
            proof {
                grown_model(raw, added, i as int);
                grown_ascends(before, pair, i as int);
            }
        }
        proof {
            map_model_is(JsonMap { entries });
        }
        self.entries = entries;
    }

    /// Takes out the value stored under `key`.
    pub fn remove(&mut self, key: &str) -> (r: Option<Json>)
        ensures
            match r {
                Some(v) => lookup(old(self)@, key@) == Some(v@),
                None => lookup(old(self)@, key@) is None,
            },
            final(self)@ == removed(old(self)@, key@),
    {
        let (i, found) = self.place(key);
        let ghost before = self@;
        let ghost raw = self.entries@;
        proof {
            map_model_is(*self);
        }
        proof {
            place_lookup(before, key@, i as int, found);
        }
        if !found {
            proof {
                place_absent(before, key@, i as int);
                removed_absent(before, key@);
            }
            return None;
        }
        proof {
            assert forall|j: int| 0 <= j < i implies (#[trigger] before[j]).0 != key@ by {
                text_before_asymmetric(before[j].0, key@);
            }
            removed_at(before, key@, i as int);
        }
        let mut entries: Vec<(String, Json)> = Vec::new();
        std::mem::swap(&mut entries, &mut self.entries);
        let taken = entries.remove(i);
        proof {
            shrunk_model(raw, i as int);
            shrunk_ascends(before, i as int);
        }
        proof {
            map_model_is(JsonMap { entries });
        }
        self.entries = entries;
        Some(taken.1)
    }
}

/// The entries that key-value pairs stand for.
pub open spec fn entries_model(raw: Seq<(String, Json)>) -> Seq<(Seq<char>, JsonView)> {
    Seq::new(raw.len(), |i: int| (raw[i].0@, raw[i].1@))
}

proof fn entries_model_push(raw: Seq<(String, Json)>, added: (String, Json))
    ensures
        entries_model(raw.push(added)) == entries_model(raw).push((added.0@, added.1@)),
{
    assert(entries_model(raw.push(added)) =~= entries_model(raw).push((added.0@, added.1@)));
}

/// An object stands for the entries that it holds.
proof fn map_model_is(map: JsonMap)
    ensures
        map@ == entries_model(map.entries@),
{
    assert(map@ =~= entries_model(map.entries@));
}

proof fn updated_model(raw: Seq<(String, Json)>, added: (String, Json), i: int)
    requires
        0 <= i < raw.len(),
    ensures
        entries_model(raw.update(i, added)) == entries_model(raw).update(i, (added.0@, added.1@)),
{
    assert(entries_model(raw.update(i, added)) =~= entries_model(raw).update(
        i,
        (added.0@, added.1@),
    ));
}

proof fn grown_model(raw: Seq<(String, Json)>, added: (String, Json), i: int)
    requires
        0 <= i <= raw.len(),
    ensures
        entries_model(raw.insert(i, added)) == entries_model(raw).insert(i, (added.0@, added.1@)),
{
    assert(entries_model(raw.insert(i, added)) =~= entries_model(raw).insert(
        i,
        (added.0@, added.1@),
    ));
}

proof fn shrunk_model(raw: Seq<(String, Json)>, i: int)
    requires
        0 <= i < raw.len(),
    ensures
        entries_model(raw.remove(i)) == entries_model(raw).remove(i),
{
    assert(entries_model(raw.remove(i)) =~= entries_model(raw).remove(i));
}

proof fn updated_ascends(e: Seq<(Seq<char>, JsonView)>, pair: (Seq<char>, JsonView), i: int)
    requires
        ascending(e),
        0 <= i < e.len(),
        e[i].0 == pair.0,
    ensures
        ascending(e.update(i, pair)),
{
    let f = e.update(i, pair);
    assert forall|a: int, b: int| 0 <= a < b < f.len() implies text_before(
        #[trigger] f[a].0,
        #[trigger] f[b].0,
    ) by {
        assert(text_before(e[a].0, e[b].0));
    }
}

proof fn grown_ascends(e: Seq<(Seq<char>, JsonView)>, pair: (Seq<char>, JsonView), i: int)
    requires
        ascending(e),
        0 <= i <= e.len(),
        i < e.len() ==> text_before(pair.0, e[i].0),
        forall|j: int| 0 <= j < i ==> text_before((#[trigger] e[j]).0, pair.0),
    ensures
        ascending(e.insert(i, pair)),
{
    let f = e.insert(i, pair);
    assert forall|a: int, b: int| 0 <= a < b < f.len() implies text_before(
        #[trigger] f[a].0,
        #[trigger] f[b].0,
    ) by {
        if a < i && b < i {
            assert(text_before(e[a].0, e[b].0));
        } else if a < i && b > i {
            assert(text_before(e[a].0, e[b - 1].0));
        } else if a < i {
            assert(f[a] == e[a]);
        } else if a > i {
            assert(text_before(e[a - 1].0, e[b - 1].0));
        } else if b - 1 > i {
            assert(text_before(e[i].0, e[b - 1].0));
            text_before_transitive(pair.0, e[i].0, e[b - 1].0);
        }
    }
}

proof fn shrunk_ascends(e: Seq<(Seq<char>, JsonView)>, i: int)
    requires
        ascending(e),
        0 <= i < e.len(),
    ensures
        ascending(e.remove(i)),
{
    let f = e.remove(i);
    assert forall|a: int, b: int| 0 <= a < b < f.len() implies text_before(
        #[trigger] f[a].0,
        #[trigger] f[b].0,
    ) by {
        let a0 = if a < i {
            a
        } else {
            a + 1
        };
        let b0 = if b < i {
            b
        } else {
            b + 1
        };
        assert(text_before(e[a0].0, e[b0].0));
    }
}

proof fn place_absent(e: Seq<(Seq<char>, JsonView)>, key: Seq<char>, i: int)
    requires
        ascending(e),
        0 <= i <= e.len(),
        i < e.len() ==> text_before(key, e[i].0),
        forall|j: int| 0 <= j < i ==> text_before((#[trigger] e[j]).0, key),
    ensures
        forall|j: int| 0 <= j < e.len() ==> (#[trigger] e[j]).0 != key,
{
    assert forall|j: int| 0 <= j < e.len() implies (#[trigger] e[j]).0 != key by {
        if j < i {
            text_before_asymmetric(e[j].0, key);
        } else if j == i {
            text_before_asymmetric(key, e[j].0);
        } else {
            assert(text_before(e[i].0, e[j].0));
            text_before_transitive(key, e[i].0, e[j].0);
            text_before_asymmetric(key, e[j].0);
        }
    }
}

proof fn place_lookup(e: Seq<(Seq<char>, JsonView)>, key: Seq<char>, i: int, found: bool)
    requires
        ascending(e),
        0 <= i <= e.len(),
        found ==> i < e.len() && e[i].0 == key,
        !found ==> (i < e.len() ==> text_before(key, e[i].0)),
        forall|j: int| 0 <= j < i ==> text_before((#[trigger] e[j]).0, key),
    ensures
        lookup(e, key) == if found {
            Some(e[i].1)
        } else {
            None
        },
{
    if found {
        assert forall|j: int| 0 <= j < i implies (#[trigger] e[j]).0 != key by {
            text_before_asymmetric(e[j].0, key);
        }
        lookup_at(e, key, i);
    } else {
        place_absent(e, key, i);
        lookup_absent(e, key);
    }
}

// ---------------------------------------------------------------------------
// Reading values.
// ---------------------------------------------------------------------------

/// What `v` stores under `key`; nothing when `v` is no object.
pub open spec fn field(v: JsonView, key: Seq<char>) -> Option<JsonView> {
    match v {
        JsonView::Object(entries) => lookup(entries, key),
        _ => None,
    }
}

/// The text of a JSON string.
pub open spec fn as_text(v: JsonView) -> Option<Seq<char>> {
    match v {
        JsonView::Text(s) => Some(s),
        _ => None,
    }
}

/// The items of a JSON array.
pub open spec fn as_items(v: JsonView) -> Option<Seq<JsonView>> {
    match v {
        JsonView::Array(items) => Some(items),
        _ => None,
    }
}

/// The integer that `v` is, when an `i64` can hold it.
pub open spec fn as_integer(v: JsonView) -> Option<i64> {
    match v {
        JsonView::Number(n) => number_i64(n),
        _ => None,
    }
}

/// The text that `v` stores under `key`.
pub open spec fn text_at(v: JsonView, key: Seq<char>) -> Option<Seq<char>> {
    match field(v, key) {
        Some(found) => as_text(found),
        None => None,
    }
}

/// The items that `v` stores under `key`.
pub open spec fn items_at(v: JsonView, key: Seq<char>) -> Option<Seq<JsonView>> {
    match field(v, key) {
        Some(found) => as_items(found),
        None => None,
    }
}

/// The integer that `v` stores under `key`.
pub open spec fn integer_at(v: JsonView, key: Seq<char>) -> Option<i64> {
    match field(v, key) {
        Some(found) => as_integer(found),
        None => None,
    }
}

/// The texts of optional strings.
pub open spec fn text_option(s: Option<&str>) -> Option<Seq<char>> {
    match s {
        Some(t) => Some(t@),
        None => None,
    }
}

/// The texts of optional owned strings.
pub open spec fn string_option(s: Option<String>) -> Option<Seq<char>> {
    match s {
        Some(t) => Some(t@),
        None => None,
    }
}

/// The items of a slice of values.
pub open spec fn json_items(items: Seq<Json>) -> Seq<JsonView> {
    Seq::new(items.len(), |i: int| items[i]@)
}

/// Pushing a value pushes what it is.
pub proof fn json_items_push(items: Seq<Json>, v: Json)
    ensures
        json_items(items.push(v)) == json_items(items).push(v@),
{
    assert(json_items(items.push(v)) =~= json_items(items).push(v@));
}

/// An array value stands for its items.
pub proof fn array_model(items: Vec<Json>)
    ensures
        Json::Array(items)@ == JsonView::Array(json_items(items@)),
{
    assert(Json::Array(items)@->Array_0 =~= json_items(items@));
}

impl Json {
    /// What the value stores under `key`.
    pub fn get(&self, key: &str) -> (r: Option<&Json>)
        ensures
            match r {
                Some(v) => field(self@, key@) == Some(v@),
                None => field(self@, key@) is None,
            },
    {
        match self {
            Json::Object(map) => map.get(key),
            _ => None,
        }
    }

    /// The text of a string value.
    pub fn as_str(&self) -> (r: Option<&str>)
        ensures
            text_option(r) == as_text(self@),
    {
        match self {
            Json::Text(s) => Some(s.as_str()),
            _ => None,
        }
    }

    /// The items of an array value.
    pub fn as_array(&self) -> (r: Option<&Vec<Json>>)
        ensures
            match r {
                Some(items) => as_items(self@) == Some(json_items(items@)),
                None => as_items(self@) is None,
            },
    {
        match self {
            Json::Array(items) => {
                proof {
                    array_model(*items);
                }
                Some(items)
            },
            _ => None,
        }
    }

    /// The entries of an object value.
    pub fn as_object(&self) -> (r: Option<&JsonMap>)
        ensures
            match r {
                Some(map) => self@ == JsonView::Object(map@),
                None => !(self@ is Object),
            },
    {
        match self {
            Json::Object(map) => Some(map),
            _ => None,
        }
    }

    /// The integer value, when an `i64` can hold it.
    pub fn as_i64(&self) -> (r: Option<i64>)
        ensures
            r == as_integer(self@),
    {
        match self {
            Json::Number(n) => number_as_i64(n),
            _ => None,
        }
    }

    /// The integer value, when a `u64` can hold it.
    pub fn as_u64(&self) -> (r: Option<u64>)
        ensures
            r == (match self@ {
                JsonView::Number(n) => number_u64(n),
                _ => None,
            }),
    {
        match self {
            Json::Number(n) => number_as_u64(n),
            _ => None,
        }
    }

    /// The text stored under `key`.
    pub fn str_at(&self, key: &str) -> (r: Option<&str>)
        ensures
            text_option(r) == text_at(self@, key@),
    {
        match self.get(key) {
            Some(v) => v.as_str(),
            None => None,
        }
    }

    /// The items stored under `key`.
    pub fn array_at(&self, key: &str) -> (r: Option<&Vec<Json>>)
        ensures
            match r {
                Some(items) => items_at(self@, key@) == Some(json_items(items@)),
                None => items_at(self@, key@) is None,
            },
    {
        match self.get(key) {
            Some(v) => v.as_array(),
            None => None,
        }
    }

    /// The integer stored under `key`.
    pub fn i64_at(&self, key: &str) -> (r: Option<i64>)
        ensures
            r == integer_at(self@, key@),
    {
        match self.get(key) {
            Some(v) => v.as_i64(),
            None => None,
        }
    }
}

// ---------------------------------------------------------------------------
// Equality.
// ---------------------------------------------------------------------------

/// The text of a fraction that is zero, of either sign.
pub open spec fn is_zero_text(s: Seq<char>) -> bool {
    s == "0.0"@ || s == "-0.0"@
}

/// Numbers of one kind with one value; the two zeros are one value.
pub open spec fn same_number(a: NumberView, b: NumberView) -> bool {
    match (a, b) {
        (NumberView::Fraction(x), NumberView::Fraction(y)) => x == y || (is_zero_text(x)
            && is_zero_text(y)),
        _ => a == b,
    }
}

/// Values of one shape whose parts are the same.
pub open spec fn same_json(a: JsonView, b: JsonView) -> bool
    decreases a,
{
    match (a, b) {
        (JsonView::Number(x), JsonView::Number(y)) => same_number(x, y),
        (JsonView::Array(x), JsonView::Array(y)) => x.len() == y.len() && forall|i: int|
            0 <= i < x.len() ==> same_json(#[trigger] x[i], y[i]),
        (JsonView::Object(x), JsonView::Object(y)) => x.len() == y.len() && forall|i: int|
            0 <= i < x.len() ==> (#[trigger] x[i]).0 == y[i].0 && same_json(x[i].1, y[i].1),
        (JsonView::Null, JsonView::Null) => true,
        (JsonView::Bool(x), JsonView::Bool(y)) => x == y,
        (JsonView::Text(x), JsonView::Text(y)) => x == y,
        _ => false,
    }
}

fn numbers_same(a: &serde_json::Number, b: &serde_json::Number) -> (r: bool)
    ensures
        r == same_number(number_content(*a), number_content(*b)),
{
    let (ua, ub) = (number_as_u64(a), number_as_u64(b));
    if ua.is_some() || ub.is_some() {
        return match (ua, ub) {
            (Some(x), Some(y)) => x == y,
            _ => false,
        };
    }
    let (ia, ib) = (number_as_i64(a), number_as_i64(b));
    if ia.is_some() || ib.is_some() {
        return match (ia, ib) {
            (Some(x), Some(y)) => x == y,
            _ => false,
        };
    }
    let ta = number_text(a);
    let tb = number_text(b);
    same_text(ta.as_str(), tb.as_str()) || ((same_text(ta.as_str(), "0.0") || same_text(
        ta.as_str(),
        "-0.0",
    )) && (same_text(tb.as_str(), "0.0") || same_text(tb.as_str(), "-0.0")))
}

impl Json {
    /// Whether two values are the same.
    pub fn same(&self, other: &Json) -> (r: bool)
        ensures
            r == same_json(self@, other@),
        decreases self,
    {
        match (self, other) {
            (Json::Null, Json::Null) => true,
            (Json::Bool(x), Json::Bool(y)) => *x == *y,
            (Json::Number(x), Json::Number(y)) => numbers_same(x, y),
            (Json::Text(x), Json::Text(y)) => same_text(x.as_str(), y.as_str()),
            (Json::Array(x), Json::Array(y)) => {
                if x.len() != y.len() {
                    return false;
                }
                proof {
                    array_model(*x);
                    array_model(*y);
                }
                let mut i: usize = 0;
                while i < x.len()
                    invariant
                        i <= x@.len(),
                        x@.len() == y@.len(),
                        self == Json::Array(*x),
                        other@ == JsonView::Array(json_items(y@)),
                        self@ == JsonView::Array(json_items(x@)),
                        forall|j: int|
                            0 <= j < i ==> same_json(
                                #[trigger] json_items(x@)[j],
                                json_items(y@)[j],
                            ),
                    decreases x@.len() - i,
                {
                    if !x[i].same(&y[i]) {
                        assert(!same_json(json_items(x@)[i as int], json_items(y@)[i as int]));
                        return false;
                    }
                    i += 1;
                }
                true
            },
            (Json::Object(x), Json::Object(y)) => {
                if x.len() != y.len() {
                    return false;
                }
                let mut i: usize = 0;
                while i < x.len()
                    invariant
                        i <= x@.len(),
                        x@.len() == y@.len(),
                        self == Json::Object(*x),
                        other@ == JsonView::Object(y@),
                        forall|j: int|
                            0 <= j < i ==> (#[trigger] x@[j]).0 == y@[j].0 && same_json(
                                x@[j].1,
                                y@[j].1,
                            ),
                    decreases x@.len() - i,
                {
                    if !same_text(x.key(i), y.key(i)) {
                        assert(x@[i as int].0 != y@[i as int].0);
                        return false;
                    }
                    if !x.entries[i].1.same(&y.entries[i].1) {
                        assert(!same_json(x@[i as int].1, y@[i as int].1));
                        return false;
                    }
                    i += 1;
                }
                true
            },
            _ => false,
        }
    }

    /// A copy of the value.
    pub fn duplicate(&self) -> (r: Json)
        ensures
            r@ == self@,
        decreases self,
    {
        match self {
            Json::Null => Json::Null,
            Json::Bool(b) => Json::Bool(*b),
            Json::Number(n) => Json::Number(number_copy(n)),
            Json::Text(s) => Json::Text(s.clone()),
            Json::Array(items) => {
                let mut out: Vec<Json> = Vec::new();
                let mut i: usize = 0;
                while i < items.len()
                    invariant
                        i <= items@.len(),
                        self == Json::Array(*items),
                        json_items(out@) == json_items(items@).take(i as int),
                    decreases items@.len() - i,
                {
                    let ghost before = out@;
                    assert(decreases_to!(*self => self->Array_0));
                    assert(decreases_to!(*items => items@));
                    assert(decreases_to!(items@ => items@[i as int]));
                    let copy = items[i].duplicate();
                    out.push(copy);
                    proof {
                        json_items_push(before, copy);
                        assert(json_items(items@).take(i as int + 1) == json_items(items@).take(
                            i as int,
                        ).push(copy@));
                    }
                    i += 1;
                }
                proof {
                    array_model(*items);
                    array_model(out);
                    assert(json_items(items@).take(items@.len() as int) == json_items(items@));
                }
                Json::Array(out)
            },
            Json::Object(map) => {
                let mut entries: Vec<(String, Json)> = Vec::new();
                let mut i: usize = 0;
                while i < map.entries.len()
                    invariant
                        i <= map.entries@.len(),
                        self == Json::Object(*map),
                        entries_model(entries@) == entries_model(map.entries@).take(i as int),
                    decreases map.entries@.len() - i,
                {
                    let ghost before = entries@;
                    assert(decreases_to!(*self => self->Object_0));
                    assert(decreases_to!(*map => map.entries));
                    assert(decreases_to!(map.entries => map.entries@));
                    assert(decreases_to!(map.entries@ => map.entries@[i as int]));
                    assert(decreases_to!(map.entries@[i as int] => map.entries@[i as int].1));
                    let copy = map.entries[i].1.duplicate();
                    let key = map.entries[i].0.clone();
                    entries.push((key, copy));
                    proof {
                        entries_model_push(before, (key, copy));
                        assert(entries_model(map.entries@).take(i as int + 1) == entries_model(
                            map.entries@,
                        ).take(i as int).push((key@, copy@)));
                    }
                    i += 1;
                }
                proof {
                    use_type_invariant(map);
                    map_model_is(*map);
                    map_model_is(JsonMap { entries });
                    assert(entries_model(map.entries@).take(map.entries@.len() as int)
                        == entries_model(map.entries@));
                }
                Json::Object(JsonMap { entries })
            },
        }
    }
}

/// What a value stores under a key is what its entries hold there: a text for
/// texts, an array for items, a whole number for integers. Values other than
/// objects store nothing.
pub proof fn values_are_read_from_entries(
    entries: Seq<(Seq<char>, JsonView)>,
    key: Seq<char>,
    s: Seq<char>,
    items: Seq<JsonView>,
    n: i64,
    v: JsonView,
)
    ensures
        text_at(JsonView::Object(entries), key) == Some(s) <==> lookup(entries, key) == Some(
            JsonView::Text(s),
        ),
        items_at(JsonView::Object(entries), key) == Some(items) <==> lookup(entries, key) == Some(
            JsonView::Array(items),
        ),
        n >= 0 ==> (lookup(entries, key) == Some(JsonView::Number(NumberView::Unsigned(n as u64)))
            ==> integer_at(JsonView::Object(entries), key) == Some(n)),
        n < 0 ==> (lookup(entries, key) == Some(JsonView::Number(NumberView::Negative(n)))
            ==> integer_at(JsonView::Object(entries), key) == Some(n)),
        field(JsonView::Object(entries), key) == lookup(entries, key),
        !(v is Object) ==> text_at(v, key) is None && items_at(v, key) is None && integer_at(v, key)
            is None && field(v, key) is None,
        as_integer(v) is Some ==> (v matches JsonView::Number(number) && !(number is Fraction)),
        as_text(v) is Some <==> v is Text,
{
}

/// Every value is the same as itself, and being the same goes both ways.
pub proof fn sameness_is_symmetric(a: JsonView, b: JsonView)
    ensures
        same_json(a, a),
        same_json(a, b) ==> same_json(b, a),
    decreases a,
{
    match (a, b) {
        (JsonView::Array(x), _) => {
            assert forall|i: int| 0 <= i < x.len() implies same_json(#[trigger] x[i], x[i]) by {
                sameness_is_symmetric(x[i], x[i]);
            }
            if let JsonView::Array(y) = b {
                if same_json(a, b) {
                    assert forall|i: int| 0 <= i < y.len() implies same_json(#[trigger] y[i], x[i]) by {
                        assert(same_json(x[i], y[i]));
                        sameness_is_symmetric(x[i], y[i]);
                    }
                }
            }
        },
        (JsonView::Object(x), _) => {
            assert forall|i: int| 0 <= i < x.len() implies (#[trigger] x[i]).0 == x[i].0
                && same_json(x[i].1, x[i].1) by {
                sameness_is_symmetric(x[i].1, x[i].1);
            }
            if let JsonView::Object(y) = b {
                if same_json(a, b) {
                    assert forall|i: int| 0 <= i < y.len() implies (#[trigger] y[i]).0 == x[i].0
                        && same_json(y[i].1, x[i].1) by {
                        assert(x[i].0 == y[i].0 && same_json(x[i].1, y[i].1));
                        sameness_is_symmetric(x[i].1, y[i].1);
                    }
                }
            }
        },
        _ => {},
    }
}

/// Two texts, two truth values or two whole numbers are the same only where they
/// are equal, and values of different kinds never are.
pub proof fn same_values_are_equal(a: JsonView, b: JsonView)
    requires
        same_json(a, b),
    ensures
        a is Text || a is Bool || a is Null ==> a == b,
        a is Text <==> b is Text,
        a is Bool <==> b is Bool,
        a is Null <==> b is Null,
        a is Number <==> b is Number,
        a is Array <==> b is Array,
        a is Object <==> b is Object,
        (a matches JsonView::Number(n) && !(n is Fraction)) ==> a == b,
        a matches JsonView::Array(x) ==> (b matches JsonView::Array(y) && x.len() == y.len()),
{
}

} // verus!
