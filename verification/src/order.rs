//! The order of texts: character by character, a proper prefix first.

use crate::text::{chars_of, texts};
use vstd::prelude::*;

verus! {

/// `a` stands before `b` in the order of texts.
pub open spec fn text_before(a: Seq<char>, b: Seq<char>) -> bool
    decreases a.len(),
{
    if b.len() == 0 {
        false
    } else if a.len() == 0 {
        true
    } else if a[0] == b[0] {
        text_before(a.skip(1), b.skip(1))
    } else {
        a[0] < b[0]
    }
}

/// No text stands before itself.
pub proof fn text_before_irreflexive(a: Seq<char>)
    ensures
        !text_before(a, a),
    decreases a.len(),
{
    if a.len() > 0 {
        text_before_irreflexive(a.skip(1));
    }
}

/// The order of texts is transitive.
pub proof fn text_before_transitive(a: Seq<char>, b: Seq<char>, c: Seq<char>)
    requires
        text_before(a, b),
        text_before(b, c),
    ensures
        text_before(a, c),
    decreases a.len(),
{
    if a.len() > 0 && a[0] == b[0] && b[0] == c[0] {
        text_before_transitive(a.skip(1), b.skip(1), c.skip(1));
    }
}

/// Of two different texts one stands before the other.
pub proof fn text_before_total(a: Seq<char>, b: Seq<char>)
    ensures
        a == b || text_before(a, b) || text_before(b, a),
    decreases a.len(),
{
    if a.len() > 0 && b.len() > 0 && a[0] == b[0] {
        text_before_total(a.skip(1), b.skip(1));
        if a.skip(1) == b.skip(1) {
            assert(a == seq![a[0]] + a.skip(1));
            assert(b == seq![b[0]] + b.skip(1));
        }
    } else if a.len() == 0 && b.len() == 0 {
        assert(a == b);
    }
}

/// Of two texts at most one stands before the other.
pub proof fn text_before_asymmetric(a: Seq<char>, b: Seq<char>)
    requires
        text_before(a, b),
    ensures
        !text_before(b, a),
        a != b,
{
    if text_before(b, a) {
        text_before_transitive(a, b, a);
    }
    text_before_irreflexive(a);
}

/// Whether `a` stands before `b` in the order of texts.
pub fn is_text_before(a: &str, b: &str) -> (r: bool)
    ensures
        r == text_before(a@, b@),
{
    let left = chars_of(a);
    let right = chars_of(b);
    let mut i: usize = 0;
    assert(a@.skip(0) == a@);
    assert(b@.skip(0) == b@);
    while i < left.len() && i < right.len() && left[i] == right[i]
        invariant
            left@ == a@,
            right@ == b@,
            i <= a@.len(),
            i <= b@.len(),
            text_before(a@, b@) == text_before(a@.skip(i as int), b@.skip(i as int)),
        decreases a@.len() - i,
    {
        proof {
            assert(a@.skip(i as int).skip(1) == a@.skip(i as int + 1));
            assert(b@.skip(i as int).skip(1) == b@.skip(i as int + 1));
        }
        i += 1;
    }
    proof {
        if i < a@.len() {
            assert(a@.skip(i as int)[0] == a@[i as int]);
        }
        if i < b@.len() {
            assert(b@.skip(i as int)[0] == b@[i as int]);
        }
    }
    if i == right.len() {
        false
    } else if i == left.len() {
        true
    } else {
        left[i] < right[i]
    }
}

/// Texts in order with `x` put where the order has it.
pub open spec fn placed(sorted: Seq<Seq<char>>, x: Seq<char>) -> Seq<Seq<char>>
    decreases sorted.len(),
{
    if sorted.len() == 0 {
        seq![x]
    } else if text_before(x, sorted.last()) {
        placed(sorted.drop_last(), x).push(sorted.last())
    } else {
        sorted.push(x)
    }
}

/// The texts in order.
pub open spec fn sorted(s: Seq<Seq<char>>) -> Seq<Seq<char>>
    decreases s.len(),
{
    if s.len() == 0 {
        s
    } else {
        placed(sorted(s.drop_last()), s.last())
    }
}

/// No text stands before an earlier one.
pub open spec fn in_order(s: Seq<Seq<char>>) -> bool {
    forall|i: int, j: int| 0 <= i < j < s.len() ==> !text_before(#[trigger] s[j], #[trigger] s[i])
}

proof fn placed_facts(s: Seq<Seq<char>>, x: Seq<char>)
    ensures
        placed(s, x).len() == s.len() + 1,
        placed(s, x).to_multiset() == s.to_multiset().insert(x),
        in_order(s) ==> in_order(placed(s, x)),
    decreases s.len(),
{
    broadcast use vstd::seq_lib::group_to_multiset_ensures;

    if s.len() == 0 {
        assert(s.push(x) == seq![x]);
    } else if text_before(x, s.last()) {
        let front = s.drop_last();
        placed_facts(front, x);
        assert(s == front.push(s.last()));
        assert(placed(s, x).to_multiset() =~= s.to_multiset().insert(x));
        if in_order(s) {
            assert(in_order(front));
            let p = placed(front, x);
            assert forall|i: int, j: int| 0 <= i < j < placed(s, x).len() implies !text_before(
                #[trigger] placed(s, x)[j],
                #[trigger] placed(s, x)[i],
            ) by {
                if j < p.len() {
                    assert(!text_before(p[j], p[i]));
                } else {
                    assert(p.to_multiset().contains(p[i]));
                    if p[i] == x {
                        text_before_asymmetric(x, s.last());
                    } else {
                        assert(front.to_multiset().contains(p[i]));
                        let k = choose|k: int| 0 <= k < front.len() && front[k] == p[i];
                        assert(s[k] == p[i]);
                        assert(!text_before(s[s.len() - 1], s[k]));
                    }
                }
            }
        }
    } else {
        if in_order(s) {
            assert forall|i: int, j: int| 0 <= i < j < s.push(x).len() implies !text_before(
                #[trigger] s.push(x)[j],
                #[trigger] s.push(x)[i],
            ) by {
                if j == s.len() && i < s.len() - 1 {
                    assert(!text_before(s[s.len() - 1], s[i]));
                    if text_before(x, s[i]) {
                        text_before_total(s[i], s.last());
                        if text_before(s[i], s.last()) {
                            text_before_transitive(x, s[i], s.last());
                        }
                    }
                }
            }
        }
    }
}

/// Sorting gives the same texts, in order.
pub proof fn sorted_is_in_order(s: Seq<Seq<char>>)
    ensures
        in_order(sorted(s)),
        sorted(s).to_multiset() == s.to_multiset(),
        sorted(s).len() == s.len(),
    decreases s.len(),
{
    broadcast use vstd::seq_lib::group_to_multiset_ensures;

    if s.len() > 0 {
        sorted_is_in_order(s.drop_last());
        placed_facts(sorted(s.drop_last()), s.last());
        assert(s == s.drop_last().push(s.last()));
    }
}

/// The texts in order.
pub fn sort_texts(v: Vec<String>) -> (r: Vec<String>)
    ensures
        texts(r@) == sorted(texts(v@)),
{
    let ghost all = texts(v@);
    let mut out: Vec<String> = Vec::new();
    assert(all.take(0) == Seq::<Seq<char>>::empty());
    assert(texts(out@) == sorted(all.take(0)));
    for s in it: v
        invariant
            texts(it.seq()) == all,
            texts(out@) == sorted(all.take(it.index() as int)),
    {
        let ghost k = it.index() as int;
        let ghost before = texts(out@);
        let mut i: usize = out.len();
        assert(before.take(i as int) == before);
        assert(before.skip(i as int) == Seq::<Seq<char>>::empty());
        assert(placed(before, s@) == placed(before.take(i as int), s@) + before.skip(i as int));
        while i > 0 && is_text_before(s.as_str(), out[i - 1].as_str())
            invariant
                i <= out@.len(),
                texts(out@) == before,
                placed(before, s@) == placed(before.take(i as int), s@) + before.skip(i as int),
            decreases i,
        {
            proof {
                let shorter = before.take(i as int - 1);
                assert(before.take(i as int).drop_last() == shorter);
                assert(before.take(i as int).last() == before[i as int - 1]);
                assert(before[i as int - 1] == out@[i as int - 1]@);
                assert(placed(before.take(i as int), s@) + before.skip(i as int) == placed(
                    shorter,
                    s@,
                ) + before.skip(i as int - 1));
            }
            i -= 1;
        }
        proof {
            if i > 0 {
                assert(before.take(i as int).last() == out@[i as int - 1]@);
            } else {
                assert(before.take(0) == Seq::<Seq<char>>::empty());
            }
            assert(placed(before.take(i as int), s@) == before.take(i as int).push(s@));
            assert(all.take(k + 1).drop_last() == all.take(k));
            assert(all.take(k + 1).last() == texts(it.seq())[k]);
        }
        let ghost raw = out@;
        out.insert(i, s);
        assert(texts(raw.insert(i as int, s)) == before.take(i as int).push(s@) + before.skip(
            i as int,
        ));
    }
    assert(all.take(all.len() as int) == all);
    out
}

/// Keyed texts as mathematical objects.
pub open spec fn keyed_texts(v: Seq<(String, String)>) -> Seq<(Seq<char>, Seq<char>)> {
    Seq::new(v.len(), |i: int| (v[i].0@, v[i].1@))
}

/// Keyed texts in the order of their keys with `x` put behind those whose keys
/// are not greater.
pub open spec fn placed_by_key(
    sorted: Seq<(Seq<char>, Seq<char>)>,
    x: (Seq<char>, Seq<char>),
) -> Seq<(Seq<char>, Seq<char>)>
    decreases sorted.len(),
{
    if sorted.len() == 0 {
        seq![x]
    } else if text_before(x.0, sorted.last().0) {
        placed_by_key(sorted.drop_last(), x).push(sorted.last())
    } else {
        sorted.push(x)
    }
}

/// Keyed texts in the order of their keys; those with equal keys stay in the
/// order in which they came.
pub open spec fn sorted_by_key(s: Seq<(Seq<char>, Seq<char>)>) -> Seq<(Seq<char>, Seq<char>)>
    decreases s.len(),
{
    if s.len() == 0 {
        s
    } else {
        placed_by_key(sorted_by_key(s.drop_last()), s.last())
    }
}

/// The keys of keyed texts.
pub open spec fn keys(s: Seq<(Seq<char>, Seq<char>)>) -> Seq<Seq<char>> {
    Seq::new(s.len(), |i: int| s[i].0)
}

proof fn placed_by_key_facts(s: Seq<(Seq<char>, Seq<char>)>, x: (Seq<char>, Seq<char>))
    ensures
        keys(placed_by_key(s, x)) == placed(keys(s), x.0),
        placed_by_key(s, x).to_multiset() == s.to_multiset().insert(x),
    decreases s.len(),
{
    broadcast use vstd::seq_lib::group_to_multiset_ensures;

    if s.len() == 0 {
        assert(s.push(x) == seq![x]);
        assert(keys(placed_by_key(s, x)) =~= placed(keys(s), x.0));
    } else if text_before(x.0, s.last().0) {
        let front = s.drop_last();
        placed_by_key_facts(front, x);
        assert(s == front.push(s.last()));
        assert(keys(s).drop_last() == keys(front));
        assert(keys(placed_by_key(s, x)) =~= keys(placed_by_key(front, x)).push(s.last().0));
        assert(placed_by_key(s, x).to_multiset() =~= s.to_multiset().insert(x));
    } else {
        assert(keys(s.push(x)) =~= keys(s).push(x.0));
    }
}

/// Sorting by key gives the same keyed texts, their keys in order.
pub proof fn sorted_by_key_is_in_order(s: Seq<(Seq<char>, Seq<char>)>)
    ensures
        keys(sorted_by_key(s)) == sorted(keys(s)),
        in_order(keys(sorted_by_key(s))),
        sorted_by_key(s).to_multiset() == s.to_multiset(),
    decreases s.len(),
{
    broadcast use vstd::seq_lib::group_to_multiset_ensures;

    sorted_is_in_order(keys(s));
    if s.len() > 0 {
        sorted_by_key_is_in_order(s.drop_last());
        placed_by_key_facts(sorted_by_key(s.drop_last()), s.last());
        assert(keys(s).drop_last() == keys(s.drop_last()));
        assert(s == s.drop_last().push(s.last()));
    } else {
        assert(keys(s) == Seq::<Seq<char>>::empty());
    }
}

/// The keyed texts in the order of their keys.
pub fn sort_by_key(v: Vec<(String, String)>) -> (r: Vec<(String, String)>)
    ensures
        keyed_texts(r@) == sorted_by_key(keyed_texts(v@)),
{
    let ghost all = keyed_texts(v@);
    let mut out: Vec<(String, String)> = Vec::new();
    assert(all.take(0) == Seq::<(Seq<char>, Seq<char>)>::empty());
    assert(keyed_texts(out@) == sorted_by_key(all.take(0)));
    for s in it: v
        invariant
            keyed_texts(it.seq()) == all,
            keyed_texts(out@) == sorted_by_key(all.take(it.index() as int)),
    {
        let ghost k = it.index() as int;
        let ghost before = keyed_texts(out@);
        let ghost x = (s.0@, s.1@);
        let mut i: usize = out.len();
        assert(before.take(i as int) == before);
        assert(placed_by_key(before, x) == placed_by_key(before.take(i as int), x) + before.skip(
            i as int,
        ));
        while i > 0 && is_text_before(s.0.as_str(), out[i - 1].0.as_str())
            invariant
                i <= out@.len(),
                keyed_texts(out@) == before,
                x == (s.0@, s.1@),
                placed_by_key(before, x) == placed_by_key(before.take(i as int), x) + before.skip(
                    i as int,
                ),
            decreases i,
        {
            proof {
                let shorter = before.take(i as int - 1);
                assert(before.take(i as int).drop_last() == shorter);
                assert(before.take(i as int).last() == before[i as int - 1]);
                assert(placed_by_key(before.take(i as int), x) + before.skip(i as int)
                    == placed_by_key(shorter, x) + before.skip(i as int - 1));
            }
            i -= 1;
        }
        proof {
            if i > 0 {
                assert(before.take(i as int).last() == before[i as int - 1]);
            } else {
                assert(before.take(0) == Seq::<(Seq<char>, Seq<char>)>::empty());
            }
            assert(placed_by_key(before.take(i as int), x) == before.take(i as int).push(x));
            assert(all.take(k + 1).drop_last() == all.take(k));
            assert(all.take(k + 1).last() == keyed_texts(it.seq())[k]);
        }
        let ghost raw = out@;
        out.insert(i, s);
        assert(keyed_texts(raw.insert(i as int, s)) == before.take(i as int).push(x) + before.skip(
            i as int,
        ));
    }
    assert(all.take(all.len() as int) == all);
    out
}

/// The first difference decides which of two texts stands first: the lesser
/// character, or the end of the text.
pub proof fn first_difference_decides(
    common: Seq<char>,
    x: char,
    y: char,
    a: Seq<char>,
    b: Seq<char>,
)
    ensures
        x < y ==> text_before(common.push(x) + a, common.push(y) + b),
        text_before(common, common.push(x) + a),
    decreases common.len(),
{
    let first = common.push(x) + a;
    let second = common.push(y) + b;
    if common.len() > 0 {
        let rest = common.skip(1);
        first_difference_decides(rest, x, y, a, b);
        assert(first.skip(1) == rest.push(x) + a);
        assert(second.skip(1) == rest.push(y) + b);
    }
}

} // verus!
