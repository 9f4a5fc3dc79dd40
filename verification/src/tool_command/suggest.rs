//! Did-you-mean suggestions by edit distance.

use crate::text::{chars_of, texts};
use vstd::prelude::*;
use vstd::utf8::encode_utf8;

verus! {

/// The Levenshtein distance: the least number of insertions, deletions and
/// substitutions of one character that turn `a` into `b`, by its recurrence
/// over the last characters.
pub open spec fn distance(a: Seq<char>, b: Seq<char>) -> nat
    decreases a.len() + b.len(),
{
    if a.len() == 0 {
        b.len()
    } else if b.len() == 0 {
        a.len()
    } else {
        let substituted = distance(a.drop_last(), b.drop_last()) + if a.last() == b.last() {
            0nat
        } else {
            1nat
        };
        least(
            least(substituted, distance(a.drop_last(), b) + 1),
            distance(a, b.drop_last()) + 1,
        )
    }
}

/// The lesser of two numbers.
pub open spec fn least(x: nat, y: nat) -> nat {
    if x <= y {
        x
    } else {
        y
    }
}

/// The greater of two numbers.
pub open spec fn greatest(x: nat, y: nat) -> nat {
    if x >= y {
        x
    } else {
        y
    }
}

/// The distance is at least the difference of the lengths and at most the
/// greater of them.
pub proof fn distance_bounds(a: Seq<char>, b: Seq<char>)
    ensures
        distance(a, b) <= greatest(a.len(), b.len()),
        distance(a, b) + b.len() >= a.len(),
        distance(a, b) + a.len() >= b.len(),
    decreases a.len() + b.len(),
{
    if a.len() > 0 && b.len() > 0 {
        distance_bounds(a.drop_last(), b.drop_last());
        distance_bounds(a.drop_last(), b);
        distance_bounds(a, b.drop_last());
    }
}

/// The distance does not depend on the order of the two texts.
pub proof fn distance_is_symmetric(a: Seq<char>, b: Seq<char>)
    ensures
        distance(a, b) == distance(b, a),
    decreases a.len() + b.len(),
{
    if a.len() > 0 && b.len() > 0 {
        distance_is_symmetric(a.drop_last(), b.drop_last());
        distance_is_symmetric(a.drop_last(), b);
        distance_is_symmetric(a, b.drop_last());
    }
}

/// A text has distance zero to itself and to no other.
pub proof fn distance_zero_is_equality(a: Seq<char>, b: Seq<char>)
    ensures
        distance(a, b) == 0 <==> a == b,
    decreases a.len() + b.len(),
{
    if a.len() > 0 && b.len() > 0 {
        distance_zero_is_equality(a.drop_last(), b.drop_last());
        assert(a == a.drop_last().push(a.last()));
        assert(b == b.drop_last().push(b.last()));
    } else if a.len() == 0 && b.len() == 0 {
        assert(a == b);
    }
}

/// Whether inserting, deleting or substituting one character turns `a` into
/// `b`.
pub open spec fn one_edit(a: Seq<char>, b: Seq<char>) -> bool {
    ||| exists|i: int, c: char| 0 <= i <= a.len() && b == #[trigger] a.insert(i, c)
    ||| exists|i: int| 0 <= i < a.len() && b == #[trigger] a.remove(i)
    ||| exists|i: int, c: char| 0 <= i < a.len() && b == #[trigger] a.update(i, c)
}

/// Whether `n` edits, one after the other, turn `a` into `b`.
pub open spec fn in_edits(a: Seq<char>, b: Seq<char>, n: nat) -> bool
    decreases n,
{
    if n == 0 {
        a == b
    } else {
        exists|m: Seq<char>| #[trigger] one_edit(a, m) && in_edits(m, b, (n - 1) as nat)
    }
}

proof fn distance_over_insertion(a: Seq<char>, i: int, c: char, b: Seq<char>)
    requires
        0 <= i <= a.len(),
    ensures
        distance(a, b) <= distance(a.insert(i, c), b) + 1,
    decreases a.len() + b.len(),
{
    let m = a.insert(i, c);
    if b.len() > 0 {
        distance_over_insertion(a, i, c, b.drop_last());
        if i == a.len() {
            assert(m.drop_last() == a);
        } else {
            assert(m.drop_last() == a.drop_last().insert(i, c));
            distance_over_insertion(a.drop_last(), i, c, b);
            distance_over_insertion(a.drop_last(), i, c, b.drop_last());
        }
    }
}

proof fn distance_over_deletion(a: Seq<char>, i: int, b: Seq<char>)
    requires
        0 <= i < a.len(),
    ensures
        distance(a, b) <= distance(a.remove(i), b) + 1,
    decreases a.len() + b.len(),
{
    let m = a.remove(i);
    if b.len() > 0 {
        distance_over_deletion(a, i, b.drop_last());
        if i == a.len() - 1 {
            assert(m == a.drop_last());
        } else {
            assert(m.drop_last() == a.drop_last().remove(i));
            distance_over_deletion(a.drop_last(), i, b);
            distance_over_deletion(a.drop_last(), i, b.drop_last());
        }
    }
}

proof fn distance_over_substitution(a: Seq<char>, i: int, c: char, b: Seq<char>)
    requires
        0 <= i < a.len(),
    ensures
        distance(a, b) <= distance(a.update(i, c), b) + 1,
    decreases a.len() + b.len(),
{
    let m = a.update(i, c);
    if b.len() > 0 {
        distance_over_substitution(a, i, c, b.drop_last());
        if i == a.len() - 1 {
            assert(m.drop_last() == a.drop_last());
        } else {
            assert(m.drop_last() == a.drop_last().update(i, c));
            distance_over_substitution(a.drop_last(), i, c, b);
            distance_over_substitution(a.drop_last(), i, c, b.drop_last());
        }
    }
}

proof fn edits_are_no_fewer(a: Seq<char>, b: Seq<char>, n: nat)
    requires
        in_edits(a, b, n),
    ensures
        distance(a, b) <= n,
    decreases n,
{
    if n == 0 {
        distance_zero_is_equality(a, b);
    } else {
        let m = choose|m: Seq<char>| #[trigger]
            one_edit(a, m) && in_edits(m, b, (n - 1) as nat);
        edits_are_no_fewer(m, b, (n - 1) as nat);
        if exists|i: int, c: char| 0 <= i <= a.len() && m == #[trigger] a.insert(i, c) {
            let (i, c) = choose|i: int, c: char|
                0 <= i <= a.len() && m == #[trigger] a.insert(i, c);
            distance_over_insertion(a, i, c, b);
        } else if exists|i: int| 0 <= i < a.len() && m == #[trigger] a.remove(i) {
            let i = choose|i: int| 0 <= i < a.len() && m == #[trigger] a.remove(i);
            distance_over_deletion(a, i, b);
        } else {
            let (i, c) = choose|i: int, c: char|
                0 <= i < a.len() && m == #[trigger] a.update(i, c);
            distance_over_substitution(a, i, c, b);
        }
    }
}

proof fn edit_before_a_character(a: Seq<char>, b: Seq<char>, x: char)
    requires
        one_edit(a, b),
    ensures
        one_edit(a.push(x), b.push(x)),
{
    if exists|i: int, c: char| 0 <= i <= a.len() && b == #[trigger] a.insert(i, c) {
        let (i, c) = choose|i: int, c: char| 0 <= i <= a.len() && b == #[trigger] a.insert(i, c);
        assert(b.push(x) == a.push(x).insert(i, c));
    } else if exists|i: int| 0 <= i < a.len() && b == #[trigger] a.remove(i) {
        let i = choose|i: int| 0 <= i < a.len() && b == #[trigger] a.remove(i);
        assert(b.push(x) == a.push(x).remove(i));
    } else {
        let (i, c) = choose|i: int, c: char| 0 <= i < a.len() && b == #[trigger] a.update(i, c);
        assert(b.push(x) == a.push(x).update(i, c));
    }
}

proof fn edits_before_a_character(a: Seq<char>, b: Seq<char>, n: nat, x: char)
    requires
        in_edits(a, b, n),
    ensures
        in_edits(a.push(x), b.push(x), n),
    decreases n,
{
    if n > 0 {
        let m = choose|m: Seq<char>| #[trigger]
            one_edit(a, m) && in_edits(m, b, (n - 1) as nat);
        edit_before_a_character(a, m, x);
        edits_before_a_character(m, b, (n - 1) as nat, x);
    }
}

proof fn edits_suffice(a: Seq<char>, b: Seq<char>)
    ensures
        in_edits(a, b, distance(a, b)),
    decreases a.len() + b.len(),
{
    let d = distance(a, b);
    if a.len() == 0 && b.len() == 0 {
        assert(a == b);
    } else if a.len() > 0 && (b.len() == 0 || d == distance(a.drop_last(), b) + 1) {
        edits_suffice(a.drop_last(), b);
        assert(a.drop_last() == a.remove(a.len() - 1));
        assert(one_edit(a, a.drop_last()));
    } else if a.len() == 0 || d == distance(a, b.drop_last()) + 1 {
        edits_suffice(a, b.drop_last());
        edits_before_a_character(a, b.drop_last(), distance(a, b.drop_last()), b.last());
        assert(b == b.drop_last().push(b.last()));
        assert(a.push(b.last()) == a.insert(a.len() as int, b.last()));
        assert(one_edit(a, a.push(b.last())));
    } else {
        let k = distance(a.drop_last(), b.drop_last());
        edits_suffice(a.drop_last(), b.drop_last());
        edits_before_a_character(a.drop_last(), b.drop_last(), k, b.last());
        assert(b == b.drop_last().push(b.last()));
        if a.last() == b.last() {
            assert(a == a.drop_last().push(b.last()));
        } else {
            let m = a.drop_last().push(b.last());
            assert(m == a.update(a.len() - 1, b.last()));
            assert(one_edit(a, m));
        }
    }
}

/// The distance is the least number of edits: that many turn one text into the
/// other, and no fewer do.
pub proof fn distance_is_least(a: Seq<char>, b: Seq<char>)
    ensures
        in_edits(a, b, distance(a, b)),
        forall|n: nat| #[trigger] in_edits(a, b, n) ==> distance(a, b) <= n,
{
    edits_suffice(a, b);
    assert forall|n: nat| #[trigger] in_edits(a, b, n) implies distance(a, b) <= n by {
        edits_are_no_fewer(a, b, n);
    }
}

/// Row `i` of the distance table: the distances from the first `i` characters
/// of `a` to every prefix of `b`, the empty one left out.
spec fn is_row(row: Seq<usize>, a: Seq<char>, b: Seq<char>, i: int, upto: int) -> bool {
    forall|j: int|
        0 <= j < upto ==> #[trigger] row[j] == distance(a.take(i), b.take(j + 1))
}

fn minimum(x: usize, y: usize) -> (r: usize)
    ensures
        r == least(x as nat, y as nat),
{
    if x <= y {
        x
    } else {
        y
    }
}

/// The Levenshtein distance of two texts: the least number of edits that turn
/// one into the other.
pub fn edit_distance(a: &str, b: &str) -> (r: usize)
    ensures
        r == distance(a@, b@),
        in_edits(a@, b@, r as nat),
        forall|n: nat| #[trigger] in_edits(a@, b@, n) ==> r <= n,
{
    proof {
        distance_is_least(a@, b@);
    }
    let left = chars_of(a);
    let right = chars_of(b);
    let mut prev: Vec<usize> = Vec::new();
    let mut n: usize = 0;
    while n < right.len()
        invariant
            left@ == a@,
            right@ == b@,
            n <= b@.len(),
            prev@.len() == n,
            is_row(prev@, a@, b@, 0, n as int),
        decreases b@.len() - n,
    {
        n += 1;
        prev.push(n);
        assert(a@.take(0).len() == 0);
    }
    let (rows, columns): (usize, usize) = (left.len(), right.len());
    assert(a@.len() == rows && b@.len() == columns);
    let mut i: usize = 0;
    while i < left.len()
        invariant
            left@ == a@,
            right@ == b@,
            i <= a@.len() <= usize::MAX,
            prev@.len() == b@.len() <= usize::MAX,
            is_row(prev@, a@, b@, i as int, b@.len() as int),
        decreases a@.len() - i,
    {
        let mut curr: Vec<usize> = Vec::new();
        let mut diagonal: usize = i;
        let mut before: usize = i + 1;
        let mut j: usize = 0;
        proof {
            assert(b@.take(0).len() == 0);
        }
        while j < right.len()
            invariant
                left@ == a@,
                right@ == b@,
                i < a@.len() <= usize::MAX,
                j <= b@.len() <= usize::MAX,
                prev@.len() == b@.len(),
                is_row(prev@, a@, b@, i as int, b@.len() as int),
                curr@.len() == j,
                is_row(curr@, a@, b@, i + 1, j as int),
                diagonal == distance(a@.take(i as int), b@.take(j as int)),
                before == distance(a@.take(i + 1), b@.take(j as int)),
            decreases b@.len() - j,
        {
            let cost: usize = if left[i] == right[j] {
                0
            } else {
                1
            };
            let above: usize = prev[j];
            let here: usize = minimum(
                minimum(diagonal.saturating_add(cost), above.saturating_add(1)),
                before.saturating_add(1),
            );
            proof {
                let x = a@.take(i + 1);
                let y = b@.take(j + 1);
                assert(x.drop_last() == a@.take(i as int));
                assert(y.drop_last() == b@.take(j as int));
                assert(x.last() == a@[i as int]);
                assert(y.last() == b@[j as int]);
                assert(above == distance(a@.take(i as int), y));
                assert(before == distance(x, y.drop_last()));
                assert(diagonal == distance(x.drop_last(), y.drop_last()));
                assert(x.len() > 0 && y.len() > 0);
                distance_bounds(x, y);
                assert(distance(x, y) <= usize::MAX);
                distance_bounds(a@.take(i as int), b@.take(j as int));
                assert(here == distance(x, y));
            }
            curr.push(here);
            diagonal = above;
            before = here;
            j += 1;
        }
        prev = curr;
        i += 1;
    }
    assert(a@.take(a@.len() as int) == a@);
    assert(b@.take(b@.len() as int) == b@);
    if right.len() == 0 {
        left.len()
    } else {
        let last: usize = right.len() - 1;
        prev[last]
    }
}

/// The greatest distance at which a name still counts as misspelt: 3 for a
/// name of more than six bytes, else 2.
pub open spec fn typo_limit(name: Seq<char>) -> nat {
    if encode_utf8(name).len() > 6 {
        3
    } else {
        2
    }
}

/// The greatest distance at which `name` still counts as misspelt.
pub fn max_typo_distance(name: &str) -> (r: usize)
    ensures
        r == typo_limit(name@),
{
    if name.as_bytes().len() > 6 {
        3
    } else {
        2
    }
}

/// Index of the first of the nearest among the first `n` candidates that are
/// near enough.
pub open spec fn nearest_index(target: Seq<char>, candidates: Seq<Seq<char>>, n: int) -> Option<
    int,
>
    decreases n,
{
    if n <= 0 {
        None
    } else {
        let earlier = nearest_index(target, candidates, n - 1);
        let d = distance(target, candidates[n - 1]);
        if d > typo_limit(target) {
            earlier
        } else {
            match earlier {
                Some(k) => if d < distance(target, candidates[k]) {
                    Some(n - 1)
                } else {
                    earlier
                },
                None => Some(n - 1),
            }
        }
    }
}

/// The first of the nearest candidates that are near enough to `target`.
pub open spec fn nearest(target: Seq<char>, candidates: Seq<Seq<char>>) -> Option<Seq<char>> {
    match nearest_index(target, candidates, candidates.len() as int) {
        Some(k) => Some(candidates[k]),
        None => None,
    }
}

/// What `nearest_index` finds is near enough, no candidate is nearer and no
/// earlier one is as near; it finds nothing only when none is near enough.
pub proof fn nearest_index_is_first_minimum(target: Seq<char>, candidates: Seq<Seq<char>>, n: int)
    requires
        0 <= n <= candidates.len(),
    ensures
        match nearest_index(target, candidates, n) {
            Some(k) => {
                &&& 0 <= k < n
                &&& distance(target, candidates[k]) <= typo_limit(target)
                &&& forall|j: int|
                    0 <= j < n ==> distance(target, candidates[k]) <= distance(
                        target,
                        #[trigger] candidates[j],
                    )
                &&& forall|j: int|
                    0 <= j < k ==> distance(target, candidates[k]) < distance(
                        target,
                        #[trigger] candidates[j],
                    )
            },
            None => forall|j: int|
                0 <= j < n ==> distance(target, #[trigger] candidates[j]) > typo_limit(target),
        },
    decreases n,
{
    if n > 0 {
        nearest_index_is_first_minimum(target, candidates, n - 1);
    }
}

/// The first of the nearest candidates that are near enough to `target`.
pub fn nearest_by_edit_distance(target: &str, candidates: &Vec<String>) -> (r: Option<String>)
    ensures
        match r {
            Some(s) => nearest(target@, texts(candidates@)) == Some(s@),
            None => nearest(target@, texts(candidates@)) is None,
        },
{
    let limit: usize = max_typo_distance(target);
    let mut best: Option<(usize, usize)> = None;
    let mut i: usize = 0;
    while i < candidates.len()
        invariant
            i <= candidates@.len(),
            limit == typo_limit(target@),
            match best {
                Some((k, d)) => {
                    &&& k < i
                    &&& nearest_index(target@, texts(candidates@), i as int) == Some(k as int)
                    &&& d == distance(target@, candidates@[k as int]@)
                },
                None => nearest_index(target@, texts(candidates@), i as int) is None,
            },
        decreases candidates@.len() - i,
    {
        let d: usize = edit_distance(target, candidates[i].as_str());
        if d <= limit {
            best = match best {
                Some((k, least_so_far)) => if d < least_so_far {
                    Some((i, d))
                } else {
                    Some((k, least_so_far))
                },
                None => Some((i, d)),
            };
        }
        i += 1;
    }
    match best {
        Some((k, _)) => Some(candidates[k].clone()),
        None => None,
    }
}

/// A name is suggested only where at most three letters have to be changed, and
/// at most two for a name of up to six bytes; none that is nearer, or as near
/// and named earlier, is passed over. Where two changes lead to a candidate, one
/// is suggested.
pub proof fn suggestions_are_near(target: Seq<char>, candidates: Seq<Seq<char>>, i: int)
    requires
        0 <= i < candidates.len(),
    ensures
        nearest(target, candidates) matches Some(near) ==> {
            &&& candidates.contains(near)
            &&& distance(target, near) <= 3
            &&& encode_utf8(target).len() <= 6 ==> distance(target, near) <= 2
            &&& distance(target, near) <= distance(target, candidates[i])
        },
        distance(target, candidates[i]) <= 2 ==> nearest(target, candidates) is Some,
        encode_utf8(target).len() > 6 && distance(target, candidates[i]) <= 3 ==> nearest(
            target,
            candidates,
        ) is Some,
        candidates.contains(target) ==> nearest(target, candidates) == Some(target),
{
    nearest_index_is_first_minimum(target, candidates, candidates.len() as int);
    if let Some(k) = nearest_index(target, candidates, candidates.len() as int) {
        assert(candidates[k] == nearest(target, candidates)->0);
    }
    if candidates.contains(target) {
        let j = choose|j: int| 0 <= j < candidates.len() && candidates[j] == target;
        distance_zero_is_equality(target, candidates[j]);
        assert(distance(target, candidates[j]) == 0);
        if let Some(k) = nearest_index(target, candidates, candidates.len() as int) {
            distance_zero_is_equality(target, candidates[k]);
        }
    }
}

} // verus!
