//! Text primitives over character sequences.
//!
//! Every function here has a mathematical counterpart on `Seq<char>`; the rest
//! of the crate states its contracts over those counterparts.

use vstd::prelude::*;

verus! {

/// `String::push`: appends one character to the end of the string.
pub assume_specification[ std::string::String::push ](s: &mut std::string::String, c: char)
    ensures
        final(s)@ == old(s)@.push(c),
;

/// Characters with the Unicode `White_Space` property.
pub open spec fn is_space(c: char) -> bool {
    let n = c as u32;
    ||| 0x09 <= n <= 0x0d
    ||| n == 0x20
    ||| n == 0x85
    ||| n == 0xa0
    ||| n == 0x1680
    ||| 0x2000 <= n <= 0x200a
    ||| n == 0x2028
    ||| n == 0x2029
    ||| n == 0x202f
    ||| n == 0x205f
    ||| n == 0x3000
}

/// Whether `c` has the Unicode `White_Space` property.
pub fn char_is_space(c: char) -> (r: bool)
    ensures
        r == is_space(c),
{
    let n: u32 = c as u32;
    (0x09 <= n && n <= 0x0d) || n == 0x20 || n == 0x85 || n == 0xa0 || n == 0x1680 || (0x2000 <= n
        && n <= 0x200a) || n == 0x2028 || n == 0x2029 || n == 0x202f || n == 0x205f || n == 0x3000
}

/// The characters of `s` in order.
pub fn chars_of(s: &str) -> (r: Vec<char>)
    ensures
        r@ == s@,
{
    let mut out: Vec<char> = Vec::new();
    for c in it: s.chars()
        invariant
            it.seq() == s@,
            out@ == s@.take(it.index() as int),
    {
        out.push(c);
        assert(s@.take(it.index() as int + 1) == s@.take(it.index() as int).push(c));
    }
    assert(s@.take(s@.len() as int) == s@);
    out
}

/// The string made of `chars`.
pub fn text_of(chars: &Vec<char>) -> (r: String)
    ensures
        r@ == chars@,
{
    text_between(chars, 0, chars.len())
}

/// The string made of `chars[from..to]`.
pub fn text_between(chars: &Vec<char>, from: usize, to: usize) -> (r: String)
    requires
        from <= to <= chars@.len(),
    ensures
        r@ == chars@.subrange(from as int, to as int),
{
    let mut out = String::new();
    let mut i: usize = from;
    while i < to
        invariant
            from <= i <= to <= chars@.len(),
            out@ == chars@.subrange(from as int, i as int),
        decreases to - i,
    {
        out.push(chars[i]);
        assert(chars@.subrange(from as int, i as int + 1) == chars@.subrange(
            from as int,
            i as int,
        ).push(chars@[i as int]));
        i += 1;
    }
    out
}

/// Whether two texts are equal.
pub fn same_text(a: &str, b: &str) -> (r: bool)
    ensures
        r == (a@ == b@),
{
    let left = a.to_owned();
    let right = b.to_owned();
    left == right
}

/// The texts of a vector of strings.
pub open spec fn texts(v: Seq<String>) -> Seq<Seq<char>> {
    Seq::new(v.len(), |i: int| v[i]@)
}

/// Pushing a string pushes its text.
pub proof fn texts_push(v: Seq<String>, s: String)
    ensures
        texts(v.push(s)) == texts(v).push(s@),
{
    assert(texts(v.push(s)) =~= texts(v).push(s@));
}

// ---------------------------------------------------------------------------
// Searching.
// ---------------------------------------------------------------------------

/// Index of the first white-space character of `s`, or its length.
pub open spec fn first_space(s: Seq<char>) -> int
    decreases s.len(),
{
    if s.len() == 0 || is_space(s[0]) {
        0
    } else {
        1 + first_space(s.skip(1))
    }
}

/// Index of the first character of `s` that is no white space, or its length.
pub open spec fn first_solid(s: Seq<char>) -> int
    decreases s.len(),
{
    if s.len() == 0 || !is_space(s[0]) {
        0
    } else {
        1 + first_solid(s.skip(1))
    }
}

/// Index of the first occurrence of `c` in `s`, or its length.
pub open spec fn first_char(s: Seq<char>, c: char) -> int
    decreases s.len(),
{
    if s.len() == 0 || s[0] == c {
        0
    } else {
        1 + first_char(s.skip(1), c)
    }
}

/// What characterises `first_space`.
pub proof fn first_space_is(s: Seq<char>, k: int)
    requires
        0 <= k <= s.len(),
        forall|j: int| 0 <= j < k ==> !is_space(#[trigger] s[j]),
        k < s.len() ==> is_space(s[k]),
    ensures
        first_space(s) == k,
    decreases s.len(),
{
    if k > 0 {
        assert forall|j: int| 0 <= j < k - 1 implies !is_space(#[trigger] s.skip(1)[j]) by {
            assert(s.skip(1)[j] == s[j + 1]);
        }
        first_space_is(s.skip(1), k - 1);
    }
}

/// What characterises `first_solid`.
pub proof fn first_solid_is(s: Seq<char>, k: int)
    requires
        0 <= k <= s.len(),
        forall|j: int| 0 <= j < k ==> is_space(#[trigger] s[j]),
        k < s.len() ==> !is_space(s[k]),
    ensures
        first_solid(s) == k,
    decreases s.len(),
{
    if k > 0 {
        assert forall|j: int| 0 <= j < k - 1 implies is_space(#[trigger] s.skip(1)[j]) by {
            assert(s.skip(1)[j] == s[j + 1]);
        }
        first_solid_is(s.skip(1), k - 1);
    }
}

/// What characterises `first_char`.
pub proof fn first_char_is(s: Seq<char>, c: char, k: int)
    requires
        0 <= k <= s.len(),
        forall|j: int| 0 <= j < k ==> #[trigger] s[j] != c,
        k < s.len() ==> s[k] == c,
    ensures
        first_char(s, c) == k,
    decreases s.len(),
{
    if k > 0 {
        assert forall|j: int| 0 <= j < k - 1 implies #[trigger] s.skip(1)[j] != c by {
            assert(s.skip(1)[j] == s[j + 1]);
        }
        first_char_is(s.skip(1), c, k - 1);
    }
}

/// `first_char` points at an occurrence, none stands before it.
pub proof fn first_char_points(s: Seq<char>, c: char)
    ensures
        0 <= first_char(s, c) <= s.len(),
        forall|j: int| 0 <= j < first_char(s, c) ==> #[trigger] s[j] != c,
        first_char(s, c) < s.len() ==> s[first_char(s, c)] == c,
    decreases s.len(),
{
    if s.len() > 0 && s[0] != c {
        first_char_points(s.skip(1), c);
        let k = first_char(s.skip(1), c);
        assert forall|j: int| 0 <= j < k + 1 implies #[trigger] s[j] != c by {
            if j > 0 {
                assert(s.skip(1)[j - 1] == s[j]);
            }
        }
    }
}

/// `first_space` and `first_solid` stay within the text.
pub proof fn first_bounds(s: Seq<char>)
    ensures
        0 <= first_space(s) <= s.len(),
        0 <= first_solid(s) <= s.len(),
        first_space(s) < s.len() ==> is_space(s[first_space(s)]),
        first_solid(s) < s.len() ==> !is_space(s[first_solid(s)]),
    decreases s.len(),
{
    if s.len() > 0 {
        first_bounds(s.skip(1));
    }
}

/// Position at or after `from` of the first white space, or the length.
pub fn find_space(chars: &Vec<char>, from: usize) -> (r: usize)
    requires
        from <= chars@.len(),
    ensures
        from <= r <= chars@.len(),
        r - from == first_space(chars@.skip(from as int)),
{
    let mut i: usize = from;
    while i < chars.len() && !char_is_space(chars[i])
        invariant
            from <= i <= chars@.len(),
            forall|j: int| from <= j < i ==> !is_space(#[trigger] chars@[j]),
        decreases chars@.len() - i,
    {
        i += 1;
    }
    proof {
        let rest = chars@.skip(from as int);
        assert forall|j: int| 0 <= j < i - from implies !is_space(#[trigger] rest[j]) by {
            assert(rest[j] == chars@[j + from]);
        }
        first_space_is(rest, i - from);
    }
    i
}

/// Position at or after `from` of the first character that is no white space,
/// or the length.
pub fn find_solid(chars: &Vec<char>, from: usize) -> (r: usize)
    requires
        from <= chars@.len(),
    ensures
        from <= r <= chars@.len(),
        r - from == first_solid(chars@.skip(from as int)),
{
    let mut i: usize = from;
    while i < chars.len() && char_is_space(chars[i])
        invariant
            from <= i <= chars@.len(),
            forall|j: int| from <= j < i ==> is_space(#[trigger] chars@[j]),
        decreases chars@.len() - i,
    {
        i += 1;
    }
    proof {
        let rest = chars@.skip(from as int);
        assert forall|j: int| 0 <= j < i - from implies is_space(#[trigger] rest[j]) by {
            assert(rest[j] == chars@[j + from]);
        }
        first_solid_is(rest, i - from);
    }
    i
}

/// Position at or after `from` of the first `c`, or the length.
pub fn find_char(chars: &Vec<char>, from: usize, c: char) -> (r: usize)
    requires
        from <= chars@.len(),
    ensures
        from <= r <= chars@.len(),
        r - from == first_char(chars@.skip(from as int), c),
{
    let mut i: usize = from;
    while i < chars.len() && chars[i] != c
        invariant
            from <= i <= chars@.len(),
            forall|j: int| from <= j < i ==> #[trigger] chars@[j] != c,
        decreases chars@.len() - i,
    {
        i += 1;
    }
    proof {
        let rest = chars@.skip(from as int);
        assert forall|j: int| 0 <= j < i - from implies #[trigger] rest[j] != c by {
            assert(rest[j] == chars@[j + from]);
        }
        first_char_is(rest, c, i - from);
    }
    i
}

/// `needle` stands in `s` at offset `at`.
pub open spec fn stands_at(s: Seq<char>, needle: Seq<char>, at: int) -> bool {
    &&& 0 <= at
    &&& at + needle.len() <= s.len()
    &&& s.subrange(at, at + needle.len()) == needle
}

/// `needle` stands somewhere in `s`.
pub open spec fn contains_text(s: Seq<char>, needle: Seq<char>) -> bool {
    exists|at: int| #[trigger] stands_at(s, needle, at)
}

fn matches_at(s: &Vec<char>, needle: &Vec<char>, at: usize) -> (r: bool)
    requires
        at + needle@.len() <= s@.len(),
    ensures
        r == stands_at(s@, needle@, at as int),
{
    let total: usize = s.len();
    let mut i: usize = 0;
    while i < needle.len()
        invariant
            i <= needle@.len(),
            at + needle@.len() <= total == s@.len(),
            forall|j: int| 0 <= j < i ==> #[trigger] needle@[j] == s@[at + j],
        decreases needle@.len() - i,
    {
        if s[at + i] != needle[i] {
            assert(s@.subrange(at as int, at + needle@.len())[i as int] != needle@[i as int]);
            return false;
        }
        i += 1;
    }
    assert(s@.subrange(at as int, at + needle@.len()) =~= needle@);
    true
}

fn contains_chars(s: &Vec<char>, needle: &Vec<char>) -> (r: bool)
    ensures
        r == contains_text(s@, needle@),
{
    if needle.len() > s.len() {
        return false;
    }
    let last: usize = s.len() - needle.len();
    let mut at: usize = 0;
    while at <= last
        invariant
            last == s@.len() - needle@.len(),
            at <= last + 1,
            forall|j: int| 0 <= j < at ==> !#[trigger] stands_at(s@, needle@, j),
        decreases last + 1 - at,
    {
        if matches_at(s, needle, at) {
            return true;
        }
        if at == last {
            assert forall|j: int| !#[trigger] stands_at(s@, needle@, j) by {
                if j > last {
                }
            }
            return false;
        }
        at += 1;
    }
    false
}

/// Whether `needle` stands somewhere in `s`.
pub fn text_contains(s: &str, needle: &str) -> (r: bool)
    ensures
        r == contains_text(s@, needle@),
{
    contains_chars(&chars_of(s), &chars_of(needle))
}

/// Whether `s` begins with `prefix`.
pub fn text_starts_with(s: &str, prefix: &str) -> (r: bool)
    ensures
        r == prefix@.is_prefix_of(s@),
{
    let chars = chars_of(s);
    let head = chars_of(prefix);
    if head.len() > chars.len() {
        return false;
    }
    let r = matches_at(&chars, &head, 0);
    assert(prefix@.is_prefix_of(s@) == (s@.subrange(0, prefix@.len() as int) == prefix@));
    r
}

// ---------------------------------------------------------------------------
// Trimming and splitting.
// ---------------------------------------------------------------------------

/// `s` without its leading white space.
pub open spec fn trim_start(s: Seq<char>) -> Seq<char> {
    s.skip(first_solid(s))
}

/// `s` without its trailing white space.
pub open spec fn trim_end(s: Seq<char>) -> Seq<char>
    decreases s.len(),
{
    if s.len() > 0 && is_space(s.last()) {
        trim_end(s.drop_last())
    } else {
        s
    }
}

/// `s` without leading and trailing white space.
pub open spec fn trim(s: Seq<char>) -> Seq<char> {
    trim_end(trim_start(s))
}

fn trim_range(chars: &Vec<char>) -> (r: (usize, usize))
    ensures
        r.0 <= r.1 <= chars@.len(),
        chars@.subrange(r.0 as int, r.1 as int) == trim(chars@),
{
    let from: usize = find_solid(chars, 0);
    assert(chars@.skip(0) == chars@);
    let ghost head = chars@.skip(from as int);
    let mut to: usize = chars.len();
    assert(chars@.subrange(from as int, to as int) == head);
    while to > from && char_is_space(chars[to - 1])
        invariant
            from <= to <= chars@.len(),
            trim_end(chars@.subrange(from as int, to as int)) == trim_end(head),
        decreases to,
    {
        proof {
            let cut = chars@.subrange(from as int, to as int);
            assert(cut.last() == chars@[to - 1]);
            assert(cut.drop_last() == chars@.subrange(from as int, to - 1));
        }
        to -= 1;
    }
    proof {
        let cut = chars@.subrange(from as int, to as int);
        if to > from {
            assert(cut.last() == chars@[to - 1]);
        }
        assert(trim_end(cut) == cut);
    }
    (from, to)
}

/// `s` without leading and trailing white space.
pub fn trimmed(s: &str) -> (r: String)
    ensures
        r@ == trim(s@),
{
    let chars = chars_of(s);
    let (from, to) = trim_range(&chars);
    text_between(&chars, from, to)
}

/// The maximal runs of characters that are no white space, in order.
pub open spec fn words(s: Seq<char>) -> Seq<Seq<char>>
    decreases s.len(),
{
    let t = trim_start(s);
    if t.len() == 0 || first_space(t) <= 0 {
        seq![]
    } else {
        proof {
            first_bounds(s);
            first_bounds(t);
        }
        seq![t.take(first_space(t))] + words(t.skip(first_space(t)))
    }
}

/// The parts of `s` between occurrences of `c`; one more than there are
/// occurrences.
pub open spec fn split_on(s: Seq<char>, c: char) -> Seq<Seq<char>>
    decreases s.len(),
{
    let k = first_char(s, c);
    if 0 <= k < s.len() {
        seq![s.take(k)] + split_on(s.skip(k + 1), c)
    } else {
        seq![s]
    }
}

/// `parts` one after the other with `sep` between neighbours.
pub open spec fn join(parts: Seq<Seq<char>>, sep: Seq<char>) -> Seq<char>
    decreases parts.len(),
{
    if parts.len() == 0 {
        seq![]
    } else if parts.len() == 1 {
        parts[0]
    } else {
        join(parts.drop_last(), sep) + sep + parts.last()
    }
}

/// Adding one part at the end of a join.
pub proof fn join_push(parts: Seq<Seq<char>>, sep: Seq<char>, part: Seq<char>)
    ensures
        join(parts.push(part), sep) == if parts.len() == 0 {
            part
        } else {
            join(parts, sep) + sep + part
        },
{
    assert(parts.push(part).drop_last() == parts);
}

/// `parts` joined with `sep`.
pub fn joined(parts: &Vec<String>, sep: &str) -> (r: String)
    ensures
        r@ == join(texts(parts@), sep@),
{
    let mut out = String::new();
    let mut i: usize = 0;
    while i < parts.len()
        invariant
            i <= parts@.len(),
            out@ == join(texts(parts@).take(i as int), sep@),
        decreases parts@.len() - i,
    {
        proof {
            let all = texts(parts@);
            assert(all.take(i as int + 1) == all.take(i as int).push(all[i as int]));
            join_push(all.take(i as int), sep@, all[i as int]);
        }
        if i > 0 {
            out.append(sep);
        }
        out.append(parts[i].as_str());
        i += 1;
    }
    assert(texts(parts@).take(parts@.len() as int) == texts(parts@));
    out
}

/// The words of `s` separated by single spaces.
pub open spec fn one_line(s: Seq<char>) -> Seq<char> {
    join(words(s), seq![' '])
}

fn push_range(out: &mut Vec<char>, chars: &Vec<char>, from: usize, to: usize)
    requires
        from <= to <= chars@.len(),
    ensures
        final(out)@ == old(out)@ + chars@.subrange(from as int, to as int),
{
    let mut i: usize = from;
    while i < to
        invariant
            from <= i <= to <= chars@.len(),
            out@ == old(out)@ + chars@.subrange(from as int, i as int),
        decreases to - i,
    {
        out.push(chars[i]);
        assert(chars@.subrange(from as int, i as int + 1) == chars@.subrange(
            from as int,
            i as int,
        ).push(chars@[i as int]));
        i += 1;
    }
}

/// The characters of `s` with every run of white space made one space and none
/// at either end.
pub fn collapse_spaces(s: &str) -> (r: Vec<char>)
    ensures
        r@ == one_line(s@),
{
    let chars = chars_of(s);
    let mut out: Vec<char> = Vec::new();
    let ghost mut done: Seq<Seq<char>> = seq![];
    let mut started = false;
    let mut i: usize = 0;
    assert(s@.skip(0) == s@);
    assert(done + words(s@) == words(s@));
    loop
        invariant
            chars@ == s@,
            started == (done.len() > 0),
            i <= chars@.len(),
            words(s@) == done + words(s@.skip(i as int)),
            out@ == join(done, seq![' ']),
        ensures
            out@ == one_line(s@),
        decreases chars@.len() - i,
    {
        let from: usize = find_solid(&chars, i);
        let ghost rest = s@.skip(i as int);
        assert(trim_start(rest) == s@.skip(from as int));
        if from == chars.len() {
            assert(words(rest) == Seq::<Seq<char>>::empty());
            assert(done + words(rest) == done);
            break;
        }
        proof {
            first_bounds(rest);
            assert(rest[from - i] == s@[from as int]);
        }
        let to: usize = find_space(&chars, from);
        proof {
            let t = s@.skip(from as int);
            first_bounds(t);
            assert(t[0] == s@[from as int]);
            assert(first_space(t) > 0);
            let w = t.take(first_space(t));
            assert(w == s@.subrange(from as int, to as int));
            assert(t.skip(first_space(t)) == s@.skip(to as int));
            assert(done + (seq![w] + words(s@.skip(to as int))) == done.push(w) + words(
                s@.skip(to as int),
            ));
            join_push(done, seq![' '], w);
        }
        if started {
            out.push(' ');
        }
        started = true;
        push_range(&mut out, &chars, from, to);
        proof {
            let w = s@.subrange(from as int, to as int);
            done = done.push(w);
        }
        i = to;
    }
    out
}

/// The parts of `s` between occurrences of `c`.
pub fn split_at_char(s: &str, c: char) -> (r: Vec<String>)
    ensures
        texts(r@) == split_on(s@, c),
{
    let chars = chars_of(s);
    let mut out: Vec<String> = Vec::new();
    let mut i: usize = 0;
    assert(s@.skip(0) == s@);
    assert(texts(out@) + split_on(s@, c) =~= split_on(s@, c));
    loop
        invariant_except_break
            chars@ == s@,
            i <= chars@.len(),
            split_on(s@, c) == texts(out@) + split_on(s@.skip(i as int), c),
        ensures
            texts(out@) == split_on(s@, c),
        decreases chars@.len() - i,
    {
        let k: usize = find_char(&chars, i, c);
        let part = text_between(&chars, i, k);
        let ghost rest = s@.skip(i as int);
        let ghost before = out@;
        assert(part@ == rest.take(k - i));
        out.push(part);
        proof {
            texts_push(before, part);
        }
        if k == chars.len() {
            assert(rest.take(k - i) == rest);
            assert(texts(before) + seq![rest] == texts(before).push(rest));
            break;
        }
        proof {
            assert(rest.skip(k - i + 1) == s@.skip(k as int + 1));
            assert(texts(before) + (seq![part@] + split_on(s@.skip(k as int + 1), c)) == texts(
                before,
            ).push(part@) + split_on(s@.skip(k as int + 1), c));
        }
        i = k + 1;
    }
    out
}

/// What stands before and after the first `c` in `s`, if `c` occurs.
pub open spec fn split_pair(s: Seq<char>, c: char) -> Option<(Seq<char>, Seq<char>)> {
    let k = first_char(s, c);
    if k < s.len() {
        Some((s.take(k), s.skip(k + 1)))
    } else {
        None
    }
}

/// What stands before and after the first `c` in `s`, if `c` occurs.
pub fn split_first(s: &str, c: char) -> (r: Option<(String, String)>)
    ensures
        match r {
            Some(pair) => split_pair(s@, c) == Some((pair.0@, pair.1@)),
            None => split_pair(s@, c) is None,
        },
{
    let chars = chars_of(s);
    assert(s@.skip(0) == s@);
    let k: usize = find_char(&chars, 0, c);
    if k < chars.len() {
        let head = text_between(&chars, 0, k);
        let tail = text_between(&chars, k + 1, chars.len());
        assert(head@ == s@.take(k as int));
        assert(tail@ == s@.skip(k as int + 1));
        Some((head, tail))
    } else {
        None
    }
}

/// One line of a text up to its line feed, without a carriage return that
/// stands right before that line feed.
pub open spec fn without_carriage_return(line: Seq<char>) -> Seq<char> {
    if line.len() > 0 && line.last() == '\r' {
        line.drop_last()
    } else {
        line
    }
}

/// The lines of `s`. A line ends at a line feed, optionally preceded by a
/// carriage return; a last line needs no line feed, and none follows the last
/// line feed.
pub open spec fn lines(s: Seq<char>) -> Seq<Seq<char>>
    decreases s.len(),
{
    let k = first_char(s, '\n');
    if s.len() == 0 {
        seq![]
    } else if 0 <= k < s.len() {
        seq![without_carriage_return(s.take(k))] + lines(s.skip(k + 1))
    } else {
        seq![s]
    }
}

/// The lines of `s`.
pub fn lines_of(s: &str) -> (r: Vec<String>)
    ensures
        texts(r@) == lines(s@),
{
    let chars = chars_of(s);
    let mut out: Vec<String> = Vec::new();
    let mut i: usize = 0;
    assert(s@.skip(0) == s@);
    assert(texts(out@) + lines(s@) =~= lines(s@));
    while i < chars.len()
        invariant
            chars@ == s@,
            i <= chars@.len(),
            lines(s@) == texts(out@) + lines(s@.skip(i as int)),
        decreases chars@.len() - i,
    {
        let k: usize = find_char(&chars, i, '\n');
        let ghost rest = s@.skip(i as int);
        let ghost before = out@;
        let mut end: usize = k;
        assert(rest.take(k - i) == s@.subrange(i as int, k as int));
        if k < chars.len() && k > i && chars[k - 1] == '\r' {
            end = k - 1;
            assert(rest.take(k - i).drop_last() == s@.subrange(i as int, end as int));
        }
        let line = text_between(&chars, i, end);
        out.push(line);
        proof {
            texts_push(before, line);
        }
        if k == chars.len() {
            proof {
                assert(line@ == rest);
                assert(s@.skip(s@.len() as int) == Seq::<char>::empty());
                assert(texts(before) + seq![rest] == texts(out@) + lines(s@.skip(k as int)));
            }
            i = k;
        } else {
            proof {
                if k > i {
                    assert(rest.take(k - i).last() == s@[k - 1]);
                }
                assert(line@ == without_carriage_return(rest.take(k - i)));
                assert(rest.skip(k - i + 1) == s@.skip(k as int + 1));
                assert(texts(before) + (seq![line@] + lines(s@.skip(k as int + 1))) == texts(
                    before,
                ).push(line@) + lines(s@.skip(k as int + 1)));
            }
            i = k + 1;
        }
    }
    proof {
        assert(s@.skip(i as int) == Seq::<char>::empty());
        assert(texts(out@) + Seq::<Seq<char>>::empty() == texts(out@));
    }
    out
}

/// `s` with every `from` turned into `to`.
pub open spec fn replace_char(s: Seq<char>, from: char, to: char) -> Seq<char> {
    Seq::new(
        s.len(),
        |i: int|
            if s[i] == from {
                to
            } else {
                s[i]
            },
    )
}

/// `s` with every `from` turned into `to`.
pub fn with_char_replaced(s: &str, from: char, to: char) -> (r: String)
    ensures
        r@ == replace_char(s@, from, to),
{
    let mut out = String::new();
    for c in it: s.chars()
        invariant
            it.seq() == s@,
            out@ == replace_char(s@, from, to).take(it.index() as int),
    {
        if c == from {
            out.push(to);
        } else {
            out.push(c);
        }
        assert(replace_char(s@, from, to).take(it.index() as int + 1) == replace_char(
            s@,
            from,
            to,
        ).take(it.index() as int).push(replace_char(s@, from, to)[it.index() as int]));
    }
    assert(replace_char(s@, from, to).take(s@.len() as int) == replace_char(s@, from, to));
    out
}

/// `c` in lower case when it is an ASCII letter, else `c`.
pub open spec fn lower_ascii_char(c: char) -> char {
    if 'A' <= c <= 'Z' {
        ((c as u8 + 32) as u8) as char
    } else {
        c
    }
}

/// `s` with its ASCII letters in lower case.
pub open spec fn lower_ascii(s: Seq<char>) -> Seq<char> {
    Seq::new(s.len(), |i: int| lower_ascii_char(s[i]))
}

/// `s` with its ASCII letters in lower case.
pub fn to_lower_ascii(s: &str) -> (r: String)
    ensures
        r@ == lower_ascii(s@),
{
    let mut out = String::new();
    for c in it: s.chars()
        invariant
            it.seq() == s@,
            out@ == lower_ascii(s@).take(it.index() as int),
    {
        if 'A' <= c && c <= 'Z' {
            let lower: u8 = c as u8 + 32;
            out.push(lower as char);
        } else {
            out.push(c);
        }
        assert(lower_ascii(s@).take(it.index() as int + 1) == lower_ascii(s@).take(
            it.index() as int,
        ).push(lower_ascii(s@)[it.index() as int]));
    }
    assert(lower_ascii(s@).take(s@.len() as int) == lower_ascii(s@));
    out
}

/// `s` when it has at most `max` characters; else its head followed by `...`, as
/// many of the dots as `max` leaves room for, `max` characters in all.
pub open spec fn capped(s: Seq<char>, max: nat) -> Seq<char> {
    if s.len() <= max {
        s
    } else {
        s.take(if max >= 3 {
            max - 3
        } else {
            0
        }) + Seq::new(
            if max >= 3 {
                3
            } else {
                max
            },
            |i: int| '.',
        )
    }
}

/// The text of `chars`, cut to `max` characters with a closing `...`.
pub fn cap_chars(chars: &Vec<char>, max: usize) -> (r: String)
    ensures
        r@ == capped(chars@, max as nat),
        r@.len() <= max,
{
    if chars.len() <= max {
        text_of(chars)
    } else {
        let keep: usize = if max >= 3 {
            max - 3
        } else {
            0
        };
        let mut out = text_between(chars, 0, keep);
        let ghost head = out@;
        let mut count: usize = keep;
        while count < max
            invariant
                keep <= count <= max,
                out@ == head + Seq::new((count - keep) as nat, |i: int| '.'),
            decreases max - count,
        {
            let ghost dots = Seq::new((count - keep) as nat, |i: int| '.');
            out.push('.');
            count += 1;
            assert(dots.push('.') == Seq::new((count - keep) as nat, |i: int| '.'));
        }
        assert(out@ == capped(chars@, max as nat));
        out
    }
}

/// The texts one after the other.
pub fn concat_three(a: &str, b: &str, c: &str) -> (r: String)
    ensures
        r@ == a@ + b@ + c@,
{
    let mut out = copy_text(a);
    out.append(b);
    out.append(c);
    out
}

/// The texts one after the other.
pub fn concat_four(a: &str, b: &str, c: &str, d: &str) -> (r: String)
    ensures
        r@ == a@ + b@ + c@ + d@,
{
    let mut out = copy_text(a);
    out.append(b);
    out.append(c);
    out.append(d);
    out
}

/// A copy of the text.
pub fn copy_text(s: &str) -> (r: String)
    ensures
        r@ == s@,
{
    s.to_owned()
}

// ---------------------------------------------------------------------------
// Laws of single-line text.
// ---------------------------------------------------------------------------

/// Only single blanks separate the words of `r`, and none stands at an end.
pub open spec fn tidy(r: Seq<char>) -> bool {
    forall|i: int|
        0 <= i < r.len() && is_space(#[trigger] r[i]) ==> {
            &&& r[i] == ' '
            &&& 0 < i < r.len() - 1
            &&& !is_space(r[i - 1])
            &&& !is_space(r[i + 1])
        }
}

/// A word: not empty, without white space.
pub open spec fn is_word(w: Seq<char>) -> bool {
    &&& w.len() > 0
    &&& forall|i: int| 0 <= i < w.len() ==> !is_space(#[trigger] w[i])
}

proof fn first_space_is_solid(s: Seq<char>)
    ensures
        forall|j: int| 0 <= j < first_space(s) ==> !is_space(#[trigger] s[j]),
    decreases s.len(),
{
    if s.len() > 0 && !is_space(s[0]) {
        first_space_is_solid(s.skip(1));
        first_bounds(s);
        assert forall|j: int| 0 <= j < first_space(s) implies !is_space(#[trigger] s[j]) by {
            if j > 0 {
                assert(s.skip(1)[j - 1] == s[j]);
            }
        }
    }
}

/// The words of a text are words.
pub proof fn words_are_words(s: Seq<char>)
    ensures
        forall|i: int| 0 <= i < words(s).len() ==> is_word(#[trigger] words(s)[i]),
    decreases s.len(),
{
    let t = trim_start(s);
    first_bounds(s);
    first_bounds(t);
    if t.len() > 0 && first_space(t) > 0 {
        let w = t.take(first_space(t));
        let rest = t.skip(first_space(t));
        first_space_is_solid(t);
        words_are_words(rest);
        assert forall|i: int| 0 <= i < words(s).len() implies is_word(#[trigger] words(s)[i]) by {
            if i > 0 {
                assert(words(s)[i] == words(rest)[i - 1]);
            } else {
                assert(words(s)[0] == w);
            }
        }
    }
}

proof fn join_of_words_is_tidy(parts: Seq<Seq<char>>)
    requires
        forall|i: int| 0 <= i < parts.len() ==> is_word(#[trigger] parts[i]),
    ensures
        tidy(join(parts, seq![' '])),
        parts.len() > 0 ==> join(parts, seq![' ']).len() > 0 && !is_space(
            join(parts, seq![' ']).last(),
        ),
    decreases parts.len(),
{
    if parts.len() == 0 {
    } else if parts.len() == 1 {
        assert(is_word(parts[0]));
    } else {
        let head = parts.drop_last();
        assert forall|i: int| 0 <= i < head.len() implies is_word(#[trigger] head[i]) by {
            assert(head[i] == parts[i]);
        }
        join_of_words_is_tidy(head);
        let a = join(head, seq![' ']);
        let w = parts.last();
        assert(is_word(w));
        let r = a + seq![' '] + w;
        assert(join(parts, seq![' ']) == r);
        assert forall|i: int| 0 <= i < r.len() && is_space(#[trigger] r[i]) implies r[i] == ' ' && 0
            < i < r.len() - 1 && !is_space(r[i - 1]) && !is_space(r[i + 1]) by {
            if i < a.len() {
                assert(r[i] == a[i]);
                assert(r[i - 1] == a[i - 1]);
                assert(r[i + 1] == a[i + 1]);
            } else if i == a.len() {
                assert(r[i - 1] == a.last());
                assert(r[i + 1] == w[0]);
            } else {
                assert(r[i] == w[i - a.len() - 1]);
            }
        }
        assert(r.last() == w.last());
        assert(w.last() == w[w.len() - 1]);
    }
}

/// Collapsing white space leaves single blanks between words and none at an
/// end.
pub proof fn one_line_is_tidy(s: Seq<char>)
    ensures
        tidy(one_line(s)),
{
    words_are_words(s);
    join_of_words_is_tidy(words(s));
}

/// Collapsing white space empties a text only when it is all white space.
pub proof fn one_line_keeps_words(s: Seq<char>, i: int)
    requires
        0 <= i < s.len(),
        !is_space(s[i]),
    ensures
        one_line(s).len() > 0,
{
    first_solid_stops(s, i);
    let t = trim_start(s);
    first_bounds(s);
    first_bounds(t);
    assert(t[0] == s[first_solid(s)]);
    assert(words(s).len() > 0);
    words_are_words(s);
    join_of_words_is_tidy(words(s));
}

/// The first character that is no white space comes no later than any other.
pub proof fn first_solid_stops(s: Seq<char>, i: int)
    requires
        0 <= i < s.len(),
        !is_space(s[i]),
    ensures
        first_solid(s) <= i,
    decreases s.len(),
{
    if is_space(s[0]) {
        assert(s.skip(1)[i - 1] == s[i]);
        first_solid_stops(s.skip(1), i - 1);
    }
}

/// A tidy text is its own single line.
pub proof fn tidy_is_one_line(s: Seq<char>)
    requires
        tidy(s),
    ensures
        one_line(s) == s,
    decreases s.len(),
{
    if s.len() > 0 {
        assert(!is_space(s[0]));
        assert(first_solid(s) == 0);
        let t = trim_start(s);
        assert(t == s);
        first_bounds(s);
        let k = first_space(s);
        if k == s.len() {
            assert(s.take(k) == s);
            assert(s.skip(k) == Seq::<char>::empty());
            assert(trim_start(s.skip(k)) == Seq::<char>::empty());
            assert(words(s.skip(k)) == Seq::<Seq<char>>::empty());
            assert(words(s) == seq![s]);
        } else {
            let rest = s.skip(k + 1);
            assert(is_space(s[k]));
            assert(k < s.len() - 1);
            assert(rest[0] == s[k + 1]);
            assert forall|i: int| 0 <= i < rest.len() && is_space(#[trigger] rest[i]) implies rest[i]
                == ' ' && 0 < i < rest.len() - 1 && !is_space(rest[i - 1]) && !is_space(
                rest[i + 1],
            ) by {
                assert(rest[i] == s[i + k + 1]);
                assert(rest[i + 1] == s[i + k + 2]);
                if i > 0 {
                    assert(rest[i - 1] == s[i + k]);
                } else {
                    assert(s[k + 1] == rest[0]);
                }
            }
            tidy_is_one_line(rest);
            let gap = s.skip(k);
            assert(gap[0] == s[k]);
            assert(gap.skip(1) == rest);
            assert(first_solid(gap) == 1);
            assert(trim_start(gap) == rest);
            assert(first_solid(rest) == 0);
            assert(rest.skip(0) == rest);
            assert(words(gap) == words(rest));
            assert(words(s) == seq![s.take(k)] + words(rest));
            words_are_words(rest);
            assert(words(rest).len() > 0);
            join_front(s.take(k), words(rest), seq![' ']);
            assert(s == s.take(k) + seq![' '] + rest);
        }
    } else {
        assert(words(s) == Seq::<Seq<char>>::empty());
        assert(one_line(s) == s);
    }
}

/// Joining with one more part in front.
pub proof fn join_front(part: Seq<char>, parts: Seq<Seq<char>>, sep: Seq<char>)
    requires
        parts.len() > 0,
    ensures
        join(seq![part] + parts, sep) == part + sep + join(parts, sep),
    decreases parts.len(),
{
    let all = seq![part] + parts;
    if parts.len() == 1 {
        assert(all.drop_last() == seq![part]);
        assert(join(all.drop_last(), sep) == part);
        assert(all.last() == parts[0]);
    } else {
        assert(all.drop_last() == seq![part] + parts.drop_last());
        join_front(part, parts.drop_last(), sep);
        assert(part + sep + join(parts.drop_last(), sep) + sep + parts.last() == part + sep + (join(
            parts.drop_last(),
            sep,
        ) + sep + parts.last()));
    }
}

/// Collapsing white space twice is collapsing it once.
pub proof fn one_line_is_idempotent(s: Seq<char>)
    ensures
        one_line(one_line(s)) == one_line(s),
{
    one_line_is_tidy(s);
    tidy_is_one_line(one_line(s));
}

/// A cap is kept, whatever it is.
pub proof fn capped_length(s: Seq<char>, max: nat)
    ensures
        capped(s, max).len() <= max,
        s.len() > max ==> capped(s, max).len() == max,
{
}

proof fn trim_end_keeps_solid(s: Seq<char>, i: int)
    requires
        0 <= i < s.len(),
        !is_space(s[i]),
    ensures
        trim_end(s).len() > i,
    decreases s.len(),
{
    if is_space(s.last()) {
        trim_end_keeps_solid(s.drop_last(), i);
    }
}

/// Trimming keeps a character that is no white space.
pub proof fn trim_keeps_solid(s: Seq<char>, i: int)
    requires
        0 <= i < s.len(),
        !is_space(s[i]),
    ensures
        trim(s).len() > 0,
{
    first_solid_stops(s, i);
    first_bounds(s);
    let start = first_solid(s);
    assert(trim_start(s)[i - start] == s[i]);
    trim_end_keeps_solid(trim_start(s), i - start);
}

proof fn trim_end_takes_spaces(s: Seq<char>)
    ensures
        trim_end(s).len() <= s.len(),
        s.take(trim_end(s).len() as int) == trim_end(s),
        forall|i: int| trim_end(s).len() <= i < s.len() ==> is_space(#[trigger] s[i]),
        trim_end(s).len() > 0 ==> !is_space(trim_end(s).last()),
    decreases s.len(),
{
    if s.len() > 0 && is_space(s.last()) {
        trim_end_takes_spaces(s.drop_last());
        assert(s.take(trim_end(s).len() as int) == s.drop_last().take(trim_end(s).len() as int));
        assert forall|i: int| trim_end(s).len() <= i < s.len() implies is_space(#[trigger] s[i]) by {
            if i < s.len() - 1 {
                assert(s.drop_last()[i] == s[i]);
            }
        }
    } else {
        assert(s.take(s.len() as int) == s);
    }
}

proof fn first_solid_passes_spaces(s: Seq<char>)
    ensures
        0 <= first_solid(s) <= s.len(),
        forall|i: int| 0 <= i < first_solid(s) ==> is_space(#[trigger] s[i]),
        first_solid(s) < s.len() ==> !is_space(s[first_solid(s)]),
    decreases s.len(),
{
    if s.len() > 0 && is_space(s[0]) {
        let rest = s.skip(1);
        first_solid_passes_spaces(rest);
        assert forall|i: int| 0 <= i < first_solid(s) implies is_space(#[trigger] s[i]) by {
            if i > 0 {
                assert(rest[i - 1] == s[i]);
            }
        }
    }
}

/// Trimming takes white space off both ends and nothing else: what is left is
/// the middle of the text and neither begins nor ends with white space.
pub proof fn trim_takes_the_ends(s: Seq<char>) -> (from: int)
    ensures
        0 <= from,
        from + trim(s).len() <= s.len(),
        s.subrange(from, from + trim(s).len()) == trim(s),
        forall|i: int| 0 <= i < from ==> is_space(#[trigger] s[i]),
        forall|i: int| from + trim(s).len() <= i < s.len() ==> is_space(#[trigger] s[i]),
        trim(s).len() > 0 ==> !is_space(trim(s)[0]) && !is_space(trim(s).last()),
{
    let from = first_solid(s);
    let t = trim_start(s);
    first_solid_passes_spaces(s);
    trim_end_takes_spaces(t);
    assert(s.subrange(from, from + trim(s).len()) == t.take(trim(s).len() as int));
    assert forall|i: int| from + trim(s).len() <= i < s.len() implies is_space(#[trigger] s[i]) by {
        assert(t[i - from] == s[i]);
    }
    if trim(s).len() > 0 {
        assert(trim(s)[0] == t[0]);
    }
    from
}

/// White space is what Unicode calls so: the blank, the tabs and line breaks of
/// ASCII and no other of its characters.
pub proof fn ascii_spaces(c: char)
    requires
        c as u32 <= 0x7f,
    ensures
        is_space(c) <==> c == ' ' || c == '\t' || c == '\n' || c == '\r' || c as u32 == 0x0b
            || c as u32 == 0x0c,
{
}

/// Putting split parts together with the separator gives the text back, and no
/// part holds the separator.
pub proof fn split_parts_rejoin(s: Seq<char>, c: char)
    ensures
        join(split_on(s, c), seq![c]) == s,
        split_on(s, c).len() > 0,
        forall|i: int| 0 <= i < split_on(s, c).len() ==> !(#[trigger] split_on(s, c)[i]).contains(c),
    decreases s.len(),
{
    first_char_points(s, c);
    let k = first_char(s, c);
    if k < s.len() {
        let rest = s.skip(k + 1);
        split_parts_rejoin(rest, c);
        join_front(s.take(k), split_on(rest, c), seq![c]);
        assert(s == s.take(k) + seq![c] + rest);
        assert forall|i: int| 0 <= i < split_on(s, c).len() implies !(#[trigger] split_on(
            s,
            c,
        )[i]).contains(c) by {
            if i > 0 {
                assert(split_on(s, c)[i] == split_on(rest, c)[i - 1]);
            }
        }
    }
}

/// Lower case changes the letters `A` to `Z` of ASCII and nothing else.
pub proof fn lower_case_is_ascii(c: char)
    ensures
        'A' <= c <= 'Z' ==> lower_ascii_char(c) as u32 == c as u32 + 32,
        !('A' <= c <= 'Z') ==> lower_ascii_char(c) == c,
{
}

/// What is put between two texts stands in the whole.
pub proof fn stands_between(before: Seq<char>, part: Seq<char>, after: Seq<char>)
    ensures
        contains_text(before + part + after, part),
{
    let whole = before + part + after;
    assert(whole.subrange(before.len() as int, (before.len() + part.len()) as int) == part);
    assert(stands_at(whole, part, before.len() as int));
}

/// A line ends at its line break, with or without a carriage return before it;
/// what follows the last line break is a line where there is something.
pub proof fn lines_end_at_line_breaks(line: Seq<char>, rest: Seq<char>)
    requires
        !line.contains('\n'),
    ensures
        lines(seq![]) == Seq::<Seq<char>>::empty(),
        line.len() > 0 ==> lines(line) == seq![line],
        line.len() == 0 || line.last() != '\r' ==> lines(line + seq!['\n'] + rest) == seq![line]
            + lines(rest),
        lines(line + seq!['\r', '\n'] + rest) == seq![line] + lines(rest),
{
    assert forall|j: int| 0 <= j < line.len() implies #[trigger] line[j] != '\n' by {
        assert(line.contains(line[j]));
    }
    first_char_is(line, '\n', line.len() as int);
    let plain = line + seq!['\n'] + rest;
    first_char_is(plain, '\n', line.len() as int);
    assert(plain.take(line.len() as int) == line);
    assert(plain.skip(line.len() as int + 1) == rest);
    let returned = line + seq!['\r', '\n'] + rest;
    first_char_is(returned, '\n', line.len() as int + 1);
    assert(returned.take(line.len() as int + 1) == line.push('\r'));
    assert(line.push('\r').drop_last() == line);
    assert(returned.skip(line.len() as int + 2) == rest);
}

/// A text is parted at the first of the separators, and the two parts with the
/// separator between them are the text.
pub proof fn pairs_rejoin(s: Seq<char>, c: char)
    ensures
        split_pair(s, c) matches Some((a, b)) ==> s == a + seq![c] + b && !a.contains(c),
        split_pair(s, c) is None <==> !s.contains(c),
{
    first_char_points(s, c);
    let k = first_char(s, c);
    if k < s.len() {
        assert(s.contains(s[k]));
        assert(s == s.take(k) + seq![c] + s.skip(k + 1));
    }
}

/// A text that is too long keeps its beginning, and three dots tell that
/// something is missing.
pub proof fn capped_keeps_the_beginning(s: Seq<char>, max: nat)
    requires
        max >= 3,
    ensures
        s.len() <= max ==> capped(s, max) == s,
        s.len() > max ==> capped(s, max).take(max - 3) == s.take(max - 3) && capped(s, max).skip(
            max - 3,
        ) == seq!['.', '.', '.'],
{
    if s.len() > max {
        assert(capped(s, max).take(max - 3) == s.take(max - 3));
        assert(capped(s, max).skip(max - 3) == seq!['.', '.', '.']);
    }
}

/// The characters of a text that are no white space.
pub open spec fn solids(s: Seq<char>) -> Seq<char> {
    s.filter(|c: char| !is_space(c))
}

proof fn solids_of_both(a: Seq<char>, b: Seq<char>)
    ensures
        solids(a + b) == solids(a) + solids(b),
    decreases b.len(),
{
    reveal(Seq::filter);
    if b.len() == 0 {
        assert(a + b == a);
    } else {
        solids_of_both(a, b.drop_last());
        assert((a + b).drop_last() == a + b.drop_last());
        assert((a + b).last() == b.last());
    }
}

proof fn spaces_have_no_solids(s: Seq<char>)
    requires
        forall|i: int| 0 <= i < s.len() ==> is_space(#[trigger] s[i]),
    ensures
        solids(s) == Seq::<char>::empty(),
    decreases s.len(),
{
    reveal(Seq::filter);
    if s.len() > 0 {
        assert(is_space(s[s.len() - 1]));
        spaces_have_no_solids(s.drop_last());
    }
}

/// Putting a text on one line keeps all its characters but white space, in
/// their order.
pub proof fn one_line_keeps_characters(s: Seq<char>)
    ensures
        solids(one_line(s)) == solids(s),
    decreases s.len(),
{
    first_solid_passes_spaces(s);
    let t = trim_start(s);
    let blank = s.take(first_solid(s));
    assert(s == blank + t);
    assert forall|i: int| 0 <= i < blank.len() implies is_space(#[trigger] blank[i]) by {
        assert(blank[i] == s[i]);
    }
    solids_of_both(blank, t);
    spaces_have_no_solids(blank);
    assert(solids(s) == solids(t)) by {
        assert(Seq::<char>::empty() + solids(t) == solids(t));
    }
    first_bounds(s);
    first_bounds(t);
    if t.len() > 0 {
        assert(t[0] == s[first_solid(s)]);
        let k = first_space(t);
        assert(k > 0);
        let word = t.take(k);
        let rest = t.skip(k);
        assert(t == word + rest);
        solids_of_both(word, rest);
        one_line_keeps_characters(rest);
        let others = words(rest);
        if others.len() == 0 {
            assert(seq![word] + others == seq![word]);
            assert(one_line(s) == word);
            assert(one_line(rest) == Seq::<char>::empty());
            spaces_have_no_solids(Seq::<char>::empty());
            assert(solids(word) + Seq::<char>::empty() == solids(word));
        } else {
            join_front(word, others, seq![' ']);
            let gap = word + seq![' '];
            solids_of_both(gap, join(others, seq![' ']));
            solids_of_both(word, seq![' ']);
            spaces_have_no_solids(seq![' ']);
            assert(solids(word) + Seq::<char>::empty() == solids(word));
        }
    } else {
        assert(words(s) == Seq::<Seq<char>>::empty());
        assert(one_line(s) == Seq::<char>::empty());
        assert(t == Seq::<char>::empty());
    }
}

/// A part that stands in a middle stands in the whole.
pub proof fn stands_within(before: Seq<char>, middle: Seq<char>, after: Seq<char>, part: Seq<char>)
    requires
        contains_text(middle, part),
    ensures
        contains_text(before + middle + after, part),
{
    let at = choose|at: int| stands_at(middle, part, at);
    let whole = before + middle + after;
    assert(whole.subrange(before.len() + at, before.len() + at + part.len()) == middle.subrange(
        at,
        at + part.len(),
    ));
    assert(stands_at(whole, part, before.len() + at));
}

/// Every part stands in what the parts are joined to.
pub proof fn joined_parts_stand(parts: Seq<Seq<char>>, sep: Seq<char>, i: int)
    requires
        0 <= i < parts.len(),
    ensures
        contains_text(join(parts, sep), parts[i]),
    decreases parts.len(),
{
    let none = Seq::<char>::empty();
    if parts.len() == 1 {
        stands_between(none, parts[0], none);
        assert(none + parts[0] + none == parts[0]);
    } else {
        let front = parts.drop_last();
        let head = join(front, sep);
        if i < front.len() {
            joined_parts_stand(front, sep, i);
            stands_within(none, head, sep + parts.last(), parts[i]);
            assert(none + head + (sep + parts.last()) == join(parts, sep));
        } else {
            stands_between(head + sep, parts.last(), none);
            assert(head + sep + parts.last() + none == join(parts, sep));
        }
    }
}

/// What is put behind a text stands in the whole.
pub proof fn stands_at_end(before: Seq<char>, part: Seq<char>)
    ensures
        contains_text(before + part, part),
{
    let whole = before + part;
    assert(whole.subrange(before.len() as int, (before.len() + part.len()) as int) == part);
    assert(stands_at(whole, part, before.len() as int));
}

/// What stands in a text stands in its continuations.
pub proof fn still_stands(s: Seq<char>, part: Seq<char>, more: Seq<char>)
    requires
        contains_text(s, part),
    ensures
        contains_text(s + more, part),
{
    let at = choose|at: int| stands_at(s, part, at);
    let whole = s + more;
    assert(whole.subrange(at, at + part.len()) == s.subrange(at, at + part.len()));
    assert(stands_at(whole, part, at));
}

proof fn regrouped(a: Seq<char>, b: Seq<char>, c: Seq<char>)
    ensures
        a + b + c == a + (b + c),
{
}

/// What stands in a text stands in it with three more texts behind it, and so
/// do these three together.
pub proof fn three_more_stand(s: Seq<char>, part: Seq<char>, a: Seq<char>, b: Seq<char>, c: Seq<char>)
    ensures
        contains_text(s, part) ==> contains_text(s + a + b + c, part),
        contains_text(s + a + b + c, a + b + c),
        contains_text(s + a + b + c, b + c),
        contains_text(s + a + b + c, b),
{
    assert(contains_text(s + a + b + c, b + c)) by {
        regrouped(s + a, b, c);
        stands_at_end(s + a, b + c);
    }
    assert(contains_text(s + a + b + c, b)) by {
        stands_between(s + a, b, c);
    }
    assert(contains_text(s + a + b + c, a + b + c)) by {
        regrouped(s, a, b);
        regrouped(s, a + b, c);
        stands_at_end(s, a + b + c);
    }
    if contains_text(s, part) {
        still_stands(s, part, a);
        still_stands(s + a, part, b);
        still_stands(s + a + b, part, c);
    }
}

} // verus!
