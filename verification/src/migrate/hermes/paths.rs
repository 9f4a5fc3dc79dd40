//! Paths, compared component by component.

use std::path::{Component, PathBuf, Prefix};
use vstd::prelude::*;

verus! {

/// `std::path::PathBuf`: a path, opaque here.
#[verifier::external_type_specification]
#[verifier::external_body]
pub struct ExPathBuf(std::path::PathBuf);

/// `std::path::PathBuf::clone`: the same path.
pub assume_specification[ <std::path::PathBuf as std::clone::Clone>::clone ](
    p: &std::path::PathBuf,
) -> (r: std::path::PathBuf)
    ensures
        r == *p,
;

/// `std::path::Prefix`: the prefix of a path on Windows, opaque here.
#[verifier::external_type_specification]
#[verifier::external_body]
pub struct ExPrefix<'a>(std::path::Prefix<'a>);

/// What a prefix is.
pub enum PrefixView {
    Verbatim(Seq<u8>),
    VerbatimShare(Seq<u8>, Seq<u8>),
    VerbatimDisk(u8),
    Device(Seq<u8>),
    Share(Seq<u8>, Seq<u8>),
    Disk(u8),
}

/// What a component of a path is.
pub enum PartView {
    Prefix(PrefixView),
    Root,
    CurrentDir,
    ParentDir,
    Name(Seq<u8>),
}

/// What a `std::path::Prefix` is.
pub uninterp spec fn prefix_content(p: Prefix<'_>) -> PrefixView;

/// The components of a path, as `std::path::Path::components` gives them.
pub uninterp spec fn path_content(p: PathBuf) -> Seq<PartView>;

/// The variants of `std::path::Prefix`.
pub enum PrefixParts {
    Verbatim(Vec<u8>),
    VerbatimShare(Vec<u8>, Vec<u8>),
    VerbatimDisk(u8),
    Device(Vec<u8>),
    Share(Vec<u8>, Vec<u8>),
    Disk(u8),
}

impl View for PrefixParts {
    type V = PrefixView;

    open spec fn view(&self) -> PrefixView {
        match self {
            PrefixParts::Verbatim(a) => PrefixView::Verbatim(a@),
            PrefixParts::VerbatimShare(a, b) => PrefixView::VerbatimShare(a@, b@),
            PrefixParts::VerbatimDisk(d) => PrefixView::VerbatimDisk(*d),
            PrefixParts::Device(a) => PrefixView::Device(a@),
            PrefixParts::Share(a, b) => PrefixView::Share(a@, b@),
            PrefixParts::Disk(d) => PrefixView::Disk(*d),
        }
    }
}

/// A component of a path.
pub enum PathPart<'a> {
    Prefix(Prefix<'a>),
    Root,
    CurrentDir,
    ParentDir,
    Name(Vec<u8>),
}

impl<'a> View for PathPart<'a> {
    type V = PartView;

    open spec fn view(&self) -> PartView {
        match self {
            PathPart::Prefix(x) => PartView::Prefix(prefix_content(*x)),
            PathPart::Root => PartView::Root,
            PathPart::CurrentDir => PartView::CurrentDir,
            PathPart::ParentDir => PartView::ParentDir,
            PathPart::Name(name) => PartView::Name(name@),
        }
    }
}

/// The variants of `std::path::Prefix`, each with its fields; a drive by its
/// letter as the prefix holds it.
#[verifier::external_body]
fn open_prefix(p: Prefix<'_>) -> (r: PrefixParts)
    ensures
        r@ == prefix_content(p),
{
    match p {
        Prefix::Verbatim(a) => PrefixParts::Verbatim(a.as_encoded_bytes().to_vec()),
        Prefix::VerbatimUNC(a, b) => PrefixParts::VerbatimShare(a.as_encoded_bytes().to_vec(), b.as_encoded_bytes().to_vec()),
        Prefix::VerbatimDisk(d) => PrefixParts::VerbatimDisk(d),
        Prefix::DeviceNS(a) => PrefixParts::Device(a.as_encoded_bytes().to_vec()),
        Prefix::UNC(a, b) => PrefixParts::Share(a.as_encoded_bytes().to_vec(), b.as_encoded_bytes().to_vec()),
        Prefix::Disk(d) => PrefixParts::Disk(d),
    }
}

/// Components as mathematical objects.
pub open spec fn content_views(v: Seq<PathPart<'_>>) -> Seq<PartView> {
    Seq::new(v.len(), |i: int| v[i]@)
}

/// `std::path::Path::components`: the components of the path, in order, a
/// prefix as `std::path::PrefixComponent::kind` gives it. What they are for a
/// given path is left to the name.
#[verifier::external_body]
fn path_components(p: &PathBuf) -> (r: Vec<PathPart<'_>>)
    ensures
        content_views(r@) == path_content(*p),
{
    p.components().map(
        |part|
            match part {
                Component::Prefix(x) => PathPart::Prefix(x.kind()),
                Component::RootDir => PathPart::Root,
                Component::CurDir => PathPart::CurrentDir,
                Component::ParentDir => PathPart::ParentDir,
                Component::Normal(x) => PathPart::Name(x.as_encoded_bytes().to_vec()),
            },
    ).collect()
}

/// A component as ranked bytes: the rank of its kind, in the order of the
/// kinds, and its bytes. A network share is two of them, the server and the
/// share.
pub open spec fn ranked(part: PartView) -> Seq<(u8, Seq<u8>)> {
    match part {
        PartView::Prefix(PrefixView::Verbatim(a)) => seq![(0u8, a)],
        PartView::Prefix(PrefixView::VerbatimShare(a, b)) => seq![(1u8, a), (1u8, b)],
        PartView::Prefix(PrefixView::VerbatimDisk(d)) => seq![(2u8, seq![d])],
        PartView::Prefix(PrefixView::Device(a)) => seq![(3u8, a)],
        PartView::Prefix(PrefixView::Share(a, b)) => seq![(4u8, a), (4u8, b)],
        PartView::Prefix(PrefixView::Disk(d)) => seq![(5u8, seq![d])],
        PartView::Root => seq![(6u8, seq![])],
        PartView::CurrentDir => seq![(7u8, seq![])],
        PartView::ParentDir => seq![(8u8, seq![])],
        PartView::Name(name) => seq![(9u8, name)],
    }
}

/// Components as ranked bytes, in order.
pub open spec fn all_ranked(parts: Seq<PartView>) -> Seq<(u8, Seq<u8>)>
    decreases parts.len(),
{
    if parts.len() == 0 {
        seq![]
    } else {
        all_ranked(parts.drop_last()) + ranked(parts.last())
    }
}

/// The components of a path as ranked bytes.
pub open spec fn path_parts(p: PathBuf) -> Seq<(u8, Seq<u8>)> {
    all_ranked(path_content(p))
}

/// Ranked bytes as mathematical objects.
pub open spec fn part_views(v: Seq<(u8, Vec<u8>)>) -> Seq<(u8, Seq<u8>)> {
    Seq::new(v.len(), |i: int| (v[i].0, v[i].1@))
}

fn push_part(out: &mut Vec<(u8, Vec<u8>)>, rank: u8, bytes: Vec<u8>)
    ensures
        part_views(final(out)@) == part_views(old(out)@).push((rank, bytes@)),
{
    out.push((rank, bytes));
    assert(part_views(out@) == part_views(old(out)@).push((rank, bytes@)));
}

fn push_ranked(out: &mut Vec<(u8, Vec<u8>)>, part: PathPart<'_>)
    ensures
        part_views(final(out)@) == part_views(old(out)@) + ranked(part@),
{
    let ghost before = part_views(out@);
    match part {
        PathPart::Prefix(x) => match open_prefix(x) {
            PrefixParts::Verbatim(a) => push_part(out, 0, a),
            PrefixParts::VerbatimShare(a, b) => {
                push_part(out, 1, a);
                push_part(out, 1, b);
            },
            PrefixParts::VerbatimDisk(d) => {
                let letter = vec![d];
                assert(letter@ == seq![d]);
                push_part(out, 2, letter);
            },
            PrefixParts::Device(a) => push_part(out, 3, a),
            PrefixParts::Share(a, b) => {
                push_part(out, 4, a);
                push_part(out, 4, b);
            },
            PrefixParts::Disk(d) => {
                let letter = vec![d];
                assert(letter@ == seq![d]);
                push_part(out, 5, letter);
            },
        },
        PathPart::Root => push_part(out, 6, Vec::new()),
        PathPart::CurrentDir => push_part(out, 7, Vec::new()),
        PathPart::ParentDir => push_part(out, 8, Vec::new()),
        PathPart::Name(name) => push_part(out, 9, name),
    }
    assert(part_views(out@) == before + ranked(part@));
}

fn parts_of(p: &PathBuf) -> (r: Vec<(u8, Vec<u8>)>)
    ensures
        part_views(r@) == path_parts(*p),
{
    let components = path_components(p);
    let ghost all = components@;
    let ghost views = path_content(*p);
    let mut out: Vec<(u8, Vec<u8>)> = Vec::new();
    assert(views.take(0) == Seq::<PartView>::empty());
    assert(part_views(out@) == Seq::<(u8, Seq<u8>)>::empty());
    for part in it: components
        invariant
            it.seq() == all,
            views == content_views(all),
            part_views(out@) == all_ranked(views.take(it.index() as int)),
    {
        let ghost k = it.index() as int;
        proof {
            assert(views.take(k + 1).drop_last() == views.take(k));
            assert(views.take(k + 1).last() == all[k]@);
        }
        push_ranked(&mut out, part);
    }
    assert(views.take(views.len() as int) == views);
    out
}

/// `a` stands before `b` in the order of bytes.
pub open spec fn bytes_before(a: Seq<u8>, b: Seq<u8>) -> bool
    decreases a.len(),
{
    if b.len() == 0 {
        false
    } else if a.len() == 0 {
        true
    } else if a[0] == b[0] {
        bytes_before(a.skip(1), b.skip(1))
    } else {
        a[0] < b[0]
    }
}

/// Whether one component stands before another: by rank, then by bytes.
pub open spec fn part_before(a: (u8, Seq<u8>), b: (u8, Seq<u8>)) -> bool {
    if a.0 == b.0 {
        bytes_before(a.1, b.1)
    } else {
        a.0 < b.0
    }
}

/// Whether components stand before others: the first difference decides, and a
/// shorter path stands before its continuations.
pub open spec fn parts_before(a: Seq<(u8, Seq<u8>)>, b: Seq<(u8, Seq<u8>)>) -> bool
    decreases a.len(),
{
    if b.len() == 0 {
        false
    } else if a.len() == 0 {
        true
    } else if a[0] == b[0] {
        parts_before(a.skip(1), b.skip(1))
    } else {
        part_before(a[0], b[0])
    }
}

/// Whether two paths are equal: they have the same components.
pub open spec fn same_parts(a: PathBuf, b: PathBuf) -> bool {
    path_parts(a) == path_parts(b)
}

/// Whether path `a` stands before path `b`.
pub open spec fn path_before(a: PathBuf, b: PathBuf) -> bool {
    parts_before(path_parts(a), path_parts(b))
}

fn same_bytes(a: &Vec<u8>, b: &Vec<u8>) -> (r: bool)
    ensures
        r == (a@ == b@),
{
    if a.len() != b.len() {
        return false;
    }
    let mut i: usize = 0;
    while i < a.len()
        invariant
            i <= a@.len(),
            a@.len() == b@.len(),
            forall|j: int| 0 <= j < i ==> a@[j] == b@[j],
        decreases a@.len() - i,
    {
        if a[i] != b[i] {
            return false;
        }
        i += 1;
    }
    assert(a@ =~= b@);
    true
}

fn is_bytes_before(a: &Vec<u8>, b: &Vec<u8>) -> (r: bool)
    ensures
        r == bytes_before(a@, b@),
{
    let mut i: usize = 0;
    assert(a@.skip(0) == a@);
    assert(b@.skip(0) == b@);
    while i < a.len() && i < b.len() && a[i] == b[i]
        invariant
            i <= a@.len(),
            i <= b@.len(),
            bytes_before(a@, b@) == bytes_before(a@.skip(i as int), b@.skip(i as int)),
        decreases a@.len() - i,
    {
        proof {
            assert(a@.skip(i as int).skip(1) == a@.skip(i as int + 1));
            assert(b@.skip(i as int).skip(1) == b@.skip(i as int + 1));
        }
        i += 1;
    }
    if i >= b.len() {
        false
    } else if i >= a.len() {
        true
    } else {
        a[i] < b[i]
    }
}

/// Whether the two paths are equal.
pub fn paths_equal(a: &PathBuf, b: &PathBuf) -> (r: bool)
    ensures
        r == same_parts(*a, *b),
{
    let left = parts_of(a);
    let right = parts_of(b);
    assert(part_views(left@).len() == left@.len());
    assert(part_views(right@).len() == right@.len());
    if left.len() != right.len() {
        return false;
    }
    is_prefix(&left, &right)
}

fn is_prefix(a: &Vec<(u8, Vec<u8>)>, b: &Vec<(u8, Vec<u8>)>) -> (r: bool)
    ensures
        r == part_views(a@).is_prefix_of(part_views(b@)),
        a@.len() == b@.len() ==> r == (part_views(a@) == part_views(b@)),
{
    let ghost left = part_views(a@);
    let ghost right = part_views(b@);
    if a.len() > b.len() {
        return false;
    }
    let mut i: usize = 0;
    while i < a.len()
        invariant
            i <= a@.len(),
            a@.len() <= b@.len(),
            left == part_views(a@),
            right == part_views(b@),
            forall|j: int| 0 <= j < i ==> left[j] == right[j],
        decreases a@.len() - i,
    {
        assert(left[i as int] == (a@[i as int].0, a@[i as int].1@));
        assert(right[i as int] == (b@[i as int].0, b@[i as int].1@));
        if a[i].0 != b[i].0 || !same_bytes(&a[i].1, &b[i].1) {
            assert(left[i as int] != right[i as int]);
            proof {
                if left.is_prefix_of(right) {
                    assert(right.subrange(0, left.len() as int)[i as int] == right[i as int]);
                }
            }
            return false;
        }
        i += 1;
    }
    assert(right.subrange(0, left.len() as int) =~= left);
    assert(a@.len() == b@.len() ==> left =~= right);
    true
}

/// Whether path `p` lies at or below path `base`.
pub fn path_starts_with(p: &PathBuf, base: &PathBuf) -> (r: bool)
    ensures
        r == path_parts(*base).is_prefix_of(path_parts(*p)),
{
    is_prefix(&parts_of(base), &parts_of(p))
}

/// Whether path `a` stands before path `b`.
pub fn is_path_before(a: &PathBuf, b: &PathBuf) -> (r: bool)
    ensures
        r == path_before(*a, *b),
{
    let left = parts_of(a);
    let right = parts_of(b);
    let ghost x = part_views(left@);
    let ghost y = part_views(right@);
    let mut i: usize = 0;
    assert(x.skip(0) == x);
    assert(y.skip(0) == y);
    while i < left.len() && i < right.len()
        invariant
            i <= left@.len(),
            i <= right@.len(),
            x == part_views(left@),
            y == part_views(right@),
            x == path_parts(*a),
            y == path_parts(*b),
            parts_before(x, y) == parts_before(x.skip(i as int), y.skip(i as int)),
        decreases left@.len() - i,
    {
        proof {
            assert(x.skip(i as int)[0] == (left@[i as int].0, left@[i as int].1@));
            assert(y.skip(i as int)[0] == (right@[i as int].0, right@[i as int].1@));
            assert(x.skip(i as int).skip(1) == x.skip(i as int + 1));
            assert(y.skip(i as int).skip(1) == y.skip(i as int + 1));
        }
        if left[i].0 != right[i].0 {
            return left[i].0 < right[i].0;
        }
        if !same_bytes(&left[i].1, &right[i].1) {
            return is_bytes_before(&left[i].1, &right[i].1);
        }
        i += 1;
    }
    i < right.len()
}

/// Keyed entries in the order of their paths with `x` put behind those whose
/// paths are not greater.
pub open spec fn placed_by_path<T>(sorted: Seq<(PathBuf, T)>, x: (PathBuf, T)) -> Seq<(PathBuf, T)>
    decreases sorted.len(),
{
    if sorted.len() == 0 {
        seq![x]
    } else if path_before(x.0, sorted.last().0) {
        placed_by_path(sorted.drop_last(), x).push(sorted.last())
    } else {
        sorted.push(x)
    }
}

/// Keyed entries in the order of their paths; those with equal paths stay in
/// the order in which they came.
pub open spec fn sorted_by_path<T>(s: Seq<(PathBuf, T)>) -> Seq<(PathBuf, T)>
    decreases s.len(),
{
    if s.len() == 0 {
        s
    } else {
        placed_by_path(sorted_by_path(s.drop_last()), s.last())
    }
}

/// The keyed entries in the order of their paths.
pub fn sort_by_path<T>(v: Vec<(PathBuf, T)>) -> (r: Vec<(PathBuf, T)>)
    ensures
        r@ == sorted_by_path(v@),
{
    let ghost all = v@;
    let mut out: Vec<(PathBuf, T)> = Vec::new();
    assert(all.take(0) == Seq::<(PathBuf, T)>::empty());
    for x in it: v
        invariant
            it.seq() == all,
            out@ == sorted_by_path(all.take(it.index() as int)),
    {
        let ghost k = it.index() as int;
        let ghost before = out@;
        let mut i: usize = out.len();
        assert(before.take(i as int) == before);
        assert(placed_by_path(before, x) == placed_by_path(before.take(i as int), x) + before.skip(
            i as int,
        ));
        while i > 0 && is_path_before(&x.0, &out[i - 1].0)
            invariant
                i <= out@.len(),
                out@ == before,
                placed_by_path(before, x) == placed_by_path(before.take(i as int), x)
                    + before.skip(i as int),
            decreases i,
        {
            proof {
                let shorter = before.take(i as int - 1);
                assert(before.take(i as int).drop_last() == shorter);
                assert(before.take(i as int).last() == before[i as int - 1]);
                assert(placed_by_path(before.take(i as int), x) + before.skip(i as int)
                    == placed_by_path(shorter, x) + before.skip(i as int - 1));
            }
            i -= 1;
        }
        proof {
            if i > 0 {
                assert(before.take(i as int).last() == before[i as int - 1]);
            } else {
                assert(before.take(0) == Seq::<(PathBuf, T)>::empty());
            }
            assert(placed_by_path(before.take(i as int), x) == before.take(i as int).push(x));
            assert(all.take(k + 1).drop_last() == all.take(k));
            assert(all.take(k + 1).last() == all[k]);
        }
        out.insert(i, x);
        assert(before.insert(i as int, x) == before.take(i as int).push(x) + before.skip(i as int));
    }
    assert(all.take(all.len() as int) == all);
    out
}

proof fn bytes_before_is_an_order(a: Seq<u8>, b: Seq<u8>, c: Seq<u8>)
    ensures
        !(bytes_before(a, b) && bytes_before(b, a)),
        a == b || bytes_before(a, b) || bytes_before(b, a),
        bytes_before(a, b) && bytes_before(b, c) ==> bytes_before(a, c),
        a == b ==> !bytes_before(a, b),
    decreases a.len(),
{
    if a.len() == 0 && b.len() == 0 {
        assert(a == b);
    }
    if a.len() > 0 && b.len() > 0 && a[0] == b[0] {
        let rest = if c.len() > 0 {
            c.skip(1)
        } else {
            c
        };
        bytes_before_is_an_order(a.skip(1), b.skip(1), rest);
        if a.skip(1) == b.skip(1) {
            assert(a == seq![a[0]] + a.skip(1));
            assert(b == seq![b[0]] + b.skip(1));
        }
    }
}

proof fn parts_before_is_an_order(
    a: Seq<(u8, Seq<u8>)>,
    b: Seq<(u8, Seq<u8>)>,
    c: Seq<(u8, Seq<u8>)>,
)
    ensures
        !(parts_before(a, b) && parts_before(b, a)),
        a == b || parts_before(a, b) || parts_before(b, a),
        parts_before(a, b) && parts_before(b, c) ==> parts_before(a, c),
        a == b ==> !parts_before(a, b),
    decreases a.len(),
{
    if a.len() == 0 && b.len() == 0 {
        assert(a == b);
    }
    if a.len() > 0 && b.len() > 0 {
        if c.len() > 0 {
            bytes_before_is_an_order(a[0].1, b[0].1, c[0].1);
            bytes_before_is_an_order(b[0].1, c[0].1, a[0].1);
        } else {
            bytes_before_is_an_order(a[0].1, b[0].1, a[0].1);
        }
        if a[0] == b[0] {
            let rest = if c.len() > 0 {
                c.skip(1)
            } else {
                c
            };
            parts_before_is_an_order(a.skip(1), b.skip(1), rest);
            if a.skip(1) == b.skip(1) {
                assert(a == seq![a[0]] + a.skip(1));
                assert(b == seq![b[0]] + b.skip(1));
            }
        }
    }
}

/// The order of paths is one: of two paths with different components exactly
/// one stands before the other, and it is transitive.
pub proof fn path_before_is_an_order(a: PathBuf, b: PathBuf, c: PathBuf)
    ensures
        !(path_before(a, b) && path_before(b, a)),
        same_parts(a, b) || path_before(a, b) || path_before(b, a),
        same_parts(a, b) ==> !path_before(a, b),
        path_before(a, b) && path_before(b, c) ==> path_before(a, c),
{
    parts_before_is_an_order(path_parts(a), path_parts(b), path_parts(c));
}

/// No entry's path stands before that of an earlier one.
pub open spec fn paths_in_order<T>(s: Seq<(PathBuf, T)>) -> bool {
    forall|i: int, j: int|
        0 <= i < j < s.len() ==> !path_before((#[trigger] s[j]).0, (#[trigger] s[i]).0)
}

proof fn placed_by_path_facts<T>(s: Seq<(PathBuf, T)>, x: (PathBuf, T))
    ensures
        placed_by_path(s, x).to_multiset() == s.to_multiset().insert(x),
        paths_in_order(s) ==> paths_in_order(placed_by_path(s, x)),
    decreases s.len(),
{
    broadcast use vstd::seq_lib::group_to_multiset_ensures;

    if s.len() == 0 {
        assert(s.push(x) == seq![x]);
    } else if path_before(x.0, s.last().0) {
        let front = s.drop_last();
        placed_by_path_facts(front, x);
        assert(s == front.push(s.last()));
        assert(placed_by_path(s, x).to_multiset() =~= s.to_multiset().insert(x));
        if paths_in_order(s) {
            let p = placed_by_path(front, x);
            assert forall|i: int, j: int|
                0 <= i < j < placed_by_path(s, x).len() implies !path_before(
                (#[trigger] placed_by_path(s, x)[j]).0,
                (#[trigger] placed_by_path(s, x)[i]).0,
            ) by {
                if j < p.len() {
                    assert(!path_before(p[j].0, p[i].0));
                } else {
                    assert(p.to_multiset().contains(p[i]));
                    if p[i] == x {
                        path_before_is_an_order(x.0, s.last().0, x.0);
                    } else {
                        assert(front.to_multiset().contains(p[i]));
                        let k = choose|k: int| 0 <= k < front.len() && front[k] == p[i];
                        assert(s[k] == p[i]);
                        assert(!path_before(s[s.len() - 1].0, s[k].0));
                    }
                }
            }
        }
    } else {
        if paths_in_order(s) {
            assert forall|i: int, j: int| 0 <= i < j < s.push(x).len() implies !path_before(
                (#[trigger] s.push(x)[j]).0,
                (#[trigger] s.push(x)[i]).0,
            ) by {
                if j == s.len() && i < s.len() - 1 {
                    assert(!path_before(s[s.len() - 1].0, s[i].0));
                    path_before_is_an_order(s[i].0, s.last().0, x.0);
                    path_before_is_an_order(x.0, s[i].0, s.last().0);
                }
            }
        }
    }
}

/// Sorting by path gives the same entries, in order.
pub proof fn sorted_by_path_is_in_order<T>(s: Seq<(PathBuf, T)>)
    ensures
        paths_in_order(sorted_by_path(s)),
        sorted_by_path(s).to_multiset() == s.to_multiset(),
    decreases s.len(),
{
    broadcast use vstd::seq_lib::group_to_multiset_ensures;

    if s.len() > 0 {
        sorted_by_path_is_in_order(s.drop_last());
        placed_by_path_facts(sorted_by_path(s.drop_last()), s.last());
        assert(s == s.drop_last().push(s.last()));
    }
}

/// The first component in which two paths differ decides which stands first; a
/// path stands before everything under it.
pub proof fn first_component_decides(
    common: Seq<(u8, Seq<u8>)>,
    x: (u8, Seq<u8>),
    y: (u8, Seq<u8>),
    a: Seq<(u8, Seq<u8>)>,
    b: Seq<(u8, Seq<u8>)>,
)
    ensures
        x.0 < y.0 || (x.0 == y.0 && bytes_before(x.1, y.1)) ==> parts_before(
            common.push(x) + a,
            common.push(y) + b,
        ),
        parts_before(common, common.push(x) + a),
    decreases common.len(),
{
    let first = common.push(x) + a;
    let second = common.push(y) + b;
    if common.len() > 0 {
        let rest = common.skip(1);
        first_component_decides(rest, x, y, a, b);
        assert(first.skip(1) == rest.push(x) + a);
        assert(second.skip(1) == rest.push(y) + b);
    } else if x.0 == y.0 && bytes_before(x.1, y.1) {
        bytes_before_is_an_order(x.1, y.1, x.1);
        assert(x != y);
    }
}

/// The first byte in which two names differ decides which stands first, and a
/// name stands before its continuations.
pub proof fn first_byte_decides(common: Seq<u8>, x: u8, y: u8, a: Seq<u8>, b: Seq<u8>)
    ensures
        x < y ==> bytes_before(common.push(x) + a, common.push(y) + b),
        bytes_before(common, common.push(x) + a),
    decreases common.len(),
{
    let first = common.push(x) + a;
    let second = common.push(y) + b;
    if common.len() > 0 {
        let rest = common.skip(1);
        first_byte_decides(rest, x, y, a, b);
        assert(first.skip(1) == rest.push(x) + a);
        assert(second.skip(1) == rest.push(y) + b);
    }
}

/// Components of different kinds are never the same, and of one kind they are
/// the same only where they are equal: nothing of a path is lost by ranking it.
pub proof fn components_are_told_apart(a: PartView, b: PartView)
    requires
        ranked(a) == ranked(b),
    ensures
        a == b,
{
    assert(ranked(a)[0] == ranked(b)[0]);
    assert(ranked(a)[0].0 == ranked(b)[0].0 && ranked(a)[0].1 == ranked(b)[0].1);
    match (a, b) {
        (
            PartView::Prefix(PrefixView::VerbatimShare(_, _)),
            PartView::Prefix(PrefixView::VerbatimShare(_, _)),
        ) => {
            assert(ranked(a)[1] == ranked(b)[1]);
        },
        (
            PartView::Prefix(PrefixView::Share(_, _)),
            PartView::Prefix(PrefixView::Share(_, _)),
        ) => {
            assert(ranked(a)[1] == ranked(b)[1]);
        },
        (
            PartView::Prefix(PrefixView::VerbatimDisk(x)),
            PartView::Prefix(PrefixView::VerbatimDisk(y)),
        ) => {
            assert(seq![x][0] == seq![y][0]);
        },
        (PartView::Prefix(PrefixView::Disk(x)), PartView::Prefix(PrefixView::Disk(y))) => {
            assert(seq![x][0] == seq![y][0]);
        },
        _ => {},
    }
}

/// The components of a path are ranked one after the other.
pub proof fn components_keep_their_order(first: Seq<PartView>, second: Seq<PartView>, one: PartView)
    ensures
        all_ranked(first + second) == all_ranked(first) + all_ranked(second),
        all_ranked(seq![one]) == ranked(one),
    decreases second.len(),
{
    reveal_with_fuel(all_ranked, 2);
    assert(seq![one].drop_last() == Seq::<PartView>::empty());
    assert(Seq::<(u8, Seq<u8>)>::empty() + ranked(one) == ranked(one));
    if second.len() == 0 {
        assert(first + second == first);
        assert(all_ranked(first) + Seq::<(u8, Seq<u8>)>::empty() == all_ranked(first));
    } else {
        components_keep_their_order(first, second.drop_last(), one);
        assert((first + second).drop_last() == first + second.drop_last());
        let a = all_ranked(first);
        let b = all_ranked(second.drop_last());
        assert(a + b + ranked(second.last()) == a + (b + ranked(second.last())));
    }
}

} // verus!
