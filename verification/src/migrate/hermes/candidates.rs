//! Which stores are looked at, and in which order.

use std::path::PathBuf;
use crate::migrate::hermes::paths::{path_before, path_parts, paths_equal, same_parts, sort_by_path, sorted_by_path, sorted_by_path_is_in_order};
use vstd::prelude::*;

verus! {

/// The directories among listed entries, in the order given.
pub open spec fn directories(entries: Seq<(PathBuf, bool)>) -> Seq<(PathBuf, ())>
    decreases entries.len(),
{
    if entries.len() == 0 {
        seq![]
    } else if entries.last().1 {
        directories(entries.drop_last()).push((entries.last().0, ()))
    } else {
        directories(entries.drop_last())
    }
}

/// The paths of keyed entries.
pub open spec fn paths_of<T>(s: Seq<(PathBuf, T)>) -> Seq<PathBuf> {
    Seq::new(s.len(), |i: int| s[i].0)
}

/// The profiles of a Hermes home: the home itself, then its named profiles in
/// order. An entry that is not itself a directory, such as a link to one, is
/// none.
pub open spec fn profile_dirs(home: PathBuf, entries: Option<Seq<(PathBuf, bool)>>) -> Seq<PathBuf> {
    match entries {
        Some(listed) => seq![home] + paths_of(sorted_by_path(directories(listed))),
        None => seq![home],
    }
}

/// What a listing holds.
pub open spec fn listing(entries: Option<Vec<(PathBuf, bool)>>) -> Option<Seq<(PathBuf, bool)>> {
    match entries {
        Some(v) => Some(v@),
        None => None,
    }
}

/// The profiles of the Hermes home, given the entries of its `profiles`
/// directory with whether each is a directory; none when it cannot be listed.
pub fn legacy_profile_dirs(home: PathBuf, entries: Option<Vec<(PathBuf, bool)>>) -> (r: Vec<
    PathBuf,
>)
    ensures
        r@ == profile_dirs(home, listing(entries)),
{
    let mut out: Vec<PathBuf> = Vec::new();
    out.push(home);
    assert(out@ == seq![home]);
    let entries = match entries {
        Some(v) => v,
        None => return out,
    };
    let ghost all = entries@;
    let mut named: Vec<(PathBuf, ())> = Vec::new();
    assert(all.take(0) == Seq::<(PathBuf, bool)>::empty());
    for entry in it: entries
        invariant
            it.seq() == all,
            named@ == directories(all.take(it.index() as int)),
    {
        proof {
            let k = it.index() as int;
            assert(all.take(k + 1).drop_last() == all.take(k));
            assert(all.take(k + 1).last() == all[k]);
        }
        if entry.1 {
            named.push((entry.0, ()));
        }
    }
    assert(all.take(all.len() as int) == all);
    let sorted = sort_by_path(named);
    let ghost ordered = sorted@;
    for entry in it: sorted
        invariant
            it.seq() == ordered,
            out@ == seq![home] + paths_of(ordered).take(it.index() as int),
    {
        proof {
            let k = it.index() as int;
            assert(paths_of(ordered).take(k + 1) == paths_of(ordered).take(k).push(entry.0));
        }
        out.push(entry.0);
    }
    assert(paths_of(ordered).take(ordered.len() as int) == paths_of(ordered));
    out
}

/// Index of the first profile that a project root is.
pub open spec fn profile_index(profiles: Seq<PathBuf>, root: PathBuf) -> Option<int>
    decreases profiles.len(),
{
    if profiles.len() == 0 {
        None
    } else if same_parts(profiles[0], root) {
        Some(0)
    } else {
        match profile_index(profiles.skip(1), root) {
            Some(i) => Some(i + 1),
            None => None,
        }
    }
}

proof fn profile_index_at(profiles: Seq<PathBuf>, root: PathBuf, i: int)
    requires
        0 <= i <= profiles.len(),
        forall|j: int| 0 <= j < i ==> !same_parts(#[trigger] profiles[j], root),
        i < profiles.len() ==> same_parts(profiles[i], root),
    ensures
        profile_index(profiles, root) == if i < profiles.len() {
            Some(i)
        } else {
            None
        },
    decreases profiles.len(),
{
    if i > 0 {
        assert(!same_parts(profiles[0], root));
        assert forall|j: int| 0 <= j < i - 1 implies !same_parts(
            #[trigger] profiles.skip(1)[j],
            root,
        ) by {
            assert(profiles.skip(1)[j] == profiles[j + 1]);
        }
        profile_index_at(profiles.skip(1), root, i - 1);
    }
}

/// Index of the first profile that the project root of a store's manifest is,
/// all paths in canonical form.
pub fn find_profile(profiles: &Vec<PathBuf>, root: &PathBuf) -> (r: Option<usize>)
    ensures
        match r {
            Some(i) => i < profiles@.len() && profile_index(profiles@, *root) == Some(i as int),
            None => profile_index(profiles@, *root) is None,
        },
{
    let mut i: usize = 0;
    while i < profiles.len()
        invariant
            i <= profiles@.len(),
            forall|j: int| 0 <= j < i ==> !same_parts(#[trigger] profiles@[j], *root),
        decreases profiles@.len() - i,
    {
        if paths_equal(&profiles[i], root) {
            proof {
                profile_index_at(profiles@, *root, i as int);
            }
            return Some(i);
        }
        i += 1;
    }
    proof {
        profile_index_at(profiles@, *root, i as int);
    }
    None
}

/// The profile that a store belongs to, and the store's canonical path.
pub struct StoreOwner {
    pub profile_dir: PathBuf,
    pub canonical: PathBuf,
}

/// A place where a store may be: its path, whether there is a file, and whose
/// it would be.
pub struct ScannedStore {
    pub source_db: PathBuf,
    pub is_file: bool,
    pub owner: StoreOwner,
}

/// The stores among scanned places.
pub open spec fn present(scanned: Seq<ScannedStore>) -> Seq<(PathBuf, StoreOwner)>
    decreases scanned.len(),
{
    if scanned.len() == 0 {
        seq![]
    } else if scanned.last().is_file {
        present(scanned.drop_last()).push((scanned.last().source_db, scanned.last().owner))
    } else {
        present(scanned.drop_last())
    }
}

/// Stores without those that are the same file as the one before them.
pub open spec fn without_repeats(s: Seq<(PathBuf, StoreOwner)>) -> Seq<(PathBuf, StoreOwner)>
    decreases s.len(),
{
    if s.len() == 0 {
        s
    } else {
        let kept = without_repeats(s.drop_last());
        if kept.len() > 0 && same_parts(s.last().1.canonical, kept.last().1.canonical) {
            kept
        } else {
            kept.push(s.last())
        }
    }
}

/// The stores to migrate: those that are there, in the order of their paths,
/// neighbours that are the same file once.
pub open spec fn store_candidates(scanned: Seq<ScannedStore>) -> Seq<(PathBuf, StoreOwner)> {
    without_repeats(sorted_by_path(present(scanned)))
}

/// The stores to migrate.
pub fn legacy_store_candidates(scanned: Vec<ScannedStore>) -> (r: Vec<(PathBuf, StoreOwner)>)
    ensures
        r@ == store_candidates(scanned@),
{
    let ghost all = scanned@;
    let mut found: Vec<(PathBuf, StoreOwner)> = Vec::new();
    assert(all.take(0) == Seq::<ScannedStore>::empty());
    for store in it: scanned
        invariant
            it.seq() == all,
            found@ == present(all.take(it.index() as int)),
    {
        proof {
            let k = it.index() as int;
            assert(all.take(k + 1).drop_last() == all.take(k));
            assert(all.take(k + 1).last() == all[k]);
        }
        if store.is_file {
            found.push((store.source_db, store.owner));
        }
    }
    assert(all.take(all.len() as int) == all);
    let sorted = sort_by_path(found);
    let ghost ordered = sorted@;
    let mut out: Vec<(PathBuf, StoreOwner)> = Vec::new();
    assert(ordered.take(0) == Seq::<(PathBuf, StoreOwner)>::empty());
    for store in it: sorted
        invariant
            it.seq() == ordered,
            out@ == without_repeats(ordered.take(it.index() as int)),
    {
        proof {
            let k = it.index() as int;
            assert(ordered.take(k + 1).drop_last() == ordered.take(k));
            assert(ordered.take(k + 1).last() == ordered[k]);
        }
        let repeat = if out.len() > 0 {
            paths_equal(&store.1.canonical, &out[out.len() - 1].1.canonical)
        } else {
            false
        };
        if !repeat {
            out.push(store);
        }
    }
    assert(ordered.take(ordered.len() as int) == ordered);
    out
}

/// No two neighbours among the stores to migrate are the same file.
pub proof fn neighbours_differ(s: Seq<(PathBuf, StoreOwner)>, i: int)
    requires
        0 <= i,
        i + 1 < without_repeats(s).len(),
    ensures
        !same_parts(
            without_repeats(s)[i + 1].1.canonical,
            without_repeats(s)[i].1.canonical,
        ),
    decreases s.len(),
{
    let kept = without_repeats(s.drop_last());
    if i + 1 < kept.len() {
        neighbours_differ(s.drop_last(), i);
    }
}

/// Dropping repeats loses no file: each store has one with the same canonical
/// path among those that are kept.
pub proof fn no_file_is_lost(s: Seq<(PathBuf, StoreOwner)>, i: int)
    requires
        0 <= i < s.len(),
    ensures
        exists|k: int|
            0 <= k < without_repeats(s).len() && same_parts(
                (#[trigger] without_repeats(s)[k]).1.canonical,
                s[i].1.canonical,
            ),
    decreases s.len(),
{
    let kept = without_repeats(s.drop_last());
    if i < s.len() - 1 {
        no_file_is_lost(s.drop_last(), i);
        let k = choose|k: int|
            0 <= k < kept.len() && same_parts(
                (#[trigger] kept[k]).1.canonical,
                s.drop_last()[i].1.canonical,
            );
        assert(without_repeats(s)[k] == kept[k]);
    } else if kept.len() > 0 && same_parts(s.last().1.canonical, kept.last().1.canonical) {
        assert(without_repeats(s)[kept.len() - 1] == kept.last());
    } else {
        assert(without_repeats(s)[kept.len() as int] == s.last());
    }
}

proof fn directories_are_listed(entries: Seq<(PathBuf, bool)>, p: PathBuf)
    ensures
        directories(entries).contains((p, ())) <==> entries.contains((p, true)),
    decreases entries.len(),
{
    if entries.len() > 0 {
        let front = entries.drop_last();
        directories_are_listed(front, p);
        let earlier = directories(front);
        let all = directories(entries);
        if entries.contains((p, true)) {
            let i = choose|i: int| 0 <= i < entries.len() && entries[i] == (p, true);
            if i < front.len() {
                assert(front[i] == (p, true));
                let k = choose|k: int| 0 <= k < earlier.len() && earlier[k] == (p, ());
                assert(all[k] == (p, ()));
            } else {
                assert(all.last() == (p, ()));
            }
        }
        if all.contains((p, ())) {
            let k = choose|k: int| 0 <= k < all.len() && all[k] == (p, ());
            if k < earlier.len() {
                assert(earlier[k] == (p, ()));
                let i = choose|i: int| 0 <= i < front.len() && front[i] == (p, true);
                assert(entries[i] == (p, true));
            } else {
                assert(entries[entries.len() - 1] == (p, true));
            }
        }
    }
}

/// The profiles are the home itself, which comes first, and every directory
/// among its profiles, and these stand in the order of their paths.
pub proof fn profiles_are_home_and_directories(
    home: PathBuf,
    entries: Seq<(PathBuf, bool)>,
    p: PathBuf,
)
    ensures
        profile_dirs(home, None) == seq![home],
        profile_dirs(home, Some(entries))[0] == home,
        profile_dirs(home, Some(entries)).contains(p) <==> p == home || entries.contains((p, true)),
        forall|i: int, j: int|
            1 <= i < j < profile_dirs(home, Some(entries)).len() ==> !path_before(
                #[trigger] profile_dirs(home, Some(entries))[j],
                #[trigger] profile_dirs(home, Some(entries))[i],
            ),
{
    let found = directories(entries);
    let ordered = sorted_by_path(found);
    sorted_by_path_is_in_order(found);
    same_members(ordered, found, (p, ()));
    directories_are_listed(entries, p);
    let all = profile_dirs(home, Some(entries));
    assert(all[0] == home);
    if ordered.contains((p, ())) {
        let k = choose|k: int| 0 <= k < ordered.len() && ordered[k] == (p, ());
        assert(all[k + 1] == p);
    }
    if all.contains(p) && p != home {
        let k = choose|k: int| 0 <= k < all.len() && all[k] == p;
        assert(ordered[k - 1] == (p, ()));
    }
    assert forall|i: int, j: int| 1 <= i < j < all.len() implies !path_before(
        #[trigger] all[j],
        #[trigger] all[i],
    ) by {
        assert(all[i] == ordered[i - 1].0 && all[j] == ordered[j - 1].0);
    }
}

proof fn same_members<T>(a: Seq<T>, b: Seq<T>, x: T)
    requires
        a.to_multiset() == b.to_multiset(),
    ensures
        a.contains(x) <==> b.contains(x),
{
    broadcast use vstd::seq_lib::group_to_multiset_ensures;

    assert(a.contains(x) <==> a.to_multiset().count(x) > 0);
    assert(b.contains(x) <==> b.to_multiset().count(x) > 0);
}

/// A profile is found at its first place, whatever way its path is written.
pub proof fn profiles_are_found(profiles: Seq<PathBuf>, root: PathBuf)
    ensures
        profile_index(profiles, root) matches Some(i) ==> 0 <= i < profiles.len() && path_parts(
            profiles[i],
        ) == path_parts(root) && forall|j: int|
            0 <= j < i ==> path_parts(#[trigger] profiles[j]) != path_parts(root),
        profile_index(profiles, root) is None ==> forall|j: int|
            0 <= j < profiles.len() ==> path_parts(#[trigger] profiles[j]) != path_parts(root),
    decreases profiles.len(),
{
    if profiles.len() > 0 && !same_parts(profiles[0], root) {
        let rest = profiles.skip(1);
        profiles_are_found(rest, root);
        if let Some(i) = profile_index(rest, root) {
            assert forall|j: int| 0 <= j < i + 1 implies path_parts(#[trigger] profiles[j])
                != path_parts(root) by {
                if j > 0 {
                    assert(rest[j - 1] == profiles[j]);
                }
            }
        } else {
            assert forall|j: int| 0 <= j < profiles.len() implies path_parts(
                #[trigger] profiles[j],
            ) != path_parts(root) by {
                if j > 0 {
                    assert(rest[j - 1] == profiles[j]);
                }
            }
        }
    }
}

proof fn present_stores_are_files(scanned: Seq<ScannedStore>, x: (PathBuf, StoreOwner))
    ensures
        present(scanned).contains(x) <==> exists|i: int|
            0 <= i < scanned.len() && (#[trigger] scanned[i]).is_file && (
                scanned[i].source_db,
                scanned[i].owner,
            ) == x,
    decreases scanned.len(),
{
    if scanned.len() > 0 {
        let front = scanned.drop_last();
        present_stores_are_files(front, x);
        let earlier = present(front);
        let all = present(scanned);
        let last = scanned.last();
        if exists|i: int|
            0 <= i < scanned.len() && (#[trigger] scanned[i]).is_file && (
                scanned[i].source_db,
                scanned[i].owner,
            ) == x {
            let i = choose|i: int|
                0 <= i < scanned.len() && (#[trigger] scanned[i]).is_file && (
                    scanned[i].source_db,
                    scanned[i].owner,
                ) == x;
            if i < front.len() {
                assert(front[i] == scanned[i]);
                let k = choose|k: int| 0 <= k < earlier.len() && earlier[k] == x;
                assert(all[k] == x);
            } else {
                assert(all.last() == x);
            }
        }
        if all.contains(x) {
            let k = choose|k: int| 0 <= k < all.len() && all[k] == x;
            if k < earlier.len() {
                assert(earlier[k] == x);
                let i = choose|i: int|
                    0 <= i < front.len() && (#[trigger] front[i]).is_file && (
                        front[i].source_db,
                        front[i].owner,
                    ) == x;
                assert(scanned[i] == front[i]);
            } else {
                assert(scanned[scanned.len() - 1] == last);
            }
        }
    }
}

proof fn kept_are_given(s: Seq<(PathBuf, StoreOwner)>, x: (PathBuf, StoreOwner))
    requires
        without_repeats(s).contains(x),
    ensures
        s.contains(x),
    decreases s.len(),
{
    if s.len() > 0 {
        let front = s.drop_last();
        let kept = without_repeats(front);
        let all = without_repeats(s);
        let k = choose|k: int| 0 <= k < all.len() && all[k] == x;
        if k < kept.len() {
            assert(kept[k] == x);
            kept_are_given(front, x);
            let i = choose|i: int| 0 <= i < front.len() && front[i] == x;
            assert(s[i] == x);
        } else {
            assert(s[s.len() - 1] == x);
        }
    }
}

/// Every candidate is a file that was found, with its own owner; and every file
/// that was found is a candidate, or another path to it is.
pub proof fn candidates_are_the_files_found(scanned: Seq<ScannedStore>, k: int, i: int)
    ensures
        0 <= k < store_candidates(scanned).len() ==> exists|j: int|
            0 <= j < scanned.len() && (#[trigger] scanned[j]).is_file && (
                scanned[j].source_db,
                scanned[j].owner,
            ) == store_candidates(scanned)[k],
        0 <= i < scanned.len() && scanned[i].is_file ==> exists|m: int|
            0 <= m < store_candidates(scanned).len() && same_parts(
                (#[trigger] store_candidates(scanned)[m]).1.canonical,
                scanned[i].owner.canonical,
            ),
{
    let files = present(scanned);
    let ordered = sorted_by_path(files);
    sorted_by_path_is_in_order(files);
    let chosen = store_candidates(scanned);
    if 0 <= k < chosen.len() {
        assert(chosen.contains(chosen[k]));
        kept_are_given(ordered, chosen[k]);
        same_members(ordered, files, chosen[k]);
        present_stores_are_files(scanned, chosen[k]);
    }
    if 0 <= i < scanned.len() && scanned[i].is_file {
        let x = (scanned[i].source_db, scanned[i].owner);
        present_stores_are_files(scanned, x);
        same_members(ordered, files, x);
        let j = choose|j: int| 0 <= j < ordered.len() && ordered[j] == x;
        no_file_is_lost(ordered, j);
    }
}

} // verus!
