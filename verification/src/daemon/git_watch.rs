//! What the watcher of git metadata keeps of each project.

use crate::json::string_option;
use crate::text::{chars_of, contains_text, copy_text, same_text, stands_at, text_between, texts, texts_push};
use vstd::prelude::*;

verus! {

/// The age in seconds beyond which a heartbeat counts as lost.
pub const HEARTBEAT_STALE_SECS: u64 = 300;

/// Names of branches, each once.
#[derive(Debug)]
pub struct BranchSet {
    names: Vec<String>,
}

impl View for BranchSet {
    type V = Seq<Seq<char>>;

    closed spec fn view(&self) -> Seq<Seq<char>> {
        texts(self.names@)
    }
}

/// Names with one more, unless it is there already.
pub open spec fn with_name(names: Seq<Seq<char>>, name: Seq<char>) -> Seq<Seq<char>> {
    if names.contains(name) {
        names
    } else {
        names.push(name)
    }
}

impl BranchSet {
    #[verifier::type_invariant]
    spec fn distinct(self) -> bool {
        texts(self.names@).no_duplicates()
    }

    /// No names.
    pub fn new() -> (r: BranchSet)
        ensures
            r@ == Seq::<Seq<char>>::empty(),
    {
        let names: Vec<String> = Vec::new();
        assert(texts(names@) == Seq::<Seq<char>>::empty());
        BranchSet { names }
    }

    /// How many names there are; no two are equal.
    pub fn len(&self) -> (r: usize)
        ensures
            r == self@.len(),
            self@.no_duplicates(),
    {
        proof {
            use_type_invariant(self);
        }
        self.names.len()
    }

    /// Whether there is no name.
    pub fn is_empty(&self) -> (r: bool)
        ensures
            r == (self@.len() == 0),
    {
        self.names.len() == 0
    }

    /// Whether the name is there.
    pub fn contains(&self, name: &str) -> (r: bool)
        ensures
            r == self@.contains(name@),
    {
        let mut i: usize = 0;
        while i < self.names.len()
            invariant
                i <= self.names@.len(),
                forall|j: int| 0 <= j < i ==> (#[trigger] self@[j]) != name@,
            decreases self.names@.len() - i,
        {
            assert(self@[i as int] == self.names@[i as int]@);
            if same_text(self.names[i].as_str(), name) {
                return true;
            }
            i += 1;
        }
        false
    }

    /// Adds the name, unless it is there already; whether it was added.
    pub fn insert(&mut self, name: String) -> (r: bool)
        ensures
            final(self)@ == with_name(old(self)@, name@),
            r == !old(self)@.contains(name@),
    {
        if self.contains(name.as_str()) {
            return false;
        }
        proof {
            use_type_invariant(&*self);
            texts_push(self.names@, name);
        }
        let mut names: Vec<String> = Vec::new();
        assert(texts(names@) == Seq::<Seq<char>>::empty());
        std::mem::swap(&mut names, &mut self.names);
        names.push(name);
        self.names = names;
        true
    }
}

/// What has changed in a project since it was last brought up to date.
#[derive(Debug)]
pub struct DirtySet {
    pub dirty: bool,
    pub branches: BranchSet,
    pub gc_eligible: bool,
}

/// What a [`DirtySet`] holds.
pub struct DirtyView {
    pub dirty: bool,
    pub branches: Seq<Seq<char>>,
    pub gc_eligible: bool,
}

impl View for DirtySet {
    type V = DirtyView;

    open spec fn view(&self) -> DirtyView {
        DirtyView {
            dirty: self.dirty,
            branches: self.branches@,
            gc_eligible: self.gc_eligible,
        }
    }
}

/// Nothing has changed.
pub open spec fn clean() -> DirtyView {
    DirtyView { dirty: false, branches: seq![], gc_eligible: false }
}

impl Default for DirtySet {
    fn default() -> (r: Self)
        ensures
            r@ == clean(),
    {
        DirtySet { dirty: false, branches: BranchSet::new(), gc_eligible: false }
    }
}

/// What has to be done to bring a project up to date.
#[derive(Debug)]
pub struct DirtyPlan {
    pub dirty: bool,
    pub branches: BranchSet,
    pub gc_eligible: bool,
}

impl View for DirtyPlan {
    type V = DirtyView;

    open spec fn view(&self) -> DirtyView {
        DirtyView {
            dirty: self.dirty,
            branches: self.branches@,
            gc_eligible: self.gc_eligible,
        }
    }
}

impl DirtyPlan {
    /// Whether there is nothing to do.
    pub fn is_empty(&self) -> (r: bool)
        ensures
            r == (self@ == clean()),
    {
        assert(self@.branches.len() == 0 ==> self@.branches =~= clean().branches);
        !self.dirty && self.branches.is_empty() && !self.gc_eligible
    }
}

/// The branch whose reference a path in the git directory is: what follows the
/// first `refs/heads/` in it.
pub open spec fn branch_of(path: Seq<char>) -> Option<Seq<char>> {
    branch_from(path, 0)
}

/// The branch that follows the first `/refs/heads/` at or after `at`.
pub open spec fn branch_from(path: Seq<char>, at: int) -> Option<Seq<char>>
    decreases path.len() - at,
{
    if at < 0 || at >= path.len() {
        None
    } else if stands_at(path, "/refs/heads/"@, at) {
        let name = path.skip(at + "/refs/heads/"@.len());
        if name.len() > 0 {
            Some(name)
        } else {
            None
        }
    } else {
        branch_from(path, at + 1)
    }
}

/// What is known of a change in the git directory: whether something was
/// removed, and the paths.
pub struct GitEvent {
    pub removed: bool,
    pub paths: Vec<String>,
}

/// The branches after a change at paths.
pub open spec fn branches_after(branches: Seq<Seq<char>>, paths: Seq<Seq<char>>) -> Seq<Seq<char>>
    decreases paths.len(),
{
    if paths.len() == 0 {
        branches
    } else {
        let earlier = branches_after(branches, paths.drop_last());
        match branch_of(paths.last()) {
            Some(name) => with_name(earlier, name),
            None => earlier,
        }
    }
}

/// What has changed after one more change: the project is dirty, the branches
/// whose references changed are noted, and a removal calls for cleaning up.
pub open spec fn marked(set: DirtyView, removed: bool, paths: Seq<Seq<char>>) -> DirtyView {
    DirtyView {
        dirty: true,
        branches: branches_after(set.branches, paths),
        gc_eligible: set.gc_eligible || removed,
    }
}

fn branch_in(path: &str) -> (r: Option<String>)
    ensures
        string_option(r) == branch_of(path@),
{
    let chars = chars_of(path);
    let needle = chars_of("/refs/heads/");
    let total: usize = chars.len();
    let width: usize = needle.len();
    let mut at: usize = 0;
    while at < total
        invariant
            at <= total,
            total == chars@.len(),
            width == needle@.len(),
            chars@ == path@,
            needle@ == "/refs/heads/"@,
            branch_of(path@) == branch_from(path@, at as int),
        decreases total - at,
    {
        if width <= total - at {
            let here = text_between(&chars, at, at + width);
            assert(here@ == path@.subrange(at as int, at as int + width as int));
            if same_text(here.as_str(), "/refs/heads/") {
                assert(stands_at(path@, "/refs/heads/"@, at as int));
                let name = text_between(&chars, at + width, total);
                assert(name@ == path@.skip(at as int + width as int));
                if at + width < total {
                    return Some(name);
                }
                return None;
            }
        }
        assert(!stands_at(path@, "/refs/heads/"@, at as int));
        at += 1;
    }
    None
}

impl DirtySet {
    /// Whether nothing has changed.
    pub fn is_clean(&self) -> (r: bool)
        ensures
            r == (self@ == clean()),
    {
        assert(self@.branches.len() == 0 ==> self@.branches =~= clean().branches);
        !self.dirty && self.branches.is_empty() && !self.gc_eligible
    }

    /// Takes what has changed; nothing is left.
    pub fn take(&mut self) -> (r: DirtyPlan)
        ensures
            r@ == old(self)@,
            final(self)@ == clean(),
    {
        let mut taken = DirtySet::default();
        std::mem::swap(&mut taken, self);
        DirtyPlan {
            dirty: taken.dirty,
            branches: taken.branches,
            gc_eligible: taken.gc_eligible,
        }
    }

    /// Notes one more change.
    pub fn classify_and_mark(&mut self, event: &GitEvent)
        ensures
            final(self)@ == marked(old(self)@, event.removed, texts(event.paths@)),
    {
        self.dirty = true;
        if event.removed {
            self.gc_eligible = true;
        }
        let ghost all = texts(event.paths@);
        let ghost before = self.branches@;
        let ghost gc = self.gc_eligible;
        let mut i: usize = 0;
        assert(all.take(0) == Seq::<Seq<char>>::empty());
        while i < event.paths.len()
            invariant
                i <= event.paths@.len(),
                all == texts(event.paths@),
                self.dirty,
                self.gc_eligible == gc,
                self.branches@ == branches_after(before, all.take(i as int)),
            decreases event.paths@.len() - i,
        {
            proof {
                assert(all.take(i as int + 1).drop_last() == all.take(i as int));
                assert(all.take(i as int + 1).last() == event.paths@[i as int]@);
            }
            match branch_in(event.paths[i].as_str()) {
                Some(name) => {
                    let _ = self.branches.insert(name);
                },
                None => {},
            }
            i += 1;
        }
        assert(all.take(all.len() as int) == all);
    }
}

/// A change always leaves something to do.
pub proof fn changes_mark_the_project(set: DirtyView, removed: bool, paths: Seq<Seq<char>>)
    ensures
        marked(set, removed, paths) != clean(),
{
}

/// How a watched project is doing.
#[derive(Debug, Clone, Copy)]
pub struct ProjectHealthSnapshot {
    pub last_heartbeat: u64,
    pub last_sync: u64,
    pub degraded: bool,
}

/// Whether a heartbeat counts as lost at a time: there was none, or it is too
/// old.
pub open spec fn stale_at(last_heartbeat: u64, now: u64) -> bool {
    last_heartbeat == 0 || now - last_heartbeat > HEARTBEAT_STALE_SECS
}

/// `std::time::SystemTime`: a time of the clock, opaque here.
#[verifier::external_type_specification]
#[verifier::external_body]
pub struct ExSystemTime(std::time::SystemTime);

/// `std::time::SystemTime::now`: what the clock shows. Nothing is promised of
/// it.
pub assume_specification[ std::time::SystemTime::now ]() -> (r: std::time::SystemTime)
;

/// The whole seconds between the epoch and a time, if it is not before the
/// epoch.
pub uninterp spec fn epoch_secs(t: std::time::SystemTime) -> Option<u64>;

/// `std::time::SystemTime::duration_since` for the epoch, in whole seconds; an
/// error for a time before the epoch gives nothing.
#[verifier::external_body]
fn secs_since_epoch(t: std::time::SystemTime) -> (r: Option<u64>)
    ensures
        r == epoch_secs(t),
{
    match t.duration_since(std::time::UNIX_EPOCH) {
        Ok(d) => Some(d.as_secs()),
        Err(_) => None,
    }
}

impl ProjectHealthSnapshot {
    /// Whether the heartbeat counts as lost at the time `now`.
    pub fn heartbeat_stale_at(&self, now: u64) -> (r: bool)
        ensures
            r == stale_at(self.last_heartbeat, now),
    {
        self.last_heartbeat == 0 || now.saturating_sub(self.last_heartbeat) > HEARTBEAT_STALE_SECS
    }

    /// Whether the heartbeat counts as lost now. What the clock shows is not
    /// stated; a project that never gave a heartbeat has lost it at any time.
    pub fn heartbeat_stale(&self) -> (r: bool)
        ensures
            exists|now: u64| r == #[trigger] stale_at(self.last_heartbeat, now),
            self.last_heartbeat == 0 ==> r,
    {
        let now: u64 = match secs_since_epoch(std::time::SystemTime::now()) {
            Some(secs) => secs,
            None => 0,
        };
        self.heartbeat_stale_at(now)
    }
}

/// The projects that are watched: at most so many, each once, and none when
/// watching is switched off.
#[derive(Debug)]
pub struct WatchRegistry {
    auto_watch: bool,
    max_projects: usize,
    projects: Vec<String>,
}

/// What a [`WatchRegistry`] holds.
pub struct RegistryView {
    pub auto_watch: bool,
    pub max_projects: nat,
    pub projects: Seq<Seq<char>>,
}

impl View for WatchRegistry {
    type V = RegistryView;

    closed spec fn view(&self) -> RegistryView {
        RegistryView {
            auto_watch: self.auto_watch,
            max_projects: self.max_projects as nat,
            projects: texts(self.projects@),
        }
    }
}

/// A registry never holds more projects than allowed, none twice, and none when
/// it is switched off.
pub open spec fn registry_valid(r: RegistryView) -> bool {
    &&& r.projects.len() <= r.max_projects
    &&& r.projects.no_duplicates()
    &&& !r.auto_watch ==> r.projects.len() == 0
}

/// The projects after one more was asked for.
pub open spec fn registered(r: RegistryView, project: Seq<char>) -> Seq<Seq<char>> {
    if r.auto_watch && !r.projects.contains(project) && r.projects.len() < r.max_projects {
        r.projects.push(project)
    } else {
        r.projects
    }
}

impl WatchRegistry {
    #[verifier::type_invariant]
    spec fn valid(self) -> bool {
        registry_valid(self.view())
    }

    /// No project is watched.
    pub fn new(auto_watch: bool, max_projects: usize) -> (r: WatchRegistry)
        ensures
            r@ == (RegistryView {
                auto_watch,
                max_projects: max_projects as nat,
                projects: seq![],
            }),
    {
        let projects: Vec<String> = Vec::new();
        assert(texts(projects@) == Seq::<Seq<char>>::empty());
        WatchRegistry { auto_watch, max_projects, projects }
    }

    /// Whether watching is switched on.
    pub fn is_enabled(&self) -> (r: bool)
        ensures
            r == self@.auto_watch,
    {
        self.auto_watch
    }

    /// How many projects are watched; the registry is valid.
    pub fn len(&self) -> (r: usize)
        ensures
            r == self@.projects.len(),
            registry_valid(self@),
    {
        proof {
            use_type_invariant(self);
        }
        self.projects.len()
    }

    /// Whether no project is watched.
    pub fn is_empty(&self) -> (r: bool)
        ensures
            r == (self@.projects.len() == 0),
    {
        self.projects.len() == 0
    }

    fn watches(&self, project: &str) -> (r: bool)
        ensures
            r == self@.projects.contains(project@),
    {
        let mut i: usize = 0;
        while i < self.projects.len()
            invariant
                i <= self.projects@.len(),
                forall|j: int| 0 <= j < i ==> (#[trigger] self@.projects[j]) != project@,
            decreases self.projects@.len() - i,
        {
            assert(self@.projects[i as int] == self.projects@[i as int]@);
            if same_text(self.projects[i].as_str(), project) {
                return true;
            }
            i += 1;
        }
        false
    }

    /// Asks for a project to be watched: nothing happens when watching is
    /// switched off, when it is watched already, or when there are enough.
    pub fn ensure_watching(&mut self, project: &str) -> (r: bool)
        ensures
            final(self)@ == (RegistryView {
                projects: registered(old(self)@, project@),
                ..old(self)@
            }),
            r == (final(self)@.projects.len() > old(self)@.projects.len()),
    {
        if !self.auto_watch || self.watches(project) || self.projects.len() >= self.max_projects {
            return false;
        }
        let copy = copy_text(project);
        proof {
            use_type_invariant(&*self);
            texts_push(self.projects@, copy);
        }
        let mut projects: Vec<String> = Vec::new();
        assert(texts(projects@) == Seq::<Seq<char>>::empty());
        std::mem::swap(&mut projects, &mut self.projects);
        projects.push(copy);
        self.projects = projects;
        true
    }
}

proof fn branch_is_behind_the_first_mark(path: Seq<char>, at: int, from: int)
    requires
        0 <= from <= at,
        at + "/refs/heads/"@.len() < path.len(),
        stands_at(path, "/refs/heads/"@, at),
        forall|j: int| 0 <= j < at ==> !#[trigger] stands_at(path, "/refs/heads/"@, j),
    ensures
        branch_from(path, from) == Some(path.skip(at + "/refs/heads/"@.len())),
    decreases at - from,
{
    if from < at {
        assert(!stands_at(path, "/refs/heads/"@, from));
        branch_is_behind_the_first_mark(path, at, from + 1);
    }
}

/// The branch of a path under a repository's `refs/heads` is all that stands
/// behind the first `/refs/heads/`, slashes and all.
pub proof fn branches_are_named_behind_refs_heads(before: Seq<char>, name: Seq<char>)
    requires
        name.len() > 0,
        forall|j: int|
            0 <= j < before.len() ==> !#[trigger] stands_at(
                before + "/refs/heads/"@ + name,
                "/refs/heads/"@,
                j,
            ),
    ensures
        branch_of(before + "/refs/heads/"@ + name) == Some(name),
{
    let mark = "/refs/heads/"@;
    let path = before + mark + name;
    assert(path.subrange(before.len() as int, before.len() + mark.len() as int) == mark);
    branch_is_behind_the_first_mark(path, before.len() as int, 0);
    assert(path.skip((before.len() + mark.len()) as int) == name);
}

proof fn no_mark_no_branch(path: Seq<char>, from: int)
    requires
        0 <= from,
        forall|j: int| 0 <= j < path.len() ==> !#[trigger] stands_at(path, "/refs/heads/"@, j),
    ensures
        branch_from(path, from) is None,
    decreases path.len() - from,
{
    if from < path.len() {
        no_mark_no_branch(path, from + 1);
    }
}

/// A path that is nowhere under `refs/heads` names no branch.
pub proof fn other_paths_name_no_branch(path: Seq<char>)
    requires
        !contains_text(path, "/refs/heads/"@),
    ensures
        branch_of(path) is None,
{
    no_mark_no_branch(path, 0);
}

/// Marking keeps the branches that were marked and adds those that the paths
/// name, each once; a removal makes the project eligible for cleaning up, and
/// stays remembered.
pub proof fn marks_accumulate(
    set: DirtyView,
    removed: bool,
    paths: Seq<Seq<char>>,
    name: Seq<char>,
    again: bool,
    more: Seq<Seq<char>>,
)
    ensures
        marked(set, removed, paths).dirty,
        marked(set, removed, paths).branches.contains(name) <==> set.branches.contains(name)
            || exists|i: int| 0 <= i < paths.len() && branch_of(#[trigger] paths[i]) == Some(name),
        set.branches.no_duplicates() ==> marked(set, removed, paths).branches.no_duplicates(),
        set.branches.is_prefix_of(marked(set, removed, paths).branches),
        removed ==> marked(set, removed, paths).gc_eligible,
        !removed ==> marked(set, removed, paths).gc_eligible == set.gc_eligible,
        removed ==> marked(marked(set, removed, paths), again, more).gc_eligible,
        !clean().dirty && !clean().gc_eligible && clean().branches.len() == 0,
{
    branches_grow(set.branches, paths, name);
}

proof fn branches_grow(branches: Seq<Seq<char>>, paths: Seq<Seq<char>>, name: Seq<char>)
    ensures
        branches_after(branches, paths).contains(name) <==> branches.contains(name) || exists|
            i: int,
        |
            0 <= i < paths.len() && branch_of(#[trigger] paths[i]) == Some(name),
        branches.no_duplicates() ==> branches_after(branches, paths).no_duplicates(),
        branches.is_prefix_of(branches_after(branches, paths)),
    decreases paths.len(),
{
    if paths.len() == 0 {
        assert(branches.subrange(0, branches.len() as int) == branches);
    } else {
        let front = paths.drop_last();
        branches_grow(branches, front, name);
        let earlier = branches_after(branches, front);
        let all = branches_after(branches, paths);
        assert forall|i: int| 0 <= i < front.len() implies front[i] == #[trigger] paths[i] by {}
        if exists|i: int| 0 <= i < front.len() && branch_of(#[trigger] front[i]) == Some(name) {
            let i = choose|i: int| 0 <= i < front.len() && branch_of(#[trigger] front[i]) == Some(name);
            assert(branch_of(paths[i]) == Some(name));
        }
        assert(branches == branches_after(branches, front).subrange(0, branches.len() as int));
        if let Some(found) = branch_of(paths.last()) {
            if !earlier.contains(found) {
                assert(all == earlier.push(found));
                assert(all.last() == found);
                if earlier.contains(name) {
                    let k = choose|k: int| 0 <= k < earlier.len() && earlier[k] == name;
                    assert(all[k] == name);
                }
                if all.contains(name) && name != found {
                    let k = choose|k: int| 0 <= k < all.len() && all[k] == name;
                    assert(earlier[k] == name);
                }
                assert(all.subrange(0, branches.len() as int) == earlier.subrange(
                    0,
                    branches.len() as int,
                ));
            }
            if found == name {
                assert(branch_of(paths[paths.len() - 1]) == Some(name));
            }
        }
        if exists|i: int| 0 <= i < paths.len() && branch_of(#[trigger] paths[i]) == Some(name) {
            let i = choose|i: int| 0 <= i < paths.len() && branch_of(#[trigger] paths[i]) == Some(name);
            if i < front.len() {
                assert(branch_of(front[i]) == Some(name));
            }
        }
    }
}

/// A watcher is stale where it was never heard of, or not for more than five
/// minutes; a heartbeat from the future is no sign of staleness.
pub proof fn watchers_go_stale(last_heartbeat: u64, now: u64)
    ensures
        stale_at(0, now),
        last_heartbeat > 0 && now <= last_heartbeat + 300 ==> !stale_at(last_heartbeat, now),
        now > last_heartbeat + 300 ==> stale_at(last_heartbeat, now),
{
}

/// A project is watched once it was registered, unless watching is off or the
/// limit is reached; what is watched already stays, in its order, and nothing
/// is watched twice.
pub proof fn registered_projects_are_watched(
    r: RegistryView,
    project: Seq<char>,
    other: Seq<char>,
)
    requires
        registry_valid(r),
    ensures
        r.auto_watch && r.projects.len() < r.max_projects ==> registered(r, project).contains(
            project,
        ),
        !r.auto_watch || r.projects.len() >= r.max_projects ==> registered(r, project)
            == r.projects,
        r.projects.contains(project) ==> registered(r, project) == r.projects,
        r.projects.contains(other) ==> registered(r, project).contains(other),
        registered(r, project).contains(other) ==> r.projects.contains(other) || other == project,
        registered(r, project).no_duplicates(),
        registered(r, project).len() <= r.max_projects,
        registered(
            RegistryView { projects: registered(r, project), ..r },
            project,
        ) == registered(r, project),
{
    let after = registered(r, project);
    if after != r.projects {
        assert(after == r.projects.push(project));
        assert(after.last() == project);
        if r.projects.contains(other) {
            let i = choose|i: int| 0 <= i < r.projects.len() && r.projects[i] == other;
            assert(after[i] == other);
        }
        if after.contains(other) && other != project {
            let i = choose|i: int| 0 <= i < after.len() && after[i] == other;
            assert(r.projects[i] == other);
        }
    }
}

} // verus!
