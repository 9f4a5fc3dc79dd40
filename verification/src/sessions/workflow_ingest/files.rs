//! The files of workflow runs: which entries of a directory count, and the
//! names under which things are stored.

use crate::json::string_option;
use crate::order::{sort_texts, sorted, sorted_is_in_order};
use crate::sessions::workflow_ingest::transcript::{event_views, EventView, JournalEvent};
use crate::text::{chars_of, copy_text, lower_ascii, same_text, text_between, text_starts_with, texts, texts_push, to_lower_ascii};
use vstd::prelude::*;

verus! {

/// Where the last dot of a file name that parts it stands: not at its
/// beginning, and not in `..`; the length of the name when there is none.
pub open spec fn part_dot(name: Seq<char>) -> int {
    if name == ".."@ {
        name.len() as int
    } else {
        last_dot(name, name.len() as int)
    }
}

/// The last dot before `to`, other than one at the beginning; the length of the
/// name when there is none.
pub open spec fn last_dot(name: Seq<char>, to: int) -> int
    decreases to,
{
    if to <= 1 {
        name.len() as int
    } else if name[to - 1] == '.' {
        to - 1
    } else {
        last_dot(name, to - 1)
    }
}

/// A file name without its extension.
pub open spec fn file_stem(name: Seq<char>) -> Seq<char> {
    name.take(part_dot(name))
}

/// The extension of a file name.
pub open spec fn extension(name: Seq<char>) -> Option<Seq<char>> {
    if part_dot(name) < name.len() {
        Some(name.skip(part_dot(name) + 1))
    } else {
        None
    }
}

fn find_part_dot(name: &str, chars: &Vec<char>) -> (r: usize)
    requires
        chars@ == name@,
    ensures
        r <= name@.len(),
        r == part_dot(name@),
{
    if same_text(name, "..") {
        return chars.len();
    }
    let mut to: usize = chars.len();
    while to > 1
        invariant
            to <= chars@.len(),
            chars@ == name@,
            name@ != ".."@,
            last_dot(name@, name@.len() as int) == last_dot(name@, to as int),
        decreases to,
    {
        if chars[to - 1] == '.' {
            return to - 1;
        }
        to -= 1;
    }
    chars.len()
}

/// The file name without its extension.
pub fn stem_of(name: &str) -> (r: String)
    ensures
        r@ == file_stem(name@),
{
    let chars = chars_of(name);
    let dot: usize = find_part_dot(name, &chars);
    let stem = text_between(&chars, 0, dot);
    assert(stem@ == name@.take(dot as int));
    stem
}

/// The extension of the file name.
pub fn extension_of(name: &str) -> (r: Option<String>)
    ensures
        string_option(r) == extension(name@),
{
    let chars = chars_of(name);
    let dot: usize = find_part_dot(name, &chars);
    if dot < chars.len() {
        let rest = text_between(&chars, dot + 1, chars.len());
        assert(rest@ == name@.skip(dot as int + 1));
        Some(rest)
    } else {
        None
    }
}

/// Whether a file is the transcript of an agent.
pub open spec fn is_transcript_name(name: Seq<char>) -> bool {
    &&& extension(name) matches Some(ext) && lower_ascii(ext) == lower_ascii("jsonl"@)
    &&& "agent-"@.is_prefix_of(name)
}

/// Whether the file is the transcript of an agent.
pub fn is_agent_transcript(name: &str) -> (r: bool)
    ensures
        r == is_transcript_name(name@),
{
    let is_jsonl = match extension_of(name) {
        Some(ext) => same_text(
            to_lower_ascii(ext.as_str()).as_str(),
            to_lower_ascii("jsonl").as_str(),
        ),
        None => false,
    };
    is_jsonl && text_starts_with(name, "agent-")
}

/// The transcripts among file names, in order.
pub open spec fn transcript_names(names: Seq<Seq<char>>) -> Seq<Seq<char>> {
    sorted(names.filter(|name: Seq<char>| is_transcript_name(name)))
}

/// The transcripts among the file names, in order.
pub fn agent_transcripts(names: &Vec<String>) -> (r: Vec<String>)
    ensures
        texts(r@) == transcript_names(texts(names@)),
{
    let ghost all = texts(names@);
    let ghost keep = |name: Seq<char>| is_transcript_name(name);
    let mut out: Vec<String> = Vec::new();
    let mut i: usize = 0;
    proof {
        reveal(Seq::filter);
        assert(all.take(0) == Seq::<Seq<char>>::empty());
        assert(texts(out@) == all.take(0).filter(keep));
    }
    while i < names.len()
        invariant
            i <= names@.len(),
            all == texts(names@),
            keep == (|name: Seq<char>| is_transcript_name(name)),
            texts(out@) == all.take(i as int).filter(keep),
        decreases names@.len() - i,
    {
        proof {
            reveal(Seq::filter);
            assert(all.take(i as int + 1).drop_last() == all.take(i as int));
            assert(all.take(i as int + 1).last() == names@[i as int]@);
        }
        if is_agent_transcript(names[i].as_str()) {
            let ghost before = out@;
            let name = copy_text(names[i].as_str());
            out.push(name);
            proof {
                texts_push(before, name);
            }
        }
        i += 1;
    }
    assert(all.take(all.len() as int) == all);
    sort_texts(out)
}

/// The agent whose transcript a file is.
pub open spec fn transcript_agent(name: Seq<char>) -> Option<Seq<char>> {
    let stem = file_stem(name);
    if "agent-"@.is_prefix_of(stem) && stem.len() > "agent-"@.len() {
        Some(stem.skip("agent-"@.len() as int))
    } else {
        None
    }
}

/// The agent whose transcript the file is.
pub fn agent_of_transcript(name: &str) -> (r: Option<String>)
    ensures
        string_option(r) == transcript_agent(name@),
{
    let stem = stem_of(name);
    if !text_starts_with(stem.as_str(), "agent-") {
        return None;
    }
    let chars = chars_of(stem.as_str());
    let prefix = chars_of("agent-");
    if chars.len() <= prefix.len() {
        return None;
    }
    let id = text_between(&chars, prefix.len(), chars.len());
    assert(id@ == stem@.skip("agent-"@.len() as int));
    Some(id)
}

/// Ids with one more, unless it is there already.
pub open spec fn with_id(ids: Seq<Seq<char>>, id: Seq<char>) -> Seq<Seq<char>> {
    if ids.contains(id) {
        ids
    } else {
        ids.push(id)
    }
}

/// The agents that transcript files name, each once, in order.
pub open spec fn ids_of_files(names: Seq<Seq<char>>) -> Seq<Seq<char>>
    decreases names.len(),
{
    if names.len() == 0 {
        seq![]
    } else {
        let earlier = ids_of_files(names.drop_last());
        match transcript_agent(names.last()) {
            Some(id) => with_id(earlier, id),
            None => earlier,
        }
    }
}

/// Ids followed by those of the agents that events start, each once.
pub open spec fn ids_with_events(ids: Seq<Seq<char>>, events: Seq<EventView>) -> Seq<Seq<char>>
    decreases events.len(),
{
    if events.len() == 0 {
        ids
    } else {
        let earlier = ids_with_events(ids, events.drop_last());
        if events.last().event_type == "started"@ {
            with_id(earlier, events.last().agent_id)
        } else {
            earlier
        }
    }
}

/// The agents of a run that has only a directory: those with a transcript, in
/// the order of the files, followed by the others that the journal starts.
pub open spec fn roster_ids(names: Seq<Seq<char>>, events: Seq<EventView>) -> Seq<Seq<char>> {
    ids_with_events(ids_of_files(transcript_names(names)), events)
}

fn push_id(ids: &mut Vec<String>, id: &str)
    ensures
        texts(final(ids)@) == with_id(texts(old(ids)@), id@),
{
    let mut i: usize = 0;
    while i < ids.len()
        invariant
            i <= ids@.len(),
            ids@ == old(ids)@,
            forall|j: int| 0 <= j < i ==> (#[trigger] texts(ids@)[j]) != id@,
        decreases ids@.len() - i,
    {
        assert(texts(ids@)[i as int] == ids@[i as int]@);
        if same_text(ids[i].as_str(), id) {
            return ;
        }
        i += 1;
    }
    let copy = copy_text(id);
    proof {
        texts_push(ids@, copy);
    }
    ids.push(copy);
}

/// The agents of a run that has only a directory.
pub fn roster_agent_ids(names: &Vec<String>, journal: &Vec<JournalEvent>) -> (r: Vec<String>)
    ensures
        texts(r@) == roster_ids(texts(names@), event_views(journal@)),
{
    let files = agent_transcripts(names);
    let ghost all = texts(files@);
    let ghost events = event_views(journal@);
    let mut ids: Vec<String> = Vec::new();
    let mut i: usize = 0;
    assert(all.take(0) == Seq::<Seq<char>>::empty());
    assert(texts(ids@) == Seq::<Seq<char>>::empty());
    while i < files.len()
        invariant
            i <= files@.len(),
            all == texts(files@),
            texts(ids@) == ids_of_files(all.take(i as int)),
        decreases files@.len() - i,
    {
        proof {
            assert(all.take(i as int + 1).drop_last() == all.take(i as int));
            assert(all.take(i as int + 1).last() == files@[i as int]@);
        }
        match agent_of_transcript(files[i].as_str()) {
            Some(id) => push_id(&mut ids, id.as_str()),
            None => {},
        }
        i += 1;
    }
    assert(all.take(all.len() as int) == all);
    let ghost from_files = texts(ids@);
    let mut k: usize = 0;
    assert(events.take(0) == Seq::<EventView>::empty());
    while k < journal.len()
        invariant
            k <= journal@.len(),
            events == event_views(journal@),
            texts(ids@) == ids_with_events(from_files, events.take(k as int)),
        decreases journal@.len() - k,
    {
        proof {
            assert(events.take(k as int + 1).drop_last() == events.take(k as int));
            assert(events.take(k as int + 1).last() == journal@[k as int]@);
        }
        if same_text(journal[k].event_type.as_str(), "started") {
            push_id(&mut ids, journal[k].agent_id.as_str());
        }
        k += 1;
    }
    assert(events.take(events.len() as int) == events);
    ids
}

proof fn with_id_members(ids: Seq<Seq<char>>, id: Seq<char>)
    requires
        ids.no_duplicates(),
    ensures
        with_id(ids, id).no_duplicates(),
        ids.is_prefix_of(with_id(ids, id)),
        forall|x: Seq<char>| #[trigger] with_id(ids, id).contains(x) <==> ids.contains(x) || x == id,
{
    if !ids.contains(id) {
        assert(ids.push(id)[ids.len() as int] == id);
        assert forall|x: Seq<char>| ids.contains(x) implies #[trigger] ids.push(id).contains(x) by {
            let k = choose|k: int| 0 <= k < ids.len() && ids[k] == x;
            assert(ids.push(id)[k] == x);
        }
    }
}

/// Whether a file name is that of an agent's transcript.
pub open spec fn is_file_of(name: Seq<char>, id: Seq<char>) -> bool {
    transcript_agent(name) == Some(id)
}

/// Whether an event starts an agent.
pub open spec fn starts_agent(event: EventView, id: Seq<char>) -> bool {
    event.event_type == "started"@ && event.agent_id == id
}

proof fn file_members(names: Seq<Seq<char>>)
    ensures
        ids_of_files(names).no_duplicates(),
        forall|id: Seq<char>| #[trigger]
            ids_of_files(names).contains(id) <==> exists|i: int|
                0 <= i < names.len() && is_file_of(#[trigger] names[i], id),
    decreases names.len(),
{
    if names.len() > 0 {
        let front = names.drop_last();
        let earlier = ids_of_files(front);
        file_members(front);
        if let Some(id) = transcript_agent(names.last()) {
            with_id_members(earlier, id);
        }
        assert forall|id: Seq<char>| #[trigger]
            ids_of_files(names).contains(id) <==> exists|i: int|
                0 <= i < names.len() && is_file_of(#[trigger] names[i], id) by {
            if earlier.contains(id) {
                let i = choose|i: int| 0 <= i < front.len() && is_file_of(#[trigger] front[i], id);
                assert(is_file_of(names[i], id));
            }
            if is_file_of(names.last(), id) {
                assert(is_file_of(names[names.len() - 1], id));
            }
            if exists|i: int| 0 <= i < names.len() && is_file_of(#[trigger] names[i], id) {
                let i = choose|i: int| 0 <= i < names.len() && is_file_of(#[trigger] names[i], id);
                if i < front.len() {
                    assert(is_file_of(front[i], id));
                }
            }
        }
    }
}

proof fn event_members(ids: Seq<Seq<char>>, events: Seq<EventView>)
    requires
        ids.no_duplicates(),
    ensures
        ids_with_events(ids, events).no_duplicates(),
        ids.is_prefix_of(ids_with_events(ids, events)),
        forall|id: Seq<char>| #[trigger]
            ids_with_events(ids, events).contains(id) <==> ids.contains(id) || exists|i: int|
                0 <= i < events.len() && starts_agent(#[trigger] events[i], id),
    decreases events.len(),
{
    if events.len() > 0 {
        let front = events.drop_last();
        let earlier = ids_with_events(ids, front);
        event_members(ids, front);
        with_id_members(earlier, events.last().agent_id);
        assert forall|id: Seq<char>| #[trigger]
            ids_with_events(ids, events).contains(id) <==> ids.contains(id) || exists|i: int|
                0 <= i < events.len() && starts_agent(#[trigger] events[i], id) by {
            if exists|i: int| 0 <= i < front.len() && starts_agent(#[trigger] front[i], id) {
                let i = choose|i: int| 0 <= i < front.len() && starts_agent(#[trigger] front[i], id);
                assert(starts_agent(events[i], id));
            }
            if starts_agent(events.last(), id) {
                assert(starts_agent(events[events.len() - 1], id));
            }
            if exists|i: int| 0 <= i < events.len() && starts_agent(#[trigger] events[i], id) {
                let i = choose|i: int| 0 <= i < events.len() && starts_agent(#[trigger] events[i], id);
                if i < front.len() {
                    assert(starts_agent(front[i], id));
                }
            }
        }
    }
}

/// The roster of a run that has only a directory names each agent once: those
/// with a transcript and those that the journal starts, and no others. The ones
/// with a transcript come first.
pub proof fn roster_is_a_union(names: Seq<Seq<char>>, events: Seq<EventView>)
    ensures
        roster_ids(names, events).no_duplicates(),
        ids_of_files(transcript_names(names)).is_prefix_of(roster_ids(names, events)),
        forall|id: Seq<char>| #[trigger]
            roster_ids(names, events).contains(id) <==> {
                ||| exists|i: int|
                    0 <= i < names.len() && is_transcript_name(#[trigger] names[i]) && is_file_of(
                        names[i],
                        id,
                    )
                ||| exists|i: int| 0 <= i < events.len() && starts_agent(#[trigger] events[i], id)
            },
{
    broadcast use vstd::seq_lib::group_to_multiset_ensures;

    let keep = |name: Seq<char>| is_transcript_name(name);
    let files = transcript_names(names);
    sorted_is_in_order(names.filter(keep));
    file_members(files);
    event_members(ids_of_files(files), events);
    assert forall|name: Seq<char>| #[trigger]
        files.contains(name) <==> names.contains(name) && is_transcript_name(name) by {
        let kept = names.filter(keep);
        assert(files.to_multiset().contains(name) <==> files.contains(name));
        assert(kept.to_multiset().contains(name) <==> kept.contains(name));
        if kept.contains(name) {
            names.lemma_filter_contains_rev(keep, name);
            let i = choose|i: int| 0 <= i < kept.len() && kept[i] == name;
            names.lemma_filter_pred(keep, i);
        }
        if names.contains(name) && is_transcript_name(name) {
            let i = choose|i: int| 0 <= i < names.len() && names[i] == name;
            names.lemma_filter_contains(keep, i);
        }
    }
    assert forall|id: Seq<char>| #[trigger] ids_of_files(files).contains(id) <==> exists|i: int|
        0 <= i < names.len() && is_transcript_name(#[trigger] names[i]) && is_file_of(
            names[i],
            id,
        ) by {
        if ids_of_files(files).contains(id) {
            let i = choose|i: int| 0 <= i < files.len() && is_file_of(#[trigger] files[i], id);
            assert(files.contains(files[i]));
            let k = choose|k: int| 0 <= k < names.len() && names[k] == files[i];
            assert(is_transcript_name(names[k]));
        }
        if exists|i: int|
            0 <= i < names.len() && is_transcript_name(#[trigger] names[i]) && is_file_of(
                names[i],
                id,
            ) {
            let i = choose|i: int|
                0 <= i < names.len() && is_transcript_name(#[trigger] names[i]) && is_file_of(
                    names[i],
                    id,
                );
            assert(files.contains(names[i]));
            let k = choose|k: int| 0 <= k < files.len() && files[k] == names[i];
            assert(is_file_of(files[k], id));
        }
    }
}

/// The name of the file with a run's description.
pub fn meta_file_name(run_id: &str) -> (r: String)
    ensures
        r@ == run_id@ + ".json"@,
{
    let mut name = copy_text(run_id);
    name.append(".json");
    name
}

/// The name of the transcript of a session, beside the session's directory.
pub fn session_transcript_name(session: &str) -> (r: String)
    ensures
        r@ == session@ + ".jsonl"@,
{
    let mut name = copy_text(session);
    name.append(".jsonl");
    name
}

/// The name of an agent's transcript.
pub open spec fn agent_file(id: Seq<char>) -> Seq<char> {
    "agent-"@ + id + ".jsonl"@
}

/// The name of the agent's transcript.
pub fn agent_transcript_name(id: &str) -> (r: String)
    ensures
        r@ == agent_file(id@),
{
    let mut name = copy_text("agent-");
    name.append(id);
    name.append(".jsonl");
    name
}

proof fn no_dot_in_tail(name: Seq<char>, from: int, to: int)
    requires
        1 <= from < to <= name.len(),
        name[from] == '.',
        forall|i: int| from < i < to ==> name[i] != '.',
    ensures
        last_dot(name, to) == from,
    decreases to,
{
    if to - 1 > from {
        no_dot_in_tail(name, from, to - 1);
    }
}

/// The transcript stored under an agent's name is found as that agent's.
pub proof fn agent_file_names_its_agent(id: Seq<char>)
    requires
        id.len() > 0,
    ensures
        is_transcript_name(agent_file(id)),
        transcript_agent(agent_file(id)) == Some(id),
{
    let name = agent_file(id);
    reveal_strlit("agent-");
    reveal_strlit(".jsonl");
    reveal_strlit("jsonl");
    reveal_strlit("..");
    let dot: int = id.len() as int + 6;
    assert(name[dot] == '.');
    no_dot_in_tail(name, dot, name.len() as int);
    assert(name.len() != ".."@.len());
    assert(name.skip(dot + 1) == "jsonl"@);
    assert(name.subrange(0, 6) == "agent-"@);
    assert(name.take(dot) == "agent-"@ + id);
    let stem = "agent-"@ + id;
    assert(stem.subrange(0, 6) == "agent-"@);
    assert(stem.skip(6) == id);
}

/// One entry of a directory: its name, when that is valid text, and whether it
/// is a directory.
pub struct DirEntry {
    pub name: Option<String>,
    pub is_dir: bool,
}

/// A run found on disk.
#[derive(Debug)]
pub struct DiscoveredRun {
    pub run_id: String,
    pub parent_session_id: String,
    pub has_meta: bool,
}

/// Whether a pair of a session's entry and of an entry among its runs is a run.
pub open spec fn is_run(session: DirEntry, run: DirEntry) -> bool {
    session.is_dir && session.name is Some && run.is_dir && run.name is Some
}

/// The run that a session's entry and an entry among its runs are: both are
/// directories with readable names.
pub fn discovered_run(session: &DirEntry, run: &DirEntry, has_meta: bool) -> (r: Option<
    DiscoveredRun,
>)
    ensures
        match r {
            Some(d) => is_run(*session, *run) && d.run_id@ == run.name->0@ && d.parent_session_id@
                == session.name->0@ && d.has_meta == has_meta,
            None => !is_run(*session, *run),
        },
{
    if !session.is_dir || !run.is_dir {
        return None;
    }
    match (&session.name, &run.name) {
        (Some(session_id), Some(run_id)) => Some(
            DiscoveredRun {
                run_id: copy_text(run_id.as_str()),
                parent_session_id: copy_text(session_id.as_str()),
                has_meta,
            },
        ),
        _ => None,
    }
}

/// The working directory of a run: the one that the parent transcript names,
/// else the first that an agent's transcript names.
pub open spec fn cwd_of_run(parent: Option<Seq<char>>, agents: Seq<Option<Seq<char>>>) -> Option<
    Seq<char>,
>
    decreases agents.len(),
{
    if parent is Some {
        parent
    } else if agents.len() == 0 {
        None
    } else {
        cwd_of_run(agents[0], agents.skip(1))
    }
}

/// Optional texts as mathematical objects.
pub open spec fn optional_texts(v: Seq<Option<String>>) -> Seq<Option<Seq<char>>> {
    Seq::new(v.len(), |i: int| string_option(v[i]))
}

/// The working directory of a run, from what its transcripts name.
pub fn run_cwd(parent: Option<String>, agents: &Vec<Option<String>>) -> (r: Option<String>)
    ensures
        string_option(r) == cwd_of_run(string_option(parent), optional_texts(agents@)),
{
    let ghost all = optional_texts(agents@);
    if parent.is_some() {
        return parent;
    }
    let mut i: usize = 0;
    assert(all.skip(0) == all);
    while i < agents.len()
        invariant
            i <= agents@.len(),
            all == optional_texts(agents@),
            parent is None,
            cwd_of_run(None, all) == cwd_of_run(None, all.skip(i as int)),
        decreases agents@.len() - i,
    {
        proof {
            assert(all.skip(i as int)[0] == string_option(agents@[i as int]));
            assert(all.skip(i as int).skip(1) == all.skip(i as int + 1));
        }
        match &agents[i] {
            Some(cwd) => {
                proof {
                    reveal_with_fuel(cwd_of_run, 2);
                }
                return Some(copy_text(cwd.as_str()));
            },
            None => {},
        }
        i += 1;
    }
    None
}

/// A file's time in seconds; zero when it is unknown or does not fit.
pub open spec fn mtime_of(secs: Option<u64>) -> i64 {
    match secs {
        Some(s) => if s <= i64::MAX {
            s as i64
        } else {
            0
        },
        None => 0,
    }
}

/// A file's time in seconds.
pub fn file_mtime(secs: Option<u64>) -> (r: i64)
    ensures
        r == mtime_of(secs),
{
    match secs {
        Some(s) => if s <= i64::MAX as u64 {
            s as i64
        } else {
            0
        },
        None => 0,
    }
}

/// The time of a run: the newest of its description, when it has one, and its
/// directory.
pub open spec fn newest(meta: Option<i64>, dir: i64) -> i64 {
    let base: i64 = match meta {
        Some(t) => if t > 0 {
            t
        } else {
            0
        },
        None => 0,
    };
    if dir > base {
        dir
    } else {
        base
    }
}

/// The time of a run.
pub fn newest_mtime(meta: Option<i64>, dir: i64) -> (r: i64)
    ensures
        r == newest(meta, dir),
{
    let base: i64 = match meta {
        Some(t) => if t > 0 {
            t
        } else {
            0
        },
        None => 0,
    };
    if dir > base {
        dir
    } else {
        base
    }
}

proof fn last_dot_is_last(name: Seq<char>, to: int)
    requires
        to <= name.len(),
    ensures
        last_dot(name, to) == name.len() || (1 <= last_dot(name, to) < to && name[last_dot(name, to)]
            == '.'),
        forall|k: int|
            1 <= k < to && (last_dot(name, to) < k || last_dot(name, to) == name.len())
                ==> #[trigger] name[k] != '.',
    decreases to,
{
    if to > 1 && name[to - 1] != '.' {
        last_dot_is_last(name, to - 1);
    }
}

/// A file name is its stem and, behind its last dot, its extension, which holds
/// no dot. A dot at the very beginning parts nothing.
pub proof fn names_are_stem_and_extension(name: Seq<char>)
    ensures
        extension(name) matches Some(ext) ==> {
            &&& name == file_stem(name) + seq!['.'] + ext
            &&& file_stem(name).len() > 0
            &&& !ext.contains('.')
        },
        extension(name) is None ==> file_stem(name) == name,
        extension(name) is None && name != ".."@ ==> forall|k: int|
            1 <= k < name.len() ==> #[trigger] name[k] != '.',
{
    last_dot_is_last(name, name.len() as int);
    let k = part_dot(name);
    if k < name.len() {
        assert(name == name.take(k) + seq!['.'] + name.skip(k + 1));
        assert forall|j: int| 0 <= j < name.skip(k + 1).len() implies #[trigger] name.skip(k + 1)[j]
            != '.' by {
            assert(name[k + 1 + j] != '.');
        }
    } else {
        assert(name.take(k) == name);
    }
}

/// The transcript of an agent is named `agent-`, the agent's name and, in
/// letters of either case, `.jsonl`.
pub proof fn transcripts_are_named_after_agents(name: Seq<char>)
    ensures
        is_transcript_name(name) ==> "agent-"@.is_prefix_of(name) && (extension(name) matches Some(
            ext,
        ) && lower_ascii(ext) == "jsonl"@),
        transcript_agent(name) matches Some(id) ==> id.len() > 0 && file_stem(name) == "agent-"@
            + id,
        transcript_agent(name) is None ==> !"agent-"@.is_prefix_of(file_stem(name)) || file_stem(
            name,
        ) == "agent-"@,
{
    reveal_strlit("agent-");
    reveal_strlit("jsonl");
    assert(lower_ascii("jsonl"@) == "jsonl"@);
    let stem = file_stem(name);
    if "agent-"@.is_prefix_of(stem) {
        assert(stem == "agent-"@ + stem.skip(6));
    }
}

/// A directory in a session's directory is a run, whatever it holds; a file or
/// a name that is no text is none.
pub proof fn runs_are_directories(session: DirEntry, run: DirEntry)
    ensures
        is_run(session, run) <==> session.is_dir && run.is_dir && session.name is Some && run.name
            is Some,
{
}

/// A run works where its session does; where the session does not say, where
/// the first of its agents that says so does.
pub proof fn runs_work_where_the_session_does(
    parent: Option<Seq<char>>,
    agents: Seq<Option<Seq<char>>>,
    i: int,
)
    requires
        0 <= i <= agents.len(),
        forall|j: int| 0 <= j < i ==> (#[trigger] agents[j]) is None,
        i < agents.len() ==> agents[i] is Some,
    ensures
        parent is Some ==> cwd_of_run(parent, agents) == parent,
        parent is None && i < agents.len() ==> cwd_of_run(parent, agents) == agents[i],
        parent is None && i == agents.len() ==> cwd_of_run(parent, agents) is None,
    decreases agents.len(),
{
    if parent is None && agents.len() > 0 {
        let rest = agents.skip(1);
        if i == 0 {
            assert(cwd_of_run(agents[0], rest) == agents[0]);
        } else {
            assert(agents[0] is None);
            assert forall|j: int| 0 <= j < i - 1 implies (#[trigger] rest[j]) is None by {
                assert(rest[j] == agents[j + 1]);
            }
            runs_work_where_the_session_does(None, rest, i - 1);
        }
    }
}

/// The time of a run is the newest of what it has on disk, and never before the
/// epoch; a time that is not known, or too great, is zero.
pub proof fn times_are_the_newest(meta: Option<i64>, dir: i64, secs: Option<u64>)
    ensures
        newest(meta, dir) >= dir,
        newest(meta, dir) >= 0,
        meta matches Some(t) ==> newest(meta, dir) >= t,
        newest(meta, dir) == dir || newest(meta, dir) == 0 || meta == Some(newest(meta, dir)),
        secs matches Some(s) ==> s <= i64::MAX ==> mtime_of(secs) == s,
        (secs matches Some(s) ==> s > i64::MAX) ==> mtime_of(secs) == 0,
{
}

} // verus!
