//! What becomes of a parsed command line: which store a tool works on, what to
//! do when the daemon does not answer, and what is printed.

use crate::json::{items_at, json_items, lookup, string_option, text_at, Json, JsonView};
use crate::json_io::{json_pretty, write_json_pretty};
use crate::text::{contains_text, copy_text, join, joined, same_text, stands_between, text_contains, texts, texts_push};
use vstd::prelude::*;

verus! {

/// The tools of the session history that can work on a profile instead of a
/// project.
pub open spec fn is_profile_scoped_tool(name: Seq<char>) -> bool {
    name == "tracedecay_lcm_status"@ || name == "tracedecay_lcm_doctor"@ || name
        == "tracedecay_lcm_load_session"@ || name == "tracedecay_lcm_grep"@ || name
        == "tracedecay_lcm_describe"@ || name == "tracedecay_lcm_expand"@ || name
        == "tracedecay_lcm_expand_query"@ || name == "tracedecay_lcm_preflight"@ || name
        == "tracedecay_lcm_compress"@ || name == "tracedecay_lcm_session_boundary"@
}

fn profile_scoped_tool(name: &str) -> (r: bool)
    ensures
        r == is_profile_scoped_tool(name@),
{
    same_text(name, "tracedecay_lcm_status") || same_text(name, "tracedecay_lcm_doctor")
        || same_text(name, "tracedecay_lcm_load_session") || same_text(name, "tracedecay_lcm_grep")
        || same_text(name, "tracedecay_lcm_describe") || same_text(name, "tracedecay_lcm_expand")
        || same_text(name, "tracedecay_lcm_expand_query") || same_text(
        name,
        "tracedecay_lcm_preflight",
    ) || same_text(name, "tracedecay_lcm_compress") || same_text(
        name,
        "tracedecay_lcm_session_boundary",
    )
}

/// Whether a call works on a profile: the tool can, and the arguments ask for
/// it.
pub open spec fn is_profile_scoped(name: Seq<char>, args: JsonView) -> bool {
    is_profile_scoped_tool(name) && text_at(args, "storage_scope"@) == Some("hermes_profile"@)
}

/// Whether the call works on a profile.
pub fn is_profile_scoped_lcm_dispatch(tool_name: &str, tool_args: &Json) -> (r: bool)
    ensures
        r == is_profile_scoped(tool_name@, tool_args@),
{
    if !profile_scoped_tool(tool_name) {
        return false;
    }
    match tool_args.str_at("storage_scope") {
        Some(scope) => same_text(scope, "hermes_profile"),
        None => false,
    }
}

/// The tools whose store is made on first use when a project is given.
pub open spec fn is_first_touch_tool(name: Seq<char>) -> bool {
    name == "tracedecay_fact_store"@ || name == "tracedecay_fact_feedback"@ || name
        == "tracedecay_memory_status"@ || name == "tracedecay_message_search"@
}

/// Whether the tool's store is made on first use when a project is given.
pub fn first_touch_tool(name: &str) -> (r: bool)
    ensures
        r == is_first_touch_tool(name@),
{
    same_text(name, "tracedecay_fact_store") || same_text(name, "tracedecay_fact_feedback")
        || same_text(name, "tracedecay_memory_status") || same_text(
        name,
        "tracedecay_message_search",
    )
}

/// Where a tool works.
pub enum Place {
    /// On the profile, without a project.
    Profile,
    /// On the nearest initialised project around the working directory.
    NearestProject,
    /// On the project at a path.
    Project(String),
}

/// What a [`Place`] is.
pub enum PlaceView {
    Profile,
    NearestProject,
    Project(Seq<char>),
}

impl View for Place {
    type V = PlaceView;

    open spec fn view(&self) -> PlaceView {
        match self {
            Place::Profile => PlaceView::Profile,
            Place::NearestProject => PlaceView::NearestProject,
            Place::Project(path) => PlaceView::Project(path@),
        }
    }
}

/// How a tool is called.
pub struct DaemonToolDispatch {
    pub place: Place,
    pub allow_init: bool,
    pub allow_profile_scoped_fallback: bool,
}

/// How a call on a project goes: an explicit path wins, and only with one may a
/// store be made on first use.
pub open spec fn project_dispatch(
    dispatch: DaemonToolDispatch,
    project: Option<Seq<char>>,
    name: Seq<char>,
) -> bool {
    &&& dispatch.place@ == match project {
        Some(path) => PlaceView::Project(path),
        None => PlaceView::NearestProject,
    }
    &&& dispatch.allow_init == (project is Some && is_first_touch_tool(name))
    &&& !dispatch.allow_profile_scoped_fallback
}

/// How a call on a profile goes.
pub open spec fn profile_dispatch(dispatch: DaemonToolDispatch) -> bool {
    &&& dispatch.place@ == PlaceView::Profile
    &&& !dispatch.allow_init
    &&& dispatch.allow_profile_scoped_fallback
}

impl DaemonToolDispatch {
    /// A call on a profile.
    pub fn profile_scoped() -> (r: Self)
        ensures
            profile_dispatch(r),
    {
        DaemonToolDispatch {
            place: Place::Profile,
            allow_init: false,
            allow_profile_scoped_fallback: true,
        }
    }

    /// A call on a project.
    pub fn project_scoped(explicit_project: Option<String>, tool_name: &str) -> (r: Self)
        ensures
            project_dispatch(r, string_option(explicit_project), tool_name@),
    {
        let first_touch = first_touch_tool(tool_name);
        match explicit_project {
            Some(path) => DaemonToolDispatch {
                place: Place::Project(path),
                allow_init: first_touch,
                allow_profile_scoped_fallback: false,
            },
            None => DaemonToolDispatch {
                place: Place::NearestProject,
                allow_init: false,
                allow_profile_scoped_fallback: false,
            },
        }
    }
}

/// An error of a call: one of configuration, whose message is looked at, or any
/// other, known by its text.
pub enum CallError {
    Config(String),
    Other(String),
}

/// What a [`CallError`] says.
pub enum CallErrorView {
    Config(Seq<char>),
    Other(Seq<char>),
}

impl View for CallError {
    type V = CallErrorView;

    open spec fn view(&self) -> CallErrorView {
        match self {
            CallError::Config(message) => CallErrorView::Config(message@),
            CallError::Other(message) => CallErrorView::Other(message@),
        }
    }
}

/// Whether an error says that the daemon is not there.
pub open spec fn daemon_unavailable(error: CallErrorView) -> bool {
    match error {
        CallErrorView::Config(message) => contains_text(message, "TraceDecay daemon socket"@)
            && contains_text(message, "is not available"@),
        CallErrorView::Other(_) => false,
    }
}

/// Whether the error says that the daemon is not there.
pub fn is_daemon_unavailable(error: &CallError) -> (r: bool)
    ensures
        r == daemon_unavailable(error@),
{
    match error {
        CallError::Config(message) => text_contains(message.as_str(), "TraceDecay daemon socket")
            && text_contains(message.as_str(), "is not available"),
        CallError::Other(_) => false,
    }
}

/// The next step of a call.
pub enum CallStep {
    /// Print this result.
    Print(Json),
    /// Run the tool for the profile in this process.
    RunForProfile,
    /// Find out whether there is a project, and keep the daemon's error.
    FindProject(CallError),
    /// Run the tool on the project in this process.
    RunOnProject,
    /// Report this error.
    Fail(CallError),
}

/// What a [`CallStep`] is.
pub enum CallStepView {
    Print(JsonView),
    RunForProfile,
    FindProject(CallErrorView),
    RunOnProject,
    Fail(CallErrorView),
}

impl View for CallStep {
    type V = CallStepView;

    open spec fn view(&self) -> CallStepView {
        match self {
            CallStep::Print(v) => CallStepView::Print(v@),
            CallStep::RunForProfile => CallStepView::RunForProfile,
            CallStep::FindProject(e) => CallStepView::FindProject(e@),
            CallStep::RunOnProject => CallStepView::RunOnProject,
            CallStep::Fail(e) => CallStepView::Fail(e@),
        }
    }
}

/// What a call gave.
pub open spec fn call_outcome(r: Result<Json, CallError>) -> Result<JsonView, CallErrorView> {
    match r {
        Ok(v) => Ok(v@),
        Err(e) => Err(e@),
    }
}

/// The step after the daemon's answer: its result is printed, its error is
/// reported, and only its absence leads to a run in this process.
pub open spec fn step_after_call(
    profile_fallback: bool,
    answer: Result<JsonView, CallErrorView>,
) -> CallStepView {
    match answer {
        Ok(v) => CallStepView::Print(v),
        Err(e) => if !daemon_unavailable(e) {
            CallStepView::Fail(e)
        } else if profile_fallback {
            CallStepView::RunForProfile
        } else {
            CallStepView::FindProject(e)
        },
    }
}

/// The step after the daemon's answer.
pub fn after_call(dispatch: &DaemonToolDispatch, answer: Result<Json, CallError>) -> (r: CallStep)
    ensures
        r@ == step_after_call(dispatch.allow_profile_scoped_fallback, call_outcome(answer)),
{
    match answer {
        Ok(v) => CallStep::Print(v),
        Err(e) => if !is_daemon_unavailable(&e) {
            CallStep::Fail(e)
        } else if dispatch.allow_profile_scoped_fallback {
            CallStep::RunForProfile
        } else {
            CallStep::FindProject(e)
        },
    }
}

/// What the search for a project gave: whether there is one.
pub open spec fn find_outcome(r: Result<bool, CallError>) -> Result<bool, CallErrorView> {
    match r {
        Ok(found) => Ok(found),
        Err(e) => Err(e@),
    }
}

/// The step after the search for a project: without one the daemon's error
/// stands.
pub open spec fn step_after_search(
    daemon_error: CallErrorView,
    found: Result<bool, CallErrorView>,
) -> CallStepView {
    match found {
        Err(e) => CallStepView::Fail(e),
        Ok(true) => CallStepView::RunOnProject,
        Ok(false) => CallStepView::Fail(daemon_error),
    }
}

/// The step after the search for a project.
pub fn after_search(daemon_error: CallError, found: Result<bool, CallError>) -> (r: CallStep)
    ensures
        r@ == step_after_search(daemon_error@, find_outcome(found)),
{
    match found {
        Err(e) => CallStep::Fail(e),
        Ok(true) => CallStep::RunOnProject,
        Ok(false) => CallStep::Fail(daemon_error),
    }
}

/// The step after a run in this process.
pub fn after_run(answer: Result<Json, CallError>) -> (r: CallStep)
    ensures
        r@ == match call_outcome(answer) {
            Ok(v) => CallStepView::Print(v),
            Err(e) => CallStepView::Fail(e),
        },
{
    match answer {
        Ok(v) => CallStep::Print(v),
        Err(e) => CallStep::Fail(e),
    }
}

/// The error of a run on a project without one.
pub fn project_required() -> (r: CallError)
    ensures
        r@ == CallErrorView::Config(
            "profile-scoped daemon tool dispatch requires daemon socket support"@,
        ),
{
    CallError::Config(
        copy_text("profile-scoped daemon tool dispatch requires daemon socket support"),
    )
}

/// Whether a run on a project makes its store first: allowed, and none there.
pub fn makes_store(allow_init: bool, has_store: bool) -> (r: bool)
    ensures
        r == (allow_init && !has_store),
{
    allow_init && !has_store
}

/// The daemon's own errors are never answered by a run in this process.
pub proof fn other_errors_are_reported(profile_fallback: bool, error: CallErrorView)
    requires
        !daemon_unavailable(error),
    ensures
        step_after_call(profile_fallback, Err(error)) == CallStepView::Fail(error),
{
}

/// The texts of the blocks that hold one that is not empty, in order.
pub open spec fn block_texts(blocks: Seq<JsonView>) -> Seq<Seq<char>>
    decreases blocks.len(),
{
    if blocks.len() == 0 {
        seq![]
    } else {
        let earlier = block_texts(blocks.drop_last());
        match text_at(blocks.last(), "text"@) {
            Some(text) => if text.len() > 0 {
                earlier.push(text)
            } else {
                earlier
            },
            None => earlier,
        }
    }
}

/// The text of a tool's result: its blocks, a blank line between two.
pub open spec fn content_text(result: JsonView) -> Seq<char> {
    match items_at(result, "content"@) {
        Some(blocks) => join(block_texts(blocks), "\n\n"@),
        None => ""@,
    }
}

/// The text of the tool's result.
pub fn join_content_text(result: &Json) -> (r: String)
    ensures
        r@ == content_text(result@),
{
    let blocks = match result.array_at("content") {
        Some(blocks) => blocks,
        None => return copy_text(""),
    };
    let ghost all = json_items(blocks@);
    let mut out: Vec<String> = Vec::new();
    let mut i: usize = 0;
    assert(all.take(0) == Seq::<JsonView>::empty());
    while i < blocks.len()
        invariant
            i <= blocks@.len(),
            all == json_items(blocks@),
            texts(out@) == block_texts(all.take(i as int)),
        decreases blocks@.len() - i,
    {
        proof {
            assert(all.take(i as int + 1).drop_last() == all.take(i as int));
            assert(all.take(i as int + 1).last() == blocks@[i as int]@);
        }
        match blocks[i].str_at("text") {
            Some(text) => {
                if !text.is_empty() {
                    let ghost before = out@;
                    let copy = copy_text(text);
                    out.push(copy);
                    proof {
                        texts_push(before, copy);
                    }
                }
            },
            None => {},
        }
        i += 1;
    }
    assert(all.take(all.len() as int) == all);
    joined(&out, "\n\n")
}

/// What is printed of a tool's result: the JSON text when that was asked for,
/// else the text in it.
pub fn tool_output(result: &Json, raw_json: bool) -> (r: String)
    ensures
        r@ == if raw_json {
            json_pretty(result@)
        } else {
            content_text(result@)
        },
{
    if raw_json {
        write_json_pretty(result)
    } else {
        join_content_text(result)
    }
}

/// No text in any block is lost: each one that is not empty is among those that
/// are joined.
pub proof fn every_block_is_kept(blocks: Seq<JsonView>, i: int)
    requires
        0 <= i < blocks.len(),
    ensures
        text_at(blocks[i], "text"@) matches Some(text) ==> text.len() > 0 ==> block_texts(
            blocks,
        ).contains(text),
    decreases blocks.len(),
{
    if let Some(text) = text_at(blocks[i], "text"@) {
        if text.len() > 0 {
            let earlier = block_texts(blocks.drop_last());
            if i == blocks.len() - 1 {
                assert(earlier.push(text)[earlier.len() as int] == text);
            } else {
                every_block_is_kept(blocks.drop_last(), i);
                let k = choose|k: int| 0 <= k < earlier.len() && earlier[k] == text;
                if block_texts(blocks) != earlier {
                    assert(block_texts(blocks)[k] == text);
                }
            }
        }
    }
}

/// A call runs for a profile if and only if its tool is one of those that look
/// after conversations, and its arguments ask for the scope of a profile.
pub proof fn profile_tools_look_after_conversations(name: Seq<char>, args: JsonView)
    ensures
        is_profile_scoped(name, args) <==> (name == "tracedecay_lcm_status"@ || name
            == "tracedecay_lcm_doctor"@ || name == "tracedecay_lcm_load_session"@ || name
            == "tracedecay_lcm_grep"@ || name == "tracedecay_lcm_describe"@ || name
            == "tracedecay_lcm_expand"@ || name == "tracedecay_lcm_expand_query"@ || name
            == "tracedecay_lcm_preflight"@ || name == "tracedecay_lcm_compress"@ || name
            == "tracedecay_lcm_session_boundary"@) && (args matches JsonView::Object(entries)
            && lookup(entries, "storage_scope"@) == Some(JsonView::Text("hermes_profile"@))),
{
}

/// A call for a profile goes to the profile, creates nothing and may be done
/// without the daemon. Any other call goes to the project that was named, or to
/// the nearest one; only the tools that remember things may begin a project,
/// and only one that was named.
pub proof fn calls_go_where_they_belong(
    dispatch: DaemonToolDispatch,
    project: Option<Seq<char>>,
    name: Seq<char>,
)
    ensures
        profile_dispatch(dispatch) ==> dispatch.place@ == PlaceView::Profile && !dispatch.allow_init
            && dispatch.allow_profile_scoped_fallback,
        project_dispatch(dispatch, project, name) ==> {
            &&& !dispatch.allow_profile_scoped_fallback
            &&& project matches Some(path) ==> dispatch.place@ == PlaceView::Project(path)
            &&& project is None ==> dispatch.place@ == PlaceView::NearestProject
                && !dispatch.allow_init
            &&& project is Some ==> (dispatch.allow_init <==> name == "tracedecay_fact_store"@
                || name == "tracedecay_fact_feedback"@ || name == "tracedecay_memory_status"@
                || name == "tracedecay_message_search"@)
        },
{
}

/// What follows a call: an answer is printed. Where the daemon is not there, a
/// call for a profile is done here, and any other on the nearest project where
/// there is one; without one the daemon's own error is reported. Every other
/// error is reported as it is.
pub proof fn calls_are_answered_or_reported(
    profile_fallback: bool,
    v: JsonView,
    e: CallErrorView,
    other: CallErrorView,
)
    ensures
        step_after_call(profile_fallback, Ok(v)) == CallStepView::Print(v),
        !daemon_unavailable(e) ==> step_after_call(profile_fallback, Err(e)) == CallStepView::Fail(
            e,
        ),
        daemon_unavailable(e) ==> step_after_call(true, Err(e)) == CallStepView::RunForProfile
            && step_after_call(false, Err(e)) == CallStepView::FindProject(e),
        step_after_search(e, Ok(true)) == CallStepView::RunOnProject,
        step_after_search(e, Ok(false)) == CallStepView::Fail(e),
        step_after_search(e, Err(other)) == CallStepView::Fail(other),
{
}

/// The daemon is not there if and only if a configuration error says of its
/// socket that it is not available.
pub proof fn missing_sockets_mean_no_daemon(
    message: Seq<char>,
    before: Seq<char>,
    between: Seq<char>,
    after: Seq<char>,
)
    ensures
        daemon_unavailable(
            CallErrorView::Config(
                before + "TraceDecay daemon socket"@ + between + "is not available"@ + after,
            ),
        ),
        !daemon_unavailable(CallErrorView::Other(message)),
        daemon_unavailable(CallErrorView::Config(message)) <==> contains_text(
            message,
            "TraceDecay daemon socket"@,
        ) && contains_text(message, "is not available"@),
{
    let socket = "TraceDecay daemon socket"@;
    let gone = "is not available"@;
    let whole = before + socket + between + gone + after;
    assert(whole == before + socket + (between + gone + after));
    stands_between(before, socket, between + gone + after);
    stands_between(before + socket + between, gone, after);
}

/// The text of a result is that of its blocks, in their order, with an empty
/// line between them; blocks without a text, or with an empty one, add nothing.
pub proof fn blocks_keep_their_order(
    first: Seq<JsonView>,
    second: Seq<JsonView>,
    block: JsonView,
    a: Seq<char>,
    b: Seq<char>,
    result: JsonView,
)
    ensures
        block_texts(first + second) == block_texts(first) + block_texts(second),
        text_at(block, "text"@) == Some(a) && a.len() > 0 ==> block_texts(seq![block]) == seq![a],
        text_at(block, "text"@) is None || text_at(block, "text"@) == Some(Seq::<char>::empty())
            ==> block_texts(seq![block]) == Seq::<Seq<char>>::empty(),
        items_at(result, "content"@) is None ==> content_text(result).len() == 0,
        items_at(result, "content"@) == Some(first) && block_texts(first) == seq![a]
            ==> content_text(result) == a,
        items_at(result, "content"@) == Some(first) && block_texts(first) == seq![a, b]
            ==> content_text(result) == a + seq!['\n', '\n'] + b,
    decreases second.len(),
{
    reveal_strlit("");
    reveal_strlit("\n\n");
    assert("\n\n"@ == seq!['\n', '\n']);
    reveal_with_fuel(block_texts, 2);
    reveal_with_fuel(join, 3);
    assert(seq![block].drop_last() == Seq::<JsonView>::empty());
    assert(Seq::<Seq<char>>::empty().push(a) == seq![a]);
    assert(seq![a, b].drop_last() == seq![a]);
    if second.len() == 0 {
        assert(first + second == first);
        assert(block_texts(first) + Seq::<Seq<char>>::empty() == block_texts(first));
    } else {
        blocks_keep_their_order(first, second.drop_last(), block, a, b, result);
        assert((first + second).drop_last() == first + second.drop_last());
        if let Some(text) = text_at(second.last(), "text"@) {
            let x = block_texts(first);
            let y = block_texts(second.drop_last());
            assert((x + y).push(text) == x + y.push(text));
        }
    }
}

/// Places, errors and steps are seen as what they are.
pub proof fn steps_are_seen_as_they_are(path: String, message: String, v: Json, e: CallError)
    ensures
        Place::Project(path)@ == PlaceView::Project(path@),
        Place::Profile@ == PlaceView::Profile,
        Place::NearestProject@ == PlaceView::NearestProject,
        CallError::Config(message)@ == CallErrorView::Config(message@),
        CallError::Other(message)@ == CallErrorView::Other(message@),
        CallStep::Print(v)@ == CallStepView::Print(v@),
        CallStep::Fail(e)@ == CallStepView::Fail(e@),
        CallStep::FindProject(e)@ == CallStepView::FindProject(e@),
        CallStep::RunForProfile@ == CallStepView::RunForProfile,
        CallStep::RunOnProject@ == CallStepView::RunOnProject,
{
}

} // verus!
