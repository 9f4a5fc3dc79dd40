//! The whole of the `tool` command up to its effects.

use crate::json::{string_option, Json, JsonView};
use crate::json_io::{json_pretty, write_json_pretty};
use crate::text::texts;
use crate::tool_command::dispatch::{is_profile_scoped, is_profile_scoped_lcm_dispatch, profile_dispatch, project_dispatch, DaemonToolDispatch, PlaceView};
use crate::tool_command::inputs::{stop_invalid, Inputs, InputsView, Stop, StopView};
use crate::tool_command::listing::{render_tool_list, tool_list};
use crate::tool_command::names::{canonical, canonical_tool_name, find_tool, nearest_tool_name, short_names, tool_index, tool_index_is_first, tool_names, unknown_tool_error, unknown_tool_message};
use crate::tool_command::parse::{fit_for_call, invocation, parse_invocation, InvocationView};
use crate::tool_command::schema::{short_name, ToolDefinition};
use crate::tool_command::suggest::nearest;
use vstd::prelude::*;

verus! {

/// What the command does.
pub enum Plan {
    /// Print this text.
    Print(String),
    /// Print the help of the tool at this index.
    Help(usize),
    /// Call the tool at this index.
    Call { tool: usize, dispatch: DaemonToolDispatch, tool_args: Json, raw_json: bool },
}

/// How a call goes: on a profile when tool and arguments ask for it, else on
/// the project given to the command, on the one given to the tool, or on the
/// nearest one.
pub open spec fn call_dispatch(
    dispatch: DaemonToolDispatch,
    name: Seq<char>,
    args: JsonView,
    outer: Option<Seq<char>>,
    inner: Option<Seq<char>>,
) -> bool {
    if is_profile_scoped(name, args) {
        profile_dispatch(dispatch)
    } else {
        project_dispatch(
            dispatch,
            if outer is Some {
                outer
            } else {
                inner
            },
            name,
        )
    }
}

/// Whether a plan is the one for a parsed command line of tool `tool`.
pub open spec fn plan_follows(
    plan: Plan,
    tool: int,
    name: Seq<char>,
    outer: Option<Seq<char>>,
    parsed: InvocationView,
) -> bool {
    if parsed.show_help {
        plan matches Plan::Help(i) && i == tool
    } else if parsed.dry_run {
        plan matches Plan::Print(text) && text@ == json_pretty(parsed.tool_args)
    } else {
        plan matches Plan::Call { tool: i, dispatch, tool_args, raw_json } && i == tool
            && tool_args@ == parsed.tool_args && raw_json == parsed.raw_json && call_dispatch(
            dispatch,
            name,
            parsed.tool_args,
            outer,
            parsed.project,
        )
    }
}

/// Whether `r` is what the command comes to: without a name the list; for an
/// unknown name an error that names the nearest tool; else what the parsed
/// command line asks for.
pub open spec fn run_gives(
    r: Result<Plan, Stop>,
    defs: Seq<ToolDefinition>,
    footer: Seq<char>,
    project: Option<Seq<char>>,
    name: Option<Seq<char>>,
    words: Seq<Seq<char>>,
    inputs: InputsView,
) -> bool {
    match name {
        None => r matches Ok(Plan::Print(text)) && text@ == tool_list(defs, footer),
        Some(raw) => match tool_index(tool_names(defs), canonical(raw)) {
            None => r matches Err(stop) && stop@ == StopView::Invalid(
                unknown_tool_error(raw, nearest(short_name(canonical(raw)), short_names(defs))),
            ),
            Some(i) => match invocation(defs[i].name@, defs[i].input_schema@, words, inputs) {
                Err(why) => r matches Err(stop) && stop@ == why,
                Ok(parsed) => r matches Ok(plan) && plan_follows(
                    plan,
                    i,
                    defs[i].name@,
                    project,
                    parsed,
                ),
            },
        },
    }
}

/// What the command comes to, given the tools and the inputs supplied so far. A
/// tool is called only with arguments that it can be called with.
pub fn run(
    defs: &Vec<ToolDefinition>,
    footer: &str,
    project: Option<String>,
    name: Option<String>,
    args: &Vec<String>,
    inputs: &Inputs,
) -> (r: Result<Plan, Stop>)
    ensures
        run_gives(
            r,
            defs@,
            footer@,
            string_option(project),
            string_option(name),
            texts(args@),
            inputs@,
        ),
        r matches Ok(Plan::Call { tool, dispatch, tool_args, raw_json }) ==> fit_for_call(
            defs@[tool as int].name@,
            defs@[tool as int].input_schema@,
            tool_args@,
        ),
{
    let raw = match name {
        Some(raw) => raw,
        None => return Ok(Plan::Print(render_tool_list(defs, footer))),
    };
    let full = canonical_tool_name(raw.as_str());
    let tool: usize = match find_tool(defs, full.as_str()) {
        Some(i) => i,
        None => {
            let near = nearest_tool_name(full.as_str(), defs);
            return Err(stop_invalid(unknown_tool_message(raw.as_str(), near)));
        },
    };
    let def = &defs[tool];
    let parsed = match parse_invocation(def, args, inputs) {
        Ok(parsed) => parsed,
        Err(stop) => return Err(stop),
    };
    let ghost seen = parsed@;
    if parsed.show_help {
        return Ok(Plan::Help(tool));
    }
    if parsed.dry_run {
        return Ok(Plan::Print(write_json_pretty(&parsed.tool_args)));
    }
    let dispatch = if is_profile_scoped_lcm_dispatch(def.name.as_str(), &parsed.tool_args) {
        DaemonToolDispatch::profile_scoped()
    } else {
        let explicit = match project {
            Some(path) => Some(path),
            None => parsed.project,
        };
        assert(string_option(explicit) == if string_option(project) is Some {
            string_option(project)
        } else {
            seen.project
        });
        DaemonToolDispatch::project_scoped(explicit, def.name.as_str())
    };
    Ok(
        Plan::Call { tool, dispatch, tool_args: parsed.tool_args, raw_json: parsed.raw_json },
    )
}

/// Help comes before everything else; a dry run prints the arguments and calls
/// nothing; and otherwise the tool that was named is called with the arguments
/// that were read, for the profile where the arguments say so, and else on the
/// project named before the tool, or the one named after it, or the nearest.
pub proof fn plans_do_what_was_asked(
    plan: Plan,
    tool: int,
    name: Seq<char>,
    outer: Option<Seq<char>>,
    parsed: InvocationView,
)
    requires
        plan_follows(plan, tool, name, outer, parsed),
    ensures
        parsed.show_help <==> plan is Help,
        plan matches Plan::Help(i) ==> i == tool,
        !parsed.show_help && parsed.dry_run <==> plan is Print,
        plan matches Plan::Print(text) ==> text@ == json_pretty(parsed.tool_args),
        plan matches Plan::Call { tool: i, dispatch, tool_args, raw_json } ==> {
            &&& i == tool
            &&& tool_args@ == parsed.tool_args
            &&& raw_json == parsed.raw_json
            &&& is_profile_scoped(name, parsed.tool_args) <==> dispatch.place@ == PlaceView::Profile
            &&& is_profile_scoped(name, parsed.tool_args)
                <==> dispatch.allow_profile_scoped_fallback
            &&& !is_profile_scoped(name, parsed.tool_args) ==> {
                &&& outer matches Some(path) ==> dispatch.place@ == PlaceView::Project(path)
                &&& outer is None ==> (parsed.project matches Some(path) ==> dispatch.place@
                    == PlaceView::Project(path))
                &&& outer is None && parsed.project is None ==> dispatch.place@
                    == PlaceView::NearestProject
            }
        },
{
}

/// Without the name of a tool, the tools are listed, whatever else is there.
pub proof fn nameless_calls_list_the_tools(
    r: Result<Plan, Stop>,
    defs: Seq<ToolDefinition>,
    footer: Seq<char>,
    project: Option<Seq<char>>,
    words: Seq<Seq<char>>,
    inputs: InputsView,
)
    requires
        run_gives(r, defs, footer, project, None, words, inputs),
    ensures
        r matches Ok(Plan::Print(text)) && text@ == tool_list(defs, footer),
{
}

/// A name that no tool has is refused; otherwise the words are read by the
/// schema of the first tool of that name.
pub proof fn named_tools_are_called(
    r: Result<Plan, Stop>,
    defs: Seq<ToolDefinition>,
    footer: Seq<char>,
    project: Option<Seq<char>>,
    raw: Seq<char>,
    words: Seq<Seq<char>>,
    inputs: InputsView,
    i: int,
)
    requires
        run_gives(r, defs, footer, project, Some(raw), words, inputs),
    ensures
        (forall|k: int| 0 <= k < defs.len() ==> (#[trigger] defs[k]).name@ != canonical(raw)) ==> (
        r matches Err(stop) && stop@ is Invalid),
        0 <= i < defs.len() && defs[i].name@ == canonical(raw) && (forall|k: int|
            0 <= k < i ==> (#[trigger] defs[k]).name@ != canonical(raw)) ==> {
            &&& r is Ok <==> invocation(canonical(raw), defs[i].input_schema@, words, inputs) is Ok
            &&& r matches Ok(plan) ==> plan_follows(
                plan,
                i,
                canonical(raw),
                project,
                invocation(canonical(raw), defs[i].input_schema@, words, inputs)->Ok_0,
            )
        },
{
    let names = tool_names(defs);
    tool_index_is_first(names, canonical(raw));
    if let Some(k) = tool_index(names, canonical(raw)) {
        assert(names[k] == defs[k].name@);
        if 0 <= i < defs.len() && defs[i].name@ == canonical(raw) && (forall|k: int|
            0 <= k < i ==> (#[trigger] defs[k]).name@ != canonical(raw)) {
            assert(names[i] == defs[i].name@);
            if i < k {
                assert(names[i] != canonical(raw));
            }
            assert(k == i);
        }
    } else if 0 <= i < defs.len() && defs[i].name@ == canonical(raw) {
        assert(names[i] == canonical(raw));
    }
}

} // verus!
