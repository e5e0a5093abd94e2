//! Tools: where each one runs, what it is called with, and what its result is.

use vstd::prelude::*;

use crate::codec::copy_pairs;
use crate::error::SandboxError;
use crate::ipc::{ChildMsg, ToolResultPayload};
use crate::json;
use crate::json::{Json, JsonTree};
use crate::text;
use crate::text::{concat, same};
use crate::wire;
use crate::wire::{ChildMsgView, PayloadView};

verus! {

/// Tools that must run in the parent process (network, UI, agent state).
/// All other tools run inside the sandbox.
pub const TRUSTED_TOOLS: [&'static str; 8] = [
    "webfetch",
    "websearch",
    "question",
    "todo_write",
    "task",
    "memory",
    "skill",
    "index",
];

/// Filesystem tools that execute inside the child via the Lua runtime.
pub const CHILD_LOCAL_TOOLS: [&'static str; 7] = [
    "read",
    "write",
    "edit",
    "multiedit",
    "glob",
    "grep",
    "list",
];

/// Whether a name is in a list.
pub open spec fn listed(list: Seq<&'static str>, name: Seq<char>) -> bool {
    exists|i: int| 0 <= i < list.len() && (#[trigger] list[i])@ == name
}

/// Whether a tool runs in the parent process.
pub open spec fn trusted(name: Seq<char>) -> bool {
    listed(TRUSTED_TOOLS@, name)
}

/// Whether a tool is a filesystem tool of the child.
pub open spec fn child_local(name: Seq<char>) -> bool {
    listed(CHILD_LOCAL_TOOLS@, name)
}

fn in_list(list: &[&'static str], name: &str) -> (r: bool)
    ensures
        r == listed(list@, name@),
{
    for i in 0..list.len()
        invariant
            forall|k: int| 0 <= k < i ==> (#[trigger] list@[k])@ != name@,
    {
        if same(list[i], name) {
            assert(list@[i as int]@ == name@);
            return true;
        }
    }
    false
}

/// Whether a tool runs in the parent process.
pub fn is_trusted(name: &str) -> (r: bool)
    ensures
        r == trusted(name@),
{
    in_list(TRUSTED_TOOLS.as_slice(), name)
}

/// Whether a tool is a filesystem tool of the child.
pub fn is_child_local(name: &str) -> (r: bool)
    ensures
        r == child_local(name@),
{
    in_list(CHILD_LOCAL_TOOLS.as_slice(), name)
}

/// No tool is both trusted and local to the child.
pub proof fn law_tools_run_in_one_place(name: Seq<char>)
    ensures
        !(trusted(name) && child_local(name)),
        !trusted("bash"@),
        !child_local("bash"@),
{
    reveal_strlit("webfetch");
    reveal_strlit("websearch");
    reveal_strlit("question");
    reveal_strlit("todo_write");
    reveal_strlit("task");
    reveal_strlit("memory");
    reveal_strlit("skill");
    reveal_strlit("index");
    reveal_strlit("read");
    reveal_strlit("write");
    reveal_strlit("edit");
    reveal_strlit("multiedit");
    reveal_strlit("glob");
    reveal_strlit("grep");
    reveal_strlit("list");
    reveal_strlit("bash");
    assert forall|i: int| 0 <= i < 8 implies (#[trigger] TRUSTED_TOOLS@[i])@ != "bash"@ by {
        assert(TRUSTED_TOOLS@[i]@[0] != 'b');
    }
    assert forall|i: int| 0 <= i < 7 implies (#[trigger] CHILD_LOCAL_TOOLS@[i])@ != "bash"@ by {
        assert(CHILD_LOCAL_TOOLS@[i]@[0] != 'b');
    }
    assert forall|i: int, k: int| 0 <= i < 8 && 0 <= k < 7 implies (#[trigger] TRUSTED_TOOLS@[i])@
        != (#[trigger] CHILD_LOCAL_TOOLS@[k])@ by {
        if TRUSTED_TOOLS@[i]@.len() == CHILD_LOCAL_TOOLS@[k]@.len() {
            assert(TRUSTED_TOOLS@[i]@[0] != CHILD_LOCAL_TOOLS@[k]@[0]);
        }
    }
}

/// The trusted tools are those for the network, the user interface and the agent's state, and
/// the local ones are those for files.
pub proof fn law_tools_by_name(name: Seq<char>)
    ensures
        trusted(name) <==> name == "webfetch"@ || name == "websearch"@ || name == "question"@
            || name == "todo_write"@ || name == "task"@ || name == "memory"@ || name == "skill"@
            || name == "index"@,
        child_local(name) <==> name == "read"@ || name == "write"@ || name == "edit"@
            || name == "multiedit"@ || name == "glob"@ || name == "grep"@ || name == "list"@,
{
    assert(TRUSTED_TOOLS@[0]@ == "webfetch"@);
    assert(TRUSTED_TOOLS@[1]@ == "websearch"@);
    assert(TRUSTED_TOOLS@[2]@ == "question"@);
    assert(TRUSTED_TOOLS@[3]@ == "todo_write"@);
    assert(TRUSTED_TOOLS@[4]@ == "task"@);
    assert(TRUSTED_TOOLS@[5]@ == "memory"@);
    assert(TRUSTED_TOOLS@[6]@ == "skill"@);
    assert(TRUSTED_TOOLS@[7]@ == "index"@);
    assert(CHILD_LOCAL_TOOLS@[0]@ == "read"@);
    assert(CHILD_LOCAL_TOOLS@[1]@ == "write"@);
    assert(CHILD_LOCAL_TOOLS@[2]@ == "edit"@);
    assert(CHILD_LOCAL_TOOLS@[3]@ == "multiedit"@);
    assert(CHILD_LOCAL_TOOLS@[4]@ == "glob"@);
    assert(CHILD_LOCAL_TOOLS@[5]@ == "grep"@);
    assert(CHILD_LOCAL_TOOLS@[6]@ == "list"@);
}

// ── Arguments ──

/// The text of a value, or the complaint that the argument is none.
pub open spec fn text_argument(v: JsonTree, name: Seq<char>) -> Result<Seq<char>, Seq<char>> {
    match v {
        JsonTree::Str(s) => Ok(s),
        _ => Err(name + " must be a string"@),
    }
}

/// A required text argument. The first one of that name among the named arguments counts;
/// otherwise the first positional argument, or its field of that name where it is an object
/// with all arguments.
pub open spec fn required_text(
    args: Seq<JsonTree>,
    kwargs: Seq<(Seq<char>, JsonTree)>,
    name: Seq<char>,
) -> Result<Seq<char>, Seq<char>> {
    match json::field_of(kwargs, name) {
        Some(v) => text_argument(v, name),
        None => if args.len() == 0 {
            Err("missing required argument: "@ + name)
        } else {
            match args[0] {
                JsonTree::Str(s) => Ok(s),
                first => match first.get(name) {
                    Some(v) => text_argument(v, name),
                    None => Err("first arg must be a string"@),
                },
            }
        },
    }
}

/// A required argument is the first one with its name; where no argument has it, the first
/// positional one is taken if it is a text, and otherwise the first field with that name if
/// it is an object.
pub proof fn law_required_argument_is_found(
    args: Seq<JsonTree>,
    kwargs: Seq<(Seq<char>, JsonTree)>,
    name: Seq<char>,
    value: Seq<char>,
)
    ensures
        forall|i: int|
            0 <= i < kwargs.len() && #[trigger] kwargs[i] == (name, JsonTree::Str(value)) && (
            forall|j: int| 0 <= j < i ==> (#[trigger] kwargs[j]).0 != name) ==> (required_text(
                args,
                kwargs,
                name,
            ) matches Ok(s) && s == value),
        (forall|i: int| 0 <= i < kwargs.len() ==> (#[trigger] kwargs[i]).0 != name) && args.len()
            > 0 && args[0] == JsonTree::Str(value) ==> (required_text(args, kwargs, name) matches Ok(s)
            && s == value),
        (forall|i: int| 0 <= i < kwargs.len() ==> (#[trigger] kwargs[i]).0 != name) && args.len()
            > 0 ==> (args[0] matches JsonTree::Object(fields) ==> forall|i: int|
            0 <= i < fields.len() && #[trigger] fields[i] == (name, JsonTree::Str(value)) && (
            forall|j: int| 0 <= j < i ==> (#[trigger] fields[j]).0 != name) ==> (required_text(
                args,
                kwargs,
                name,
            ) matches Ok(s) && s == value)),
{
    json::law_first_field_counts(kwargs, name);
    if args.len() > 0 && args[0] is Object {
        json::law_first_field_counts(args[0]->Object_0, name);
    }
}

/// A required argument that is found comes from the arguments: it is a named one, the first
/// positional one or a field of that. With no argument at all it is missing, and the error
/// says which.
pub proof fn law_required_argument_is_not_made_up(
    args: Seq<JsonTree>,
    kwargs: Seq<(Seq<char>, JsonTree)>,
    name: Seq<char>,
)
    ensures
        required_text(args, kwargs, name) matches Ok(s) ==> {
            ||| exists|i: int|
                0 <= i < kwargs.len() && #[trigger] kwargs[i] == (name, JsonTree::Str(s))
            ||| args.len() > 0 && args[0] == JsonTree::Str(s)
            ||| args.len() > 0 && (args[0] matches JsonTree::Object(fields) && exists|i: int|
                0 <= i < fields.len() && #[trigger] fields[i] == (name, JsonTree::Str(s)))
        },
        args.len() == 0 && (forall|i: int|
            0 <= i < kwargs.len() ==> (#[trigger] kwargs[i]).0 != name) ==> (required_text(
            args,
            kwargs,
            name,
        ) matches Err(e) && e == "missing required argument: "@ + name),
        forall|i: int|
            0 <= i < kwargs.len() && (#[trigger] kwargs[i]).0 == name && !(kwargs[i].1 is Str) && (
            forall|j: int| 0 <= j < i ==> (#[trigger] kwargs[j]).0 != name) ==> (required_text(
                args,
                kwargs,
                name,
            ) matches Err(e) && e == name + " must be a string"@),
{
    json::law_first_field_counts(kwargs, name);
    lemma_field_is_there(kwargs, name);
    if args.len() > 0 && args[0] is Object {
        lemma_field_is_there(args[0]->Object_0, name);
    }
}

proof fn lemma_field_is_there(fields: Seq<(Seq<char>, JsonTree)>, name: Seq<char>)
    ensures
        json::field_of(fields, name) matches Some(v) ==> exists|i: int|
            0 <= i < fields.len() && #[trigger] fields[i] == (name, v),
    decreases fields.len(),
{
    if fields.len() > 0 {
        if fields[0].0 == name {
            assert(fields[0] == (name, fields[0].1));
        } else if json::field_of(fields, name) is Some {
            let rest = fields.drop_first();
            lemma_field_is_there(rest, name);
            let v = json::field_of(fields, name)->Some_0;
            let i = choose|i: int| 0 <= i < rest.len() && #[trigger] rest[i] == (name, v);
            assert(fields[i + 1] == (name, v));
        }
    }
}

/// The first named value of a list that has the given name.
fn find_first<'a>(pairs: &'a [(String, Json)], name: &str) -> (r: Option<&'a Json>)
    ensures
        match r {
            Some(j) => json::field_of(json::pair_trees(pairs@), name@) == Some(j.tree()),
            None => json::field_of(json::pair_trees(pairs@), name@) is None,
        },
{
    let ghost all = json::pair_trees(pairs@);
    proof {
        json::lemma_pair_trees(pairs@);
        assert(all.skip(0) =~= all);
    }
    for i in 0..pairs.len()
        invariant
            all == json::pair_trees(pairs@),
            all.len() == pairs@.len(),
            forall|k: int|
                0 <= k < pairs@.len() ==> #[trigger] all[k] == (pairs@[k].0@, pairs@[k].1.tree()),
            json::field_of(all, name@) == json::field_of(all.skip(i as int), name@),
    {
        proof {
            assert(all.skip(i as int)[0] == all[i as int]);
            assert(all.skip(i as int).drop_first() =~= all.skip(i + 1));
        }
        if same(pairs[i].0.as_str(), name) {
            return Some(&pairs[i].1);
        }
    }
    None
}

fn as_text_argument(v: &Json, name: &str) -> (r: Result<String, String>)
    ensures
        match r {
            Ok(s) => wire::gives(text_argument(v.tree(), name@), s@),
            Err(e) => wire::fails(text_argument(v.tree(), name@), e@),
        },
{
    match v {
        Json::Str(s) => Ok(s.clone()),
        _ => Err(concat(name, " must be a string")),
    }
}

/// A required text argument.
pub fn require_str(args: &[Json], kwargs: &[(String, Json)], name: &str) -> (r: Result<
    String,
    String,
>)
    ensures
        match r {
            Ok(s) => wire::gives(
                required_text(json::trees(args@), json::pair_trees(kwargs@), name@),
                s@,
            ),
            Err(e) => wire::fails(
                required_text(json::trees(args@), json::pair_trees(kwargs@), name@),
                e@,
            ),
        },
{
    proof {
        json::lemma_trees(args@);
    }
    match find_first(kwargs, name) {
        Some(v) => as_text_argument(v, name),
        None => if args.len() == 0 {
            Err(concat("missing required argument: ", name))
        } else {
            match &args[0] {
                Json::Str(s) => Ok(s.clone()),
                first => match first.get(name) {
                    Some(v) => as_text_argument(v, name),
                    None => Err("first arg must be a string".to_owned()),
                },
            }
        },
    }
}

/// A text value.
pub open spec fn text_of(v: Option<JsonTree>) -> Option<Seq<char>> {
    match v {
        Some(JsonTree::Str(s)) => Some(s),
        _ => None,
    }
}

/// The directory to run a command in: a named argument, or a field of the first positional
/// one. What is no text does not count.
pub open spec fn work_dir(
    args: Seq<JsonTree>,
    kwargs: Seq<(Seq<char>, JsonTree)>,
) -> Option<Seq<char>> {
    match text_of(json::field_of(kwargs, "workdir"@)) {
        Some(s) => Some(s),
        None => if args.len() == 0 {
            None
        } else {
            text_of(args[0].get("workdir"@))
        },
    }
}

/// The directory of a command is the text that is named `workdir`, first among the named
/// arguments and then in the first positional one; where neither has such a text there is
/// none.
pub proof fn law_directory_of_a_command(
    args: Seq<JsonTree>,
    kwargs: Seq<(Seq<char>, JsonTree)>,
    dir: Seq<char>,
)
    ensures
        json::field_of(kwargs, "workdir"@) == Some(JsonTree::Str(dir)) ==> work_dir(args, kwargs)
            == Some(dir),
        !(json::field_of(kwargs, "workdir"@) matches Some(JsonTree::Str(_))) && args.len() > 0
            && args[0].get("workdir"@) == Some(JsonTree::Str(dir)) ==> work_dir(args, kwargs)
            == Some(dir),
        work_dir(args, kwargs) == Some(dir) ==> json::field_of(kwargs, "workdir"@) == Some(
            JsonTree::Str(dir),
        ) || args.len() > 0 && args[0].get("workdir"@) == Some(JsonTree::Str(dir)),
{
}

fn text_value(v: Option<&Json>) -> (r: Option<String>)
    ensures
        wire::opt_view(r) == text_of(
            match v {
                Some(j) => Some(j.tree()),
                None => None,
            },
        ),
{
    match v {
        Some(Json::Str(s)) => Some(s.clone()),
        _ => None,
    }
}

/// What a call of the shell tool asks for.
#[derive(Debug)]
pub struct BashRequest {
    pub command: String,
    pub workdir: Option<String>,
}

/// The command and the directory of a call of the shell tool.
pub fn bash_request(args: &[Json], kwargs: &[(String, Json)]) -> (r: Result<BashRequest, String>)
    ensures
        match r {
            Ok(q) => wire::gives(
                required_text(json::trees(args@), json::pair_trees(kwargs@), "command"@),
                q.command@,
            ) && wire::opt_view(q.workdir) == work_dir(
                json::trees(args@),
                json::pair_trees(kwargs@),
            ),
            Err(e) => wire::fails(
                required_text(json::trees(args@), json::pair_trees(kwargs@), "command"@),
                e@,
            ),
        },
{
    let command = match require_str(args, kwargs, "command") {
        Ok(c) => c,
        Err(e) => return Err(e),
    };
    proof {
        json::lemma_trees(args@);
    }
    let workdir = match text_value(find_first(kwargs, "workdir")) {
        Some(d) => Some(d),
        None => if args.len() == 0 {
            None
        } else {
            text_value(args[0].get("workdir"))
        },
    };
    Ok(BashRequest { command, workdir })
}

/// The input of a tool: the first positional argument where it is an object, and otherwise
/// an object of the named arguments.
pub open spec fn tool_input(
    args: Seq<JsonTree>,
    kwargs: Seq<(Seq<char>, JsonTree)>,
) -> JsonTree {
    if args.len() > 0 && args[0] is Object {
        args[0]
    } else {
        JsonTree::Object(json::put_fields(kwargs))
    }
}

/// The input of a tool, from its arguments.
pub fn build_tool_input(args: &[Json], kwargs: &[(String, Json)]) -> (j: Json)
    ensures
        j.tree() == tool_input(json::trees(args@), json::pair_trees(kwargs@)),
{
    proof {
        json::lemma_trees(args@);
    }
    if args.len() > 0 && args[0].is_object() {
        return args[0].copy();
    }
    Json::Object(copy_pairs(kwargs))
}

/// Every named argument is a field of the input, with the value that came last, unless the
/// first positional argument is an object: that is then the whole input.
pub proof fn law_input_has_named_arguments(
    args: Seq<JsonTree>,
    kwargs: Seq<(Seq<char>, JsonTree)>,
    name: Seq<char>,
)
    ensures
        args.len() > 0 && args[0] is Object ==> tool_input(args, kwargs) == args[0],
        !(args.len() > 0 && args[0] is Object) ==> tool_input(args, kwargs).get(name)
            == json::last_of(kwargs, name),
{
    json::lemma_last_wins(kwargs, name);
}

// ── Results ──

/// What a tool gave: a value, or the text of an error.
pub open spec fn result_view(r: Result<Json, String>) -> Result<JsonTree, Seq<char>> {
    match r {
        Ok(j) => Ok(j.tree()),
        Err(e) => Err(e@),
    }
}

/// The result of the shell tool. A command that failed still gives its output.
pub fn bash_result(r: Result<(String, bool), String>) -> (out: Result<Json, String>)
    ensures
        result_view(out) == match r {
            Ok(p) => Ok::<JsonTree, Seq<char>>(JsonTree::Str(p.0@)),
            Err(e) => Err("bash failed: "@ + e@),
        },
{
    match r {
        Ok((output, _)) => Ok(Json::Str(output)),
        Err(e) => Err(concat("bash failed: ", e.as_str())),
    }
}

/// The result of a tool of the Lua runtime.
pub fn lua_tool_result(r: Result<(String, bool), String>) -> (out: Result<Json, String>)
    ensures
        result_view(out) == match r {
            Ok(p) => if p.1 {
                Err(p.0@)
            } else {
                Ok::<JsonTree, Seq<char>>(JsonTree::Str(p.0@))
            },
            Err(e) => Err(e@),
        },
{
    match r {
        Ok((output, is_error)) => if is_error {
            Err(output)
        } else {
            Ok(Json::Str(output))
        },
        Err(e) => Err(e),
    }
}

/// The names that stand for filesystem tools, in order.
pub open spec fn local_names(names: Seq<Seq<char>>) -> Seq<Seq<char>>
    decreases names.len(),
{
    if names.len() == 0 {
        seq![]
    } else {
        let before = local_names(names.drop_last());
        if child_local(names.last()) {
            before.push(names.last())
        } else {
            before
        }
    }
}

/// The child takes exactly the filesystem tools of its Lua runtime, in their order.
pub proof fn law_local_tools_are_kept(names: Seq<Seq<char>>)
    ensures
        local_names(names) == names.filter(|name: Seq<char>| name == "read"@ || name == "write"@
            || name == "edit"@ || name == "multiedit"@ || name == "glob"@ || name == "grep"@
            || name == "list"@),
    decreases names.len(),
{
    reveal(Seq::filter);
    if names.len() > 0 {
        law_local_tools_are_kept(names.drop_last());
        law_tools_by_name(names.last());
    }
}

/// The tools that the child takes from its Lua runtime: of those registered there only the
/// filesystem tools.
pub fn build_lua_tools(names: Vec<String>) -> (out: Vec<String>)
    ensures
        text::views(out@) == local_names(text::views(names@)),
{
    let ghost all = text::views(names@);
    let mut out: Vec<String> = Vec::new();
    assert(all.take(0) =~= seq![]);
    assert(text::views(out@) =~= local_names(all.take(0)));
    for i in 0..names.len()
        invariant
            all == text::views(names@),
            text::views(out@) == local_names(all.take(i as int)),
    {
        proof {
            assert(all.take(i + 1).drop_last() =~= all.take(i as int));
            assert(all.take(i + 1).last() == names@[i as int]@);
        }
        if is_child_local(names[i].as_str()) {
            let ghost before = text::views(out@);
            out.push(names[i].clone());
            assert(text::views(out@) =~= before.push(names@[i as int]@));
        }
    }
    assert(all.take(all.len() as int) =~= all);
    out
}

/// Where a tool of the child comes from.
#[derive(Debug, Clone, Copy, PartialEq, Eq, Structural)]
pub enum ToolKind {
    /// The shell.
    Bash,
    /// The Lua runtime.
    Lua,
    /// The parent process.
    Trusted,
    Unknown,
}

/// Where a tool of the child comes from, given the tools of its Lua runtime.
pub open spec fn kind_of(name: Seq<char>, lua_tools: Seq<Seq<char>>) -> ToolKind {
    if trusted(name) {
        ToolKind::Trusted
    } else if lua_tools.contains(name) {
        ToolKind::Lua
    } else if name == "bash"@ {
        ToolKind::Bash
    } else {
        ToolKind::Unknown
    }
}

/// Finds where a tool of the child comes from.
pub fn tool_kind(name: &str, lua_tools: &[String]) -> (k: ToolKind)
    ensures
        k == kind_of(name@, text::views(lua_tools@)),
{
    if is_trusted(name) {
        ToolKind::Trusted
    } else if crate::namespace::holds(lua_tools, name) {
        ToolKind::Lua
    } else if same(name, "bash") {
        ToolKind::Bash
    } else {
        ToolKind::Unknown
    }
}

/// Only trusted tools go to the parent: a filesystem tool never does, and neither does the
/// shell.
pub proof fn law_only_trusted_tools_leave(name: Seq<char>, lua_tools: Seq<Seq<char>>)
    ensures
        kind_of(name, lua_tools) == ToolKind::Trusted <==> trusted(name),
        child_local(name) ==> kind_of(name, lua_tools) != ToolKind::Trusted,
        kind_of("bash"@, local_names(lua_tools)) == ToolKind::Bash,
{
    law_tools_run_in_one_place(name);
    lemma_local_names(lua_tools);
}

/// A tool that is not trusted comes from the Lua runtime exactly where it is registered
/// there; of the others only the shell is known.
pub proof fn law_each_tool_has_its_place(name: Seq<char>, lua_tools: Seq<Seq<char>>)
    ensures
        kind_of(name, lua_tools) == ToolKind::Trusted <==> name == "webfetch"@
            || name == "websearch"@ || name == "question"@ || name == "todo_write"@
            || name == "task"@ || name == "memory"@ || name == "skill"@ || name == "index"@,
        kind_of(name, lua_tools) == ToolKind::Lua <==> lua_tools.contains(name) && !trusted(name),
        kind_of(name, lua_tools) == ToolKind::Bash <==> name == "bash"@ && !lua_tools.contains(
            name,
        ),
        kind_of(name, lua_tools) == ToolKind::Unknown <==> !trusted(name) && !lua_tools.contains(
            name,
        ) && name != "bash"@,
{
    law_tools_by_name(name);
    law_tools_run_in_one_place(name);
}

/// The names of filesystem tools, as a selection of all names.
pub proof fn lemma_local_is_filter(names: Seq<Seq<char>>)
    ensures
        local_names(names) == names.filter(|n: Seq<char>| child_local(n)),
    decreases names.len(),
{
    reveal(Seq::filter);
    if names.len() > 0 {
        lemma_local_is_filter(names.drop_last());
    }
}

proof fn lemma_local_names(names: Seq<Seq<char>>)
    ensures
        forall|i: int|
            0 <= i < local_names(names).len() ==> child_local(#[trigger] local_names(names)[i]),
    decreases names.len(),
{
    if names.len() > 0 {
        lemma_local_names(names.drop_last());
        let before = local_names(names.drop_last());
        let all = local_names(names);
        assert forall|i: int| 0 <= i < all.len() implies child_local(#[trigger] all[i]) by {
            if i < before.len() {
                assert(all[i] == before[i]);
            }
        }
    }
}

// ── Calls that wait for the parent ──

/// The error of a call that the parent cancelled.
pub const CANCELED_MSG: &'static str = "canceled";

/// The calls of trusted tools that wait for the parent's answer.
#[derive(Debug)]
pub struct RemoteDispatch {
    pub next_id: u32,
    pub pending: Vec<u32>,
}

/// The number after another; after the last comes zero.
pub open spec fn id_after(id: u32) -> u32 {
    if id == u32::MAX {
        0
    } else {
        (id + 1) as u32
    }
}

/// Whether the parent answered a call with this error or output.
pub open spec fn call_result(reply: Option<Result<PayloadView, Seq<char>>>) -> Result<
    JsonTree,
    Seq<char>,
> {
    match reply {
        None => Err("io thread disconnected"@),
        Some(Err(e)) => Err(e),
        Some(Ok(p)) => match p.error {
            Some(e) => Err(e),
            None => Ok(
                JsonTree::Str(
                    match p.output {
                        Some(s) => s,
                        None => seq![],
                    },
                ),
            ),
        },
    }
}

/// The parent's error is the error of the call, whatever output comes with it; without an
/// error the call gives the output, and without an answer it fails.
pub proof fn law_reply_decides_the_call(p: PayloadView, reason: Seq<char>)
    ensures
        p.error matches Some(e) ==> (call_result(Some(Ok(p))) matches Err(x) && x == e),
        p.error is None ==> (p.output matches Some(s) ==> (call_result(Some(Ok(p))) matches Ok(t)
            && t == JsonTree::Str(s))),
        p.error is None && p.output is None ==> (call_result(Some(Ok(p))) matches Ok(t) && t
            == JsonTree::Str(Seq::empty())),
        call_result(Some(Err(reason))) matches Err(x) && x == reason,
        call_result(None) matches Err(x) && x == "io thread disconnected"@,
{
}

/// The model of a reply.
pub open spec fn reply_view(reply: Option<Result<ToolResultPayload, String>>) -> Option<
    Result<PayloadView, Seq<char>>,
> {
    match reply {
        None => None,
        Some(Ok(p)) => Some(Ok(p@)),
        Some(Err(e)) => Some(Err(e@)),
    }
}

/// Acquires the lock of the calls that wait. Poison becomes an error that says so.
pub fn lock_pending<T>(mutex: &std::sync::Mutex<T>) -> (r: Result<
    std::sync::MutexGuard<'_, T>,
    SandboxError,
>)
    ensures
        exists|locked: std::sync::LockResult<std::sync::MutexGuard<'_, T>>|
            {
                &&& #[trigger] call_ensures(std::sync::Mutex::<T>::lock, (mutex,), locked)
                &&& match locked {
                    Ok(guard) => r == Ok::<_, SandboxError>(guard),
                    Err(e) => exists|text: String| #[trigger]
                        vstd::string::to_string_from_display_ensures(&e, text) && (r matches Err(
                            x,
                        ) && x.is_ipc("mutex poisoned: "@ + text@)),
                }
            },
{
    match mutex.lock() {
        Ok(guard) => Ok(guard),
        Err(e) => {
            let text = e.to_string();
            Err(SandboxError::Ipc(concat("mutex poisoned: ", text.as_str())))
        },
    }
}

impl RemoteDispatch {
    /// The calls that wait.
    pub open spec fn waiting(self) -> Set<u32> {
        self.pending@.to_set()
    }

    /// Whether no call waits twice.
    pub open spec fn valid(self) -> bool {
        self.pending@.no_duplicates()
    }

    /// No call waits, and the first one gets the number one.
    pub fn new() -> (d: RemoteDispatch)
        ensures
            d.valid(),
            d.next_id == 1,
            d.waiting() == Set::<u32>::empty(),
    {
        let d = RemoteDispatch { next_id: 1, pending: Vec::new() };
        assert(d.waiting() =~= Set::empty());
        d
    }

    fn position(&self, id: u32) -> (r: Option<usize>)
        ensures
            match r {
                Some(i) => i < self.pending@.len() && self.pending@[i as int] == id,
                None => !self.waiting().contains(id),
            },
    {
        for i in 0..self.pending.len()
            invariant
                forall|k: int| 0 <= k < i ==> self.pending@[k] != id,
        {
            if self.pending[i] == id {
                return Some(i);
            }
        }
        None
    }

    /// Starts a call: gives it a number, lets it wait, and makes the message that asks the
    /// parent.
    pub fn begin(&mut self, name: &str, args: Vec<Json>, kwargs: Vec<(String, Json)>) -> (msg:
        ChildMsg)
        requires
            old(self).valid(),
        ensures
            final(self).valid(),
            final(self).waiting() == old(self).waiting().insert(old(self).next_id),
            final(self).next_id == id_after(old(self).next_id),
            msg@ == (ChildMsgView::ToolCall {
                call_id: old(self).next_id,
                name: name@,
                args: json::trees(args@),
                kwargs: json::pair_trees(kwargs@),
            }),
    {
        let id: u32 = self.next_id;
        self.next_id = if id == u32::MAX {
            0
        } else {
            id + 1
        };
        let place = self.position(id);
        if place.is_none() {
            self.pending.push(id);
            proof {
                assert forall|x: u32| #[trigger] self.waiting().contains(x) <==> old(
                    self,
                ).waiting().insert(id).contains(x) by {
                    if old(self).waiting().contains(x) {
                        let k = choose|k: int|
                            0 <= k < old(self).pending@.len() && old(self).pending@[k] == x;
                        assert(self.pending@[k] == x);
                    }
                    if x == id {
                        assert(self.pending@[self.pending@.len() - 1] == x);
                    }
                }
            }
        } else {
            assert(old(self).waiting().contains(id));
        }
        assert(self.waiting() =~= old(self).waiting().insert(id));
        ChildMsg::ToolCall { call_id: id, name: name.to_owned(), args, kwargs }
    }

    /// Ends the wait of a call, if it waits. Says whether it did.
    pub fn resolve(&mut self, id: u32) -> (waited: bool)
        requires
            old(self).valid(),
        ensures
            final(self).valid(),
            waited == old(self).waiting().contains(id),
            final(self).waiting() == old(self).waiting().remove(id),
            final(self).next_id == old(self).next_id,
    {
        match self.position(id) {
            Some(i) => {
                self.pending.remove(i);
                proof {
                    let before = old(self).pending@;
                    let after = self.pending@;
                    assert(before[i as int] == id);
                    assert forall|x: u32| #[trigger] self.waiting().contains(x) <==> old(
                        self,
                    ).waiting().remove(id).contains(x) by {
                        if self.waiting().contains(x) {
                            let k = choose|k: int| 0 <= k < after.len() && after[k] == x;
                            if k < i {
                                assert(before[k] == x);
                            } else {
                                assert(before[k + 1] == x);
                            }
                        }
                        if old(self).waiting().remove(id).contains(x) {
                            let k = choose|k: int| 0 <= k < before.len() && before[k] == x;
                            if k < i {
                                assert(after[k] == x);
                            } else {
                                assert(after[k - 1] == x);
                            }
                        }
                    }
                    assert(self.waiting() =~= old(self).waiting().remove(id));
                }
                true
            },
            None => {
                assert(self.waiting() =~= old(self).waiting().remove(id));
                false
            },
        }
    }

    /// Ends the wait of a call with the parent's reply, or without one.
    pub fn finish(&mut self, id: u32, reply: Option<Result<ToolResultPayload, String>>) -> (r:
        Result<Json, String>)
        requires
            old(self).valid(),
        ensures
            final(self).valid(),
            final(self).waiting() == old(self).waiting().remove(id),
            final(self).next_id == old(self).next_id,
            result_view(r) == call_result(reply_view(reply)),
    {
        let _waited = self.resolve(id);
        match reply {
            None => Err("io thread disconnected".to_owned()),
            Some(Err(e)) => Err(e),
            Some(Ok(p)) => match p.error {
                Some(e) => Err(e),
                None => Ok(
                    Json::Str(
                        match p.output {
                            Some(s) => s,
                            None => String::new(),
                        },
                    ),
                ),
            },
        }
    }

    /// Ends the wait of every call, and names those that waited.
    pub fn cancel_pending(&mut self) -> (ids: Vec<u32>)
        requires
            old(self).valid(),
        ensures
            final(self).valid(),
            final(self).waiting() == Set::<u32>::empty(),
            final(self).next_id == old(self).next_id,
            ids@ == old(self).pending@,
    {
        let mut ids: Vec<u32> = Vec::new();
        std::mem::swap(&mut ids, &mut self.pending);
        assert(self.waiting() =~= Set::empty());
        ids
    }
}

/// A call that was started waits until it is resolved; resolving it ends that wait and no
/// other.
pub proof fn law_resolving_ends_one_wait(before: Set<u32>, id: u32, other: u32)
    requires
        other != id,
        !before.contains(id),
    ensures
        before.insert(id).contains(id),
        before.insert(id).remove(id) == before,
        before.insert(id).remove(id).contains(other) == before.contains(other),
{
    assert(before.insert(id).remove(id) =~= before);
}

/// The number of a call, given that of the first and how many calls lie between them.
pub open spec fn nth_id(first: u32, n: nat) -> u32
    decreases n,
{
    if n == 0 {
        first
    } else {
        id_after(nth_id(first, (n - 1) as nat))
    }
}

/// Two of any fewer than two to the power of 32 calls that follow each other have different
/// numbers.
pub proof fn law_numbers_differ(first: u32, i: nat, j: nat)
    requires
        i < j < i + 0x1_0000_0000,
    ensures
        nth_id(first, i) != nth_id(first, j),
{
    lemma_nth_id(first, i);
    lemma_nth_id(first, j);
}

/// Numbers count up and start again at zero.
proof fn lemma_nth_id(first: u32, n: nat)
    ensures
        nth_id(first, n) == (first + n) % 0x1_0000_0000,
    decreases n,
{
    if n > 0 {
        lemma_nth_id(first, (n - 1) as nat);
    }
}

/// Numbers count up from the first, and start again at zero.
pub proof fn law_numbers_count_up(first: u32, n: nat)
    ensures
        nth_id(first, n) == (first + n) % 0x1_0000_0000,
{
    lemma_nth_id(first, n);
}

// ── Calls from the interpreter in the parent ──

/// Where the parent sends a tool call.
#[derive(Debug, Clone, Copy, PartialEq, Eq, Structural)]
pub enum Route {
    /// To the child.
    Child,
    /// To a function of the parent.
    Parent,
}

/// Where the parent sends a tool call, given its own functions.
pub open spec fn route_of(name: Seq<char>, functions: Seq<Seq<char>>) -> Result<Route, Seq<char>> {
    if child_local(name) {
        Ok(Route::Child)
    } else if functions.contains(name) {
        Ok(Route::Parent)
    } else {
        Err("unknown tool: "@ + name)
    }
}

/// A filesystem tool goes to the child even where the parent has a function of that name;
/// any other goes to the parent's function, and is unknown where there is none.
pub proof fn law_files_stay_in_the_child(name: Seq<char>, functions: Seq<Seq<char>>)
    ensures
        (name == "read"@ || name == "write"@ || name == "edit"@ || name == "multiedit"@
            || name == "glob"@ || name == "grep"@ || name == "list"@) <==> (route_of(
            name,
            functions,
        ) matches Ok(to) && to == Route::Child),
        route_of(name, functions) matches Ok(to) && to == Route::Parent <==> functions.contains(
            name,
        ) && !child_local(name),
        route_of(name, functions) is Err <==> !functions.contains(name) && !child_local(name),
        route_of(name, functions) matches Err(e) ==> e == "unknown tool: "@ + name,
{
    law_tools_by_name(name);
}

/// Decides where the parent sends a tool call.
pub fn route(name: &str, functions: &[String]) -> (r: Result<Route, String>)
    ensures
        match r {
            Ok(to) => wire::gives(route_of(name@, text::views(functions@)), to),
            Err(e) => wire::fails(route_of(name@, text::views(functions@)), e@),
        },
{
    if is_child_local(name) {
        Ok(Route::Child)
    } else if crate::namespace::holds(functions, name) {
        Ok(Route::Parent)
    } else {
        Err(concat("unknown tool: ", name))
    }
}

/// What a tool call in the child gave, for the interpreter.
pub fn child_call_result(r: Result<ToolResultPayload, String>) -> (out: Result<String, String>)
    ensures
        match (r, out) {
            (Ok(p), Ok(s)) => p.error is None && wire::opt_view(p.output) == Some(s@),
            (Ok(p), Err(e)) => match p.error {
                Some(x) => e@ == x@,
                None => p.output is None && e@ == "empty tool result"@,
            },
            (Err(x), Err(e)) => e@ == x@,
            (Err(_), Ok(_)) => false,
        },
{
    match r {
        Err(e) => Err(e),
        Ok(p) => match p.error {
            Some(e) => Err(e),
            None => match p.output {
                Some(s) => Ok(s),
                None => Err("empty tool result".to_owned()),
            },
        },
    }
}

/// What a shell command wrote is the result of the shell tool, also where the command
/// failed; a tool of the Lua runtime that failed gives an error with its text.
pub proof fn law_tool_results(
    r: Result<(String, bool), String>,
    bash: Result<Json, String>,
    lua: Result<Json, String>,
)
    requires
        call_ensures(bash_result, (r,), bash),
        call_ensures(lua_tool_result, (r,), lua),
    ensures
        bash is Err <==> r is Err,
        lua is Err <==> (r is Err || (r matches Ok(p) && p.1)),
        r matches Ok(p) ==> (bash matches Ok(j) && j.tree() == JsonTree::Str(p.0@)),
        r matches Ok(p) ==> (!p.1 ==> (lua matches Ok(j) && j.tree() == JsonTree::Str(p.0@))),
        r matches Ok(p) ==> (p.1 ==> (lua matches Err(e) && e@ == p.0@)),
        r matches Err(x) ==> (bash matches Err(e) && e@ == "bash failed: "@ + x@),
        r matches Err(x) ==> (lua matches Err(e) && e@ == x@),
{
    assert(result_view(bash) is Err <==> bash is Err);
    assert(result_view(lua) is Err <==> lua is Err);
    if r is Ok {
        let p = r->Ok_0;
        assert(result_view(bash) == Ok::<JsonTree, Seq<char>>(JsonTree::Str(p.0@)));
    }
}

/// An error of the child's tool, or of the call, is an error for the interpreter; otherwise
/// it gets the output, and an empty result is an error too.
pub proof fn law_child_result_is_handed_on(
    r: Result<ToolResultPayload, String>,
    out: Result<String, String>,
)
    requires
        call_ensures(child_call_result, (r,), out),
    ensures
        out is Ok <==> (r matches Ok(p) && p.error is None && p.output is Some),
        r matches Ok(p) ==> (p.error matches Some(x) ==> (out matches Err(e) && e@ == x@)),
        r matches Ok(p) ==> (p.error is None ==> (p.output matches Some(t) ==> (out matches Ok(s)
            && s@ == t@))),
        r matches Err(x) ==> (out matches Err(e) && e@ == x@),
{
}

/// The input of a tool has a field for every named argument, with the value that came last,
/// and for no other name, unless the first positional argument is an object.
pub proof fn law_named_arguments_become_fields(
    args: Seq<JsonTree>,
    kwargs: Seq<(Seq<char>, JsonTree)>,
    name: Seq<char>,
)
    requires
        args.len() == 0 || !(args[0] is Object),
    ensures
        tool_input(args, kwargs) is Object,
        tool_input(args, kwargs).get(name) is None <==> forall|i: int|
            0 <= i < kwargs.len() ==> (#[trigger] kwargs[i]).0 != name,
        forall|i: int|
            0 <= i < kwargs.len() && (#[trigger] kwargs[i]).0 == name && (forall|j: int|
                i < j < kwargs.len() ==> (#[trigger] kwargs[j]).0 != name) ==> tool_input(
                args,
                kwargs,
            ).get(name) == Some(kwargs[i].1),
{
    json::law_last_pair_counts(kwargs, name);
}

/// A call of the shell asks for its command in its directory, and is refused exactly where
/// it has no command.
pub proof fn law_shell_request(
    args: &[Json],
    kwargs: &[(String, Json)],
    r: Result<BashRequest, String>,
    command: Result<String, String>,
)
    requires
        call_ensures(bash_request, (args, kwargs), r),
        call_ensures(require_str, (args, kwargs, "command"), command),
    ensures
        r is Ok <==> command is Ok,
        r matches Ok(q) ==> (command matches Ok(c) && q.command@ == c@),
        r matches Err(e) ==> (command matches Err(x) && x@ == e@),
        r matches Ok(q) ==> wire::opt_view(q.workdir) == work_dir(
            json::trees(args@),
            json::pair_trees(kwargs@),
        ),
{
}

/// A call that was started waits under the number in its message until it is resolved. That
/// ends its wait and no other, and a second time nothing waits.
pub proof fn law_call_waits_until_resolved(
    begun: &mut RemoteDispatch,
    name: &str,
    args: Vec<Json>,
    kwargs: Vec<(String, Json)>,
    msg: ChildMsg,
    first: &mut RemoteDispatch,
    a: bool,
    second: &mut RemoteDispatch,
    b: bool,
    other: u32,
)
    requires
        call_ensures(RemoteDispatch::begin, (begun, name, args, kwargs), msg),
        *old(first) == *final(begun),
        call_ensures(RemoteDispatch::resolve, (first, old(begun).next_id), a),
        *old(second) == *final(first),
        call_ensures(RemoteDispatch::resolve, (second, old(begun).next_id), b),
    ensures
        msg@ matches ChildMsgView::ToolCall { call_id, name: n, args: x, kwargs: y } && call_id
            == old(begun).next_id && n == name@ && x == json::trees(args@) && y
            == json::pair_trees(kwargs@),
        a && !b,
        other != old(begun).next_id ==> (final(first).pending@.contains(other) <==> old(
            begun,
        ).pending@.contains(other)),
        final(begun).next_id == (old(begun).next_id + 1) % 0x1_0000_0000,
        final(first).next_id == final(begun).next_id,
{
    let id = old(begun).next_id;
    assert(final(begun).waiting() == old(begun).waiting().insert(id));
    assert(final(first).waiting() == final(begun).waiting().remove(id));
    assert(final(first).waiting().contains(other) <==> final(first).pending@.contains(other));
    assert(old(begun).waiting().contains(other) <==> old(begun).pending@.contains(other));
}

/// Cancelling names every call that waits, and leaves none.
pub proof fn law_cancelling_names_all(d: &mut RemoteDispatch, ids: Vec<u32>, id: u32)
    requires
        call_ensures(RemoteDispatch::cancel_pending, (d,), ids),
    ensures
        ids@.contains(id) <==> old(d).pending@.contains(id),
        !final(d).pending@.contains(id),
        final(d).next_id == old(d).next_id,
{
    assert(final(d).waiting().contains(id) <==> final(d).pending@.contains(id));
}

} // verus!
