//! The sandboxed child: how it starts, what it does with each message from the parent, and
//! what it answers.

use vstd::prelude::*;

use crate::entries;
use crate::entries::sort_entries;
use crate::error::SandboxError;
use crate::ipc::{self, ChildMsg, DirEntry, ParentMsg, SetupMessage, ToolResultPayload};
use crate::json;
use crate::json::{Json, JsonTree};
use crate::text;
use crate::text::{concat, parse_i32, same};
use crate::tools;
use crate::tools::{bash_request, build_lua_tools, build_tool_input, tool_kind, BashRequest, RemoteDispatch, ToolKind};
use crate::wire;
use crate::wire::{ChildMsgView, ParentMsgView, PayloadView, ToolCallView};

verus! {

/// The variable that names the socket of the inner child.
pub const ENV_SANDBOX_FD: &'static str = "MAKI_SANDBOX_FD";

/// Socket poll timeout in the child's IO thread, in milliseconds.
pub const IO_POLL_TIMEOUT_MS: u16 = 100;

/// The name by which the parent introduces itself.
pub const PARENT_NAME: &'static str = "maki-server";

/// The name by which the child introduces itself.
pub const CHILD_NAME: &'static str = "maki-child";

// ── Starting ──

/// The reason for a parent of another name.
pub open spec fn unexpected_parent(name: Seq<char>) -> Seq<char> {
    "unexpected parent handshake: got '"@ + name + "', expected 'maki-server'"@
}

/// Accepts the parent by its name.
pub fn check_parent(name: &str) -> (r: Result<(), SandboxError>)
    ensures
        r is Ok <==> name@ == "maki-server"@,
        r matches Err(e) ==> e.is_ipc(unexpected_parent(name@)),
{
    if same(name, PARENT_NAME) {
        Ok(())
    } else {
        let mut m = concat("unexpected parent handshake: got '", name);
        m.append("', expected 'maki-server'");
        Err(SandboxError::Ipc(m))
    }
}

/// Reads the parent's handshake and answers it with the child's own.
pub fn greet_parent(input: &mut Vec<u8>, out: &mut Vec<u8>) -> (r: Result<(), SandboxError>)
    ensures
        final(input)@ == ipc::input_after(old(input)@),
        match ipc::handshake_in(old(input)@) {
            Err(text) => r matches Err(e) && e.is_ipc(text) && final(out)@ == old(out)@,
            Ok(name) => if name == "maki-server"@ {
                ipc::wrote(
                    r,
                    old(out)@,
                    final(out)@,
                    wire::handshake_tree(ipc::greeting("maki-child"@)),
                ) && ipc::handshake_arrives("maki-child"@)
            } else {
                r matches Err(e) && e.is_ipc(unexpected_parent(name)) && final(out)@ == old(out)@
            },
        },
{
    let name = match ipc::recv_handshake(input) {
        Ok(n) => n,
        Err(e) => return Err(e),
    };
    match check_parent(name.as_str()) {
        Ok(_) => ipc::send_handshake(out, CHILD_NAME),
        Err(e) => Err(e),
    }
}

/// The message of a child that fails before it runs anything.
pub fn failure_msg(e: &SandboxError) -> (m: ChildMsg)
    ensures
        m@ == (ChildMsgView::Done { output: None, stdout: seq![], error: Some(e.message()) }),
{
    let stdout = String::new();
    assert(stdout@ =~= seq![]);
    ChildMsg::Done { output: None, stdout, error: Some(e.to_string()) }
}

/// How the child goes on once its sandbox is set up.
#[derive(Debug)]
pub enum StartPlan {
    /// In a new process inside the isolated root.
    ExecInner,
    /// In this process, without an isolated root.
    RunInPlace,
    /// Not at all: this message is sent, and the process exits with code one.
    Fail(ChildMsg),
}

/// How the child goes on. Without a mount namespace it runs in place.
pub fn start_plan(setup: Result<bool, SandboxError>) -> (p: StartPlan)
    ensures
        match setup {
            Ok(has_mount_ns) => if has_mount_ns {
                p is ExecInner
            } else {
                p is RunInPlace
            },
            Err(e) => p matches StartPlan::Fail(m) && m@ == (ChildMsgView::Done {
                output: None,
                stdout: seq![],
                error: Some(e.message()),
            }),
        },
{
    match setup {
        Ok(true) => StartPlan::ExecInner,
        Ok(false) => StartPlan::RunInPlace,
        Err(e) => StartPlan::Fail(failure_msg(&e)),
    }
}

/// How the process that was started inside the isolated root ended.
#[derive(Debug, Clone, Copy, PartialEq, Eq, Structural)]
pub enum InnerOutcome {
    /// It could not be started.
    NotStarted,
    /// It ended with success.
    Succeeded,
    /// It failed, or could not be waited for.
    Failed,
}

/// Whether the child is done; otherwise it goes on in place.
pub fn inner_done(o: InnerOutcome) -> (done: bool)
    ensures
        done == (o == InnerOutcome::Succeeded),
{
    match o {
        InnerOutcome::Succeeded => true,
        _ => false,
    }
}

/// The descriptor of the socket, from the variable that names it.
pub open spec fn socket_fd(value: Option<Seq<char>>) -> Result<int, Seq<char>> {
    match value {
        None => Err("MAKI_SANDBOX_FD must be set for sandbox inner instance"@),
        Some(v) => match text::parsed_int(v) {
            Some(n) if i32::MIN <= n <= i32::MAX => Ok(n),
            _ => Err("MAKI_SANDBOX_FD must be a valid fd number, got: "@ + v),
        },
    }
}

/// A descriptor is found exactly where the variable holds the numeral of one, and it is that
/// number.
pub proof fn law_socket_is_found_by_its_numeral(value: Option<Seq<char>>, fd: i32)
    ensures
        socket_fd(Some(text::decimal_int(fd as int))) matches Ok(n) && n == fd,
        socket_fd(value) matches Ok(n) ==> (value matches Some(v) && text::parsed_int(v) == Some(n)
            && i32::MIN <= n <= i32::MAX),
        socket_fd(value) is Err <==> (value is None || (value matches Some(v) && !(text::parsed_int(
            v,
        ) matches Some(n) && i32::MIN <= n <= i32::MAX))),
{
    text::law_numeral_is_read_back(fd as int);
}

/// Second invocation (post-exec) entry point: finds the socket, or says why the process
/// exits with code one.
pub fn child_inner_main(value: Option<String>) -> (r: Result<i32, String>)
    ensures
        match r {
            Ok(fd) => wire::gives(socket_fd(wire::opt_view(value)), fd as int),
            Err(e) => wire::fails(socket_fd(wire::opt_view(value)), e@),
        },
{
    match value {
        None => Err("MAKI_SANDBOX_FD must be set for sandbox inner instance".to_owned()),
        Some(v) => match parse_i32(v.as_str()) {
            Some(fd) => Ok(fd),
            None => Err(
                concat("MAKI_SANDBOX_FD must be a valid fd number, got: ", v.as_str()),
            ),
        },
    }
}

/// The tools that the child takes from its Lua runtime, if it has one.
pub fn inner_tools(registered: Option<Result<Vec<String>, String>>) -> (r: Result<
    Vec<String>,
    SandboxError,
>)
    ensures
        match registered {
            None => r matches Ok(names) && names@.len() == 0,
            Some(Ok(all)) => r matches Ok(names) && text::views(names@) == tools::local_names(
                text::views(all@),
            ),
            Some(Err(reason)) => r matches Err(e) && e.is_ipc(
                "lua_runtime: cannot list tools: "@ + reason@,
            ),
        },
{
    match registered {
        None => Ok(Vec::new()),
        Some(Ok(names)) => Ok(build_lua_tools(names)),
        Some(Err(e)) => Err(
            SandboxError::Ipc(concat("lua_runtime: cannot list tools: ", e.as_str())),
        ),
    }
}

// ── Work ──

/// Code to run, with its limits.
#[derive(Debug)]
pub struct RunSpec {
    pub call_id: u32,
    pub code: String,
    pub timeout_secs: u64,
    pub max_memory: usize,
    pub config: String,
}

/// Work items executed by the child's worker (main) thread.
#[derive(Debug)]
pub enum Work {
    Run(RunSpec),
    ToolCall { call_id: u32, name: String, args: Vec<Json>, kwargs: Vec<(String, Json)> },
    Exit,
}

/// The model of code to run.
#[verifier::ext_equal]
pub struct RunView {
    pub call_id: u32,
    pub code: Seq<char>,
    pub timeout_secs: u64,
    pub max_memory: usize,
    pub config: Seq<char>,
}

/// The model of a work item.
#[verifier::ext_equal]
pub enum WorkView {
    Run(RunView),
    ToolCall(ToolCallView),
    Exit,
}

impl View for RunSpec {
    type V = RunView;

    open spec fn view(&self) -> RunView {
        RunView {
            call_id: self.call_id,
            code: self.code@,
            timeout_secs: self.timeout_secs,
            max_memory: self.max_memory,
            config: self.config@,
        }
    }
}

impl View for Work {
    type V = WorkView;

    open spec fn view(&self) -> WorkView {
        match self {
            Work::Run(s) => WorkView::Run(s@),
            Work::ToolCall { call_id, name, args, kwargs } => WorkView::ToolCall(
                ToolCallView {
                    call_id: *call_id,
                    name: name@,
                    args: json::trees(args@),
                    kwargs: json::pair_trees(kwargs@),
                },
            ),
            Work::Exit => WorkView::Exit,
        }
    }
}

/// The work that a setup message asks for. Empty code asks for none: the child then only
/// answers queries.
pub fn first_work(setup: SetupMessage) -> (w: Option<Work>)
    ensures
        match w {
            None => setup@.code.len() == 0,
            Some(work) => setup@.code.len() > 0 && work@ == WorkView::Run(
                RunView {
                    call_id: 0,
                    code: setup@.code,
                    timeout_secs: setup@.timeout_secs,
                    max_memory: setup@.max_memory,
                    config: seq![],
                },
            ),
        },
{
    if text::chars_of(setup.code.as_str()).len() == 0 {
        return None;
    }
    let config = String::new();
    assert(config@ =~= seq![]);
    Some(
        Work::Run(
            RunSpec {
                call_id: 0,
                code: setup.code,
                timeout_secs: setup.timeout_secs,
                max_memory: setup.max_memory,
                config,
            },
        ),
    )
}

// ── Messages from the parent ──

/// What a message from the parent makes the child do.
#[derive(Debug)]
pub enum ChildAction {
    /// Hand this to the worker.
    Queue(Work),
    /// Hand these results to the calls that wait for them.
    Deliver(Vec<(u32, ToolResultPayload)>),
    /// Tell these calls that they are cancelled.
    Cancel(Vec<u32>),
    /// Execute a command, and send the reply.
    Exec(String),
    /// List a directory, and send the reply.
    Ls(String),
    /// Send the working directory.
    Pwd,
    /// Change the working directory, and send the reply.
    Cd(String),
    /// Tell these calls that they are cancelled, and stop.
    Stop(Vec<u32>),
}

/// The model of an action.
#[verifier::ext_equal]
pub enum ActionView {
    Queue(WorkView),
    Deliver(Seq<(u32, PayloadView)>),
    Cancel(Seq<u32>),
    Exec(Seq<char>),
    Ls(Seq<char>),
    Pwd,
    Cd(Seq<char>),
    Stop(Seq<u32>),
}

impl View for ChildAction {
    type V = ActionView;

    open spec fn view(&self) -> ActionView {
        match self {
            ChildAction::Queue(w) => ActionView::Queue(w@),
            ChildAction::Deliver(r) => ActionView::Deliver(ipc::result_views(r@)),
            ChildAction::Cancel(ids) => ActionView::Cancel(ids@),
            ChildAction::Exec(c) => ActionView::Exec(c@),
            ChildAction::Ls(p) => ActionView::Ls(p@),
            ChildAction::Pwd => ActionView::Pwd,
            ChildAction::Cd(p) => ActionView::Cd(p@),
            ChildAction::Stop(ids) => ActionView::Stop(ids@),
        }
    }
}

/// The calls that still wait once results have come.
pub open spec fn still_waiting(results: Seq<(u32, PayloadView)>, waiting: Set<u32>) -> Set<u32>
    decreases results.len(),
{
    if results.len() == 0 {
        waiting
    } else {
        still_waiting(results.drop_last(), waiting).remove(results.last().0)
    }
}

/// The results that a call waits for: for each call the first one.
pub open spec fn awaited(results: Seq<(u32, PayloadView)>, waiting: Set<u32>) -> Seq<
    (u32, PayloadView),
>
    decreases results.len(),
{
    if results.len() == 0 {
        seq![]
    } else {
        let before = awaited(results.drop_last(), waiting);
        if still_waiting(results.drop_last(), waiting).contains(results.last().0) {
            before.push(results.last())
        } else {
            before
        }
    }
}

/// What a message makes the child do, while these calls wait.
pub open spec fn action_for(m: ParentMsgView, pending: Seq<u32>) -> ActionView {
    match m {
        ParentMsgView::Run { call_id, code, timeout_secs, max_memory, config } =>
            ActionView::Queue(
            WorkView::Run(RunView { call_id, code, timeout_secs, max_memory, config }),
        ),
        ParentMsgView::ToolCall { call_id, name, args, kwargs } => ActionView::Queue(
            WorkView::ToolCall(ToolCallView { call_id, name, args, kwargs }),
        ),
        ParentMsgView::ToolResult { call_id, result } => ActionView::Deliver(
            awaited(seq![(call_id, result)], pending.to_set()),
        ),
        ParentMsgView::ToolBatchResult { results } => ActionView::Deliver(
            awaited(results, pending.to_set()),
        ),
        ParentMsgView::Cancel => ActionView::Cancel(pending),
        ParentMsgView::Exec { command } => ActionView::Exec(command),
        ParentMsgView::Ls { path } => ActionView::Ls(path),
        ParentMsgView::Pwd => ActionView::Pwd,
        ParentMsgView::Cd { path } => ActionView::Cd(path),
        ParentMsgView::Exit => ActionView::Stop(pending),
    }
}

/// The calls that wait after a message.
pub open spec fn waiting_after(m: ParentMsgView, pending: Seq<u32>) -> Set<u32> {
    match m {
        ParentMsgView::ToolResult { call_id, result } => pending.to_set().remove(call_id),
        ParentMsgView::ToolBatchResult { results } => still_waiting(results, pending.to_set()),
        ParentMsgView::Cancel => Set::empty(),
        ParentMsgView::Exit => Set::empty(),
        _ => pending.to_set(),
    }
}

/// A message other than a result, a cancellation or the end leaves every call waiting; a
/// cancellation and the end leave none, and name them all.
pub proof fn law_no_call_is_forgotten(m: ParentMsgView, pending: Seq<u32>, id: u32)
    requires
        pending.contains(id),
    ensures
        m is Cancel || m is Exit ==> !waiting_after(m, pending).contains(id) && match action_for(
            m,
            pending,
        ) {
            ActionView::Cancel(ids) => ids.contains(id),
            ActionView::Stop(ids) => ids.contains(id),
            _ => false,
        },
        !(m is Cancel || m is Exit || m is ToolResult || m is ToolBatchResult) ==> waiting_after(
            m,
            pending,
        ).contains(id),
        m matches ParentMsgView::ToolResult { call_id, result } ==> {
            if call_id == id {
                action_for(m, pending) == ActionView::Deliver(seq![(id, result)])
                    && !waiting_after(m, pending).contains(id)
            } else {
                waiting_after(m, pending).contains(id)
            }
        },
{
    assert(pending.to_set().contains(id));
    if m is ToolResult {
        let one = seq![(m->ToolResult_call_id, m->ToolResult_result)];
        assert(one.drop_last() =~= seq![]);
        reveal_with_fuel(awaited, 2);
        reveal_with_fuel(still_waiting, 2);
        assert(awaited(one, pending.to_set()) =~= if pending.to_set().contains(one[0].0) {
            one
        } else {
            seq![]
        });
    }
}

/// A call still waits after a batch of results exactly where it waited before and no result
/// is for it.
pub proof fn law_batch_ends_its_calls(
    results: Seq<(u32, PayloadView)>,
    pending: Seq<u32>,
    id: u32,
)
    ensures
        waiting_after(ParentMsgView::ToolBatchResult { results }, pending).contains(id) <==> (
        pending.contains(id) && forall|i: int|
            0 <= i < results.len() ==> (#[trigger] results[i]).0 != id),
{
    lemma_still_waiting(results, pending.to_set(), id);
}

/// Of a batch every call that waits gets the first result that is for it, and no call gets
/// another: what is delivered came in the batch, in its order, once for each call.
pub proof fn law_batch_reaches_its_calls(results: Seq<(u32, PayloadView)>, pending: Seq<u32>)
    ensures
        action_for(ParentMsgView::ToolBatchResult { results }, pending) matches ActionView::Deliver(
            out,
        ) && {
            &&& forall|i: int|
                0 <= i < results.len() && pending.contains((#[trigger] results[i]).0) && (forall|
                    j: int,
                |
                    0 <= j < i ==> (#[trigger] results[j]).0 != results[i].0) ==> out.contains(
                    results[i],
                )
            &&& forall|k: int|
                0 <= k < out.len() ==> pending.contains((#[trigger] out[k]).0) && results.contains(
                    out[k],
                )
            &&& forall|k: int, l: int|
                0 <= k < l < out.len() ==> (#[trigger] out[k]).0 != (#[trigger] out[l]).0
        },
{
    lemma_awaited(results, pending.to_set());
    let out = awaited(results, pending.to_set());
    assert forall|i: int|
        0 <= i < results.len() && pending.contains((#[trigger] results[i]).0) && (forall|j: int|
            0 <= j < i ==> (#[trigger] results[j]).0 != results[i].0) implies out.contains(
        results[i],
    ) by {
        assert(pending.to_set().contains(results[i].0));
    }
}

/// Every other message makes the child do what it asks for, with what it carries: code is
/// run and tools are called by the worker under the number of the message, and queries are
/// answered at once.
pub proof fn law_message_is_obeyed(m: ParentMsgView, pending: Seq<u32>)
    ensures
        m matches ParentMsgView::Run { call_id, code, timeout_secs, max_memory, config } ==> (
        action_for(m, pending) matches ActionView::Queue(WorkView::Run(r)) && r.call_id == call_id
            && r.code == code && r.timeout_secs == timeout_secs && r.max_memory == max_memory
            && r.config == config),
        m matches ParentMsgView::ToolCall { call_id, name, args, kwargs } ==> (action_for(
            m,
            pending,
        ) matches ActionView::Queue(WorkView::ToolCall(c)) && c.call_id == call_id && c.name == name
            && c.args == args && c.kwargs == kwargs),
        m matches ParentMsgView::Exec { command } ==> (action_for(m, pending) matches
            ActionView::Exec(c) && c == command),
        m matches ParentMsgView::Ls { path } ==> (action_for(m, pending) matches ActionView::Ls(p)
            && p == path),
        m matches ParentMsgView::Cd { path } ==> (action_for(m, pending) matches ActionView::Cd(p)
            && p == path),
        m is Pwd <==> action_for(m, pending) is Pwd,
        m is Cancel <==> action_for(m, pending) is Cancel,
        m is Exit <==> action_for(m, pending) is Stop,
        m is ToolResult || m is ToolBatchResult <==> action_for(m, pending) is Deliver,
{
}

proof fn lemma_still_waiting(results: Seq<(u32, PayloadView)>, waiting: Set<u32>, id: u32)
    ensures
        still_waiting(results, waiting).contains(id) <==> (waiting.contains(id) && forall|i: int|
            0 <= i < results.len() ==> (#[trigger] results[i]).0 != id),
    decreases results.len(),
{
    if results.len() > 0 {
        let init = results.drop_last();
        lemma_still_waiting(init, waiting, id);
        assert(results[results.len() - 1] == results.last());
        if forall|i: int| 0 <= i < init.len() ==> (#[trigger] init[i]).0 != id {
            assert forall|i: int| 0 <= i < results.len() - 1 implies (#[trigger] results[i]).0
                != id by {
                assert(init[i] == results[i]);
            }
        } else {
            let i = choose|i: int| 0 <= i < init.len() && (#[trigger] init[i]).0 == id;
            assert(results[i] == init[i]);
        }
    }
}

proof fn lemma_awaited(results: Seq<(u32, PayloadView)>, waiting: Set<u32>)
    ensures
        ({
            let out = awaited(results, waiting);
            &&& forall|i: int|
                0 <= i < results.len() && waiting.contains((#[trigger] results[i]).0) && (forall|
                    j: int,
                |
                    0 <= j < i ==> (#[trigger] results[j]).0 != results[i].0) ==> out.contains(
                    results[i],
                )
            &&& forall|k: int|
                0 <= k < out.len() ==> waiting.contains((#[trigger] out[k]).0) && results.contains(
                    out[k],
                )
            &&& forall|k: int, l: int|
                0 <= k < l < out.len() ==> (#[trigger] out[k]).0 != (#[trigger] out[l]).0
        }),
    decreases results.len(),
{
    let out = awaited(results, waiting);
    if results.len() > 0 {
        let init = results.drop_last();
        let n = results.len() - 1;
        let before = awaited(init, waiting);
        lemma_awaited(init, waiting);
        lemma_still_waiting(init, waiting, results[n].0);
        assert(results[n] == results.last());
        assert forall|k: int| 0 <= k < out.len() implies waiting.contains((#[trigger] out[k]).0)
            && results.contains(out[k]) by {
            if k < before.len() {
                assert(out[k] == before[k]);
                let i = choose|i: int| 0 <= i < init.len() && init[i] == before[k];
                assert(results[i] == out[k]);
            }
        }
        assert forall|i: int|
            0 <= i < results.len() && waiting.contains((#[trigger] results[i]).0) && (forall|
                j: int,
            |
                0 <= j < i ==> (#[trigger] results[j]).0 != results[i].0) implies out.contains(
            results[i],
        ) by {
            if i < n {
                assert(init[i] == results[i]);
                assert forall|j: int| 0 <= j < i implies (#[trigger] init[j]).0 != init[i].0 by {
                    assert(init[j] == results[j]);
                }
                let k = choose|k: int| 0 <= k < before.len() && before[k] == init[i];
                assert(out[k] == before[k]);
            } else {
                assert forall|j: int| 0 <= j < init.len() implies (#[trigger] init[j]).0
                    != results[n].0 by {
                    assert(init[j] == results[j]);
                }
                assert(out[before.len() as int] == results[n]);
            }
        }
        assert forall|k: int, l: int| 0 <= k < l < out.len() implies (#[trigger] out[k]).0 != (
        #[trigger] out[l]).0 by {
            assert(out[k] == before[k]);
            if l < before.len() {
                assert(out[l] == before[l]);
            } else {
                let i = choose|i: int| 0 <= i < init.len() && init[i] == before[k];
                assert(init[i].0 != results[n].0);
            }
        }
    }
}

/// Picks out the results that a call waits for.
fn deliver(results: Vec<(u32, ToolResultPayload)>, dispatch: &mut RemoteDispatch) -> (out: Vec<
    (u32, ToolResultPayload),
>)
    requires
        old(dispatch).valid(),
    ensures
        final(dispatch).valid(),
        final(dispatch).next_id == old(dispatch).next_id,
        final(dispatch).waiting() == still_waiting(
            ipc::result_views(results@),
            old(dispatch).waiting(),
        ),
        ipc::result_views(out@) == awaited(ipc::result_views(results@), old(dispatch).waiting()),
{
    let ghost all = ipc::result_views(results@);
    let ghost waiting = dispatch.waiting();
    let mut rest = results;
    let n: usize = rest.len();
    let mut out: Vec<(u32, ToolResultPayload)> = Vec::new();
    let mut i: usize = 0;
    proof {
        assert(all.take(0) =~= seq![]);
        assert(ipc::result_views(out@) =~= seq![]);
        assert(all.skip(0) =~= all);
    }
    while rest.len() > 0
        invariant
            dispatch.valid(),
            dispatch.next_id == old(dispatch).next_id,
            all == ipc::result_views(results@),
            waiting == old(dispatch).waiting(),
            i <= all.len(),
            all.len() == n,
            i + rest@.len() == n,
            ipc::result_views(rest@) == all.skip(i as int),
            dispatch.waiting() == still_waiting(all.take(i as int), waiting),
            ipc::result_views(out@) == awaited(all.take(i as int), waiting),
        decreases rest.len(),
    {
        let ghost left = ipc::result_views(rest@);
        let ghost before = ipc::result_views(out@);
        let item = rest.remove(0);
        proof {
            assert(left[0] == (item.0, item.1@));
            assert(all[i as int] == left[0]);
            assert(ipc::result_views(rest@) =~= left.drop_first());
            assert(left.drop_first() =~= all.skip(i + 1));
            assert(all.take(i + 1).drop_last() =~= all.take(i as int));
            assert(all.take(i + 1).last() == all[i as int]);
        }
        if dispatch.resolve(item.0) {
            out.push(item);
            assert(ipc::result_views(out@) =~= before.push(all[i as int]));
        }
        i = i + 1;
    }
    assert(all.take(all.len() as int) =~= all);
    out
}

/// Decides what a message from the parent makes the child do.
pub fn handle_parent_msg(msg: ParentMsg, dispatch: &mut RemoteDispatch) -> (a: ChildAction)
    requires
        old(dispatch).valid(),
    ensures
        final(dispatch).valid(),
        final(dispatch).next_id == old(dispatch).next_id,
        a@ == action_for(msg@, old(dispatch).pending@),
        final(dispatch).waiting() == waiting_after(msg@, old(dispatch).pending@),
{
    match msg {
        ParentMsg::Run { call_id, code, timeout_secs, max_memory, config } => {
            ChildAction::Queue(
                Work::Run(RunSpec { call_id, code, timeout_secs, max_memory, config }),
            )
        },
        ParentMsg::ToolCall { call_id, name, args, kwargs } => {
            ChildAction::Queue(Work::ToolCall { call_id, name, args, kwargs })
        },
        ParentMsg::ToolResult { call_id, result } => {
            let mut one: Vec<(u32, ToolResultPayload)> = Vec::new();
            one.push((call_id, result));
            proof {
                assert(ipc::result_views(one@) =~= seq![(call_id, result@)]);
                assert(seq![(call_id, result@)].drop_last() =~= seq![]);
                reveal_with_fuel(still_waiting, 2);
            }
            ChildAction::Deliver(deliver(one, dispatch))
        },
        ParentMsg::ToolBatchResult { results } => {
            ChildAction::Deliver(deliver(results, dispatch))
        },
        ParentMsg::Cancel => ChildAction::Cancel(dispatch.cancel_pending()),
        ParentMsg::Exec { command } => ChildAction::Exec(command),
        ParentMsg::Ls { path } => ChildAction::Ls(path),
        ParentMsg::Pwd => ChildAction::Pwd,
        ParentMsg::Cd { path } => ChildAction::Cd(path),
        ParentMsg::Exit => ChildAction::Stop(dispatch.cancel_pending()),
    }
}

// ── Replies ──

/// The reply to a command.
pub fn exec_reply(r: Result<(String, bool), SandboxError>) -> (m: ChildMsg)
    ensures
        m@ == match r {
            Ok(p) => ChildMsgView::ExecResult { output: p.0@, is_error: p.1 },
            Err(e) => ChildMsgView::ExecResult { output: e.message(), is_error: true },
        },
{
    match r {
        Ok((output, is_error)) => ChildMsg::ExecResult { output, is_error },
        Err(e) => ChildMsg::ExecResult { output: e.to_string(), is_error: true },
    }
}

/// Puts what a directory holds in order: directories first, then by name. A directory that
/// could not be read holds nothing.
pub fn list_dir_entries(found: Option<Vec<DirEntry>>) -> (list: Vec<DirEntry>)
    ensures
        entries::in_order(ipc::entry_views(list@)),
        ipc::entry_views(list@).to_multiset() == match found {
            Some(v) => ipc::entry_views(v@).to_multiset(),
            None => Seq::<wire::EntryView>::empty().to_multiset(),
        },
{
    match found {
        Some(v) => sort_entries(v),
        None => {
            let none: Vec<DirEntry> = Vec::new();
            assert(ipc::entry_views(none@) =~= Seq::empty());
            none
        },
    }
}

/// The reply to a request for a listing.
pub fn ls_reply(found: Option<Vec<DirEntry>>) -> (m: ChildMsg)
    ensures
        m@ matches ChildMsgView::LsResult { entries: list } && entries::in_order(list)
            && list.to_multiset() == match found {
            Some(v) => ipc::entry_views(v@).to_multiset(),
            None => Seq::<wire::EntryView>::empty().to_multiset(),
        },
{
    ChildMsg::LsResult { entries: list_dir_entries(found) }
}

/// The reply to a request for the working directory. One that is not known is empty.
pub fn pwd_reply(path: Option<String>) -> (m: ChildMsg)
    ensures
        m@ == (ChildMsgView::PwdResult {
            path: match path {
                Some(p) => p@,
                None => seq![],
            },
        }),
{
    match path {
        Some(path) => ChildMsg::PwdResult { path },
        None => {
            let path = String::new();
            assert(path@ =~= seq![]);
            ChildMsg::PwdResult { path }
        },
    }
}

/// The reply to a change of directory. A failure is reported as that of a command.
pub fn cd_reply(r: Result<(), String>) -> (m: ChildMsg)
    ensures
        m@ == match r {
            Ok(_) => ChildMsgView::CdResult,
            Err(e) => ChildMsgView::ExecResult { output: "cd failed: "@ + e@, is_error: true },
        },
{
    match r {
        Ok(_) => ChildMsg::CdResult,
        Err(e) => ChildMsg::ExecResult {
            output: concat("cd failed: ", e.as_str()),
            is_error: true,
        },
    }
}

/// A line of output while code runs.
pub fn stdout_msg(line: &str) -> (m: ChildMsg)
    ensures
        m@ == (ChildMsgView::Stdout { text: line@ }),
{
    ChildMsg::Stdout { text: line.to_owned() }
}

/// The final message of a run: its result and its output, or why the interpreter failed.
pub fn run_reply(r: Result<(Option<Json>, String), String>) -> (m: ChildMsg)
    ensures
        m@ == match r {
            Ok(p) => ChildMsgView::Done {
                output: wire::opt_tree(p.0),
                stdout: p.1@,
                error: None,
            },
            Err(e) => ChildMsgView::Done {
                output: None,
                stdout: seq![],
                error: Some("interpreter: "@ + e@),
            },
        },
{
    match r {
        Ok((output, stdout)) => ChildMsg::Done { output, stdout, error: None },
        Err(e) => {
            let stdout = String::new();
            assert(stdout@ =~= seq![]);
            ChildMsg::Done {
                output: None,
                stdout,
                error: Some(concat("interpreter: ", e.as_str())),
            }
        },
    }
}

/// What the parent is told of a tool's result.
pub open spec fn tool_payload(r: Result<JsonTree, Seq<char>>) -> PayloadView {
    match r {
        Ok(t) => PayloadView { output: Some(json::json_text(t)), error: None },
        Err(e) => PayloadView { output: None, error: Some(e) },
    }
}

/// The message with a tool's result: its JSON text, or its error.
pub fn tool_reply(call_id: u32, r: Result<Json, String>) -> (m: ChildMsg)
    ensures
        m@ == (ChildMsgView::ToolResult {
            call_id,
            result: tool_payload(tools::result_view(r)),
        }),
{
    let result = match r {
        Ok(j) => ToolResultPayload { output: Some(j.to_text()), error: None },
        Err(e) => ToolResultPayload { output: None, error: Some(e) },
    };
    ChildMsg::ToolResult { call_id, result }
}

/// The child's replies are what the parent's answers give: the output of a command and
/// whether it failed, where a command that could not be run counts as failed with its
/// reason; the working directory; and whether the directory was changed, where a failure
/// comes as that of a command.
pub proof fn law_replies_are_answers(
    command: Result<(String, bool), SandboxError>,
    path: Option<String>,
    change: Result<(), String>,
    exec: ChildMsg,
    pwd: ChildMsg,
    cd: ChildMsg,
)
    requires
        call_ensures(exec_reply, (command,), exec),
        call_ensures(pwd_reply, (path,), pwd),
        call_ensures(cd_reply, (change,), cd),
    ensures
        ipc::exec_of(exec@) matches Ok(p) && match command {
            Ok(q) => p.0 == q.0@ && p.1 == q.1,
            Err(e) => p.0 == e.message() && p.1,
        },
        ipc::pwd_of(pwd@) matches Ok(p) && match path {
            Some(q) => p == q@,
            None => p.len() == 0,
        },
        ipc::cd_of(cd@) is Ok <==> change is Ok,
        change matches Err(e) ==> (ipc::exec_of(cd@) matches Ok(p) && p.1 && p.0 == "cd failed: "@
            + e@),
{
}

/// A listing that the child sends holds the entries that it found, each as often, with the
/// directories first; a directory that could not be read holds none.
pub proof fn law_listing_reply_holds_the_entries(found: Option<Vec<DirEntry>>, m: ChildMsg)
    requires
        call_ensures(ls_reply, (found,), m),
    ensures
        ipc::listing_of(m@) matches Ok(list) && {
            &&& found matches Some(v) ==> list.to_multiset() == ipc::entry_views(v@).to_multiset()
            &&& found is None ==> list.len() == 0
            &&& forall|i: int, j: int|
                0 <= i < j < list.len() && (#[trigger] list[j]).is_dir ==> (
                #[trigger] list[i]).is_dir
        },
{
    let list = m@->LsResult_entries;
    list.to_multiset_ensures();
    Seq::<wire::EntryView>::empty().to_multiset_ensures();
    assert forall|i: int, j: int| 0 <= i < j < list.len() && (#[trigger] list[j]).is_dir implies (
    #[trigger] list[i]).is_dir by {
        assert(entries::entry_le(list[i], list[j]));
    }
}

/// What a tool of the child gave reaches whoever called it from the parent: the JSON text of
/// its value, or its error.
pub proof fn law_tool_result_reaches_the_caller(
    call_id: u32,
    r: Result<Json, String>,
    m: ChildMsg,
    p: ToolResultPayload,
    out: Result<String, String>,
)
    requires
        call_ensures(tool_reply, (call_id, r), m),
        wire::gives(ipc::tool_result_of(m@), p@),
        call_ensures(tools::child_call_result, (Ok(p),), out),
    ensures
        m@ matches ChildMsgView::ToolResult { call_id: id, result } && id == call_id,
        r matches Ok(j) ==> (out matches Ok(s) && s@ == json::json_text(j.tree())),
        r matches Err(e) ==> (out matches Err(x) && x@ == e@),
{
}

/// A run that the interpreter finished ends with its result and its output and without an
/// error; one that it could not finish, or that never started, ends with an error that
/// holds the reason, and with nothing else.
pub proof fn law_run_ends_with_its_result(
    r: Result<(Option<Json>, String), String>,
    m: ChildMsg,
    e: SandboxError,
    f: ChildMsg,
)
    requires
        call_ensures(run_reply, (r,), m),
        call_ensures(failure_msg, (&e,), f),
    ensures
        m@ matches ChildMsgView::Done { output, stdout, error } && match r {
            Ok(p) => output == wire::opt_tree(p.0) && stdout == p.1@ && error is None,
            Err(x) => output is None && stdout.len() == 0 && error == Some("interpreter: "@ + x@),
        },
        f@ matches ChildMsgView::Done { output, stdout, error } && output is None && stdout.len()
            == 0 && error == Some(e.message()),
{
}

/// The child runs inside the isolated root exactly where its sandbox has one, in place where
/// it has none, and not at all where the setup failed. It is done only once the process
/// inside the root ended with success.
pub proof fn law_child_starts_as_set_up(
    setup: Result<bool, SandboxError>,
    p: StartPlan,
    o: InnerOutcome,
    done: bool,
)
    requires
        call_ensures(start_plan, (setup,), p),
        call_ensures(inner_done, (o,), done),
    ensures
        p is ExecInner <==> setup == Ok::<bool, SandboxError>(true),
        p is RunInPlace <==> setup == Ok::<bool, SandboxError>(false),
        p matches StartPlan::Fail(m) ==> (setup matches Err(e) && (m@ matches ChildMsgView::Done {
            output,
            stdout,
            error,
        } && error == Some(e.message()))),
        done <==> o == InnerOutcome::Succeeded,
{
}

/// A setup message asks for a run exactly where it holds code, and the run gets the code
/// and the limits of the message.
pub proof fn law_setup_is_run(setup: SetupMessage, w: Option<Work>)
    requires
        call_ensures(first_work, (setup,), w),
    ensures
        w is Some <==> setup.code@.len() > 0,
        w matches Some(work) ==> (work matches Work::Run(r) && r.code@ == setup.code@
            && r.timeout_secs == setup.timeout_secs && r.max_memory == setup.max_memory && r.call_id
            == 0 && r.config@.len() == 0),
{
}

// ── The worker ──

/// What a work item makes the worker do.
#[derive(Debug)]
pub enum WorkPlan {
    /// Run code, and send the final message.
    Interpret(RunSpec),
    /// Execute a shell command, and send the result for this call.
    Bash(u32, BashRequest),
    /// Call a tool of the Lua runtime with this input, and send the result for this call.
    CallLua(u32, String, Json),
    /// Send this message, wait for the parent's answer to the call in it, and send that as
    /// the result for this call.
    CallParent(u32, ChildMsg),
    /// Send this message.
    Send(ChildMsg),
    /// Stop.
    Stop,
}

/// Decides what a work item makes the worker do.
pub fn plan_work(work: Work, lua_tools: &[String], dispatch: &mut RemoteDispatch) -> (p: WorkPlan)
    requires
        old(dispatch).valid(),
    ensures
        final(dispatch).valid(),
        match work@ {
            WorkView::Run(s) => p matches WorkPlan::Interpret(q) && q@ == s,
            WorkView::Exit => p is Stop,
            WorkView::ToolCall(c) => match tools::kind_of(c.name, text::views(lua_tools@)) {
                ToolKind::Bash => match tools::required_text(c.args, c.kwargs, "command"@) {
                    Ok(command) => p matches WorkPlan::Bash(id, q) && id == c.call_id
                        && q.command@ == command && wire::opt_view(q.workdir) == tools::work_dir(
                        c.args,
                        c.kwargs,
                    ),
                    Err(e) => p matches WorkPlan::Send(m) && m@ == (ChildMsgView::ToolResult {
                        call_id: c.call_id,
                        result: tool_payload(Err(e)),
                    }),
                },
                ToolKind::Lua => p matches WorkPlan::CallLua(id, name, input) && id == c.call_id
                    && name@ == c.name && input.tree() == tools::tool_input(c.args, c.kwargs),
                ToolKind::Trusted => p matches WorkPlan::CallParent(id, m) && id == c.call_id
                    && m@ == (ChildMsgView::ToolCall {
                    call_id: old(dispatch).next_id,
                    name: c.name,
                    args: c.args,
                    kwargs: c.kwargs,
                }),
                ToolKind::Unknown => p matches WorkPlan::Send(m) && m@
                    == (ChildMsgView::ToolResult {
                    call_id: c.call_id,
                    result: tool_payload(Err("unknown tool: "@ + c.name)),
                }),
            },
        },
        if (work@ matches WorkView::ToolCall(c) && tools::trusted(c.name)) {
            final(dispatch).waiting() == old(dispatch).waiting().insert(old(dispatch).next_id)
                && final(dispatch).next_id == tools::id_after(old(dispatch).next_id)
        } else {
            *final(dispatch) == *old(dispatch)
        },
{
    match work {
        Work::Run(s) => WorkPlan::Interpret(s),
        Work::Exit => WorkPlan::Stop,
        Work::ToolCall { call_id, name, args, kwargs } => {
            match tool_kind(name.as_str(), lua_tools) {
                ToolKind::Bash => match bash_request(args.as_slice(), kwargs.as_slice()) {
                    Ok(q) => WorkPlan::Bash(call_id, q),
                    Err(e) => WorkPlan::Send(tool_reply(call_id, Err(e))),
                },
                ToolKind::Lua => WorkPlan::CallLua(
                    call_id,
                    name,
                    build_tool_input(args.as_slice(), kwargs.as_slice()),
                ),
                ToolKind::Trusted => WorkPlan::CallParent(
                    call_id,
                    dispatch.begin(name.as_str(), args, kwargs),
                ),
                ToolKind::Unknown => {
                    let e = concat("unknown tool: ", name.as_str());
                    WorkPlan::Send(tool_reply(call_id, Err(e)))
                },
            }
        },
    }
}

/// Each side accepts the other by its name alone.
pub proof fn law_names_are_checked(name: &str, parent: Result<(), SandboxError>, child: Result<
    (),
    SandboxError,
>)
    requires
        call_ensures(check_parent, (name,), parent),
        call_ensures(crate::parent::check_child, (name,), child),
    ensures
        parent is Ok <==> name@ == "maki-server"@,
        child is Ok <==> name@ == "maki-child"@,
        parent matches Err(e) ==> e.is_ipc(
            "unexpected parent handshake: got '"@ + name@ + "', expected 'maki-server'"@,
        ),
        child matches Err(e) ==> e.is_ipc(
            "unexpected child handshake: got '"@ + name@ + "', expected 'maki-child'"@,
        ),
{
}

/// Without a Lua runtime the child has no tools of its own; with one it has the filesystem
/// tools that are registered there, and it does not start where these cannot be listed.
pub proof fn law_tools_of_the_child(
    registered: Option<Result<Vec<String>, String>>,
    r: Result<Vec<String>, SandboxError>,
    name: Seq<char>,
)
    requires
        call_ensures(inner_tools, (registered,), r),
    ensures
        registered is None ==> (r matches Ok(names) && names@.len() == 0),
        registered matches Some(Err(_)) <==> r is Err,
        registered matches Some(Ok(all)) ==> (r matches Ok(names) && (text::views(
            names@,
        ).contains(name) <==> text::views(all@).contains(name) && tools::child_local(name))),
{
    if registered is Some && registered->Some_0 is Ok {
        let all = text::views(registered->Some_0->Ok_0@);
        let kept = |n: Seq<char>| tools::child_local(n);
        tools::lemma_local_is_filter(all);
        if all.contains(name) && tools::child_local(name) {
            let i = choose|i: int| 0 <= i < all.len() && all[i] == name;
            all.lemma_filter_contains(kept, i);
        }
        if tools::local_names(all).contains(name) {
            all.lemma_filter_contains_rev(kept, name);
            let i = choose|i: int| 0 <= i < all.filter(kept).len() && all.filter(kept)[i] == name;
            all.lemma_filter_pred(kept, i);
        }
    }
}

/// Where a tool call goes: a trusted tool to the parent, under a number of its own and with
/// its arguments; a registered tool to the Lua runtime; the shell to the shell; and any other
/// is answered at once, under the number of the call, with an error that names it.
pub proof fn law_work_is_planned(
    call_id: u32,
    name: String,
    args: Vec<Json>,
    kwargs: Vec<(String, Json)>,
    lua_tools: &[String],
    d: &mut RemoteDispatch,
    p: WorkPlan,
)
    requires
        call_ensures(plan_work, (Work::ToolCall { call_id, name, args, kwargs }, lua_tools, d), p),
    ensures
        p matches WorkPlan::CallParent(id, m) <==> tools::trusted(name@),
        p matches WorkPlan::CallParent(id, m) ==> id == call_id && (m@ matches
            ChildMsgView::ToolCall { call_id: own, name: n, args: x, kwargs: y } && own == old(
            d,
        ).next_id && n == name@ && x == json::trees(args@) && y == json::pair_trees(kwargs@)),
        p matches WorkPlan::CallParent(id, m) ==> final(d).pending@.contains(old(d).next_id),
        p matches WorkPlan::CallLua(id, n, input) <==> text::views(lua_tools@).contains(name@)
            && !tools::trusted(name@),
        p matches WorkPlan::CallLua(id, n, input) ==> id == call_id && n@ == name@ && input.tree()
            == tools::tool_input(json::trees(args@), json::pair_trees(kwargs@)),
        p matches WorkPlan::Bash(id, q) ==> id == call_id && name@ == "bash"@,
        p matches WorkPlan::Send(m) ==> (ipc::tool_result_of(m@) matches Ok(x) && x.output is None
            && x.error is Some) && (m@ matches ChildMsgView::ToolResult { call_id: id, .. } && id
            == call_id),
        !tools::trusted(name@) && !text::views(lua_tools@).contains(name@) && name@ != "bash"@ ==> (
        p matches WorkPlan::Send(m) && (ipc::tool_result_of(m@) matches Ok(x) && x.error == Some(
            "unknown tool: "@ + name@,
        ))),
        !tools::trusted(name@) ==> final(d).pending@ == old(d).pending@,
        !(p is Interpret) && !(p is Stop),
{
    tools::law_each_tool_has_its_place(name@, text::views(lua_tools@));
    let c = (Work::ToolCall { call_id, name, args, kwargs })@->ToolCall_0;
    assert(c.name == name@);
    if tools::trusted(name@) {
        assert(final(d).waiting().contains(old(d).next_id));
    }
}

} // verus!
