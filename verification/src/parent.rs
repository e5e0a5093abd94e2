//! The parent's side: accepting the child, and handling its messages.

use vstd::prelude::*;

use crate::child::{CHILD_NAME, PARENT_NAME};
use crate::error::SandboxError;
use crate::ipc::{self, ChildMsg, ParentMsg, ToolResultPayload};
use crate::json;
use crate::json::{Json, JsonTree};
use crate::text::{concat, same};
use crate::wire;
use crate::wire::{ChildMsgView, ParentMsgView, PayloadView};

verus! {

/// A mutex of the standard library.
#[verifier::external_type_specification]
#[verifier::external_body]
#[verifier::reject_recursive_types(T)]
pub struct ExMutex<T: ?Sized>(std::sync::Mutex<T>);

/// The guard of a locked mutex.
#[verifier::external_type_specification]
#[verifier::external_body]
#[verifier::reject_recursive_types(T)]
pub struct ExMutexGuard<'a, T: ?Sized + 'a>(std::sync::MutexGuard<'a, T>);

/// The error of a lock whose mutex is poisoned.
#[verifier::external_type_specification]
#[verifier::external_body]
#[verifier::reject_recursive_types(T)]
pub struct ExPoisonError<T>(std::sync::PoisonError<T>);

/// `std::sync::Mutex::lock` acquires the mutex and gives its guard. It fails where a thread
/// panicked while it held the mutex. Nothing is claimed of the outcome: whether a thread
/// panicked is no part of the mutex's value. A thread that holds the mutex must not lock it
/// again: the call would then not return, or panic; no clause can say that either.
pub assume_specification<T: ?Sized>[ std::sync::Mutex::<T>::lock ](
    mutex: &std::sync::Mutex<T>,
) -> (r: std::sync::LockResult<std::sync::MutexGuard<'_, T>>)
;

/// Converts the outcome of a lock: a poisoned one becomes an error with its text.
pub fn unless_poisoned<G>(locked: Result<G, String>) -> (r: Result<G, SandboxError>)
    ensures
        match locked {
            Ok(g) => r == Ok::<G, SandboxError>(g),
            Err(text) => r == Err::<G, SandboxError>(SandboxError::MutexPoisoned(text)),
        },
{
    match locked {
        Ok(g) => Ok(g),
        Err(text) => Err(SandboxError::MutexPoisoned(text)),
    }
}

/// Acquire a mutex lock, converting poison to [`SandboxError`]: the guard is the one that
/// locking this mutex gave, and an error holds the text of the poison that it met.
pub fn lock_or_poisoned<T>(mutex: &std::sync::Mutex<T>) -> (r: Result<
    std::sync::MutexGuard<'_, T>,
    SandboxError,
>)
    ensures
        exists|locked: std::sync::LockResult<std::sync::MutexGuard<'_, T>>|
            {
                &&& #[trigger] call_ensures(std::sync::Mutex::<T>::lock, (mutex,), locked)
                &&& match locked {
                    Ok(guard) => r == Ok::<_, SandboxError>(guard),
                    Err(e) => r matches Err(SandboxError::MutexPoisoned(text))
                        && vstd::string::to_string_from_display_ensures(&e, text),
                }
            },
{
    match mutex.lock() {
        Ok(guard) => unless_poisoned(Ok(guard)),
        Err(e) => unless_poisoned(Err(e.to_string())),
    }
}

// ── Accepting the child ──

/// The reason for a child of another name.
pub open spec fn unexpected_child(name: Seq<char>) -> Seq<char> {
    "unexpected child handshake: got '"@ + name + "', expected 'maki-child'"@
}

/// Writes the parent's handshake, as the child expects it.
pub fn greet_child(out: &mut Vec<u8>) -> (r: Result<(), SandboxError>)
    ensures
        ipc::wrote(
            r,
            old(out)@,
            final(out)@,
            wire::handshake_tree(ipc::greeting("maki-server"@)),
        ),
        ipc::handshake_arrives("maki-server"@),
{
    ipc::send_handshake(out, PARENT_NAME)
}

/// Accepts the child by its name.
pub fn check_child(name: &str) -> (r: Result<(), SandboxError>)
    ensures
        r is Ok <==> name@ == "maki-child"@,
        r matches Err(e) ==> e.is_ipc(unexpected_child(name@)),
{
    if same(name, CHILD_NAME) {
        Ok(())
    } else {
        let mut m = concat("unexpected child handshake: got '", name);
        m.append("', expected 'maki-child'");
        Err(SandboxError::Ipc(m))
    }
}

/// Reads the child's handshake and accepts the child by its name.
pub fn accept_child(input: &mut Vec<u8>) -> (r: Result<(), SandboxError>)
    ensures
        final(input)@ == ipc::input_after(old(input)@),
        match ipc::handshake_in(old(input)@) {
            Err(text) => r matches Err(e) && e.is_ipc(text),
            Ok(name) => {
                &&& r is Ok <==> name == "maki-child"@
                &&& r matches Err(e) ==> e.is_ipc(unexpected_child(name))
            },
        },
{
    match ipc::recv_handshake(input) {
        Ok(name) => check_child(name.as_str()),
        Err(e) => Err(e),
    }
}

// ── Handling messages ──

/// Trait for dispatching tool calls from the sandbox child.
///
/// Implementations decide how each tool call is handled: directly
/// (e.g. calling a Lua function) or forwarded (e.g. over IPC).
pub trait ToolDispatcher: Send + Sync {
    fn dispatch(&self, name: &str, args: Vec<Json>, kwargs: Vec<(String, Json)>) -> Result<
        String,
        String,
    >;
}

/// Result of running the parent-side IO loop.
#[derive(Debug)]
pub struct ChildIoResult {
    pub output: Option<Json>,
    pub stdout: String,
    pub error: Option<String>,
}

/// The model of a run's result.
#[verifier::ext_equal]
pub struct RunResultView {
    pub output: Option<JsonTree>,
    pub stdout: Seq<char>,
    pub error: Option<Seq<char>>,
}

impl View for ChildIoResult {
    type V = RunResultView;

    open spec fn view(&self) -> RunResultView {
        RunResultView {
            output: wire::opt_tree(self.output),
            stdout: self.stdout@,
            error: wire::opt_view(self.error),
        }
    }
}

/// What a message from the child makes the parent do.
#[derive(Debug)]
pub enum ParentAction {
    /// Run a tool, and send its result for this call.
    Call { call_id: u32, name: String, args: Vec<Json>, kwargs: Vec<(String, Json)> },
    /// Hand a line of output to whoever listens.
    Print(String),
    /// Keep the result, and stop.
    Finish(ChildIoResult),
    /// Nothing: the message belongs to a query.
    Ignore,
}

/// Decides what a message from the child makes the parent do.
pub fn handle_child_msg(msg: ChildMsg) -> (a: ParentAction)
    ensures
        match msg@ {
            ChildMsgView::ToolCall { call_id, name, args, kwargs } => a matches
                ParentAction::Call { call_id: i, name: n, args: x, kwargs: y } && i == call_id
                && n@ == name && json::trees(x@) == args && json::pair_trees(y@) == kwargs,
            ChildMsgView::Stdout { text } => a matches ParentAction::Print(t) && t@ == text,
            ChildMsgView::Done { output, stdout, error } => a matches ParentAction::Finish(r)
                && r@ == (RunResultView { output, stdout, error }),
            _ => a is Ignore,
        },
{
    match msg {
        ChildMsg::ToolCall { call_id, name, args, kwargs } => {
            ParentAction::Call { call_id, name, args, kwargs }
        },
        ChildMsg::Stdout { text } => ParentAction::Print(text),
        ChildMsg::Done { output, stdout, error } => {
            ParentAction::Finish(ChildIoResult { output, stdout, error })
        },
        _ => ParentAction::Ignore,
    }
}

/// What the child is told of a tool's result.
pub open spec fn dispatch_payload(r: Result<Seq<char>, Seq<char>>) -> PayloadView {
    match r {
        Ok(o) => PayloadView { output: Some(o), error: None },
        Err(e) => PayloadView { output: None, error: Some(e) },
    }
}

/// The model of the message with a tool's result.
pub open spec fn result_msg(call_id: u32, r: Result<String, String>) -> ParentMsgView {
    ParentMsgView::ToolResult {
        call_id,
        result: dispatch_payload(
            match r {
                Ok(o) => Ok(o@),
                Err(e) => Err(e@),
            },
        ),
    }
}

/// The message with a tool's result: either an output or an error.
pub fn tool_result_msg(call_id: u32, r: Result<String, String>) -> (m: ParentMsg)
    ensures
        m@ == result_msg(call_id, r),
{
    let result = match r {
        Ok(o) => ToolResultPayload { output: Some(o), error: None },
        Err(e) => ToolResultPayload { output: None, error: Some(e) },
    };
    ParentMsg::ToolResult { call_id, result }
}

/// Runs a tool call of the child, and makes the message with its result: for the same call,
/// with either an output or an error.
pub fn run_tool_call<D: ToolDispatcher>(
    dispatcher: &D,
    call_id: u32,
    name: &str,
    args: Vec<Json>,
    kwargs: Vec<(String, Json)>,
) -> (m: ParentMsg)
    ensures
        m@ matches ParentMsgView::ToolResult { call_id: id, result } && id == call_id && (
        result.output is Some <==> result.error is None),
        exists|r: Result<String, String>| #[trigger]
            call_ensures(D::dispatch, (dispatcher, name, args, kwargs), r) && m@
                == result_msg(call_id, r),
{
    let r = dispatcher.dispatch(name, args, kwargs);
    tool_result_msg(call_id, r)
}

/// What the interpreter gave.
#[derive(Debug)]
pub struct InterpreterResult {
    pub output: Option<Json>,
    pub stdout: String,
}

/// The outcome of a run. One that could not be carried out is an error with its cause. Any
/// other gives its result and its output, unless it ended with an error of its own.
pub fn run_outcome(r: Result<ChildIoResult, String>) -> (out: Result<
    Result<InterpreterResult, String>,
    String,
>)
    ensures
        match r {
            Err(cause) => out matches Err(t) && t@ == "sandbox run: "@ + cause@,
            Ok(run) => match out {
                Ok(Ok(i)) => run@.error is None && wire::opt_tree(i.output) == run@.output
                    && i.stdout@ == run@.stdout,
                Ok(Err(e)) => run@.error == Some(e@),
                Err(_) => false,
            },
        },
{
    match r {
        Err(cause) => Err(concat("sandbox run: ", cause.as_str())),
        Ok(run) => match run.error {
            Some(e) => Ok(Err(e)),
            None => Ok(Ok(InterpreterResult { output: run.output, stdout: run.stdout })),
        },
    }
}

/// Each message of a run is passed on with what it carries: a tool call under its number, a
/// line of output, and the end with its result. The answers to queries are left alone.
pub proof fn law_message_is_passed_on(msg: ChildMsg, a: ParentAction)
    requires
        call_ensures(handle_child_msg, (msg,), a),
    ensures
        msg@ matches ChildMsgView::ToolCall { call_id, name, args, kwargs } <==> a is Call,
        msg@ is Stdout <==> a is Print,
        msg@ is Done <==> a is Finish,
        a matches ParentAction::Call { call_id, name, args, kwargs } ==> (msg@ matches
            ChildMsgView::ToolCall { call_id: i, name: n, args: x, kwargs: y } && call_id == i
            && name@ == n && json::trees(args@) == x && json::pair_trees(kwargs@) == y),
        a matches ParentAction::Print(t) ==> (msg@ matches ChildMsgView::Stdout { text } && t@
            == text),
        a matches ParentAction::Finish(r) ==> (msg@ matches ChildMsgView::Done {
            output,
            stdout,
            error,
        } && r@.output == output && r@.stdout == stdout && r@.error == error),
{
}

/// What a tool of the parent gave reaches the call in the child that waits for it: its output
/// as a text, or its error.
pub proof fn law_dispatched_result_reaches_the_call(
    call_id: u32,
    r: Result<String, String>,
    m: ParentMsg,
)
    requires
        call_ensures(tool_result_msg, (call_id, r), m),
    ensures
        m@ matches ParentMsgView::ToolResult { call_id: id, result } && id == call_id
            && match r {
            Ok(o) => crate::tools::call_result(Some(Ok(result))) matches Ok(t) && t
                == JsonTree::Str(o@),
            Err(e) => crate::tools::call_result(Some(Ok(result))) matches Err(x) && x == e@,
        },
{
}

/// A run that ended without an error gives its result and its output; one with an error gives
/// that error; and one that could not be carried out fails with its cause.
pub proof fn law_run_is_reported(
    r: Result<ChildIoResult, String>,
    out: Result<Result<InterpreterResult, String>, String>,
)
    requires
        call_ensures(run_outcome, (r,), out),
    ensures
        out is Err <==> r is Err,
        r matches Ok(run) ==> (run.error matches Some(e) ==> (out matches Ok(Err(x)) && x@ == e@)),
        r matches Ok(run) ==> (run.error is None ==> (out matches Ok(Ok(i)) && wire::opt_tree(
            i.output,
        ) == wire::opt_tree(run.output) && i.stdout@ == run.stdout@)),
        r matches Err(cause) ==> (out matches Err(t) && t@ == "sandbox run: "@ + cause@),
{
}

/// The two sides accept each other: what the parent sends first the child answers, and that
/// answer the parent accepts. Nothing is left over on either side.
pub proof fn law_sides_accept_each_other(
    to_child: &mut Vec<u8>,
    at_child: &mut Vec<u8>,
    to_parent: &mut Vec<u8>,
    at_parent: &mut Vec<u8>,
    a: Result<(), SandboxError>,
    b: Result<(), SandboxError>,
    c: Result<(), SandboxError>,
)
    requires
        old(to_child)@.len() == 0,
        call_ensures(greet_child, (to_child,), a),
        a is Ok,
        old(at_child)@ == final(to_child)@,
        old(to_parent)@.len() == 0,
        call_ensures(crate::child::greet_parent, (at_child, to_parent), b),
        b is Ok,
        old(at_parent)@ == final(to_parent)@,
        call_ensures(accept_child, (at_parent,), c),
    ensures
        c is Ok,
        final(at_child)@.len() == 0,
        final(at_parent)@.len() == 0,
{
    let first = ipc::sent(wire::handshake_tree(ipc::greeting("maki-server"@)));
    let second = ipc::sent(wire::handshake_tree(ipc::greeting("maki-child"@)));
    assert(final(to_child)@ =~= ipc::frame(first) + Seq::<u8>::empty());
    ipc::law_message_read_back(first, Seq::empty());
    assert(wire::gives(ipc::handshake_in(old(at_child)@), "maki-server"@));
    assert(final(to_parent)@ =~= ipc::frame(second) + Seq::<u8>::empty());
    ipc::law_message_read_back(second, Seq::empty());
    assert(wire::gives(ipc::handshake_in(old(at_parent)@), "maki-child"@));
}

/// The setup that the parent sends is the one that the child gets.
pub proof fn law_setup_is_received(
    out: &mut Vec<u8>,
    msg: ipc::SetupMessage,
    input: &mut Vec<u8>,
    r: Result<ipc::SetupMessage, SandboxError>,
    rest: Seq<u8>,
)
    requires
        old(out)@.len() == 0,
        call_ensures(ipc::send_setup, (out, &msg), Ok(())),
        old(input)@ == final(out)@ + rest,
        call_ensures(ipc::recv_setup, (input,), r),
    ensures
        r matches Ok(m) && m.code@ == msg.code@ && m.timeout_secs == msg.timeout_secs
            && m.max_memory == msg.max_memory,
        final(input)@ == rest,
{
    let data = ipc::sent(wire::setup_tree(msg@));
    assert(final(out)@ =~= ipc::frame(data));
    ipc::law_message_read_back(data, rest);
    assert(wire::gives(ipc::setup_in(ipc::frame(data) + rest), msg@));
}

} // verus!
