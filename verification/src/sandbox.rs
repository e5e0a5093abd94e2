//! A handle to the sandboxed child: what is to be written to it, and what came from it.

use vstd::prelude::*;

use crate::error::SandboxError;
use crate::ipc::{self, DirEntry, ParentMsg, SetupMessage, ToolResultPayload};
use crate::json;
use crate::json::{Json, JsonTree};
use crate::namespace::NamespaceConfig;
use crate::process;
use crate::process::WaitOutcome;
use crate::wire;
use crate::wire::{ChildMsgView, ParentMsgView};

verus! {

/// A running child, with the bytes that go to it and those that came from it.
#[derive(Debug)]
pub struct SandboxInner {
    pub pid: i32,
    pub out: Vec<u8>,
    pub input: Vec<u8>,
}

/// Handle to a sandboxed child process. When the configuration changes, the old child is
/// given up, and once it has left a new one is put in its place.
#[derive(Debug)]
pub struct Sandbox {
    pub config: NamespaceConfig,
    pub inner: Option<SandboxInner>,
    /// The process of a child that was given up, until it has been waited for.
    pub leaving: Option<i32>,
}

/// A child that is given up: its process, and what is still to be written to it.
#[derive(Debug)]
pub struct Dismissal {
    pub pid: i32,
    pub bytes: Vec<u8>,
}

/// The processes of a sandbox: the one that runs, and the one that is to be waited for.
pub struct Children {
    pub running: Option<i32>,
    pub leaving: Option<i32>,
}

/// What can happen to the children of a sandbox.
pub enum Move {
    /// Something is written to the child, or read from it.
    Talk,
    /// The child is told to exit.
    Dismiss,
    /// The child that was told to exit has been waited for.
    Waited,
    /// A new child is put in place, if one could be started.
    Renew(Option<i32>),
}

/// Whether a move leads from some children to others.
pub open spec fn moves(before: Children, m: Move, after: Children) -> bool {
    match m {
        Move::Talk => after == before,
        Move::Dismiss => match before.running {
            Some(pid) => after.running is None && after.leaving == Some(pid),
            None => after == before,
        },
        Move::Waited => after.running == before.running && after.leaving is None,
        Move::Renew(child) => before.running is None && before.leaving is None && after.running
            == child && after.leaving is None,
    }
}

/// Whether bytes for a child were continued by the order to exit. An order longer than any
/// message would be left out.
pub open spec fn ends_with_exit(before: Seq<u8>, after: Seq<u8>) -> bool {
    let exit = ipc::sent(wire::parent_tree(ParentMsgView::Exit));
    after == if exit.len() <= ipc::MAX_MSG_LEN {
        before + ipc::frame(exit)
    } else {
        before
    }
}

/// Whether moves lead through these states.
pub open spec fn history(states: Seq<Children>, steps: Seq<Move>) -> bool {
    &&& states.len() == steps.len() + 1
    &&& forall|i: int, j: int|
        0 <= i < steps.len() && j == i + 1 ==> moves(
            #[trigger] states[i],
            steps[i],
            #[trigger] states[j],
        )
}

/// Whether this move tells the first child to exit.
pub open spec fn dismisses(states: Seq<Children>, steps: Seq<Move>, d: int) -> bool {
    steps[d] is Dismiss && states[d].running == states[0].running
}

/// Whether this move is that the first child has been waited for.
pub open spec fn waits(states: Seq<Children>, steps: Seq<Move>, w: int) -> bool {
    steps[w] is Waited && states[w].leaving == states[0].running
}

/// A new child comes only after the old one has left: whatever else happens in between, the
/// old one was told to exit, and after that its process was waited for.
pub proof fn law_old_child_leaves_first(states: Seq<Children>, steps: Seq<Move>)
    requires
        history(states, steps),
        states[0].running is Some,
        steps.len() > 0,
        steps.last() is Renew,
    ensures
        exists|d: int, w: int|
            0 <= d < w < steps.len() - 1 && dismisses(states, steps, d) && waits(states, steps, w),
{
    let last = steps.len() - 1;
    assert(moves(states[last], steps[last], states[last + 1]));
    lemma_child_leaves(states, steps, last);
}

proof fn lemma_child_leaves(states: Seq<Children>, steps: Seq<Move>, n: int)
    requires
        history(states, steps),
        states[0].running is Some,
        0 <= n < steps.len(),
    ensures
        ({
            ||| states[n].running == states[0].running
            ||| states[n].running is None && states[n].leaving == states[0].running && exists|
                d: int,
            | 0 <= d < n && dismisses(states, steps, d)
            ||| exists|d: int, w: int|
                0 <= d < w < n && dismisses(states, steps, d) && waits(states, steps, w)
        }),
    decreases n,
{
    if n > 0 {
        lemma_child_leaves(states, steps, n - 1);
        assert(moves(states[n - 1], steps[n - 1], states[n]));
        if states[n - 1].running == states[0].running {
            if steps[n - 1] is Dismiss {
                assert(dismisses(states, steps, n - 1));
            }
        } else if states[n - 1].running is None && states[n - 1].leaving == states[0].running {
            if steps[n - 1] is Waited {
                assert(waits(states, steps, n - 1));
            }
        }
    }
}

/// The reason why nothing can be sent before there is a child.
pub open spec fn not_initialized() -> Seq<char> {
    "sandbox not initialized (call reinit first)"@
}

/// The error of whatever needs a child while there is none.
pub fn no_child() -> (e: SandboxError)
    ensures
        e.is_ipc(not_initialized()),
{
    SandboxError::Ipc("sandbox not initialized (call reinit first)".to_owned())
}

/// The message that asks for a run.
pub open spec fn run_msg(
    code: Seq<char>,
    timeout_secs: u64,
    max_memory: usize,
    config: Seq<char>,
) -> ParentMsgView {
    ParentMsgView::Run { call_id: 0, code, timeout_secs, max_memory, config }
}

/// The message that asks for a tool of the child.
pub open spec fn tool_call_msg(
    name: Seq<char>,
    args: Seq<JsonTree>,
    kwargs: Seq<(Seq<char>, JsonTree)>,
) -> ParentMsgView {
    ParentMsgView::ToolCall { call_id: 0, name, args, kwargs }
}

/// Whether a message was written to the child, if there is one.
pub open spec fn wrote_to_child(
    r: Result<(), SandboxError>,
    before: Sandbox,
    after: Sandbox,
    t: JsonTree,
) -> bool {
    &&& after.config == before.config
    &&& after.leaving == before.leaving
    &&& match before.inner {
        None => (r matches Err(e) && e.is_ipc(not_initialized())) && after.inner is None,
        Some(b) => after.inner matches Some(a) && a.pid == b.pid && a.input == b.input
            && ipc::wrote(r, b.out@, a.out@, t),
    }
}

/// Whether a message was read from the child, if there is one.
pub open spec fn read_from_child(before: Sandbox, after: Sandbox) -> bool {
    &&& after.config == before.config
    &&& after.leaving == before.leaving
    &&& match before.inner {
        None => after.inner is None,
        Some(b) => after.inner matches Some(a) && a.pid == b.pid && a.out == b.out && a.input@
            == ipc::input_after(b.input@),
    }
}

impl SandboxInner {
    /// A child to which nothing was written yet.
    pub fn new(pid: i32) -> (c: SandboxInner)
        ensures
            c.pid == pid,
            c.out@.len() == 0,
            c.input@.len() == 0,
    {
        SandboxInner { pid, out: Vec::new(), input: Vec::new() }
    }

    /// Takes the bytes that go to the child.
    pub fn take_out(&mut self) -> (bytes: Vec<u8>)
        ensures
            bytes@ == old(self).out@,
            final(self).out@.len() == 0,
            final(self).pid == old(self).pid,
            final(self).input == old(self).input,
    {
        let mut bytes: Vec<u8> = Vec::new();
        std::mem::swap(&mut bytes, &mut self.out);
        bytes
    }
}

impl Sandbox {
    /// Which children there are.
    pub open spec fn state(self) -> Children {
        Children {
            running: match self.inner {
                Some(c) => Some(c.pid),
                None => None,
            },
            leaving: self.leaving,
        }
    }

    /// A sandbox with its first child.
    pub fn new(config: NamespaceConfig, child: SandboxInner) -> (s: Sandbox)
        ensures
            s.config == config,
            s.inner == Some(child),
            s.leaving is None,
    {
        Sandbox { config, inner: Some(child), leaving: None }
    }

    /// Gives the child up: what still goes to it ends with the order to exit. Its process is
    /// then to be waited for.
    pub fn dismiss(&mut self) -> (d: Option<Dismissal>)
        ensures
            moves(old(self).state(), Move::Dismiss, final(self).state()),
            final(self).config == old(self).config,
            match old(self).inner {
                Some(c) => d matches Some(x) && x.pid == c.pid && ends_with_exit(c.out@, x.bytes@),
                None => d is None,
            },
            old(self).inner is Some ==> ipc::arrives_at_child(ParentMsgView::Exit),
    {
        match self.inner.take() {
            None => None,
            Some(c) => {
                let mut bytes = c.out;
                let _ = ipc::send_exit(&mut bytes);
                self.leaving = Some(c.pid);
                Some(Dismissal { pid: c.pid, bytes })
            },
        }
    }

    /// Takes that the process of a child that was given up has been waited for.
    pub fn waited(&mut self, w: &WaitOutcome) -> (r: Result<(), SandboxError>)
        ensures
            moves(old(self).state(), Move::Waited, final(self).state()),
            final(self).config == old(self).config,
            final(self).inner == old(self).inner,
            match process::child_failure(*w) {
                None => r is Ok,
                Some(reason) => r matches Err(e) && e.is_ipc(reason),
            },
    {
        self.leaving = None;
        process::wait_child(w)
    }

    /// Puts a new child in place, with the configuration that it was started with, or gives
    /// the reason why none could be started. The old child has left by then: it was told to
    /// exit, and its process was waited for.
    pub fn reinit(
        &mut self,
        config: NamespaceConfig,
        spawned: Result<SandboxInner, SandboxError>,
    ) -> (r: Result<(), SandboxError>)
        requires
            old(self).inner is None,
            old(self).leaving is None,
        ensures
            match spawned {
                Ok(child) => r is Ok && final(self).config == config && final(self).inner == Some(
                    child,
                ),
                Err(e) => r == Err::<(), SandboxError>(e) && final(self).config == old(self).config
                    && final(self).inner is None,
            },
            moves(
                old(self).state(),
                Move::Renew(
                    match spawned {
                        Ok(child) => Some(child.pid),
                        Err(_) => None,
                    },
                ),
                final(self).state(),
            ),
    {
        match spawned {
            Ok(child) => {
                self.config = config;
                self.inner = Some(child);
                Ok(())
            },
            Err(e) => Err(e),
        }
    }

    /// Writes a [`SetupMessage`] to the child (code, timeout, memory limit).
    pub fn setup(&mut self, msg: &SetupMessage) -> (r: Result<(), SandboxError>)
        ensures
            wrote_to_child(r, *old(self), *final(self), wire::setup_tree(msg@)),
            old(self).inner is Some ==> ipc::setup_arrives(msg@),
    {
        match self.inner.take() {
            None => Err(no_child()),
            Some(mut c) => {
                let r = ipc::send_setup(&mut c.out, msg);
                self.inner = Some(c);
                r
            },
        }
    }

    /// The child's PID, if a child is running.
    pub fn pid(&self) -> (p: Option<i32>)
        ensures
            p == match self.inner {
                Some(c) => Some(c.pid),
                None => None,
            },
    {
        match &self.inner {
            Some(c) => Some(c.pid),
            None => None,
        }
    }

    /// The process to wait for.
    pub fn wait(&self) -> (r: Result<i32, SandboxError>)
        ensures
            match self.inner {
                Some(c) => r == Ok::<i32, SandboxError>(c.pid),
                None => r matches Err(e) && e.is_ipc("no child to wait on"@),
            },
    {
        match &self.inner {
            Some(c) => Ok(c.pid),
            None => Err(SandboxError::Ipc("no child to wait on".to_owned())),
        }
    }

    // ── Browser / shell query methods ──

    /// Asks for the child's current working directory.
    pub fn pwd(&mut self) -> (r: Result<(), SandboxError>)
        ensures
            wrote_to_child(r, *old(self), *final(self), wire::parent_tree(ParentMsgView::Pwd)),
            old(self).inner is Some ==> ipc::arrives_at_child(ParentMsgView::Pwd),
    {
        match self.inner.take() {
            None => Err(no_child()),
            Some(mut c) => {
                let r = ipc::query_pwd(&mut c.out);
                self.inner = Some(c);
                r
            },
        }
    }

    /// Reads the child's current working directory.
    pub fn pwd_answer(&mut self) -> (r: Result<String, SandboxError>)
        ensures
            read_from_child(*old(self), *final(self)),
            match old(self).inner {
                None => r matches Err(e) && e.is_ipc(not_initialized()),
                Some(c) => match ipc::child_msg_in(c.input@) {
                    Err(text) => r matches Err(e) && e.is_ipc(text),
                    Ok(m) => match r {
                        Ok(s) => wire::gives(ipc::pwd_of(m), s@),
                        Err(e) => e is Ipc && wire::fails(ipc::pwd_of(m), e.message()),
                    },
                },
            },
            old(self).inner matches Some(c) ==> (ipc::child_msg_in(c.input@) matches Ok(
                ChildMsgView::PwdResult { path },
            ) ==> (r matches Ok(s) && s@ == path)),
    {
        match self.inner.take() {
            None => Err(no_child()),
            Some(mut c) => {
                let r = ipc::pwd_answer(&mut c.input);
                self.inner = Some(c);
                r
            },
        }
    }

    /// Asks for the entries of a directory in the child.
    pub fn ls(&mut self, path: &str) -> (r: Result<(), SandboxError>)
        ensures
            wrote_to_child(
                r,
                *old(self),
                *final(self),
                wire::parent_tree(ParentMsgView::Ls { path: path@ }),
            ),
            old(self).inner is Some ==> ipc::arrives_at_child(ParentMsgView::Ls { path: path@ }),
    {
        match self.inner.take() {
            None => Err(no_child()),
            Some(mut c) => {
                let r = ipc::query_ls(&mut c.out, path);
                self.inner = Some(c);
                r
            },
        }
    }

    /// Reads the entries of a directory in the child.
    pub fn ls_answer(&mut self) -> (r: Result<Vec<DirEntry>, SandboxError>)
        ensures
            read_from_child(*old(self), *final(self)),
            match old(self).inner {
                None => r matches Err(e) && e.is_ipc(not_initialized()),
                Some(c) => match ipc::child_msg_in(c.input@) {
                    Err(text) => r matches Err(e) && e.is_ipc(text),
                    Ok(m) => match r {
                        Ok(v) => wire::gives(ipc::listing_of(m), ipc::entry_views(v@)),
                        Err(e) => e is Ipc && wire::fails(ipc::listing_of(m), e.message()),
                    },
                },
            },
            old(self).inner matches Some(c) ==> (ipc::child_msg_in(c.input@) matches Ok(
                ChildMsgView::LsResult { entries },
            ) ==> (r matches Ok(v) && ipc::entry_views(v@) == entries)),
    {
        match self.inner.take() {
            None => Err(no_child()),
            Some(mut c) => {
                let r = ipc::ls_answer(&mut c.input);
                self.inner = Some(c);
                r
            },
        }
    }

    /// Asks for a change of the child's working directory.
    pub fn cd(&mut self, path: &str) -> (r: Result<(), SandboxError>)
        ensures
            wrote_to_child(
                r,
                *old(self),
                *final(self),
                wire::parent_tree(ParentMsgView::Cd { path: path@ }),
            ),
            old(self).inner is Some ==> ipc::arrives_at_child(ParentMsgView::Cd { path: path@ }),
    {
        match self.inner.take() {
            None => Err(no_child()),
            Some(mut c) => {
                let r = ipc::query_cd(&mut c.out, path);
                self.inner = Some(c);
                r
            },
        }
    }

    /// Reads whether the child's working directory was changed.
    pub fn cd_answer(&mut self) -> (r: Result<(), SandboxError>)
        ensures
            read_from_child(*old(self), *final(self)),
            match old(self).inner {
                None => r matches Err(e) && e.is_ipc(not_initialized()),
                Some(c) => match ipc::child_msg_in(c.input@) {
                    Err(text) => r matches Err(e) && e.is_ipc(text),
                    Ok(m) => match r {
                        Ok(_) => wire::gives(ipc::cd_of(m), ()),
                        Err(e) => e is Ipc && wire::fails(ipc::cd_of(m), e.message()),
                    },
                },
            },
            r is Ok <==> (old(self).inner matches Some(c) && (ipc::child_msg_in(
                c.input@,
            ) matches Ok(ChildMsgView::CdResult))),
    {
        match self.inner.take() {
            None => Err(no_child()),
            Some(mut c) => {
                let r = ipc::cd_answer(&mut c.input);
                self.inner = Some(c);
                r
            },
        }
    }

    /// Asks for a shell command in the child.
    pub fn exec(&mut self, command: &str) -> (r: Result<(), SandboxError>)
        ensures
            wrote_to_child(
                r,
                *old(self),
                *final(self),
                wire::parent_tree(ParentMsgView::Exec { command: command@ }),
            ),
            old(self).inner is Some ==> ipc::arrives_at_child(ParentMsgView::Exec { command: command@ }),
    {
        match self.inner.take() {
            None => Err(no_child()),
            Some(mut c) => {
                let r = ipc::query_exec(&mut c.out, command);
                self.inner = Some(c);
                r
            },
        }
    }

    /// Reads what a shell command gave: `(output, is_error)`.
    pub fn exec_answer(&mut self) -> (r: Result<(String, bool), SandboxError>)
        ensures
            read_from_child(*old(self), *final(self)),
            match old(self).inner {
                None => r matches Err(e) && e.is_ipc(not_initialized()),
                Some(c) => match ipc::child_msg_in(c.input@) {
                    Err(text) => r matches Err(e) && e.is_ipc(text),
                    Ok(m) => match r {
                        Ok(p) => wire::gives(ipc::exec_of(m), (p.0@, p.1)),
                        Err(e) => e is Ipc && wire::fails(ipc::exec_of(m), e.message()),
                    },
                },
            },
            old(self).inner matches Some(c) ==> (ipc::child_msg_in(c.input@) matches Ok(
                ChildMsgView::ExecResult { output, is_error },
            ) ==> (r matches Ok(p) && p.0@ == output && p.1 == is_error)),
    {
        match self.inner.take() {
            None => Err(no_child()),
            Some(mut c) => {
                let r = ipc::exec_answer(&mut c.input);
                self.inner = Some(c);
                r
            },
        }
    }

    /// Asks the child to run code, with its limits and the configuration of its plugins.
    pub fn run_code(
        &mut self,
        code: &str,
        timeout_secs: u64,
        max_memory: usize,
        config: &str,
    ) -> (r: Result<(), SandboxError>)
        ensures
            wrote_to_child(
                r,
                *old(self),
                *final(self),
                wire::parent_tree(run_msg(code@, timeout_secs, max_memory, config@)),
            ),
            old(self).inner is Some ==> ipc::arrives_at_child(
                run_msg(code@, timeout_secs, max_memory, config@),
            ),
    {
        match self.inner.take() {
            None => Err(no_child()),
            Some(mut c) => {
                let msg = ParentMsg::Run {
                    call_id: 0,
                    code: code.to_owned(),
                    timeout_secs,
                    max_memory,
                    config: config.to_owned(),
                };
                let r = ipc::send_parent_msg(&mut c.out, &msg);
                self.inner = Some(c);
                r
            },
        }
    }

    /// Asks for a tool that runs in the child.
    pub fn call_tool(&mut self, name: &str, args: Vec<Json>, kwargs: Vec<(String, Json)>) -> (r:
        Result<(), SandboxError>)
        ensures
            wrote_to_child(
                r,
                *old(self),
                *final(self),
                wire::parent_tree(
                    tool_call_msg(name@, json::trees(args@), json::pair_trees(kwargs@)),
                ),
            ),
            old(self).inner is Some && wire::plain_request(
                json::trees(args@),
                json::pair_trees(kwargs@),
            ) ==> ipc::arrives_at_child(
                tool_call_msg(name@, json::trees(args@), json::pair_trees(kwargs@)),
            ),
    {
        match self.inner.take() {
            None => Err(no_child()),
            Some(mut c) => {
                let msg = ParentMsg::ToolCall { call_id: 0, name: name.to_owned(), args, kwargs };
                let r = ipc::send_parent_msg(&mut c.out, &msg);
                self.inner = Some(c);
                r
            },
        }
    }

    /// Reads what a tool of the child gave.
    pub fn call_tool_answer(&mut self) -> (r: Result<ToolResultPayload, SandboxError>)
        ensures
            read_from_child(*old(self), *final(self)),
            match old(self).inner {
                None => r matches Err(e) && e.is_ipc(not_initialized()),
                Some(c) => match ipc::child_msg_in(c.input@) {
                    Err(text) => r matches Err(e) && e.is_ipc(text),
                    Ok(m) => match r {
                        Ok(p) => wire::gives(ipc::tool_result_of(m), p@),
                        Err(e) => e is Ipc && wire::fails(ipc::tool_result_of(m), e.message()),
                    },
                },
            },
            old(self).inner matches Some(c) ==> (ipc::child_msg_in(c.input@) matches Ok(
                ChildMsgView::ToolResult { call_id, result },
            ) ==> (r matches Ok(p) && p@.output == result.output && p@.error == result.error)),
    {
        match self.inner.take() {
            None => Err(no_child()),
            Some(mut c) => {
                let r = ipc::tool_answer(&mut c.input);
                self.inner = Some(c);
                r
            },
        }
    }

    /// Asks the child to exit.
    pub fn exit(&mut self) -> (r: Result<(), SandboxError>)
        ensures
            wrote_to_child(r, *old(self), *final(self), wire::parent_tree(ParentMsgView::Exit)),
            old(self).inner is Some ==> ipc::arrives_at_child(ParentMsgView::Exit),
    {
        match self.inner.take() {
            None => Err(no_child()),
            Some(mut c) => {
                let r = ipc::send_exit(&mut c.out);
                self.inner = Some(c);
                r
            },
        }
    }
}

/// What is asked of the child is asked under the number zero, with what was given.
pub proof fn law_requests_carry_what_was_given(
    code: Seq<char>,
    timeout_secs: u64,
    max_memory: usize,
    config: Seq<char>,
    name: Seq<char>,
    args: Seq<JsonTree>,
    kwargs: Seq<(Seq<char>, JsonTree)>,
)
    ensures
        run_msg(code, timeout_secs, max_memory, config) matches ParentMsgView::Run {
            call_id,
            code: c,
            timeout_secs: t,
            max_memory: m,
            config: g,
        } && call_id == 0 && c == code && t == timeout_secs && m == max_memory && g == config,
        tool_call_msg(name, args, kwargs) matches ParentMsgView::ToolCall {
            call_id,
            name: n,
            args: a,
            kwargs: k,
        } && call_id == 0 && n == name && a == args && k == kwargs,
{
}

/// Writing to the child adds one message to what goes to it and changes nothing else of the
/// sandbox; reading from it takes away what was read and nothing else. Without a child
/// nothing is written, and the error says so.
pub proof fn law_talking_changes_one_direction(
    r: Result<(), SandboxError>,
    before: Sandbox,
    wrote: Sandbox,
    read: Sandbox,
    t: JsonTree,
)
    requires
        wrote_to_child(r, before, wrote, t),
        read_from_child(before, read),
    ensures
        wrote.config == before.config && read.config == before.config,
        wrote.state() == before.state() && read.state() == before.state(),
        moves(before.state(), Move::Talk, wrote.state()),
        before.inner is None ==> wrote.inner is None && read.inner is None && (r matches Err(e)
            && e.is_ipc("sandbox not initialized (call reinit first)"@)),
        before.inner matches Some(b) ==> (wrote.inner matches Some(a) && a.input == b.input
            && b.out@.is_prefix_of(a.out@) && (r is Ok ==> wire::gives(
            ipc::message_in(a.out@.skip(b.out@.len() as int)),
            vstd::utf8::encode_utf8(json::json_text(t)),
        )) && (r is Err ==> a.out@ == b.out@)),
        before.inner matches Some(b) ==> (read.inner matches Some(a) && a.out == b.out
            && a.input@.is_suffix_of(b.input@)),
{
    if before.inner is Some {
        let b = before.inner->Some_0;
        let a = wrote.inner->Some_0;
        ipc::law_message_is_written_whole(r, b.out@, a.out@, t);
        if r is Err {
            assert(b.out@.take(b.out@.len() as int) =~= b.out@);
        }
        let left = read.inner->Some_0.input@;
        let all = b.input@;
        ipc::law_message_is_what_is_announced(all);
        assert(all.skip(all.len() - left.len()) =~= left);
    }
}

/// A child that is given up gets the order to exit as its last message, behind what it was
/// still to get; while that order fits a message.
pub proof fn law_exit_comes_last(before: Seq<u8>, after: Seq<u8>)
    requires
        ends_with_exit(before, after),
        ipc::sent(wire::parent_tree(ParentMsgView::Exit)).len() <= ipc::MAX_MSG_LEN,
    ensures
        before.is_prefix_of(after),
        wire::gives(
            ipc::message_in(after.skip(before.len() as int)),
            ipc::sent(wire::parent_tree(ParentMsgView::Exit)),
        ),
        ipc::input_after(after.skip(before.len() as int)).len() == 0,
{
    let exit = ipc::sent(wire::parent_tree(ParentMsgView::Exit));
    assert(after.take(before.len() as int) =~= before);
    assert(after.skip(before.len() as int) =~= ipc::frame(exit) + Seq::<u8>::empty());
    ipc::law_message_read_back(exit, Seq::empty());
}

/// Replacing a child: once it was told to exit and has been waited for, there is none, and a
/// new one that could be started takes its place with its configuration; where none could,
/// the old configuration stays and the reason is given.
pub proof fn law_child_is_replaced(
    told: &mut Sandbox,
    d: Option<Dismissal>,
    gone: &mut Sandbox,
    w: WaitOutcome,
    x: Result<(), SandboxError>,
    fresh: &mut Sandbox,
    config: NamespaceConfig,
    spawned: Result<SandboxInner, SandboxError>,
    r: Result<(), SandboxError>,
)
    requires
        call_ensures(Sandbox::dismiss, (told,), d),
        *old(gone) == *final(told),
        call_ensures(Sandbox::waited, (gone, &w), x),
        *old(fresh) == *final(gone),
        call_ensures(Sandbox::reinit, (fresh, config, spawned), r),
    ensures
        old(told).inner matches Some(c) ==> (d matches Some(y) && y.pid == c.pid) && final(told).leaving == Some(c.pid),
        old(told).inner is None ==> d is None,
        old(told).inner is Some ==> final(told).inner is None && final(gone).inner is None && final(gone).leaving is None,
        spawned matches Ok(child) ==> r is Ok && final(fresh).inner == Some(child) && final(fresh).config == config,
        spawned matches Err(e) ==> r == Err::<(), SandboxError>(e) && final(fresh).config == old(
            told,
        ).config,
        x is Ok <==> w == WaitOutcome::Exited(0),
{
    process::law_only_code_zero_is_success(w);
}

} // verus!
