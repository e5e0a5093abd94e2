//! Processes: how a command is started in the sandbox, and what its end means.

use vstd::prelude::*;

use crate::error::SandboxError;
use crate::namespace;
use crate::text;
use crate::text::{concat, decimal_i32, holds_char, utf8_lossy};

verus! {

/// How waiting for a process ended.
#[derive(Debug)]
pub enum WaitOutcome {
    /// The process exited with this code.
    Exited(i32),
    /// The process was killed by the signal of this name.
    Signaled(String),
    /// Some other status, as text.
    Other(String),
    /// Waiting failed for this reason.
    Failed(String),
}

/// The reason for which a child counts as failed.
pub open spec fn child_failure(w: WaitOutcome) -> Option<Seq<char>> {
    match w {
        WaitOutcome::Exited(code) => if code == 0 {
            None
        } else {
            Some("child exited with code "@ + text::decimal_int(code as int))
        },
        WaitOutcome::Signaled(sig) => Some("child killed by signal "@ + sig@),
        WaitOutcome::Other(status) => Some("unexpected wait status: "@ + status@),
        WaitOutcome::Failed(e) => Some("waitpid: "@ + e@),
    }
}

/// A child counts as failed unless it exited with code zero, and the reason ends with the
/// code, the signal, the status or the cause.
pub proof fn law_only_code_zero_is_success(w: WaitOutcome)
    ensures
        child_failure(w) is None <==> w == WaitOutcome::Exited(0),
        match w {
            WaitOutcome::Exited(code) => code != 0 ==> child_failure(w) == Some(
                "child exited with code "@ + text::decimal_int(code as int),
            ),
            WaitOutcome::Signaled(sig) => child_failure(w) == Some(
                "child killed by signal "@ + sig@,
            ),
            WaitOutcome::Other(status) => child_failure(w) == Some(
                "unexpected wait status: "@ + status@,
            ),
            WaitOutcome::Failed(e) => child_failure(w) == Some("waitpid: "@ + e@),
        },
{
}

/// What the end of the child means: only exit code zero is success.
pub fn wait_child(w: &WaitOutcome) -> (r: Result<(), SandboxError>)
    ensures
        match child_failure(*w) {
            None => r is Ok,
            Some(reason) => r matches Err(e) && e.is_ipc(reason),
        },
{
    let reason = match w {
        WaitOutcome::Exited(code) => if *code == 0 {
            return Ok(());
        } else {
            concat("child exited with code ", decimal_i32(*code).as_str())
        },
        WaitOutcome::Signaled(sig) => concat("child killed by signal ", sig.as_str()),
        WaitOutcome::Other(status) => concat("unexpected wait status: ", status.as_str()),
        WaitOutcome::Failed(e) => concat("waitpid: ", e.as_str()),
    };
    Err(SandboxError::Ipc(reason))
}

// ── Commands ──

/// Upper bound for closing extraneous file descriptors in the fork child.
/// Linux kernels typically limit default FDs to 1024.
pub const MAX_FD_CLOSE: i32 = 1024;

/// The exit code of a command whose directory could not be entered.
pub const EXIT_NO_DIR: i32 = 126;

/// The exit code of a command that could not be executed.
pub const EXIT_NO_EXEC: i32 = 127;

/// Whether a descriptor is closed before a command starts: all but the standard ones and
/// the one that takes the output.
pub open spec fn is_closed(fd: int, output_fd: int) -> bool {
    3 <= fd < MAX_FD_CLOSE && fd != output_fd
}

/// The descriptors that are closed before a command starts.
pub fn fds_to_close(output_fd: i32) -> (fds: Vec<i32>)
    ensures
        forall|i: int|
            0 <= i < fds@.len() ==> is_closed((#[trigger] fds@[i]) as int, output_fd as int),
        forall|fd: i32| is_closed(fd as int, output_fd as int) ==> #[trigger] fds@.contains(fd),
        fds@.no_duplicates(),
{
    let mut fds: Vec<i32> = Vec::new();
    let mut fd: i32 = 3;
    while fd < MAX_FD_CLOSE
        invariant
            3 <= fd <= MAX_FD_CLOSE,
            forall|i: int|
                0 <= i < fds@.len() ==> is_closed((#[trigger] fds@[i]) as int, output_fd as int)
                    && fds@[i] < fd,
            forall|x: i32|
                is_closed(x as int, output_fd as int) && x < fd ==> #[trigger] fds@.contains(x),
            fds@.no_duplicates(),
        decreases MAX_FD_CLOSE - fd,
    {
        let ghost before = fds@;
        if fd != output_fd {
            fds.push(fd);
            proof {
                assert(fds@[fds@.len() - 1] == fd);
                assert forall|x: i32|
                    is_closed(x as int, output_fd as int) && x < fd
                        + 1 implies #[trigger] fds@.contains(x) by {
                    if x < fd {
                        assert(before.contains(x));
                        let k = choose|k: int| 0 <= k < before.len() && before[k] == x;
                        assert(fds@[k] == x);
                    }
                }
            }
        }
        fd = fd + 1;
    }
    fds
}

/// The descriptors that are closed are those from three on, below the greatest, without the
/// one that takes the output: a standard one never is.
pub proof fn law_output_stays_open(output_fd: i32, fds: Vec<i32>)
    requires
        call_ensures(fds_to_close, (output_fd,), fds),
    ensures
        forall|fd: i32|
            #![trigger fds@.contains(fd)]
            fds@.contains(fd) <==> 3 <= fd < 1024 && fd != output_fd,
{
    assert forall|fd: i32| #![trigger fds@.contains(fd)] fds@.contains(fd) <==> 3 <= fd < 1024
        && fd != output_fd by {
        if 3 <= fd < 1024 && fd != output_fd {
            assert(is_closed(fd as int, output_fd as int));
        }
    }
}

/// The arguments and the environment of a shell command.
#[derive(Debug)]
pub struct ExecPlan {
    pub program: String,
    pub argv: Vec<String>,
    pub envp: Vec<String>,
}

/// A variable as a process gets it.
pub open spec fn env_string(pair: (Seq<char>, Seq<char>)) -> Seq<char> {
    pair.0 + "="@ + pair.1
}

/// Whether neither the command nor a variable holds a zero character, which cannot be
/// passed to a process.
pub open spec fn executable(command: Seq<char>, env: Seq<(Seq<char>, Seq<char>)>) -> bool {
    &&& !command.contains('\0')
    &&& forall|i: int| 0 <= i < env.len() ==> passable(#[trigger] env[i])
}

/// Whether a variable holds no zero character.
pub open spec fn passable(pair: (Seq<char>, Seq<char>)) -> bool {
    !env_string(pair).contains('\0')
}

/// How a shell command is started, or nothing where it cannot be. The exit code is then
/// [`EXIT_NO_EXEC`].
pub fn exec_plan(command: &str, env: &[(String, String)]) -> (r: Option<ExecPlan>)
    ensures
        match r {
            None => !executable(command@, namespace::pair_views(env@)),
            Some(p) => {
                let vars = namespace::pair_views(env@);
                &&& executable(command@, vars)
                &&& p.program@ == "/usr/bin/sh"@
                &&& text::views(p.argv@) == seq!["sh"@, "-c"@, command@]
                &&& text::views(p.envp@) == Seq::new(vars.len(), |i: int| env_string(vars[i]))
            },
        },
{
    if holds_char(command, '\0') {
        return None;
    }
    let ghost vars = namespace::pair_views(env@);
    let mut envp: Vec<String> = Vec::new();
    let mut i: usize = 0;
    while i < env.len()
        invariant
            vars == namespace::pair_views(env@),
            i <= env@.len(),
            envp@.len() == i,
            forall|k: int|
                0 <= k < i ==> (#[trigger] envp@[k])@ == env_string(vars[k]) && passable(vars[k]),
        decreases env@.len() - i,
    {
        let mut s = concat(env[i].0.as_str(), "=");
        s.append(env[i].1.as_str());
        assert(s@ == env_string(vars[i as int]));
        let bad = holds_char(s.as_str(), '\0');
        assert(passable(vars[i as int]) == !bad);
        if bad {
            return None;
        }
        envp.push(s);
        i = i + 1;
    }
    let mut argv: Vec<String> = Vec::new();
    argv.push("sh".to_owned());
    argv.push("-c".to_owned());
    argv.push(command.to_owned());
    proof {
        assert(text::views(argv@) =~= seq!["sh"@, "-c"@, command@]);
        assert(text::views(envp@) =~= Seq::new(vars.len(), |i: int| env_string(vars[i])));
        assert forall|i: int| 0 <= i < vars.len() implies passable(#[trigger] vars[i]) by {
            assert(envp@[i]@ == env_string(vars[i]));
        }
    }
    Some(ExecPlan { program: "/usr/bin/sh".to_owned(), argv, envp })
}

/// A command is run by the shell in one piece, with every variable as its name, an equals
/// sign and its value, in order. It is refused exactly where it or a variable holds a zero
/// character.
pub proof fn law_command_is_run_by_the_shell(
    command: &str,
    env: &[(String, String)],
    r: Option<ExecPlan>,
)
    requires
        call_ensures(exec_plan, (command, env), r),
    ensures
        r is None <==> command@.contains('\0') || exists|i: int|
            0 <= i < env@.len() && ((#[trigger] env@[i]).0@.contains('\0') || env@[i].1@.contains(
                '\0',
            )),
        r matches Some(plan) ==> {
            &&& plan.program@ == "/usr/bin/sh"@
            &&& plan.argv@.len() == 3
            &&& plan.argv@[0]@ == "sh"@ && plan.argv@[1]@ == "-c"@ && plan.argv@[2]@ == command@
            &&& plan.envp@.len() == env@.len()
            &&& forall|i: int|
                0 <= i < env@.len() ==> (#[trigger] plan.envp@[i])@ == env@[i].0@ + seq!['=']
                    + env@[i].1@
        },
{
    reveal_strlit("=");
    assert("="@ =~= seq!['=']);
    let vars = namespace::pair_views(env@);
    assert forall|i: int| 0 <= i < env@.len() implies passable(#[trigger] vars[i]) == !(
    env@[i].0@.contains('\0') || env@[i].1@.contains('\0')) by {
        lemma_zero_in_variable(env@[i].0@, env@[i].1@);
    }
    if r is None && !command@.contains('\0') {
        let i = choose|i: int| 0 <= i < vars.len() && !passable(#[trigger] vars[i]);
        assert(env@[i].0@.contains('\0') || env@[i].1@.contains('\0'));
    }
    if r is Some {
        let plan = r->Some_0;
        assert forall|i: int| 0 <= i < env@.len() implies !((#[trigger] env@[i]).0@.contains('\0')
            || env@[i].1@.contains('\0')) by {
            assert(passable(vars[i]));
        }
        let args = text::views(plan.argv@);
        assert(args == seq!["sh"@, "-c"@, command@]);
        assert(args.len() == plan.argv@.len());
        assert(args[0] == plan.argv@[0]@ && args[1] == plan.argv@[1]@ && args[2]
            == plan.argv@[2]@);
        assert(text::views(plan.envp@).len() == plan.envp@.len());
        assert forall|i: int| 0 <= i < env@.len() implies (#[trigger] plan.envp@[i])@
            == env@[i].0@ + seq!['='] + env@[i].1@ by {
            assert(text::views(plan.envp@)[i] == env_string(vars[i]));
        }
    }
}

proof fn lemma_zero_in_variable(name: Seq<char>, value: Seq<char>)
    ensures
        env_string((name, value)).contains('\0') <==> name.contains('\0') || value.contains('\0'),
{
    reveal_strlit("=");
    let s = env_string((name, value));
    if name.contains('\0') {
        let k = choose|k: int| 0 <= k < name.len() && name[k] == '\0';
        assert(s[k] == '\0');
    }
    if value.contains('\0') {
        let k = choose|k: int| 0 <= k < value.len() && value[k] == '\0';
        assert(s[name.len() + 1 + k] == '\0');
    }
    if s.contains('\0') {
        let k = choose|k: int| 0 <= k < s.len() && s[k] == '\0';
        if k < name.len() {
            assert(name[k] == '\0');
        } else if k > name.len() {
            assert(value[k - name.len() - 1] == '\0');
        } else {
            assert(s[k] == '=');
        }
    }
}

/// A command that exited with code zero has not failed, and any other has; its output is
/// handed on either way, unless it could not be waited for.
pub proof fn law_failed_command_keeps_its_output(
    bytes: &[u8],
    w: &WaitOutcome,
    r: Result<(String, bool), SandboxError>,
)
    requires
        call_ensures(exec_outcome, (bytes, w), r),
    ensures
        r is Err <==> *w is Failed,
        r matches Ok(p) ==> p.1 == (*w != WaitOutcome::Exited(0)) && (vstd::utf8::valid_utf8(bytes@)
            ==> p.0@ == vstd::utf8::decode_utf8(bytes@)),
{
}

/// What reading the output of a command brought.
#[derive(Debug)]
pub enum ReadEvent {
    /// Bytes; none at the end of the output.
    Bytes(Vec<u8>),
    /// The read was interrupted.
    Interrupted,
    /// The read failed.
    Failed,
}

/// The bytes of the output once a read brought this.
pub open spec fn output_after(before: Seq<u8>, event: ReadEvent) -> Seq<u8> {
    match event {
        ReadEvent::Bytes(b) => before + b@,
        _ => before,
    }
}

/// The bytes of the output after several reads.
pub open spec fn output_of(events: Seq<ReadEvent>) -> Seq<u8>
    decreases events.len(),
{
    if events.len() == 0 {
        seq![]
    } else {
        output_after(output_of(events.drop_last()), events.last())
    }
}

/// The bytes that a read brought.
pub open spec fn bytes_read(event: ReadEvent) -> Seq<u8> {
    match event {
        ReadEvent::Bytes(b) => b@,
        _ => seq![],
    }
}

/// The output is what all reads brought, one after the other: however it is cut into reads,
/// it is the same.
pub proof fn law_reads_do_not_matter(events: Seq<ReadEvent>)
    ensures
        output_of(events) == events.map_values(|e: ReadEvent| bytes_read(e)).flatten(),
    decreases events.len(),
{
    let chunks = events.map_values(|e: ReadEvent| bytes_read(e));
    if events.len() > 0 {
        law_reads_do_not_matter(events.drop_last());
        assert(chunks.drop_last() =~= events.drop_last().map_values(
            |e: ReadEvent| bytes_read(e),
        ));
        chunks.lemma_flatten_and_flatten_alt_are_equivalent();
        chunks.drop_last().lemma_flatten_and_flatten_alt_are_equivalent();
        assert(output_of(events) =~= chunks.drop_last().flatten() + chunks.last());
    } else {
        assert(chunks =~= seq![]);
    }
}

/// The output after one more read is what was there, and then what the read brought; a read
/// that brought nothing leaves it.
pub proof fn law_output_only_grows(events: Seq<ReadEvent>, event: ReadEvent)
    ensures
        event matches ReadEvent::Bytes(b) ==> output_of(events.push(event)) == output_of(events)
            + b@,
        !(event is Bytes) ==> output_of(events.push(event)) == output_of(events),
        output_of(Seq::empty()).len() == 0,
{
    assert(events.push(event).drop_last() =~= events);
}

/// Takes what a read brought. Says whether there may be more.
pub fn take_output(bytes: &mut Vec<u8>, event: &ReadEvent) -> (more: bool)
    ensures
        final(bytes)@ == output_after(old(bytes)@, *event),
        more == match *event {
            ReadEvent::Bytes(b) => b@.len() > 0,
            ReadEvent::Interrupted => true,
            ReadEvent::Failed => false,
        },
{
    match event {
        ReadEvent::Bytes(b) => {
            bytes.extend_from_slice(b.as_slice());
            b.len() > 0
        },
        ReadEvent::Interrupted => true,
        ReadEvent::Failed => false,
    }
}

/// Whether a text is what the bytes hold: valid UTF-8 is taken as it is, and of other bytes
/// what is invalid is replaced.
pub open spec fn holds_output(s: Seq<char>, bytes: Seq<u8>) -> bool {
    &&& s == text::lossy_text(bytes)
    &&& vstd::utf8::valid_utf8(bytes) ==> s == vstd::utf8::decode_utf8(bytes)
}

/// The outcome of a command: its whole output as a text, and whether it failed.
pub fn exec_outcome(bytes: &[u8], w: &WaitOutcome) -> (r: Result<(String, bool), SandboxError>)
    ensures
        match *w {
            WaitOutcome::Exited(code) => r matches Ok((s, failed)) && holds_output(s@, bytes@)
                && failed == (code != 0),
            WaitOutcome::Failed(e) => r matches Err(SandboxError::Exec(m)) && m@ == "waitpid: "@
                + e@,
            _ => r matches Ok((s, failed)) && holds_output(s@, bytes@) && failed,
        },
{
    match w {
        WaitOutcome::Exited(code) => Ok((utf8_lossy(bytes), *code != 0)),
        WaitOutcome::Failed(e) => Err(SandboxError::Exec(concat("waitpid: ", e.as_str()))),
        _ => Ok((utf8_lossy(bytes), true)),
    }
}

/// What a read brought is added behind the output, and reading goes on exactly while a read
/// brings bytes or was interrupted.
pub proof fn law_reading_goes_on(bytes: &mut Vec<u8>, event: ReadEvent, more: bool)
    requires
        call_ensures(take_output, (bytes, &event), more),
    ensures
        event matches ReadEvent::Bytes(b) ==> final(bytes)@ == old(bytes)@ + b@ && (more <==> b@.len()
            > 0),
        event is Interrupted ==> more && final(bytes)@ == old(bytes)@,
        event is Failed ==> !more && final(bytes)@ == old(bytes)@,
{
}

} // verus!
