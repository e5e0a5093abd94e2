use maki_sandbox::child::{
    cd_reply, check_parent, child_inner_main, exec_reply, failure_msg, first_work, greet_parent,
    handle_parent_msg, inner_done, inner_tools, list_dir_entries, ls_reply, plan_work, pwd_reply,
    run_reply, start_plan, stdout_msg, tool_reply, ChildAction, InnerOutcome, RunSpec, StartPlan,
    Work, WorkPlan,
};
use maki_sandbox::error::SandboxError;
use maki_sandbox::ipc::{
    recv_handshake, send_handshake, ChildMsg, DirEntry, ParentMsg, SetupMessage,
    ToolResultPayload,
};
use maki_sandbox::json::Json;
use maki_sandbox::parent::{
    accept_child, check_child, greet_child, handle_child_msg, lock_or_poisoned, run_outcome,
    run_tool_call, tool_result_msg, unless_poisoned, ChildIoResult, ParentAction, ToolDispatcher,
};
use maki_sandbox::process::{
    exec_outcome, exec_plan, fds_to_close, take_output, wait_child, ReadEvent, WaitOutcome,
};
use maki_sandbox::tools::{
    bash_request, bash_result, build_lua_tools, build_tool_input, child_call_result,
    is_child_local, is_trusted, lock_pending, lua_tool_result, require_str, route, tool_kind, RemoteDispatch,
    Route, ToolKind, CHILD_LOCAL_TOOLS, TRUSTED_TOOLS,
};

const MISSING_ARG: &str = "missing required argument";

fn text(s: &str) -> Json {
    Json::Str(s.into())
}

fn object(fields: Vec<(&str, Json)>) -> Json {
    Json::Object(fields.into_iter().map(|(k, v)| (k.into(), v)).collect())
}

fn payload(output: Option<&str>, error: Option<&str>) -> ToolResultPayload {
    ToolResultPayload {
        output: output.map(|s| s.into()),
        error: error.map(|s| s.into()),
    }
}

#[test]
fn require_str_from_kwargs() {
    let args: Vec<Json> = vec![];
    let kwargs = vec![("path".into(), text("/foo/bar"))];
    let result = require_str(&args, &kwargs, "path");
    assert_eq!(result.unwrap(), "/foo/bar");
}

#[test]
fn require_str_from_positional() {
    let args = vec![text("/positional")];
    let kwargs: Vec<(String, Json)> = vec![];
    let result = require_str(&args, &kwargs, "path");
    assert_eq!(result.unwrap(), "/positional");
}

#[test]
fn require_str_missing_returns_error() {
    let args: Vec<Json> = vec![];
    let kwargs: Vec<(String, Json)> = vec![];
    let err = require_str(&args, &kwargs, "path").unwrap_err();
    assert!(
        err.contains(MISSING_ARG),
        "expected missing arg error, got: {err}"
    );
}

#[test]
fn require_str_non_string_returns_error() {
    let args: Vec<Json> = vec![];
    let kwargs = vec![("path".into(), Json::Uint(42))];
    let err = require_str(&args, &kwargs, "path").unwrap_err();
    assert!(
        err.contains("must be a string"),
        "expected type error, got: {err}"
    );
}

#[test]
fn require_str_from_object_in_args() {
    let args = vec![object(vec![
        ("command", text("ls -la")),
        ("workdir", text("/tmp")),
    ])];
    let kwargs: Vec<(String, Json)> = vec![];
    assert_eq!(require_str(&args, &kwargs, "command").unwrap(), "ls -la");
}

#[test]
fn require_str_object_missing_key_errors() {
    let args = vec![object(vec![("other", text("x"))])];
    let kwargs: Vec<(String, Json)> = vec![];
    assert!(require_str(&args, &kwargs, "command").is_err());
}

#[test]
fn require_str_kwargs_takes_priority() {
    let args = vec![text("/positional")];
    let kwargs = vec![("path".into(), text("/from_kwargs"))];
    let result = require_str(&args, &kwargs, "path");
    assert_eq!(result.unwrap(), "/from_kwargs");
}

#[test]
fn require_str_error_texts() {
    assert_eq!(
        require_str(&[], &[], "path").unwrap_err(),
        "missing required argument: path"
    );
    assert_eq!(
        require_str(&[Json::Bool(true)], &[], "path").unwrap_err(),
        "first arg must be a string"
    );
    assert_eq!(
        require_str(&[object(vec![("path", Json::Null)])], &[], "path").unwrap_err(),
        "path must be a string"
    );
    // The first of two named arguments counts.
    let kwargs = vec![("p".into(), text("a")), ("p".into(), text("b"))];
    assert_eq!(require_str(&[], &kwargs, "p").unwrap(), "a");
}

fn entry(name: &str, is_dir: bool) -> DirEntry {
    DirEntry {
        name: name.into(),
        is_dir,
    }
}

#[test]
fn list_dir_entries_dirs_first_then_alpha() {
    let entries = list_dir_entries(Some(vec![
        entry("m_file.txt", false),
        entry("z_dir", true),
        entry("a_file.txt", false),
        entry("a_dir", true),
    ]));
    assert_eq!(entries.len(), 4);
    assert!(entries[0].is_dir);
    assert_eq!(entries[0].name, "a_dir");
    assert!(entries[1].is_dir);
    assert_eq!(entries[1].name, "z_dir");
    assert!(!entries[2].is_dir);
    assert_eq!(entries[2].name, "a_file.txt");
    assert!(!entries[3].is_dir);
    assert_eq!(entries[3].name, "m_file.txt");
}

#[test]
fn list_dir_entries_nonexistent_returns_empty() {
    let entries = list_dir_entries(None);
    assert!(entries.is_empty());
}

#[test]
fn listing_orders_names_by_code_point() {
    let entries = list_dir_entries(Some(vec![
        entry("b", false),
        entry("B", false),
        entry("ab", false),
        entry("ä", false),
        entry("a", false),
    ]));
    let names: Vec<&str> = entries.iter().map(|e| e.name.as_str()).collect();
    assert_eq!(names, vec!["B", "a", "ab", "b", "ä"]);
}

#[test]
fn parent_and_child_accept_each_other() {
    let mut to_child: Vec<u8> = Vec::new();
    let mut to_parent: Vec<u8> = Vec::new();
    greet_child(&mut to_child).unwrap();
    greet_parent(&mut to_child, &mut to_parent).unwrap();
    accept_child(&mut to_parent).unwrap();
    assert!(to_child.is_empty());
    assert!(to_parent.is_empty());
}

#[test]
fn strangers_are_refused() {
    assert_eq!(
        check_parent("x").unwrap_err().to_string(),
        "unexpected parent handshake: got 'x', expected 'maki-server'"
    );
    assert_eq!(
        check_child("y").unwrap_err().to_string(),
        "unexpected child handshake: got 'y', expected 'maki-child'"
    );
    let mut input: Vec<u8> = Vec::new();
    let mut out: Vec<u8> = Vec::new();
    send_handshake(&mut input, "x").unwrap();
    assert!(greet_parent(&mut input, &mut out).is_err());
    assert!(out.is_empty());
    send_handshake(&mut input, "maki-server").unwrap();
    greet_parent(&mut input, &mut out).unwrap();
    assert_eq!(recv_handshake(&mut out).unwrap(), "maki-child");
}

#[test]
fn start_depends_on_mount_namespace() {
    assert!(matches!(start_plan(Ok(true)), StartPlan::ExecInner));
    assert!(matches!(start_plan(Ok(false)), StartPlan::RunInPlace));
    match start_plan(Err(SandboxError::Ipc("no ns".into()))) {
        StartPlan::Fail(ChildMsg::Done {
            output,
            stdout,
            error,
        }) => {
            assert_eq!(output, None);
            assert_eq!(stdout, "");
            assert_eq!(error, Some("no ns".into()));
        }
        other => panic!("unexpected {other:?}"),
    }
    assert!(inner_done(InnerOutcome::Succeeded));
    assert!(!inner_done(InnerOutcome::Failed));
    assert!(!inner_done(InnerOutcome::NotStarted));
    assert!(matches!(
        failure_msg(&SandboxError::Fork("f".into())),
        ChildMsg::Done { error: Some(e), .. } if e == "f"
    ));
}

#[test]
fn socket_descriptor_from_variable() {
    assert_eq!(child_inner_main(Some("7".into())), Ok(7));
    assert_eq!(child_inner_main(Some("+12".into())), Ok(12));
    assert_eq!(child_inner_main(Some("-2147483648".into())), Ok(i32::MIN));
    assert_eq!(
        child_inner_main(None),
        Err("MAKI_SANDBOX_FD must be set for sandbox inner instance".into())
    );
    for bad in ["", "x", "+", "-", "1 ", "2147483648", "-2147483649", "99999999999999999999"] {
        assert_eq!(
            child_inner_main(Some(bad.into())),
            Err(format!("MAKI_SANDBOX_FD must be a valid fd number, got: {bad}"))
        );
    }
}

#[test]
fn lua_tools_are_filesystem_tools() {
    let names = vec!["read".into(), "webfetch".into(), "bash".into(), "grep".into()];
    assert_eq!(
        build_lua_tools(names),
        vec!["read".to_string(), "grep".to_string()]
    );
    assert!(inner_tools(None).unwrap().is_empty());
    assert_eq!(
        inner_tools(Some(Ok(vec!["edit".into(), "x".into()]))).unwrap(),
        vec!["edit".to_string()]
    );
    assert_eq!(
        inner_tools(Some(Err("gone".into()))).unwrap_err().to_string(),
        "lua_runtime: cannot list tools: gone"
    );
}

#[test]
fn setup_with_code_is_run() {
    assert!(first_work(SetupMessage::browse()).is_none());
    match first_work(SetupMessage {
        code: "1".into(),
        timeout_secs: 3,
        max_memory: 4,
    }) {
        Some(Work::Run(spec)) => {
            assert_eq!(spec.code, "1");
            assert_eq!(spec.timeout_secs, 3);
            assert_eq!(spec.max_memory, 4);
        }
        other => panic!("unexpected {other:?}"),
    }
}

#[test]
fn tools_run_in_one_place() {
    for name in TRUSTED_TOOLS {
        assert!(is_trusted(name));
        assert!(!is_child_local(name));
    }
    for name in CHILD_LOCAL_TOOLS {
        assert!(is_child_local(name));
        assert!(!is_trusted(name));
    }
    assert!(!is_trusted("bash") && !is_child_local("bash"));
    let lua: Vec<String> = vec!["read".into()];
    assert_eq!(tool_kind("bash", &lua), ToolKind::Bash);
    assert_eq!(tool_kind("read", &lua), ToolKind::Lua);
    assert_eq!(tool_kind("write", &lua), ToolKind::Unknown);
    assert_eq!(tool_kind("webfetch", &lua), ToolKind::Trusted);
}

#[test]
fn shell_tool_request() {
    let q = bash_request(&[text("ls")], &[("workdir".into(), text("/w"))]).unwrap();
    assert_eq!(q.command, "ls");
    assert_eq!(q.workdir, Some("/w".into()));
    let q = bash_request(
        &[object(vec![("command", text("pwd")), ("workdir", text("/o"))])],
        &[("workdir".into(), Json::Null)],
    )
    .unwrap();
    assert_eq!(q.command, "pwd");
    assert_eq!(q.workdir, Some("/o".into()));
    let q = bash_request(&[], &[("command".into(), text("c"))]).unwrap();
    assert_eq!(q.workdir, None);
    assert!(bash_request(&[], &[]).is_err());
    assert_eq!(bash_result(Ok(("out".into(), true))), Ok(text("out")));
    assert_eq!(
        bash_result(Err("fork".into())),
        Err("bash failed: fork".into())
    );
    assert_eq!(lua_tool_result(Ok(("o".into(), false))), Ok(text("o")));
    assert_eq!(lua_tool_result(Ok(("o".into(), true))), Err("o".into()));
    assert_eq!(lua_tool_result(Err("e".into())), Err("e".into()));
}

#[test]
fn tool_input_from_arguments() {
    let whole = object(vec![("a", Json::Uint(1))]);
    assert_eq!(
        build_tool_input(&[whole.copy()], &[("b".into(), Json::Null)]).to_text(),
        "{\"a\":1}"
    );
    assert_eq!(
        build_tool_input(
            &[text("x")],
            &[
                ("b".into(), Json::Uint(1)),
                ("c".into(), Json::Uint(2)),
                ("b".into(), Json::Uint(3)),
            ]
        )
        .to_text(),
        "{\"b\":3,\"c\":2}"
    );
    assert_eq!(build_tool_input(&[], &[]).to_text(), "{}");
}

#[test]
fn pending_calls_wait_until_resolved() {
    let mut d = RemoteDispatch::new();
    let first = d.begin("memory", vec![text("x")], vec![]);
    let second = d.begin("task", vec![], vec![]);
    assert!(
        matches!(first, ChildMsg::ToolCall { call_id: 1, name, .. } if name == "memory")
    );
    assert!(matches!(second, ChildMsg::ToolCall { call_id: 2, .. }));
    assert!(d.resolve(1));
    assert!(!d.resolve(1));
    assert_eq!(
        d.finish(2, Some(Ok(payload(Some("done"), None)))),
        Ok(text("done"))
    );
    assert!(!d.resolve(2));
    assert_eq!(d.finish(9, None), Err("io thread disconnected".into()));
    assert_eq!(
        d.finish(9, Some(Err("canceled".into()))),
        Err("canceled".into())
    );
    assert_eq!(d.finish(9, Some(Ok(payload(None, None)))), Ok(text("")));
    assert_eq!(
        d.finish(9, Some(Ok(payload(Some("o"), Some("bad"))))),
        Err("bad".into())
    );
    d.next_id = u32::MAX;
    d.begin("index", vec![], vec![]);
    assert_eq!(d.next_id, 0);
    d.begin("index", vec![], vec![]);
    assert_eq!(d.cancel_pending(), vec![u32::MAX, 0]);
    assert!(d.cancel_pending().is_empty());
}

#[test]
fn parent_messages_become_actions() {
    let mut d = RemoteDispatch::new();
    d.begin("memory", vec![], vec![]);
    d.begin("memory", vec![], vec![]);
    d.begin("memory", vec![], vec![]);
    match handle_parent_msg(
        ParentMsg::ToolResult {
            call_id: 2,
            result: payload(Some("x"), None),
        },
        &mut d,
    ) {
        ChildAction::Deliver(list) => {
            assert_eq!(list.len(), 1);
            assert_eq!(list[0].0, 2);
        }
        other => panic!("unexpected {other:?}"),
    }
    match handle_parent_msg(
        ParentMsg::ToolBatchResult {
            results: vec![
                (2, payload(Some("late"), None)),
                (3, payload(Some("a"), None)),
                (3, payload(Some("b"), None)),
            ],
        },
        &mut d,
    ) {
        ChildAction::Deliver(list) => {
            assert_eq!(list.len(), 1);
            assert_eq!(list[0].0, 3);
            assert_eq!(list[0].1.output, Some("a".into()));
        }
        other => panic!("unexpected {other:?}"),
    }
    assert!(
        matches!(handle_parent_msg(ParentMsg::Cancel, &mut d), ChildAction::Cancel(ids) if ids == vec![1])
    );
    d.begin("memory", vec![], vec![]);
    assert!(
        matches!(handle_parent_msg(ParentMsg::Exit, &mut d), ChildAction::Stop(ids) if ids == vec![4])
    );
    assert!(matches!(
        handle_parent_msg(ParentMsg::Pwd, &mut d),
        ChildAction::Pwd
    ));
    assert!(
        matches!(handle_parent_msg(ParentMsg::Ls { path: "/a".into() }, &mut d), ChildAction::Ls(p) if p == "/a")
    );
    assert!(
        matches!(handle_parent_msg(ParentMsg::Cd { path: "/b".into() }, &mut d), ChildAction::Cd(p) if p == "/b")
    );
    assert!(
        matches!(handle_parent_msg(ParentMsg::Exec { command: "c".into() }, &mut d), ChildAction::Exec(c) if c == "c")
    );
    match handle_parent_msg(
        ParentMsg::Run {
            call_id: 8,
            code: "x".into(),
            timeout_secs: 1,
            max_memory: 2,
            config: "{}".into(),
        },
        &mut d,
    ) {
        ChildAction::Queue(Work::Run(spec)) => {
            assert_eq!(spec.call_id, 8);
            assert_eq!(spec.config, "{}");
        }
        other => panic!("unexpected {other:?}"),
    }
}

#[test]
fn replies_to_queries() {
    assert!(matches!(
        exec_reply(Ok(("o".into(), true))),
        ChildMsg::ExecResult { output, is_error: true } if output == "o"
    ));
    assert!(matches!(
        exec_reply(Err(SandboxError::Exec("pipe failed: x".into()))),
        ChildMsg::ExecResult { output, is_error: true } if output == "pipe failed: x"
    ));
    match ls_reply(Some(vec![entry("b", false), entry("a", true)])) {
        ChildMsg::LsResult { entries } => {
            assert_eq!(entries[0].name, "a");
            assert_eq!(entries[1].name, "b");
        }
        other => panic!("unexpected {other:?}"),
    }
    assert!(matches!(pwd_reply(Some("/x".into())), ChildMsg::PwdResult { path } if path == "/x"));
    assert!(matches!(pwd_reply(None), ChildMsg::PwdResult { path } if path.is_empty()));
    assert!(matches!(cd_reply(Ok(())), ChildMsg::CdResult));
    assert!(matches!(
        cd_reply(Err("no such file".into())),
        ChildMsg::ExecResult { output, is_error: true } if output == "cd failed: no such file"
    ));
    assert!(matches!(stdout_msg("l"), ChildMsg::Stdout { text } if text == "l"));
    assert!(matches!(
        run_reply(Ok((Some(Json::Uint(4)), "s".into()))),
        ChildMsg::Done { output: Some(Json::Uint(4)), stdout, error: None } if stdout == "s"
    ));
    assert!(matches!(
        run_reply(Err("boom".into())),
        ChildMsg::Done { output: None, error: Some(e), .. } if e == "interpreter: boom"
    ));
    assert!(matches!(
        tool_reply(3, Ok(text("a\"b"))),
        ChildMsg::ToolResult { call_id: 3, result } if result.output == Some("\"a\\\"b\"".into())
    ));
    assert!(matches!(
        tool_reply(3, Err("e".into())),
        ChildMsg::ToolResult { result, .. } if result.error == Some("e".into())
    ));
}

fn call(name: &str, args: Vec<Json>) -> Work {
    Work::ToolCall {
        call_id: 11,
        name: name.into(),
        args,
        kwargs: vec![],
    }
}

#[test]
fn work_is_planned() {
    let mut d = RemoteDispatch::new();
    let lua: Vec<String> = vec!["read".into()];
    let run = Work::Run(RunSpec {
        call_id: 1,
        code: "c".into(),
        timeout_secs: 0,
        max_memory: 0,
        config: "".into(),
    });
    assert!(matches!(plan_work(run, &lua, &mut d), WorkPlan::Interpret(s) if s.code == "c"));
    assert!(matches!(plan_work(Work::Exit, &lua, &mut d), WorkPlan::Stop));
    assert!(
        matches!(plan_work(call("bash", vec![text("ls")]), &lua, &mut d), WorkPlan::Bash(11, q) if q.command == "ls")
    );
    assert!(matches!(
        plan_work(call("bash", vec![]), &lua, &mut d),
        WorkPlan::Send(ChildMsg::ToolResult { call_id: 11, result })
            if result.error == Some("missing required argument: command".into())
    ));
    assert!(matches!(
        plan_work(call("read", vec![object(vec![("path", text("/p"))])]), &lua, &mut d),
        WorkPlan::CallLua(11, name, input) if name == "read" && input.to_text() == "{\"path\":\"/p\"}"
    ));
    assert!(matches!(
        plan_work(call("skill", vec![]), &lua, &mut d),
        WorkPlan::CallParent(11, ChildMsg::ToolCall { call_id: 1, name, .. }) if name == "skill"
    ));
    assert!(matches!(
        plan_work(call("nope", vec![]), &lua, &mut d),
        WorkPlan::Send(ChildMsg::ToolResult { result, .. })
            if result.error == Some("unknown tool: nope".into())
    ));
    assert_eq!(d.cancel_pending(), vec![1]);
}

#[test]
fn waiting_for_the_child() {
    assert!(wait_child(&WaitOutcome::Exited(0)).is_ok());
    let text = |w| wait_child(&w).unwrap_err().to_string();
    assert_eq!(text(WaitOutcome::Exited(-7)), "child exited with code -7");
    assert_eq!(text(WaitOutcome::Exited(126)), "child exited with code 126");
    assert_eq!(
        text(WaitOutcome::Signaled("SIGKILL".into())),
        "child killed by signal SIGKILL"
    );
    assert_eq!(
        text(WaitOutcome::Other("StillAlive".into())),
        "unexpected wait status: StillAlive"
    );
    assert_eq!(text(WaitOutcome::Failed("ECHILD".into())), "waitpid: ECHILD");
}

#[test]
fn commands_are_planned() {
    let fds = fds_to_close(9);
    assert_eq!(fds.len(), 1020);
    assert_eq!(fds[0], 3);
    assert_eq!(fds[1019], 1023);
    assert!(!fds.contains(&9));
    let plan = exec_plan("echo hi", &[("A".into(), "b=c".into())]).unwrap();
    assert_eq!(plan.program, "/usr/bin/sh");
    assert_eq!(plan.argv, vec!["sh", "-c", "echo hi"]);
    assert_eq!(plan.envp, vec!["A=b=c"]);
    assert!(exec_plan("a\0b", &[]).is_none());
    assert!(exec_plan("a", &[("K".into(), "v\0".into())]).is_none());
}

#[test]
fn command_output_is_gathered() {
    let mut out = b"x".to_vec();
    assert!(take_output(&mut out, &ReadEvent::Bytes(b"ab".to_vec())));
    assert!(take_output(&mut out, &ReadEvent::Interrupted));
    assert!(take_output(&mut out, &ReadEvent::Bytes(vec![255])));
    assert!(!take_output(&mut out, &ReadEvent::Bytes(vec![])));
    assert!(!take_output(&mut out, &ReadEvent::Failed));
    assert_eq!(out, b"xab\xff");
    assert_eq!(
        exec_outcome(&out, &WaitOutcome::Exited(0)).unwrap(),
        ("xab\u{fffd}".to_string(), false)
    );
    // A character that two reads share is still one character.
    let mut cut = Vec::new();
    assert!(take_output(&mut cut, &ReadEvent::Bytes(vec![b'a', 0xe2, 0x82])));
    assert!(take_output(&mut cut, &ReadEvent::Bytes(vec![0xac, b'b'])));
    assert_eq!(
        exec_outcome(&cut, &WaitOutcome::Exited(0)).unwrap(),
        ("a\u{20ac}b".to_string(), false)
    );
    assert_eq!(
        exec_outcome(b"o", &WaitOutcome::Exited(0)).unwrap(),
        ("o".to_string(), false)
    );
    assert_eq!(
        exec_outcome(b"o", &WaitOutcome::Exited(1)).unwrap(),
        ("o".to_string(), true)
    );
    assert_eq!(
        exec_outcome(b"o", &WaitOutcome::Signaled("SIGTERM".into())).unwrap(),
        ("o".to_string(), true)
    );
    let err = exec_outcome(b"o", &WaitOutcome::Failed("x".into())).unwrap_err();
    assert!(matches!(err, SandboxError::Exec(m) if m == "waitpid: x"));
}

struct Echo;

impl ToolDispatcher for Echo {
    fn dispatch(
        &self,
        name: &str,
        args: Vec<Json>,
        _kwargs: Vec<(String, Json)>,
    ) -> Result<String, String> {
        if args.is_empty() {
            Err(format!("{name}: nothing to echo"))
        } else {
            Ok(args[0].to_text())
        }
    }
}

#[test]
fn child_messages_become_actions() {
    match handle_child_msg(ChildMsg::ToolCall {
        call_id: 5,
        name: "n".into(),
        args: vec![Json::Uint(1)],
        kwargs: vec![],
    }) {
        ParentAction::Call {
            call_id,
            name,
            args,
            kwargs,
        } => {
            let m = run_tool_call(&Echo, call_id, &name, args, kwargs);
            assert!(matches!(
                m,
                ParentMsg::ToolResult { call_id: 5, result } if result.output == Some("1".into())
            ));
        }
        other => panic!("unexpected {other:?}"),
    }
    assert!(matches!(
        run_tool_call(&Echo, 6, "e", vec![], vec![]),
        ParentMsg::ToolResult { call_id: 6, result } if result.error == Some("e: nothing to echo".into())
    ));
    assert!(matches!(
        tool_result_msg(7, Ok("o".into())),
        ParentMsg::ToolResult { call_id: 7, .. }
    ));
    assert!(
        matches!(handle_child_msg(ChildMsg::Stdout { text: "l".into() }), ParentAction::Print(t) if t == "l")
    );
    match handle_child_msg(ChildMsg::Done {
        output: None,
        stdout: "s".into(),
        error: Some("e".into()),
    }) {
        ParentAction::Finish(r) => {
            assert_eq!(r.stdout, "s");
            assert_eq!(run_outcome(Ok(r)).unwrap().unwrap_err(), "e");
        }
        other => panic!("unexpected {other:?}"),
    }
    assert_eq!(
        run_outcome(Err("gone".into())).unwrap_err(),
        "sandbox run: gone"
    );
    let fine = run_outcome(Ok(ChildIoResult {
        output: Some(Json::Bool(false)),
        stdout: "t".into(),
        error: None,
    }))
    .unwrap()
    .unwrap();
    assert_eq!(fine.output, Some(Json::Bool(false)));
    assert_eq!(fine.stdout, "t");
    assert!(matches!(
        handle_child_msg(ChildMsg::CdResult),
        ParentAction::Ignore
    ));
}

#[test]
fn calls_are_routed() {
    let fns: Vec<String> = vec!["webfetch".into()];
    assert_eq!(route("read", &fns), Ok(Route::Child));
    assert_eq!(route("webfetch", &fns), Ok(Route::Parent));
    assert_eq!(route("x", &fns), Err("unknown tool: x".into()));
    assert_eq!(
        child_call_result(Ok(payload(Some("o"), None))),
        Ok("o".into())
    );
    assert_eq!(
        child_call_result(Ok(payload(None, None))),
        Err("empty tool result".into())
    );
    assert_eq!(
        child_call_result(Ok(payload(Some("o"), Some("e")))),
        Err("e".into())
    );
    assert_eq!(child_call_result(Err("gone".into())), Err("gone".into()));
}

#[test]
fn locks() {
    let m = std::sync::Mutex::new(4);
    *lock_or_poisoned(&m).unwrap() += 1;
    assert_eq!(*lock_or_poisoned(&m).unwrap(), 5);
    let bad: Result<i32, SandboxError> = unless_poisoned(Err("poisoned".into()));
    assert!(matches!(bad, Err(SandboxError::MutexPoisoned(t)) if t == "poisoned"));
}

#[test]
fn call_numbers_start_again_at_zero() {
    let mut d = RemoteDispatch::new();
    d.next_id = u32::MAX;
    let ids: Vec<u32> = (0..3)
        .map(|_| match d.begin("task", vec![], vec![]) {
            ChildMsg::ToolCall { call_id, .. } => call_id,
            other => panic!("unexpected {other:?}"),
        })
        .collect();
    assert_eq!(ids, vec![u32::MAX, 0, 1]);
    let m = std::sync::Mutex::new(3);
    *lock_pending(&m).unwrap() += 4;
    assert_eq!(*lock_pending(&m).unwrap(), 7);
}
