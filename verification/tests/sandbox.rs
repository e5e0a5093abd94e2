use maki_sandbox::ipc::{
    recv_parent_msg, recv_setup, send_child_msg, ChildMsg, DirEntry, ParentMsg, SetupMessage,
    ToolResultPayload,
};
use maki_sandbox::error::SandboxError;
use maki_sandbox::json::Json;
use maki_sandbox::namespace::NamespaceConfig;
use maki_sandbox::process::WaitOutcome;
use maki_sandbox::report::error_lines;
use maki_sandbox::sandbox::{Sandbox, SandboxInner};

fn test_config() -> NamespaceConfig {
    NamespaceConfig {
        allowed_env: vec![],
        workspace_dir: "/tmp/ws".into(),
        workspace_name: "test".into(),
        home_mounts: vec![],
        readonly_mounts: vec![],
        path_dirs: vec![],
        extra_workspace_dirs: vec![],
        symlinks: vec![],
    }
}

fn test_sandbox() -> Sandbox {
    Sandbox::new(test_config(), SandboxInner::new(100))
}

#[test]
fn sandbox_new_and_drop() {
    let mut sandbox = test_sandbox();
    assert!(sandbox.pid().is_some());
    let mut gone = sandbox.dismiss().unwrap();
    assert_eq!(gone.pid, 100);
    assert!(matches!(recv_parent_msg(&mut gone.bytes).unwrap(), ParentMsg::Exit));
    assert!(sandbox.pid().is_none());
    assert!(sandbox.dismiss().is_none());
}

#[test]
fn sandbox_reinit_spawns_new_child() {
    let mut sandbox = test_sandbox();
    let pid1 = sandbox.pid();
    sandbox.pwd().unwrap();
    let mut old = sandbox.dismiss().unwrap();
    assert_eq!(Some(old.pid), pid1);
    assert!(matches!(recv_parent_msg(&mut old.bytes).unwrap(), ParentMsg::Pwd));
    assert!(matches!(recv_parent_msg(&mut old.bytes).unwrap(), ParentMsg::Exit));
    assert_eq!(sandbox.leaving, pid1);
    sandbox.waited(&WaitOutcome::Exited(0)).unwrap();
    assert_eq!(sandbox.leaving, None);
    sandbox
        .reinit(test_config(), Ok(SandboxInner::new(101)))
        .expect("reinit should succeed");
    let pid2 = sandbox.pid();
    assert!(pid2.is_some());
    assert_ne!(pid1, pid2, "reinit should spawn a new PID");
}

#[test]
fn a_failed_reinit_leaves_no_child() {
    let mut sandbox = test_sandbox();
    sandbox.dismiss();
    let err = sandbox
        .waited(&WaitOutcome::Signaled("SIGKILL".into()))
        .unwrap_err();
    assert!(err.to_string().contains("SIGKILL"));
    let mut other = test_config();
    other.workspace_name = "other".into();
    let err = sandbox
        .reinit(other, Err(SandboxError::Fork("no more".into())))
        .unwrap_err();
    assert!(matches!(err, SandboxError::Fork(m) if m == "no more"));
    assert_eq!(sandbox.pid(), None);
    assert_eq!(sandbox.config.workspace_name, "test");
    assert!(sandbox
        .pwd()
        .unwrap_err()
        .to_string()
        .contains("not initialized"));
}

#[test]
fn runs_and_tools_of_the_child() {
    let mut sandbox = test_sandbox();
    sandbox.run_code("1", 5, 6, "{}").unwrap();
    sandbox.call_tool("read", vec![Json::Null], vec![]).unwrap();
    let child = sandbox.inner.as_mut().unwrap();
    let mut sent = child.take_out();
    match recv_parent_msg(&mut sent).unwrap() {
        ParentMsg::Run {
            code,
            timeout_secs,
            max_memory,
            config,
            ..
        } => assert_eq!(
            (code.as_str(), timeout_secs, max_memory, config.as_str()),
            ("1", 5, 6, "{}")
        ),
        other => panic!("unexpected {other:?}"),
    }
    assert!(
        matches!(recv_parent_msg(&mut sent).unwrap(), ParentMsg::ToolCall { name, .. } if name == "read")
    );
    send_child_msg(
        &mut child.input,
        &ChildMsg::ToolResult {
            call_id: 0,
            result: ToolResultPayload {
                output: Some("o".into()),
                error: None,
            },
        },
    )
    .unwrap();
    send_child_msg(&mut child.input, &ChildMsg::CdResult).unwrap();
    assert_eq!(
        sandbox.call_tool_answer().unwrap().output,
        Some("o".into())
    );
    assert!(sandbox
        .call_tool_answer()
        .unwrap_err()
        .to_string()
        .contains("expected ToolResult, got "));
}

#[test]
fn sandbox_setup_and_pwd() {
    let mut sandbox = test_sandbox();
    sandbox.setup(&SetupMessage::browse()).unwrap();
    sandbox.pwd().unwrap();
    let child = sandbox.inner.as_mut().unwrap();
    let mut sent = child.take_out();
    assert_eq!(recv_setup(&mut sent).unwrap().code, "");
    assert!(matches!(recv_parent_msg(&mut sent).unwrap(), ParentMsg::Pwd));
    send_child_msg(&mut child.input, &ChildMsg::PwdResult { path: "/w".into() }).unwrap();
    let pwd = sandbox.pwd_answer().unwrap();
    assert!(!pwd.is_empty());
}

#[test]
fn sandbox_exec_echo() {
    let mut sandbox = test_sandbox();
    sandbox.setup(&SetupMessage::browse()).unwrap();
    sandbox.exec("echo hello").unwrap();
    let child = sandbox.inner.as_mut().unwrap();
    let mut sent = child.take_out();
    recv_setup(&mut sent).unwrap();
    assert!(
        matches!(recv_parent_msg(&mut sent).unwrap(), ParentMsg::Exec { command } if command == "echo hello")
    );
    send_child_msg(
        &mut child.input,
        &ChildMsg::ExecResult {
            output: "hello\n".into(),
            is_error: false,
        },
    )
    .unwrap();
    let (output, is_error) = sandbox.exec_answer().unwrap();
    assert!(!is_error);
    assert_eq!(output.trim(), "hello");
}

#[test]
fn sandbox_ls_lists_entries() {
    let mut sandbox = test_sandbox();
    sandbox.ls(".").unwrap();
    let child = sandbox.inner.as_mut().unwrap();
    send_child_msg(
        &mut child.input,
        &ChildMsg::LsResult {
            entries: vec![DirEntry {
                name: "file.txt".into(),
                is_dir: false,
            }],
        },
    )
    .unwrap();
    let entries = sandbox.ls_answer().unwrap();
    let names: Vec<&str> = entries.iter().map(|e| e.name.as_str()).collect();
    assert!(names.contains(&"file.txt"));
}

#[test]
fn sandbox_exit_succeeds() {
    let mut sandbox = test_sandbox();
    sandbox.setup(&SetupMessage::browse()).unwrap();
    sandbox.exit().unwrap();
}

#[test]
fn sandbox_setup_without_init_returns_error() {
    let mut sandbox = test_sandbox();
    sandbox.dismiss();
    let err = sandbox.setup(&SetupMessage::browse()).unwrap_err();
    assert!(err.to_string().contains("not initialized"));
}

#[test]
fn every_query_needs_a_child() {
    let mut sandbox = test_sandbox();
    sandbox.dismiss();
    let want = "sandbox not initialized (call reinit first)";
    assert_eq!(sandbox.pwd().unwrap_err().to_string(), want);
    assert_eq!(sandbox.ls("/").unwrap_err().to_string(), want);
    assert_eq!(sandbox.cd("/").unwrap_err().to_string(), want);
    assert_eq!(sandbox.exec("x").unwrap_err().to_string(), want);
    assert_eq!(sandbox.exit().unwrap_err().to_string(), want);
    assert_eq!(sandbox.pwd_answer().unwrap_err().to_string(), want);
    assert_eq!(sandbox.ls_answer().unwrap_err().to_string(), want);
    assert_eq!(sandbox.cd_answer().unwrap_err().to_string(), want);
    assert_eq!(sandbox.exec_answer().unwrap_err().to_string(), want);
    assert_eq!(
        sandbox.wait().unwrap_err().to_string(),
        "no child to wait on"
    );
}

#[test]
fn directory_change_is_confirmed() {
    let mut sandbox = test_sandbox();
    sandbox.cd("/x").unwrap();
    assert_eq!(sandbox.wait().unwrap(), 100);
    let child = sandbox.inner.as_mut().unwrap();
    let mut sent = child.take_out();
    assert!(
        matches!(recv_parent_msg(&mut sent).unwrap(), ParentMsg::Cd { path } if path == "/x")
    );
    send_child_msg(&mut child.input, &ChildMsg::CdResult).unwrap();
    sandbox.cd_answer().unwrap();
    let child = sandbox.inner.as_mut().unwrap();
    send_child_msg(
        &mut child.input,
        &ChildMsg::ExecResult {
            output: "cd failed".into(),
            is_error: true,
        },
    )
    .unwrap();
    assert!(sandbox
        .cd_answer()
        .unwrap_err()
        .to_string()
        .starts_with("expected CdResult, got "));
}

#[test]
fn errors_are_shown_with_their_causes() {
    assert_eq!(
        error_lines("top", &[]),
        vec!["", "\x1b[1;31m✖ top\x1b[0m", ""]
    );
    assert_eq!(
        error_lines("top", &["a".into(), "b".into()]),
        vec![
            "",
            "\x1b[1;31m✖ top\x1b[0m",
            "\x1b[2m├─\x1b[0m \x1b[31ma\x1b[0m",
            "\x1b[2m└─\x1b[0m \x1b[31mb\x1b[0m",
            "",
        ]
    );
}
