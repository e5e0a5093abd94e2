use maki_sandbox::codec;
use maki_sandbox::error::SandboxError;
use maki_sandbox::ipc::{
    self, bytes_wanted, child_msg_label, parent_msg_label, read_message, recv_child_msg,
    recv_handshake, recv_parent_msg, recv_setup, recv_sync, send_child_msg, send_exit,
    send_handshake, send_parent_msg, send_setup, send_sync, write_message, ChildMsg, DirEntry,
    Handshake, ParentMsg, SetupMessage, ToolResultPayload, MAX_MSG_LEN, SYNC_GO, SYNC_READY,
};
use maki_sandbox::json::Json;

#[test]
fn write_read_message_roundtrip() {
    let mut wire: Vec<u8> = Vec::new();
    let data = b"hello world";
    write_message(&mut wire, data).unwrap();
    let got = read_message(&mut wire).unwrap();
    assert_eq!(got, data);
}

#[test]
fn write_read_empty_message() {
    let mut wire: Vec<u8> = Vec::new();
    write_message(&mut wire, b"").unwrap();
    let got = read_message(&mut wire).unwrap();
    assert!(got.is_empty());
}

#[test]
fn read_message_rejects_oversized() {
    let mut wire: Vec<u8> = Vec::new();
    let len = (MAX_MSG_LEN as u32 + 1).to_be_bytes();
    wire.extend_from_slice(&len);
    let err = read_message(&mut wire).unwrap_err();
    assert!(err.to_string().contains("message too large"));
}

#[test]
fn handshake_roundtrip() {
    let mut wire: Vec<u8> = Vec::new();
    send_handshake(&mut wire, "maki-server").unwrap();
    let name = recv_handshake(&mut wire).unwrap();
    assert_eq!(name, "maki-server");
}

#[test]
fn handshake_version_mismatch() {
    let mut wire: Vec<u8> = Vec::new();
    let hs = Handshake {
        name: "bad".into(),
        version: 999,
    };
    let data = codec::handshake_json(&hs).to_bytes();
    write_message(&mut wire, &data).unwrap();
    let err = recv_handshake(&mut wire).unwrap_err();
    assert!(err.to_string().contains("version mismatch"));
}

#[test]
fn sync_roundtrip() {
    let mut wire: Vec<u8> = Vec::new();
    send_sync(&mut wire, &SYNC_READY).unwrap();
    recv_sync(&mut wire, &SYNC_READY).unwrap();
}

#[test]
fn sync_wrong_message() {
    let mut wire: Vec<u8> = Vec::new();
    wire.extend_from_slice(&SYNC_READY);
    let err = recv_sync(&mut wire, &SYNC_GO).unwrap_err();
    assert!(err.to_string().contains("unexpected sync"));
}

#[test]
fn setup_roundtrip() {
    let mut wire: Vec<u8> = Vec::new();
    let msg = SetupMessage {
        code: "print('hello')".into(),
        timeout_secs: 30,
        max_memory: 1024,
    };
    send_setup(&mut wire, &msg).unwrap();
    let got = recv_setup(&mut wire).unwrap();
    assert_eq!(got.code, "print('hello')");
    assert_eq!(got.timeout_secs, 30);
    assert_eq!(got.max_memory, 1024);
}

#[test]
fn child_msg_stdout_roundtrip() {
    let mut wire: Vec<u8> = Vec::new();
    let msg = ChildMsg::Stdout {
        text: "line1\n".into(),
    };
    send_child_msg(&mut wire, &msg).unwrap();
    let got = recv_child_msg(&mut wire).unwrap();
    match got {
        ChildMsg::Stdout { text } => assert_eq!(text, "line1\n"),
        other => panic!("expected Stdout, got {other:?}"),
    }
}

#[test]
fn child_msg_tool_call_roundtrip() {
    let mut wire: Vec<u8> = Vec::new();
    let msg = ChildMsg::ToolCall {
        call_id: 42,
        name: "read".into(),
        args: vec![Json::Str("/foo".into())],
        kwargs: vec![],
    };
    send_child_msg(&mut wire, &msg).unwrap();
    let got = recv_child_msg(&mut wire).unwrap();
    match got {
        ChildMsg::ToolCall {
            call_id,
            name,
            args,
            kwargs,
        } => {
            assert_eq!(call_id, 42);
            assert_eq!(name, "read");
            assert_eq!(args, vec![Json::Str("/foo".into())]);
            assert!(kwargs.is_empty());
        }
        other => panic!("expected ToolCall, got {other:?}"),
    }
}

#[test]
fn child_msg_done_roundtrip() {
    let mut wire: Vec<u8> = Vec::new();
    let msg = ChildMsg::Done {
        output: Some(Json::Bool(true)),
        stdout: "out".into(),
        error: Some("err".into()),
    };
    send_child_msg(&mut wire, &msg).unwrap();
    let got = recv_child_msg(&mut wire).unwrap();
    match got {
        ChildMsg::Done {
            output,
            stdout,
            error,
        } => {
            assert_eq!(output, Some(Json::Bool(true)));
            assert_eq!(stdout, "out");
            assert_eq!(error, Some("err".into()));
        }
        other => panic!("expected Done, got {other:?}"),
    }
}

#[test]
fn child_msg_cd_result_roundtrip() {
    let mut wire: Vec<u8> = Vec::new();
    send_child_msg(&mut wire, &ChildMsg::CdResult).unwrap();
    let got = recv_child_msg(&mut wire).unwrap();
    assert!(matches!(got, ChildMsg::CdResult));
}

#[test]
fn child_msg_exec_result_roundtrip() {
    let mut wire: Vec<u8> = Vec::new();
    let msg = ChildMsg::ExecResult {
        output: "result".into(),
        is_error: false,
    };
    send_child_msg(&mut wire, &msg).unwrap();
    let got = recv_child_msg(&mut wire).unwrap();
    match got {
        ChildMsg::ExecResult { output, is_error } => {
            assert_eq!(output, "result");
            assert!(!is_error);
        }
        other => panic!("expected ExecResult, got {other:?}"),
    }
}

#[test]
fn parent_msg_tool_result_roundtrip() {
    let mut wire: Vec<u8> = Vec::new();
    let msg = ParentMsg::ToolResult {
        call_id: 7,
        result: ToolResultPayload {
            output: Some("ok".into()),
            error: None,
        },
    };
    send_parent_msg(&mut wire, &msg).unwrap();
    let got = recv_parent_msg(&mut wire).unwrap();
    match got {
        ParentMsg::ToolResult { call_id, result } => {
            assert_eq!(call_id, 7);
            assert_eq!(result.output, Some("ok".into()));
            assert_eq!(result.error, None);
        }
        other => panic!("expected ToolResult, got {other:?}"),
    }
}

#[test]
fn parent_msg_cancel_roundtrip() {
    let mut wire: Vec<u8> = Vec::new();
    send_parent_msg(&mut wire, &ParentMsg::Cancel).unwrap();
    let got = recv_parent_msg(&mut wire).unwrap();
    assert!(matches!(got, ParentMsg::Cancel));
}

#[test]
fn parent_msg_exit_roundtrip() {
    let mut wire: Vec<u8> = Vec::new();
    send_parent_msg(&mut wire, &ParentMsg::Exit).unwrap();
    let got = recv_parent_msg(&mut wire).unwrap();
    assert!(matches!(got, ParentMsg::Exit));
}

#[test]
fn parent_msg_ls_roundtrip() {
    let mut wire: Vec<u8> = Vec::new();
    let msg = ParentMsg::Ls {
        path: "/tmp".into(),
    };
    send_parent_msg(&mut wire, &msg).unwrap();
    let got = recv_parent_msg(&mut wire).unwrap();
    match got {
        ParentMsg::Ls { path } => assert_eq!(path, "/tmp"),
        other => panic!("expected Ls, got {other:?}"),
    }
}

#[test]
fn parent_msg_cd_roundtrip() {
    let mut wire: Vec<u8> = Vec::new();
    let msg = ParentMsg::Cd {
        path: "/home".into(),
    };
    send_parent_msg(&mut wire, &msg).unwrap();
    let got = recv_parent_msg(&mut wire).unwrap();
    match got {
        ParentMsg::Cd { path } => assert_eq!(path, "/home"),
        other => panic!("expected Cd, got {other:?}"),
    }
}

#[test]
fn parent_msg_exec_roundtrip() {
    let mut wire: Vec<u8> = Vec::new();
    let msg = ParentMsg::Exec {
        command: "ls -la".into(),
    };
    send_parent_msg(&mut wire, &msg).unwrap();
    let got = recv_parent_msg(&mut wire).unwrap();
    match got {
        ParentMsg::Exec { command } => assert_eq!(command, "ls -la"),
        other => panic!("expected Exec, got {other:?}"),
    }
}

#[test]
fn child_msg_label_all_variants() {
    assert_eq!(
        child_msg_label(&ChildMsg::Stdout { text: "".into() }),
        "stdout"
    );
    assert_eq!(
        child_msg_label(&ChildMsg::ToolCall {
            call_id: 0,
            name: "".into(),
            args: vec![],
            kwargs: vec![]
        }),
        "tool_call"
    );
    assert_eq!(
        child_msg_label(&ChildMsg::Done {
            output: None,
            stdout: "".into(),
            error: None
        }),
        "done"
    );
    assert_eq!(
        child_msg_label(&ChildMsg::LsResult { entries: vec![] }),
        "ls_result"
    );
    assert_eq!(
        child_msg_label(&ChildMsg::PwdResult { path: "".into() }),
        "pwd_result"
    );
    assert_eq!(child_msg_label(&ChildMsg::CdResult), "cd_result");
    assert_eq!(
        child_msg_label(&ChildMsg::ExecResult {
            output: "".into(),
            is_error: false
        }),
        "exec_result"
    );
}

#[test]
fn parent_msg_label_all_variants() {
    assert_eq!(
        parent_msg_label(&ParentMsg::ToolResult {
            call_id: 0,
            result: ToolResultPayload {
                output: None,
                error: None
            }
        }),
        "tool_result"
    );
    assert_eq!(
        parent_msg_label(&ParentMsg::ToolBatchResult { results: vec![] }),
        "tool_batch_result"
    );
    assert_eq!(parent_msg_label(&ParentMsg::Cancel), "cancel");
    assert_eq!(parent_msg_label(&ParentMsg::Exit), "exit");
    assert_eq!(parent_msg_label(&ParentMsg::Ls { path: "".into() }), "ls");
    assert_eq!(parent_msg_label(&ParentMsg::Pwd), "pwd");
    assert_eq!(parent_msg_label(&ParentMsg::Cd { path: "".into() }), "cd");
    assert_eq!(
        parent_msg_label(&ParentMsg::Exec { command: "".into() }),
        "exec"
    );
}

#[test]
fn labels_of_work_messages() {
    assert_eq!(
        parent_msg_label(&ParentMsg::Run {
            call_id: 1,
            code: "".into(),
            timeout_secs: 0,
            max_memory: 0,
            config: "".into()
        }),
        "run"
    );
    assert_eq!(
        parent_msg_label(&ParentMsg::ToolCall {
            call_id: 1,
            name: "".into(),
            args: vec![],
            kwargs: vec![]
        }),
        "tool_call"
    );
    assert_eq!(
        child_msg_label(&ChildMsg::ToolResult {
            call_id: 1,
            result: ToolResultPayload {
                output: None,
                error: None
            }
        }),
        "tool_result"
    );
}

#[test]
fn frame_is_length_and_payload() {
    let mut wire: Vec<u8> = vec![9];
    write_message(&mut wire, b"abc").unwrap();
    assert_eq!(wire, vec![9, 0, 0, 0, 3, b'a', b'b', b'c']);
    let mut long: Vec<u8> = Vec::new();
    write_message(&mut long, &vec![7u8; 66051]).unwrap();
    assert_eq!(&long[..4], &[0, 1, 2, 3]);
}

#[test]
fn frames_are_read_in_order() {
    let mut wire: Vec<u8> = Vec::new();
    write_message(&mut wire, b"one").unwrap();
    write_message(&mut wire, b"two").unwrap();
    assert_eq!(read_message(&mut wire).unwrap(), b"one");
    assert_eq!(read_message(&mut wire).unwrap(), b"two");
    assert!(wire.is_empty());
}

#[test]
fn short_input_is_reported_and_kept() {
    let mut wire: Vec<u8> = vec![0, 0, 0];
    let err = read_message(&mut wire).unwrap_err();
    assert_eq!(
        err.to_string(),
        "read header: failed to fill whole buffer"
    );
    assert_eq!(wire.len(), 3);
    let mut cut: Vec<u8> = vec![0, 0, 0, 2, 1];
    let err = read_message(&mut cut).unwrap_err();
    assert_eq!(
        err.to_string(),
        "read payload: failed to fill whole buffer"
    );
    assert_eq!(cut.len(), 5);
}

#[test]
fn oversized_message_names_its_length() {
    let mut wire: Vec<u8> = vec![1, 0, 0, 1, 5];
    let err = read_message(&mut wire).unwrap_err();
    assert_eq!(
        err.to_string(),
        "message too large: 16777217 bytes (max 16777216)"
    );
    assert!(matches!(err, SandboxError::Ipc(_)));
    assert_eq!(wire, vec![5]);
}

#[test]
fn wanted_bytes() {
    assert_eq!(bytes_wanted(&[]), 4);
    assert_eq!(bytes_wanted(&[0, 0]), 2);
    assert_eq!(bytes_wanted(&[0, 0, 1, 0]), 256);
    assert_eq!(bytes_wanted(&[0, 0, 0, 2, 1]), 1);
    assert_eq!(bytes_wanted(&[0, 0, 0, 1, 1]), 0);
    assert_eq!(bytes_wanted(&[255, 0, 0, 0]), 0);
}

#[test]
fn handshake_errors_are_labelled() {
    let mut wire: Vec<u8> = Vec::new();
    write_message(&mut wire, b"{").unwrap();
    let err = recv_handshake(&mut wire).unwrap_err();
    assert!(err.to_string().starts_with("handshake deserialize: "));
    let mut other: Vec<u8> = Vec::new();
    write_message(&mut other, b"{\"name\":\"x\"}").unwrap();
    let err = recv_handshake(&mut other).unwrap_err();
    assert_eq!(
        err.to_string(),
        "handshake deserialize: missing field `version`"
    );
    let mut third: Vec<u8> = Vec::new();
    write_message(&mut third, b"{\"name\":\"x\",\"version\":2}").unwrap();
    let err = recv_handshake(&mut third).unwrap_err();
    assert_eq!(
        err.to_string(),
        "handshake version mismatch: expected 1, got 2"
    );
}

#[test]
fn sync_errors_show_both_words() {
    let mut wire: Vec<u8> = b"re".to_vec();
    let err = recv_sync(&mut wire, &SYNC_GO).unwrap_err();
    assert_eq!(
        err.to_string(),
        "unexpected sync message: expected \"go\", got \"re\""
    );
    let mut bad: Vec<u8> = vec![255, 254];
    let err = recv_sync(&mut bad, &SYNC_GO).unwrap_err();
    assert_eq!(
        err.to_string(),
        "unexpected sync message: expected \"go\", got \"?\""
    );
    let mut short: Vec<u8> = b"g".to_vec();
    let err = recv_sync(&mut short, &SYNC_GO).unwrap_err();
    assert_eq!(err.to_string(), "sync recv: failed to fill whole buffer");
}

#[test]
fn messages_have_the_documented_form() {
    let mut wire: Vec<u8> = Vec::new();
    send_exit(&mut wire).unwrap();
    assert_eq!(read_message(&mut wire).unwrap(), b"{\"type\":\"exit\"}");
    send_parent_msg(
        &mut wire,
        &ParentMsg::ToolResult {
            call_id: 3,
            result: ToolResultPayload {
                output: Some("o".into()),
                error: None,
            },
        },
    )
    .unwrap();
    assert_eq!(
        read_message(&mut wire).unwrap(),
        b"{\"type\":\"tool_result\",\"call_id\":3,\"output\":\"o\",\"error\":null}"
    );
    send_child_msg(
        &mut wire,
        &ChildMsg::LsResult {
            entries: vec![DirEntry {
                name: "a".into(),
                is_dir: true,
            }],
        },
    )
    .unwrap();
    assert_eq!(
        read_message(&mut wire).unwrap(),
        b"{\"type\":\"ls_result\",\"entries\":[{\"name\":\"a\",\"is_dir\":true}]}"
    );
}

#[test]
fn batch_run_and_tool_messages_roundtrip() {
    let mut wire: Vec<u8> = Vec::new();
    send_parent_msg(
        &mut wire,
        &ParentMsg::ToolBatchResult {
            results: vec![
                (
                    1,
                    ToolResultPayload {
                        output: Some("x".into()),
                        error: None,
                    },
                ),
                (
                    2,
                    ToolResultPayload {
                        output: None,
                        error: Some("bad".into()),
                    },
                ),
            ],
        },
    )
    .unwrap();
    match recv_parent_msg(&mut wire).unwrap() {
        ParentMsg::ToolBatchResult { results } => {
            assert_eq!(results.len(), 2);
            assert_eq!(results[0].0, 1);
            assert_eq!(results[0].1.output, Some("x".into()));
            assert_eq!(results[1].0, 2);
            assert_eq!(results[1].1.error, Some("bad".into()));
        }
        other => panic!("unexpected {other:?}"),
    }
    send_parent_msg(
        &mut wire,
        &ParentMsg::Run {
            call_id: 5,
            code: "1".into(),
            timeout_secs: u64::MAX,
            max_memory: 10,
            config: "{}".into(),
        },
    )
    .unwrap();
    match recv_parent_msg(&mut wire).unwrap() {
        ParentMsg::Run {
            call_id,
            code,
            timeout_secs,
            max_memory,
            config,
        } => {
            assert_eq!(call_id, 5);
            assert_eq!(code, "1");
            assert_eq!(timeout_secs, u64::MAX);
            assert_eq!(max_memory, 10);
            assert_eq!(config, "{}");
        }
        other => panic!("unexpected {other:?}"),
    }
    send_parent_msg(
        &mut wire,
        &ParentMsg::ToolCall {
            call_id: 6,
            name: "t".into(),
            args: vec![Json::Null, Json::Int(-4)],
            kwargs: vec![("k".into(), Json::Array(vec![Json::Uint(1)]))],
        },
    )
    .unwrap();
    match recv_parent_msg(&mut wire).unwrap() {
        ParentMsg::ToolCall { args, kwargs, .. } => {
            assert_eq!(args, vec![Json::Null, Json::Int(-4)]);
            assert_eq!(
                kwargs,
                vec![("k".into(), Json::Array(vec![Json::Uint(1)]))]
            );
        }
        other => panic!("unexpected {other:?}"),
    }
}

#[test]
fn null_result_is_read_as_none() {
    let mut wire: Vec<u8> = Vec::new();
    send_child_msg(
        &mut wire,
        &ChildMsg::Done {
            output: Some(Json::Null),
            stdout: "".into(),
            error: None,
        },
    )
    .unwrap();
    match recv_child_msg(&mut wire).unwrap() {
        ChildMsg::Done { output, .. } => assert_eq!(output, None),
        other => panic!("unexpected {other:?}"),
    }
}

#[test]
fn unknown_and_broken_messages_are_refused() {
    let cases: Vec<(&[u8], &str)> = vec![
        (
            b"{\"type\":\"nope\"}",
            "deserialize child msg: unknown variant `nope`, expected one of `stdout`, \
             `tool_call`, `done`, `ls_result`, `pwd_result`, `cd_result`, `exec_result`, \
             `tool_result`",
        ),
        (b"{\"text\":\"x\"}", "deserialize child msg: missing field `type`"),
        (b"[]", "deserialize child msg: missing field `type`"),
        (
            b"true",
            "deserialize child msg: invalid type: boolean `true`, expected internally tagged \
             enum ChildMsg",
        ),
        (
            b"{\"type\":null}",
            "deserialize child msg: invalid type: null, expected variant identifier",
        ),
        (
            b"{\"type\":\"stdout\",\"text\":1}",
            "deserialize child msg: invalid type: integer `1`, expected a string",
        ),
        (
            b"{\"type\":\"stdout\",\"text\":-1.5}",
            "deserialize child msg: invalid type: floating point `-1.5`, expected a string",
        ),
        (
            b"{\"type\":\"exec_result\",\"output\":\"\",\"is_error\":\"a\\\"b\"}",
            "deserialize child msg: invalid type: string \"a\\\"b\", expected a boolean",
        ),
        (
            b"{\"type\":\"ls_result\",\"entries\":[{\"name\":\"a\"}]}",
            "deserialize child msg: missing field `is_dir`",
        ),
        (
            b"{\"type\":\"ls_result\",\"entries\":[7]}",
            "deserialize child msg: invalid type: integer `7`, expected struct DirEntry",
        ),
        (
            b"{\"type\":\"ls_result\",\"entries\":{}}",
            "deserialize child msg: invalid type: map, expected a sequence",
        ),
        // The first value that does not fit counts, and only then what is missing.
        (
            b"{\"type\":\"tool_call\",\"name\":[],\"call_id\":-1}",
            "deserialize child msg: invalid type: sequence, expected a string",
        ),
        (
            b"{\"type\":\"tool_call\",\"call_id\":-1}",
            "deserialize child msg: invalid value: integer `-1`, expected u32",
        ),
        (
            b"{\"type\":\"tool_call\",\"call_id\":4294967296}",
            "deserialize child msg: invalid value: integer `4294967296`, expected u32",
        ),
        (
            b"[\"tool_call\",1,\"n\",[],[[\"k\"]]]",
            "deserialize child msg: invalid length 1, expected a tuple of size 2",
        ),
        (
            b"[\"tool_call\",1,\"n\",[],[[\"k\",1,2]]]",
            "deserialize child msg: invalid length 3, expected 2 elements in sequence",
        ),
        (
            b"[\"tool_call\",1,\"n\",[]]",
            "deserialize child msg: invalid length 3, expected struct variant \
             ChildMsg::ToolCall with 4 elements",
        ),
        (
            b"[\"stdout\"]",
            "deserialize child msg: invalid length 0, expected struct variant \
             ChildMsg::Stdout with 1 element",
        ),
        (
            b"[\"stdout\",\"a\",\"b\"]",
            "deserialize child msg: invalid length 2, expected 1 element in sequence",
        ),
        (
            b"[\"cd_result\",0]",
            "deserialize child msg: invalid length 1, expected 0 elements in sequence",
        ),
        (
            b"[\"tool_result\",1,null,null]",
            "deserialize child msg: invalid type: sequence, expected struct variant \
             ChildMsg::ToolResult",
        ),
    ];
    for (bytes, text) in cases {
        let mut wire: Vec<u8> = Vec::new();
        write_message(&mut wire, bytes).unwrap();
        let err = recv_child_msg(&mut wire).unwrap_err();
        assert_eq!(err.to_string(), text);
        assert!(wire.is_empty());
    }
    let mut wire: Vec<u8> = Vec::new();
    write_message(&mut wire, b"{\"type\":\"ls\"}").unwrap();
    let err = recv_parent_msg(&mut wire).unwrap_err();
    assert_eq!(
        err.to_string(),
        "deserialize parent msg: missing field `path`"
    );
    write_message(&mut wire, b"{\"code\":\"\"}").unwrap();
    let err = recv_setup(&mut wire).unwrap_err();
    assert_eq!(
        err.to_string(),
        "setup deserialize: missing field `timeout_secs`"
    );
}

#[test]
fn queries_and_their_answers() {
    let mut out: Vec<u8> = Vec::new();
    ipc::query_ls(&mut out, "/a").unwrap();
    ipc::query_pwd(&mut out).unwrap();
    ipc::query_cd(&mut out, "/b").unwrap();
    ipc::query_exec(&mut out, "true").unwrap();
    assert!(matches!(recv_parent_msg(&mut out).unwrap(), ParentMsg::Ls { path } if path == "/a"));
    assert!(matches!(recv_parent_msg(&mut out).unwrap(), ParentMsg::Pwd));
    assert!(matches!(recv_parent_msg(&mut out).unwrap(), ParentMsg::Cd { path } if path == "/b"));
    assert!(
        matches!(recv_parent_msg(&mut out).unwrap(), ParentMsg::Exec { command } if command == "true")
    );

    let mut input: Vec<u8> = Vec::new();
    send_child_msg(&mut input, &ChildMsg::PwdResult { path: "/x".into() }).unwrap();
    assert_eq!(ipc::pwd_answer(&mut input).unwrap(), "/x");
    send_child_msg(&mut input, &ChildMsg::CdResult).unwrap();
    ipc::cd_answer(&mut input).unwrap();
    send_child_msg(
        &mut input,
        &ChildMsg::ExecResult {
            output: "o".into(),
            is_error: true,
        },
    )
    .unwrap();
    assert_eq!(ipc::exec_answer(&mut input).unwrap(), ("o".to_string(), true));
    send_child_msg(&mut input, &ChildMsg::CdResult).unwrap();
    let err = ipc::ls_answer(&mut input).unwrap_err();
    assert_eq!(
        err.to_string(),
        "expected LsResult, got \"{\\\"type\\\":\\\"cd_result\\\"}\""
    );
}

#[test]
fn browse_setup_runs_nothing() {
    let m = SetupMessage::browse();
    assert_eq!(m.code, "");
    assert_eq!(m.timeout_secs, 0);
    assert_eq!(m.max_memory, 0);
}

#[test]
fn messages_beyond_the_limit_are_not_written() {
    let mut wire: Vec<u8> = vec![1, 2];
    let long = vec![b'x'; MAX_MSG_LEN + 1];
    let err = write_message(&mut wire, &long).unwrap_err();
    assert!(matches!(err, SandboxError::Ipc(m) if m == "message too large"));
    assert_eq!(wire, vec![1, 2]);
    let mut wire: Vec<u8> = Vec::new();
    write_message(&mut wire, &long[1..]).unwrap();
    assert_eq!(read_message(&mut wire).unwrap().len(), MAX_MSG_LEN);
    assert!(wire.is_empty());
    let text = "x".repeat(MAX_MSG_LEN);
    assert!(send_child_msg(&mut wire, &ChildMsg::Stdout { text }).is_err());
    assert!(wire.is_empty());
}

#[test]
fn arrays_stand_for_objects() {
    let framed = |bytes: &[u8]| {
        let mut wire: Vec<u8> = Vec::new();
        write_message(&mut wire, bytes).unwrap();
        wire
    };
    assert_eq!(
        recv_handshake(&mut framed(b"[\"maki-server\",1]")).unwrap(),
        "maki-server"
    );
    assert_eq!(
        recv_handshake(&mut framed(b"[\"maki-server\"]"))
            .unwrap_err()
            .to_string(),
        "handshake deserialize: invalid length 1, expected struct Handshake with 2 elements"
    );
    assert_eq!(
        recv_handshake(&mut framed(b"[\"maki-server\",1,2]"))
            .unwrap_err()
            .to_string(),
        "handshake deserialize: trailing characters"
    );
    let setup = recv_setup(&mut framed(b"[\"x\",2,3]")).unwrap();
    assert_eq!(
        (setup.code.as_str(), setup.timeout_secs, setup.max_memory),
        ("x", 2, 3)
    );
    assert!(
        matches!(recv_parent_msg(&mut framed(b"[\"ls\",\"/tmp\"]")).unwrap(), ParentMsg::Ls { path } if path == "/tmp")
    );
    assert!(matches!(
        recv_parent_msg(&mut framed(b"[\"exit\"]")).unwrap(),
        ParentMsg::Exit
    ));
    match recv_child_msg(&mut framed(
        b"{\"type\":\"ls_result\",\"entries\":[[\"a\",true],{\"is_dir\":false,\"name\":\"b\"}]}",
    ))
    .unwrap()
    {
        ChildMsg::LsResult { entries } => {
            let found: Vec<(&str, bool)> =
                entries.iter().map(|e| (e.name.as_str(), e.is_dir)).collect();
            assert_eq!(found, vec![("a", true), ("b", false)]);
        }
        other => panic!("unexpected {other:?}"),
    }
    match recv_parent_msg(&mut framed(
        b"[\"tool_batch_result\",[[1,[\"o\",null]],[2,{\"error\":\"e\"}]]]",
    ))
    .unwrap()
    {
        ParentMsg::ToolBatchResult { results } => {
            assert_eq!(results[0].0, 1);
            assert_eq!(results[0].1.output, Some("o".into()));
            assert_eq!(results[1].1.error, Some("e".into()));
            assert_eq!(results.len(), 2);
        }
        other => panic!("unexpected {other:?}"),
    }
    match recv_child_msg(&mut framed(b"[\"done\",{\"a\":1},\"s\",null]")).unwrap() {
        ChildMsg::Done {
            output,
            stdout,
            error,
        } => {
            assert_eq!(
                output,
                Some(Json::Object(vec![("a".into(), Json::Uint(1))]))
            );
            assert_eq!((stdout.as_str(), error), ("s", None));
        }
        other => panic!("unexpected {other:?}"),
    }
}
