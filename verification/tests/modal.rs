use maki_sandbox::browser::{parent_dir, SandboxFileBrowser};
use maki_sandbox::info::SandboxInfo;
use maki_sandbox::ipc::DirEntry;
use maki_sandbox::modal::{
    workspace_name, Answer, Goal, Key, Mode, Request, SandboxModal, ScrollOp,
};
use maki_sandbox::namespace::NamespaceConfig;
use maki_sandbox::profiles::builtin_profiles;
use maki_sandbox::screen::{Line, Role};
use maki_sandbox::shell::SandboxShellState;
use maki_sandbox::view::{Area, Bar};

fn test_info() -> SandboxInfo {
    SandboxInfo {
        enabled: false,
        env_entries: vec![],
        workspace_dir: "/tmp".into(),
        workspace_name: "tmp".into(),
        home_mounts: vec![],
        profiles: vec![],
        extra_workspace_dirs: vec![],
    }
}

fn enabled_info() -> SandboxInfo {
    SandboxInfo {
        enabled: true,
        ..test_info()
    }
}

fn info_with_profiles() -> SandboxInfo {
    SandboxInfo {
        profiles: builtin_profiles().into_iter().map(|p| (p, false)).collect(),
        ..test_info()
    }
}

fn modal(info: SandboxInfo, available: bool) -> SandboxModal {
    SandboxModal::new(info, available, vec![], Some("/home/user".into()))
}

fn entry(name: &str, is_dir: bool) -> DirEntry {
    DirEntry {
        name: name.into(),
        is_dir,
    }
}

fn plain(line: &Line) -> String {
    line.spans.iter().map(|s| s.text.as_str()).collect()
}

fn texts(lines: &[Line]) -> Vec<String> {
    lines.iter().map(|l| plain(l)).collect()
}

#[test]
fn handle_key_closes() {
    let mut modal = modal(test_info(), false);
    modal.toggle();
    assert!(modal.handle_key(Key::Esc));
    assert!(!modal.is_open());
}

#[test]
fn handle_key_consumes_all() {
    let mut modal = modal(test_info(), false);
    modal.toggle();
    assert!(modal.handle_key(Key::Char('a')));
    assert!(modal.is_open());
}

#[test]
fn tab_toggles_mode() {
    let mut modal = modal(test_info(), false);
    modal.toggle();
    assert_eq!(modal.mode, Mode::Info);
    modal.handle_key(Key::Tab);
    // Sandbox disabled, so should stay in Info mode
    assert_eq!(
        modal.mode,
        Mode::Info,
        "should stay in info when sandbox disabled"
    );
}

#[test]
fn tab_switches_to_browse_when_enabled() {
    let mut modal = modal(enabled_info(), false);
    modal.toggle();
    modal.handle_key(Key::Tab);
    assert_eq!(modal.mode, Mode::Browse);
}

#[test]
fn tab_cycles_through_modes() {
    let mut modal = modal(enabled_info(), false);
    modal.toggle();
    assert_eq!(modal.mode, Mode::Info);
    // Info -> Browse
    modal.handle_key(Key::Tab);
    assert_eq!(modal.mode, Mode::Browse);
    // Browse -> Shell
    modal.handle_key(Key::Tab);
    assert_eq!(modal.mode, Mode::Shell);
    // Shell -> Info
    modal.handle_key(Key::Tab);
    assert_eq!(modal.mode, Mode::Info);
}

#[test]
fn missing_sandbox_is_reported() {
    let mut modal = modal(enabled_info(), false);
    modal.toggle();
    modal.handle_key(Key::Tab);
    assert_eq!(modal.spawn_error, Some("sandbox not available".into()));
    assert!(modal.take_request().is_none());
    let page = modal.compose(40, 4).unwrap();
    let shown = texts(&page.lines);
    assert_eq!(shown[1], "  (sandbox not available)");
    assert_eq!(page.lines[1].spans[0].role, Role::Error);
}

/// Answers the requests of a dialog as a small sandbox would.
fn serve(modal: &mut SandboxModal) -> Vec<String> {
    let mut log = Vec::new();
    while let Some(q) = modal.take_request() {
        let a = match &q {
            Request::Probe => {
                log.push("probe".into());
                Answer::Done(Ok(()))
            }
            Request::Reinit(_, c) => {
                log.push(format!("reinit {}", c.workspace_dir));
                Answer::Done(Ok(()))
            }
            Request::Setup(_) => {
                log.push("setup".into());
                Answer::Done(Ok(()))
            }
            Request::Pwd(_) => {
                log.push("pwd".into());
                Answer::Path(Ok("/home/maki".into()))
            }
            Request::Ls(p) => {
                log.push(format!("ls {p}"));
                Answer::Listing(Ok(vec![entry("b.txt", false), entry("a", true)]))
            }
            Request::Cd(p) => {
                log.push(format!("cd {p}"));
                Answer::Done(Ok(()))
            }
            Request::Exec(c) => {
                log.push(format!("exec {c}"));
                Answer::Output(Ok((format!("ran {c}\n"), false)))
            }
        };
        modal.answer(q, a);
    }
    log
}

#[test]
fn browsing() {
    let mut modal = modal(enabled_info(), true);
    modal.toggle();
    modal.handle_key(Key::Tab);
    assert_eq!(
        serve(&mut modal),
        vec!["reinit /tmp", "setup", "pwd", "ls /home/maki"]
    );
    let page = modal.compose(40, 4).unwrap();
    assert_eq!(
        texts(&page.lines),
        vec![
            "",
            "  ▸ ../",
            "    a/",
            "    b.txt",
            "",
            "  Tab: Info  |  Esc: Close  |  Enter: Open dir  |  Backspace: Up",
        ]
    );
    assert_eq!(page.lines[1].spans[0].role, Role::Selected);
    assert_eq!(page.lines[2].spans[0].role, Role::Plain);
    assert_eq!(page.lines[3].spans[0].role, Role::Dim);
    modal.handle_key(Key::Down);
    modal.handle_key(Key::Enter);
    assert_eq!(
        serve(&mut modal),
        vec!["cd /home/maki/a", "ls /home/maki/a"]
    );
    modal.handle_key(Key::Backspace);
    assert_eq!(serve(&mut modal), vec!["cd /home/maki", "ls /home/maki"]);
    modal.handle_key(Key::Down);
    modal.handle_key(Key::Char('j'));
    modal.handle_key(Key::Char('j'));
    // A file leads nowhere.
    modal.handle_key(Key::Right);
    assert!(serve(&mut modal).is_empty());
    assert_eq!(modal.browser.as_ref().unwrap().cursor, 2);
    modal.handle_key(Key::Char('k'));
    assert_eq!(modal.browser.as_ref().unwrap().cursor, 1);
}

#[test]
fn browsing_failures() {
    let mut modal = modal(enabled_info(), true);
    modal.toggle();
    modal.handle_key(Key::Tab);
    let q = modal.take_request().unwrap();
    assert!(matches!(q, Request::Reinit(Goal::Browser, _)));
    modal.answer(q, Answer::Done(Err("no ns".into())));
    assert_eq!(modal.spawn_error, Some("no ns".into()));
    assert!(modal.take_request().is_none());
    modal.answer(Request::Setup(Goal::Browser), Answer::Done(Err("s".into())));
    assert_eq!(modal.spawn_error, Some("s".into()));
    modal.answer(Request::Pwd(Goal::Browser), Answer::Path(Err("p".into())));
    assert_eq!(modal.spawn_error, Some("p".into()));
    modal.answer(Request::Pwd(Goal::Browser), Answer::Path(Ok("/".into())));
    assert_eq!(modal.spawn_error, None);
    let q = modal.take_request().unwrap();
    modal.answer(q, Answer::Listing(Err("denied".into())));
    let b = modal.browser.as_ref().unwrap();
    assert_eq!(b.error, Some("denied".into()));
    assert!(b.entries.is_empty());
    modal.answer(Request::Cd("/x".into()), Answer::Done(Err("gone".into())));
    let b = modal.browser.as_ref().unwrap();
    assert_eq!(b.error, Some("gone".into()));
    assert_eq!(b.cwd, "/");
    // An answer that does not fit changes nothing.
    modal.answer(Request::Probe, Answer::Path(Ok("x".into())));
    assert!(!modal.enabled_changed);
}

#[test]
fn shell_session() {
    let mut modal = modal(enabled_info(), true);
    modal.toggle();
    modal.handle_key(Key::Tab);
    serve(&mut modal);
    modal.handle_key(Key::Tab);
    assert_eq!(serve(&mut modal), vec!["reinit /tmp", "setup", "pwd"]);
    assert!(modal.browser.is_none());
    for c in "lsx".chars() {
        modal.handle_key(Key::Char(c));
    }
    modal.handle_key(Key::Backspace);
    modal.take_scroll_ops();
    modal.handle_key(Key::Enter);
    assert_eq!(modal.take_scroll_ops(), vec![ScrollOp::ToBottom]);
    assert_eq!(serve(&mut modal), vec!["exec ls"]);
    let page = modal.compose(40, 4).unwrap();
    assert_eq!(
        texts(&page.lines),
        vec!["  /home/maki:$ ls", "    ran ls", ""]
    );
    assert_eq!(page.framed, 13);
    assert!(modal.handle_paste("one\ntwo\r\nthree"));
    assert_eq!(serve(&mut modal), vec!["exec one", "exec two"]);
    assert_eq!(modal.shell.as_ref().unwrap().input, "three");
    modal.handle_key(Key::Up);
    assert_eq!(modal.shell.as_ref().unwrap().input, "two");
    modal.handle_key(Key::Up);
    modal.handle_key(Key::Up);
    modal.handle_key(Key::Up);
    assert_eq!(modal.shell.as_ref().unwrap().input, "ls");
    modal.handle_key(Key::Down);
    assert_eq!(modal.shell.as_ref().unwrap().input, "one");
    modal.handle_key(Key::Right);
    modal.handle_key(Key::Right);
    modal.handle_key(Key::Left);
    assert_eq!(modal.h_scroll, 1);
    modal.handle_key(Key::PageUp);
    assert_eq!(modal.take_scroll_ops().last(), Some(&ScrollOp::ByKey));
    modal.handle_key(Key::Tab);
    assert!(modal.shell.is_none());
    assert!(!modal.handle_paste("x"));
}

#[test]
fn shell_failures_are_shown() {
    let mut s = SandboxShellState::new(Err("unknown".into()));
    assert_eq!(s.cwd, "");
    assert_eq!(s.submit(), None);
    s.input = "bad".into();
    assert_eq!(s.submit(), Some("bad".into()));
    s.exec("bad", Err("broken pipe".into()));
    assert_eq!(s.error, Some("broken pipe".into()));
    assert!(s.entries.is_empty());
    s.exec("bad", Ok(("e1\ne2".into(), true)));
    assert_eq!(s.error, None);
    s.history_down();
    assert_eq!(s.input, "");
    let mut modal = modal(enabled_info(), true);
    modal.open = true;
    modal.mode = Mode::Shell;
    s.exec("x", Err("late".into()));
    modal.shell = Some(s);
    let page = modal.compose(40, 4).unwrap();
    assert_eq!(
        texts(&page.lines),
        vec!["  :$ bad", "    e1", "    e2", "", "  error: late", ""]
    );
    assert_eq!(page.lines[1].spans[0].role, Role::Error);
}

#[test]
fn switching_the_sandbox() {
    let mut modal = modal(info_with_profiles(), true);
    modal.toggle();
    modal.handle_key(Key::Char('s'));
    assert!(!modal.is_enabled());
    assert_eq!(serve(&mut modal), vec!["probe"]);
    assert!(modal.is_enabled());
    assert!(modal.take_enabled_changed());
    assert!(!modal.take_enabled_changed());
    modal.handle_key(Key::Char('s'));
    assert!(!modal.is_enabled());
    assert!(modal.take_enabled_changed());
    modal.handle_key(Key::Char('s'));
    let q = modal.take_request().unwrap();
    modal.answer(q, Answer::Done(Err("no user namespaces".into())));
    assert!(!modal.is_enabled());
    assert_eq!(modal.spawn_error, Some("no user namespaces".into()));
    modal.handle_key(Key::Char('y'));
    assert!(modal.yolo);
    assert!(modal.take_yolo_changed());
    assert!(!modal.take_yolo_changed());
    modal.set_yolo(false);
    assert!(!modal.yolo);
    modal.scroll(-3);
    assert_eq!(modal.take_scroll_ops().last(), Some(&ScrollOp::By(-3)));
}

#[test]
fn switching_profiles() {
    let mut modal = modal(info_with_profiles(), true);
    modal.toggle();
    modal.handle_key(Key::Up);
    assert_eq!(modal.profile_cursor, Some(0));
    modal.handle_key(Key::Enter);
    assert!(modal.info.profiles[0].1);
    assert_eq!(
        modal.info.env_entries[0].value,
        "/usr/bin:/usr/local/bin:/home/maki/.cargo/bin"
    );
    let config = modal.build_namespace_config();
    assert_eq!(
        config.home_mounts,
        vec![("/home/user/.cargo".into(), ".cargo".into())]
    );
    for _ in 0..9 {
        modal.handle_key(Key::Down);
    }
    assert_eq!(modal.profile_cursor, Some(3));
    modal.handle_key(Key::Char(' '));
    assert!(modal.info.profiles[3].1);
    modal.handle_key(Key::Char(' '));
    assert!(!modal.info.profiles[3].1);
    assert!(modal.info.profiles[0].1);
    modal.close();
    assert_eq!(modal.profile_cursor, None);
    modal.handle_key(Key::Char('s'));
    assert!(modal.take_request().is_none());
}

#[test]
fn overview() {
    let mut info = info_with_profiles();
    info.enabled = true;
    info.home_mounts = vec![("/h".into(), "m".into())];
    info.extra_workspace_dirs = vec![("/e".into(), "x".into())];
    let mut modal = modal(info, true);
    modal.toggle();
    modal.handle_key(Key::Enter);
    modal.set_yolo(true);
    let page = modal.compose(100, 4).unwrap();
    assert_eq!(
        texts(&page.lines),
        vec![
            "  Status (press s to toggle)",
            "    enabled",
            "",
            "  YOLO (press y to toggle) — skip permission prompts for all tools",
            "    [x] on",
            "",
            "  Profiles (navigate with ↑/↓, toggle with Enter/Space)",
            "  ▸ [x] rust",
            "      Mounts: ~/.cargo (rw), ~/.cargo/bin (on $PATH), ~/.rustup (ro)",
            "    [ ] java",
            "    [ ] node",
            "    [ ] go",
            "",
            "  Filesystem layout",
            "    /home/maki/workspace  ←  /tmp  (rw)",
            "    /usr                       (ro, system)",
            "    /etc                       (tmpfs, empty)",
            "    /tmp                       (tmpfs, scratch)",
            "    /bin → /usr/bin            (symlink)",
            "    /sbin → /usr/sbin          (symlink)",
            "    /lib → /usr/lib            (symlink)",
            "    /lib64 → /usr/lib64        (symlink)",
            "    /home/maki/.cargo  ←  ~/.cargo  (rw)  [rust]",
            "    /home/maki/.rustup  ←  ~/.rustup  (ro)  [rust]",
            "",
            "  Home directory mounts (rw)",
            "    /home/maki/m  ←  /h",
            "",
            "  Extra workspace directories (rw)",
            "    /home/maki/workspace/tmp/x  ←  /e",
            "",
            "  Environment variables (allow list)",
            "    PATH = \"/usr/bin:/usr/local/bin:/home/maki/.cargo/bin\"",
            "    HOME = \"/home/maki\"",
            "    USER = \"maki\"",
            "    (extended by active profiles: /home/maki/.cargo/bin)",
            "",
            "  Not passed to sandbox (private)",
            "    API keys, SSH tokens, GITHUB_TOKEN, AWS_* — everything not on the allow list above",
            "",
            "Tab: Browse files",
        ]
    );
    assert_eq!(page.viewport_h, 81);
    assert_eq!(page.framed, 41);
}

#[test]
fn overview_moves_a_stray_cursor() {
    let mut modal = modal(test_info(), false);
    modal.open = true;
    modal.profile_cursor = Some(3);
    let page = modal.compose(10, 4).unwrap();
    assert_eq!(modal.profile_cursor, None);
    assert_eq!(
        plain(page.lines.last().unwrap()),
        "Tab: Browse (enable sandbox_enabled in config first)"
    );
    modal.open = false;
    assert!(modal.compose(10, 4).is_none());
}

#[test]
fn places() {
    let inner = Area {
        x: 2,
        y: 3,
        width: 30,
        height: 10,
    };
    let mut modal = modal(enabled_info(), true);
    modal.toggle();
    let p = modal.place(20, 8, inner);
    assert_eq!(p.content, inner);
    assert_eq!((p.total, p.height), (20, 8));
    assert_eq!(
        p.bar,
        Some(Bar {
            total: 20,
            pos: None
        })
    );
    modal.handle_key(Key::Tab);
    serve(&mut modal);
    let p = modal.place(6, 8, inner);
    let header = p.header.unwrap();
    assert_eq!(plain(&header.line), "  sandbox:/home/maki");
    assert_eq!(
        header.area,
        Area {
            x: 2,
            y: 3,
            width: 30,
            height: 1
        }
    );
    assert_eq!(
        p.content,
        Area {
            x: 2,
            y: 4,
            width: 30,
            height: 9
        }
    );
    assert_eq!(p.bar, None);
    modal.handle_key(Key::Tab);
    serve(&mut modal);
    modal.handle_paste("x\n");
    serve(&mut modal);
    let p = modal.place(9, 8, inner);
    assert!(p.to_bottom);
    assert_eq!(
        p.content,
        Area {
            x: 2,
            y: 3,
            width: 30,
            height: 8
        }
    );
    assert_eq!(p.bar, Some(Bar { total: 9, pos: None }));
    let input = p.input.unwrap();
    assert_eq!(input.area.y, 11);
    assert_eq!(plain(&input.line), "  /home/maki:$ ");
    assert_eq!(p.hints.unwrap().area.y, 12);
    // The entry has been seen.
    assert!(!modal.place(9, 8, inner).to_bottom);
}

#[test]
fn the_lines_of_the_frame_follow_each_other() {
    let at = |y: u16, height: u16| Area {
        x: 7,
        y,
        width: 40,
        height,
    };
    let heights: Vec<u16> = (2..260).chain([999, 4096, 30000, 60000]).collect();
    let mut browse = modal(enabled_info(), true);
    browse.toggle();
    browse.handle_key(Key::Tab);
    serve(&mut browse);
    let mut shell = modal(enabled_info(), true);
    shell.toggle();
    shell.handle_key(Key::Tab);
    serve(&mut shell);
    shell.handle_key(Key::Tab);
    serve(&mut shell);
    for y in [0, 1, 24, 333, 5000] {
        for h in &heights {
            let h = *h;
            let p = browse.place(3, 3, at(y, h));
            assert_eq!(p.header.unwrap().area, at(y, 1));
            assert_eq!(p.content, at(y + 1, h - 1));
            let p = shell.place(3, 3, at(y, h));
            assert_eq!(p.content, at(y, h - 2));
            assert_eq!(p.input.unwrap().area, at(y + h - 2, 1));
            assert_eq!(p.hints.unwrap().area, at(y + h - 1, 1));
        }
    }
    assert_eq!(browse.place(3, 3, at(0, 1)).content, at(1, 0));
    assert_eq!(shell.place(3, 3, at(65533, 2)).content, at(65533, 0));
}

#[test]
fn browser_keeps_the_cursor_in_view() {
    let mut b = SandboxFileBrowser::new("/".into());
    b.refresh(Ok((0..9).map(|i| entry(&format!("f{i}"), false)).collect()));
    assert_eq!(b.entries.len(), 9);
    b.viewport_entries = 3;
    b.cursor = 5;
    b.clamp_cursor();
    assert_eq!((b.cursor, b.scroll), (5, 3));
    let names: Vec<&str> = b.visible_entries().iter().map(|e| e.name.as_str()).collect();
    assert_eq!(names, vec!["f3", "f4", "f5"]);
    b.cursor = 1;
    b.clamp_cursor();
    assert_eq!(b.scroll_offset(), 1);
    b.cursor = 99;
    b.clamp_cursor();
    assert_eq!((b.cursor, b.scroll), (8, 6));
    b.refresh(Ok(vec![entry("x", true)]));
    assert_eq!(b.cursor, 0);
    assert_eq!(b.total_entries(), 1);
    assert_eq!(b.enter(), Some("/x".into()));
    assert_eq!(b.go_up(), None);
}

#[test]
fn directories_above() {
    assert_eq!(parent_dir("/"), None);
    assert_eq!(parent_dir("/a"), Some("/".into()));
    assert_eq!(parent_dir("/a/b"), Some("/a".into()));
    assert_eq!(parent_dir("a"), Some("/".into()));
    assert_eq!(parent_dir(""), None);
    for start in ["/a/b/c", "//a///b/", "/a/./b/../c/", "/.", "/é/x"] {
        let mut path = start.to_string();
        let mut steps = 0;
        while let Some(up) = parent_dir(&path) {
            assert!(path.starts_with(&up) && up.len() < path.len() && up.starts_with('/'));
            path = up;
            steps += 1;
        }
        assert!(steps < start.len());
    }
    let mut b = SandboxFileBrowser::new("/a/b".into());
    b.refresh(Ok(vec![]));
    assert_eq!(b.enter(), Some("/a".into()));
}

#[test]
fn dialog_from_a_configuration() {
    let config = NamespaceConfig {
        allowed_env: vec!["FOO".into()],
        workspace_dir: "/w/proj".into(),
        workspace_name: workspace_name("/w/proj"),
        home_mounts: vec![("/d".into(), "d".into())],
        readonly_mounts: vec![],
        path_dirs: vec![],
        extra_workspace_dirs: vec![("/e".into(), "e".into())],
        symlinks: vec![],
    };
    assert_eq!(config.workspace_name, "proj");
    assert_eq!(workspace_name("/"), "");
    let host = vec![("FOO".into(), "1".into()), ("BAR".into(), "2".into())];
    let m = SandboxModal::from_config(true, "/w/proj", &config, true, host, None);
    assert!(m.is_enabled());
    assert!(!m.is_open());
    assert_eq!(m.info.workspace_name, "proj");
    assert_eq!(m.info.home_mounts, vec![("/d".into(), "d".into())]);
    assert_eq!(m.info.extra_workspace_dirs, vec![("/e".into(), "e".into())]);
    assert_eq!(m.info.profiles.len(), 4);
    assert!(m.info.profiles.iter().all(|(_, on)| !on));
    assert_eq!(m.info.env_entries.len(), 4);
    assert_eq!(m.info.env_entries[3].key, "FOO");
    assert_eq!(m.profile_cursor, Some(0));
}

#[test]
fn browser_and_shell_are_never_there_together() {
    let mut modal = modal(enabled_info(), true);
    modal.toggle();
    // Both pages are asked for before the sandbox answers.
    modal.handle_key(Key::Tab);
    modal.handle_key(Key::Tab);
    serve(&mut modal);
    assert!(modal.shell.is_some() && modal.browser.is_none());
    modal.answer(
        Request::Pwd(Goal::Browser),
        Answer::Path(Ok("/late".into())),
    );
    assert!(modal.shell.is_none() && modal.browser.is_some());
    modal.answer(Request::Pwd(Goal::Shell), Answer::Path(Ok("/x".into())));
    assert!(modal.shell.is_some() && modal.browser.is_none());
}
