//! The sandbox dialog: an overview, a file browser and a shell.
//!
//! The dialog does no input or output of its own. What it wants from the sandbox it leaves
//! as requests, in order; the answers come back through [`SandboxModal::answer`]. How the
//! text is to be scrolled it leaves as scroll commands, in order.

use vstd::prelude::*;

use crate::browser;
use crate::browser::{BrowserView, SandboxFileBrowser};
use crate::info;
use crate::info::{enabled_profiles, InfoView, SandboxInfo};
use crate::ipc::DirEntry;
use crate::namespace;
use crate::namespace::{copy_pairs, ConfigView, NamespaceConfig};
use crate::profiles;
use crate::profiles::{build_namespace_config, builtin_profiles, profile_path_dirs, SandboxProfile};
use crate::shell;
use crate::shell::{SandboxShellState, ShellView};
use crate::text;
use crate::text::path_file_name;
use crate::wire;

verus! {

/// The pages of the dialog.
#[derive(Debug, Clone, Copy, PartialEq, Eq, Structural)]
pub enum Mode {
    Info,
    Browse,
    Shell,
}

/// A key press.
#[derive(Debug, Clone, Copy, PartialEq, Eq, Structural)]
pub enum Key {
    Esc,
    Tab,
    Enter,
    Backspace,
    Left,
    Right,
    Up,
    Down,
    PageUp,
    PageDown,
    Home,
    End,
    Char(char),
    /// Any other key.
    Other,
}

/// How the text of the dialog is to be scrolled.
#[derive(Debug, Clone, Copy, PartialEq, Eq, Structural)]
pub enum ScrollOp {
    /// Back to the top.
    Reset,
    /// To the bottom.
    ToBottom,
    /// By a number of lines.
    By(i32),
    /// As the key that was pressed says.
    ByKey,
}

/// What a sandbox is started for.
#[derive(Debug, Clone, Copy, PartialEq, Eq, Structural)]
pub enum Goal {
    Browser,
    Shell,
}

/// What the dialog asks for.
#[derive(Debug)]
pub enum Request {
    /// Find out whether the kernel supports the sandbox.
    Probe,
    /// Start a new sandbox with this configuration.
    Reinit(Goal, NamespaceConfig),
    /// Send the setup that runs no code.
    Setup(Goal),
    /// Ask for the working directory.
    Pwd(Goal),
    /// List a directory.
    Ls(String),
    /// Change the working directory.
    Cd(String),
    /// Execute a command.
    Exec(String),
}

/// The answer to a request.
#[derive(Debug)]
pub enum Answer {
    Done(Result<(), String>),
    Path(Result<String, String>),
    Listing(Result<Vec<DirEntry>, String>),
    Output(Result<(String, bool), String>),
}

/// The model of a request.
#[verifier::ext_equal]
pub enum RequestView {
    Probe,
    Reinit(Goal, ConfigView),
    Setup(Goal),
    Pwd(Goal),
    Ls(Seq<char>),
    Cd(Seq<char>),
    Exec(Seq<char>),
}

impl View for Request {
    type V = RequestView;

    open spec fn view(&self) -> RequestView {
        match self {
            Request::Probe => RequestView::Probe,
            Request::Reinit(g, c) => RequestView::Reinit(*g, c@),
            Request::Setup(g) => RequestView::Setup(*g),
            Request::Pwd(g) => RequestView::Pwd(*g),
            Request::Ls(p) => RequestView::Ls(p@),
            Request::Cd(p) => RequestView::Cd(p@),
            Request::Exec(c) => RequestView::Exec(c@),
        }
    }
}

/// The models of requests.
pub open spec fn request_views(requests: Seq<Request>) -> Seq<RequestView> {
    Seq::new(requests.len(), |i: int| requests[i]@)
}

/// The sandbox dialog.
#[derive(Debug)]
pub struct SandboxModal {
    pub open: bool,
    pub mode: Mode,
    /// Scroll commands that were not carried out yet.
    pub scroll_ops: Vec<ScrollOp>,
    pub h_scroll: usize,
    pub info: SandboxInfo,
    /// Whether there is a sandbox to talk to.
    pub available: bool,
    pub browser: Option<SandboxFileBrowser>,
    pub shell: Option<SandboxShellState>,
    pub shell_entry_count: usize,
    pub profile_cursor: Option<usize>,
    pub spawn_error: Option<String>,
    /// Set when the user toggles `enabled` via the UI.
    pub enabled_changed: bool,
    /// YOLO state as shown in the checkbox (owned by the app's permissions,
    /// mirrored here for display).
    pub yolo: bool,
    /// Set when the user toggles YOLO via the UI.
    pub yolo_changed: bool,
    /// The variables of the host.
    pub host_env: Vec<(String, String)>,
    /// The home directory of the host.
    pub home: Option<String>,
    /// Requests that were not answered yet.
    pub requests: Vec<Request>,
}

/// The model of the dialog.
#[verifier::ext_equal]
pub struct ModalView {
    pub open: bool,
    pub mode: Mode,
    pub scroll_ops: Seq<ScrollOp>,
    pub h_scroll: int,
    pub info: InfoView,
    pub available: bool,
    pub browser: Option<BrowserView>,
    pub shell: Option<ShellView>,
    pub shell_entry_count: int,
    pub profile_cursor: Option<int>,
    pub spawn_error: Option<Seq<char>>,
    pub enabled_changed: bool,
    pub yolo: bool,
    pub yolo_changed: bool,
    pub host_env: Seq<(Seq<char>, Seq<char>)>,
    pub home: Option<Seq<char>>,
    pub requests: Seq<RequestView>,
}

impl View for SandboxModal {
    type V = ModalView;

    open spec fn view(&self) -> ModalView {
        ModalView {
            open: self.open,
            mode: self.mode,
            scroll_ops: self.scroll_ops@,
            h_scroll: self.h_scroll as int,
            info: self.info@,
            available: self.available,
            browser: match self.browser {
                Some(b) => Some(b@),
                None => None,
            },
            shell: match self.shell {
                Some(s) => Some(s@),
                None => None,
            },
            shell_entry_count: self.shell_entry_count as int,
            profile_cursor: info::place(self.profile_cursor),
            spawn_error: wire::opt_view(self.spawn_error),
            enabled_changed: self.enabled_changed,
            yolo: self.yolo,
            yolo_changed: self.yolo_changed,
            host_env: namespace::pair_views(self.host_env@),
            home: wire::opt_view(self.home),
            requests: request_views(self.requests@),
        }
    }
}

/// The first place of the cursor in the profiles.
pub open spec fn first_profile(info: InfoView) -> Option<int> {
    if info.profiles.len() == 0 {
        None
    } else {
        Some(0)
    }
}

impl ModalView {
    /// Whether the shell's place in its history is one of the history, and no browser is
    /// there beside it.
    pub open spec fn valid(self) -> bool {
        self.shell matches Some(s) ==> s.valid() && self.browser is None
    }

    pub open spec fn scrolled(self, op: ScrollOp) -> ModalView {
        ModalView { scroll_ops: self.scroll_ops.push(op), ..self }
    }

    pub open spec fn asking(self, r: RequestView) -> ModalView {
        ModalView { requests: self.requests.push(r), ..self }
    }

    pub open spec fn without_browser(self) -> ModalView {
        ModalView { browser: None, ..self }
    }

    pub open spec fn without_shell(self) -> ModalView {
        ModalView { shell: None, shell_entry_count: 0, ..self }
    }

    pub open spec fn with_error(self, e: Seq<char>) -> ModalView {
        ModalView { spawn_error: Some(e), ..self }
    }

    /// The dialog after it was opened or closed by its key.
    pub open spec fn toggled(self) -> ModalView {
        let m = ModalView { open: !self.open, ..self.without_browser().without_shell() };
        if m.open {
            ModalView {
                mode: Mode::Info,
                spawn_error: None,
                enabled_changed: false,
                yolo_changed: false,
                profile_cursor: first_profile(m.info),
                ..m
            }.scrolled(ScrollOp::Reset)
        } else {
            m.scrolled(ScrollOp::Reset)
        }
    }

    /// The dialog after it was closed.
    pub open spec fn closed(self) -> ModalView {
        ModalView {
            open: false,
            spawn_error: None,
            profile_cursor: None,
            ..self.without_browser().without_shell()
        }.scrolled(ScrollOp::Reset)
    }

    /// The configuration of the sandbox that the dialog starts.
    pub open spec fn config(self) -> ConfigView {
        profiles::config_for(
            info::enabled_of(self.info.profiles),
            self.info.workspace_dir,
            self.info.workspace_name,
            self.info.home_mounts,
            self.info.extra_workspace_dirs,
            self.home,
        )
    }

    /// Starts a sandbox, if there can be one.
    pub open spec fn starting(self, goal: Goal) -> ModalView {
        if self.available {
            self.asking(RequestView::Reinit(goal, self.config()))
        } else {
            self.with_error("sandbox not available"@)
        }
    }

    /// Starts the browser, unless it is there.
    pub open spec fn opening_browser(self) -> ModalView {
        if self.browser is Some {
            self
        } else {
            self.without_shell().starting(Goal::Browser)
        }
    }

    /// Starts the shell, unless it is there.
    pub open spec fn opening_shell(self) -> ModalView {
        if self.shell is Some {
            self
        } else {
            ModalView { shell_entry_count: 0, ..self.without_browser() }.starting(Goal::Shell)
        }
    }

    /// The next page: overview, browser, shell, and the overview again. While the sandbox
    /// is off there is only the overview.
    pub open spec fn tabbed(self) -> ModalView {
        let next = match self.mode {
            Mode::Info => if self.info.enabled {
                ModalView { mode: Mode::Browse, ..self.opening_browser() }
            } else {
                self
            },
            Mode::Browse => if self.info.enabled {
                ModalView {
                    mode: Mode::Shell,
                    ..self.without_browser().opening_shell().scrolled(ScrollOp::ToBottom)
                }
            } else {
                ModalView { mode: Mode::Info, ..self.without_browser() }
            },
            Mode::Shell => ModalView { mode: Mode::Info, ..self.without_shell() },
        };
        ModalView { h_scroll: 0, ..next.scrolled(ScrollOp::Reset) }
    }

    /// Switches a profile and computes the environment anew.
    pub open spec fn profile_switched(self, i: int) -> ModalView {
        let list = self.info.profiles.update(
            i,
            (self.info.profiles[i].0, !self.info.profiles[i].1),
        );
        ModalView {
            info: InfoView {
                profiles: list,
                env_entries: namespace::sandbox_env(
                    profiles::path_entries(profiles::all_mounts(info::enabled_of(list))),
                    seq![],
                    self.host_env,
                ),
                ..self.info
            },
            ..self
        }
    }

    /// Switches the sandbox. Switching it on waits for a probe of the kernel.
    pub open spec fn sandbox_switched(self) -> ModalView {
        if self.info.enabled {
            ModalView {
                info: InfoView { enabled: false, ..self.info },
                enabled_changed: true,
                spawn_error: None,
                ..self
            }
        } else {
            self.asking(RequestView::Probe)
        }
    }

    /// A key on the overview, while there are profiles.
    pub open spec fn info_key(self, key: Key, cursor: int) -> ModalView {
        match key {
            Key::Char('s') => self.sandbox_switched(),
            Key::Char('y') => ModalView { yolo: !self.yolo, yolo_changed: true, ..self },
            Key::Up => if cursor > 0 {
                ModalView { profile_cursor: Some(cursor - 1), ..self }
            } else {
                self
            },
            Key::Down => if cursor < browser::last_place(self.info.profiles.len()) {
                ModalView { profile_cursor: Some(cursor + 1), ..self }
            } else {
                self
            },
            Key::Enter | Key::Char(' ') => if cursor < self.info.profiles.len() {
                self.profile_switched(cursor)
            } else {
                self
            },
            _ => self.scrolled(ScrollOp::ByKey),
        }
    }

    /// Asks for a change of directory, if there is somewhere to go.
    pub open spec fn going(self, target: Option<Seq<char>>) -> ModalView {
        match target {
            Some(t) => self.asking(RequestView::Cd(t)),
            None => self,
        }
    }

    /// A key in the browser.
    pub open spec fn browse_key(self, key: Key) -> ModalView {
        match self.browser {
            None => self,
            Some(b) => match key {
                Key::Enter | Key::Right => self.going(b.entry_target()),
                Key::Backspace | Key::Left => self.going(browser::dir_above(b.cwd)),
                Key::Up | Key::Char('k') => if b.cursor > 0 {
                    ModalView {
                        browser: Some(BrowserView { cursor: b.cursor - 1, ..b }.clamped()),
                        ..self
                    }
                } else {
                    self
                },
                Key::Down | Key::Char('j') => if b.cursor < browser::last_place(b.entries.len()) {
                    ModalView {
                        browser: Some(BrowserView { cursor: b.cursor + 1, ..b }.clamped()),
                        ..self
                    }
                } else {
                    self
                },
                _ => self,
            },
        }
    }

    /// The input line of the shell was entered.
    pub open spec fn entered(self, s: ShellView) -> ModalView {
        let m = ModalView { shell: Some(s.submitted()), ..self };
        match s.command() {
            Some(c) => m.asking(RequestView::Exec(c)),
            None => m,
        }.scrolled(ScrollOp::ToBottom)
    }

    /// A character was typed into the shell.
    pub open spec fn typed(self, s: ShellView, ch: char) -> ModalView {
        ModalView { shell: Some(ShellView { input: s.input.push(ch), ..s }), ..self }
    }

    /// A key in the shell.
    pub open spec fn shell_key(self, key: Key) -> ModalView {
        match self.shell {
            None => self,
            Some(s) => match key {
                Key::Enter => ModalView { h_scroll: 0, ..self.entered(s) },
                Key::Up => ModalView { shell: Some(s.older()), ..self },
                Key::Down => ModalView { shell: Some(s.newer()), ..self },
                Key::Backspace => ModalView {
                    shell: Some(
                        ShellView {
                            input: if s.input.len() == 0 {
                                s.input
                            } else {
                                s.input.drop_last()
                            },
                            ..s
                        },
                    ),
                    ..self
                },
                Key::Char(ch) => self.typed(s, ch),
                Key::Left => if self.h_scroll > 0 {
                    ModalView { h_scroll: self.h_scroll - 1, ..self }
                } else {
                    self
                },
                Key::Right => if self.h_scroll < usize::MAX {
                    ModalView { h_scroll: self.h_scroll + 1, ..self }
                } else {
                    self
                },
                Key::PageUp | Key::PageDown | Key::Home | Key::End => self.scrolled(
                    ScrollOp::ByKey,
                ),
                _ => self,
            },
        }
    }

    /// A key.
    pub open spec fn keyed(self, key: Key) -> ModalView {
        match key {
            Key::Esc => self.closed(),
            Key::Tab => self.tabbed(),
            _ => match self.mode {
                Mode::Browse => self.browse_key(key),
                Mode::Shell => self.shell_key(key),
                Mode::Info => match self.profile_cursor {
                    Some(c) => self.info_key(key, c),
                    None => self.scrolled(ScrollOp::ByKey),
                },
            },
        }
    }

    /// Text pasted into the shell: the end of each line enters the line.
    pub open spec fn pasted(self, text: Seq<char>) -> ModalView
        decreases text.len(),
    {
        if text.len() == 0 {
            self
        } else {
            let m = self.pasted(text.drop_last());
            let ch = text.last();
            match m.shell {
                None => m,
                Some(s) => if ch == '\n' || ch == '\r' {
                    m.entered(s)
                } else {
                    m.typed(s, ch)
                },
            }
        }
    }
}

// ── Operation ──

/// The name of a workspace, given the final component of its path.
pub fn name_or_empty(component: Option<String>) -> (s: String)
    ensures
        s@ == match component {
            Some(c) => c@,
            None => seq![],
        },
{
    match component {
        Some(c) => c,
        None => String::new(),
    }
}

/// The name of a workspace: the final component of its path.
pub fn workspace_name(dir: &str) -> (s: String)
    ensures
        s@ == match text::final_component(dir@) {
            Some(c) => c,
            None => seq![],
        },
{
    name_or_empty(path_file_name(dir))
}

/// The overview of a configuration, with every built-in profile off.
pub open spec fn info_of(
    enabled: bool,
    workspace_dir: Seq<char>,
    config: ConfigView,
    host_env: Seq<(Seq<char>, Seq<char>)>,
) -> InfoView {
    InfoView {
        enabled,
        env_entries: namespace::sandbox_env(config.path_dirs, config.allowed_env, host_env),
        workspace_dir,
        workspace_name: config.workspace_name,
        home_mounts: config.home_mounts,
        profiles: Seq::new(
            profiles::known_profiles().len(),
            |i: int| (profiles::known_profiles()[i], false),
        ),
        extra_workspace_dirs: config.extra_workspace_dirs,
    }
}

/// The dialog as it is made.
pub open spec fn fresh(
    info: InfoView,
    available: bool,
    host_env: Seq<(Seq<char>, Seq<char>)>,
    home: Option<Seq<char>>,
) -> ModalView {
    ModalView {
        open: false,
        mode: Mode::Info,
        scroll_ops: seq![],
        h_scroll: 0,
        info,
        available,
        browser: None,
        shell: None,
        shell_entry_count: 0,
        profile_cursor: first_profile(info),
        spawn_error: None,
        enabled_changed: false,
        yolo: false,
        yolo_changed: false,
        host_env,
        home,
        requests: seq![],
    }
}

impl SandboxModal {
    /// A closed dialog. It is told whether there is a sandbox, and the host's variables and
    /// home directory.
    pub fn new(
        info: SandboxInfo,
        available: bool,
        host_env: Vec<(String, String)>,
        home: Option<String>,
    ) -> (m: SandboxModal)
        ensures
            m@ == fresh(info@, available, namespace::pair_views(host_env@), wire::opt_view(home)),
            m@.valid(),
    {
        let profile_cursor: Option<usize> = if info.profiles.len() == 0 {
            None
        } else {
            Some(0)
        };
        let m = SandboxModal {
            open: false,
            mode: Mode::Info,
            scroll_ops: Vec::new(),
            h_scroll: 0,
            info,
            available,
            browser: None,
            shell: None,
            shell_entry_count: 0,
            profile_cursor,
            spawn_error: None,
            enabled_changed: false,
            yolo: false,
            yolo_changed: false,
            host_env,
            home,
            requests: Vec::new(),
        };
        assert(m@ =~= fresh(
            info@,
            available,
            namespace::pair_views(host_env@),
            wire::opt_view(home),
        ));
        m
    }

    /// Build the dialog from a configuration, deriving what the info tab shows.
    pub fn from_config(
        enabled: bool,
        workspace_dir: &str,
        config: &NamespaceConfig,
        available: bool,
        host_env: Vec<(String, String)>,
        home: Option<String>,
    ) -> (m: SandboxModal)
        ensures
            m@ == fresh(
                info_of(enabled, workspace_dir@, config@, namespace::pair_views(host_env@)),
                available,
                namespace::pair_views(host_env@),
                wire::opt_view(home),
            ),
            m@.valid(),
    {
        let env_entries = config.effective_env(host_env.as_slice());
        let mut known = builtin_profiles();
        let ghost all = profiles::profile_views(known@);
        let mut list: Vec<(SandboxProfile, bool)> = Vec::new();
        while known.len() > 0
            invariant
                all == profiles::known_profiles(),
                list@.len() + known@.len() == all.len(),
                profiles::profile_views(known@) == all.skip(list@.len() as int),
                forall|k: int|
                    0 <= k < list@.len() ==> (#[trigger] list@[k]).0@ == all[k] && !list@[k].1,
            decreases known.len(),
        {
            let ghost left = profiles::profile_views(known@);
            let p = known.remove(0);
            list.push((p, false));
            proof {
                assert(left[0] == p@);
                assert(profiles::profile_views(known@) =~= left.drop_first());
                assert(left.drop_first() =~= all.skip(list@.len() as int));
            }
        }
        let shown = SandboxInfo {
            enabled,
            env_entries,
            workspace_dir: workspace_dir.to_owned(),
            workspace_name: config.workspace_name.clone(),
            home_mounts: copy_pairs(config.home_mounts.as_slice()),
            profiles: list,
            extra_workspace_dirs: copy_pairs(config.extra_workspace_dirs.as_slice()),
        };
        assert(shown@ =~= info_of(
            enabled,
            workspace_dir@,
            config@,
            namespace::pair_views(host_env@),
        ));
        SandboxModal::new(shown, available, host_env, home)
    }

    /// Whether the dialog is open.
    pub fn is_open(&self) -> (r: bool)
        ensures
            r == self@.open,
    {
        self.open
    }

    /// Scrolls the text.
    pub fn scroll(&mut self, delta: i32)
        ensures
            final(self)@ == old(self)@.scrolled(ScrollOp::By(delta)),
    {
        self.scroll_ops.push(ScrollOp::By(delta));
    }

    /// Opens or closes the dialog.
    pub fn toggle(&mut self)
        ensures
            final(self)@ == old(self)@.toggled(),
            final(self)@.valid(),
    {
        self.open = !self.open;
        self.close_browser();
        self.close_shell();
        if self.open {
            self.mode = Mode::Info;
            self.spawn_error = None;
            self.enabled_changed = false;
            self.yolo_changed = false;
            self.profile_cursor = if self.info.profiles.len() == 0 {
                None
            } else {
                Some(0)
            };
        }
        self.scroll_ops.push(ScrollOp::Reset);
        assert(self@ =~= old(self)@.toggled());
    }

    /// Returns and resets the `enabled_changed` flag.
    /// The caller should check this after `handle_key` to persist the setting.
    pub fn take_enabled_changed(&mut self) -> (r: bool)
        ensures
            r == old(self)@.enabled_changed,
            final(self)@ == (ModalView { enabled_changed: false, ..old(self)@ }),
    {
        let r = self.enabled_changed;
        self.enabled_changed = false;
        r
    }

    /// Whether the sandbox is currently enabled.
    pub fn is_enabled(&self) -> (r: bool)
        ensures
            r == self@.info.enabled,
    {
        self.info.enabled
    }

    /// Mirror the app's live YOLO state into the checkbox for display.
    pub fn set_yolo(&mut self, yolo: bool)
        ensures
            final(self)@ == (ModalView { yolo, ..old(self)@ }),
    {
        self.yolo = yolo;
    }

    /// Returns and resets the `yolo_changed` flag.
    /// The caller should check this after `handle_key` to apply to permissions.
    pub fn take_yolo_changed(&mut self) -> (r: bool)
        ensures
            r == old(self)@.yolo_changed,
            final(self)@ == (ModalView { yolo_changed: false, ..old(self)@ }),
    {
        let r = self.yolo_changed;
        self.yolo_changed = false;
        r
    }

    fn toggle_yolo(&mut self)
        ensures
            final(self)@ == (ModalView {
                yolo: !old(self)@.yolo,
                yolo_changed: true,
                ..old(self)@
            }),
    {
        self.yolo = !self.yolo;
        self.yolo_changed = true;
    }

    /// Closes the dialog.
    pub fn close(&mut self)
        ensures
            final(self)@ == old(self)@.closed(),
            final(self)@.valid(),
    {
        self.open = false;
        self.close_browser();
        self.close_shell();
        self.spawn_error = None;
        self.scroll_ops.push(ScrollOp::Reset);
        self.profile_cursor = None;
        assert(self@ =~= old(self)@.closed());
    }

    fn close_browser(&mut self)
        ensures
            final(self)@ == old(self)@.without_browser(),
    {
        self.browser = None;
    }

    fn close_shell(&mut self)
        ensures
            final(self)@ == old(self)@.without_shell(),
    {
        self.shell = None;
        self.shell_entry_count = 0;
    }

    /// Takes the first request that was not answered yet.
    pub fn take_request(&mut self) -> (r: Option<Request>)
        ensures
            match r {
                Some(q) => old(self)@.requests.len() > 0 && q@ == old(self)@.requests[0]
                    && final(self)@ == (ModalView {
                    requests: old(self)@.requests.drop_first(),
                    ..old(self)@
                }),
                None => old(self)@.requests.len() == 0 && final(self)@ == old(self)@,
            },
    {
        if self.requests.len() == 0 {
            return None;
        }
        let q = self.requests.remove(0);
        assert(request_views(self.requests@) =~= old(self)@.requests.drop_first());
        Some(q)
    }

    /// Takes the scroll commands that were not carried out yet.
    pub fn take_scroll_ops(&mut self) -> (ops: Vec<ScrollOp>)
        ensures
            ops@ == old(self)@.scroll_ops,
            final(self)@ == (ModalView { scroll_ops: seq![], ..old(self)@ }),
    {
        let mut ops: Vec<ScrollOp> = Vec::new();
        std::mem::swap(&mut ops, &mut self.scroll_ops);
        ops
    }

    fn ask(&mut self, r: Request)
        ensures
            final(self)@ == old(self)@.asking(r@),
    {
        self.requests.push(r);
        assert(request_views(self.requests@) =~= old(self)@.requests.push(r@));
    }

    /// Computes the environment that the info tab shows.
    fn rebuild_env_entries(&mut self)
        ensures
            final(self)@ == (ModalView {
                info: InfoView {
                    env_entries: namespace::sandbox_env(
                        profiles::path_entries(
                            profiles::all_mounts(info::enabled_of(old(self)@.info.profiles)),
                        ),
                        seq![],
                        old(self)@.host_env,
                    ),
                    ..old(self)@.info
                },
                ..old(self)@
            }),
    {
        let path_dirs = profile_path_dirs(
            enabled_profiles(self.info.profiles.as_slice()).as_slice(),
        );
        let cfg = NamespaceConfig {
            allowed_env: Vec::new(),
            workspace_dir: String::new(),
            workspace_name: String::new(),
            home_mounts: Vec::new(),
            readonly_mounts: Vec::new(),
            path_dirs,
            extra_workspace_dirs: Vec::new(),
            symlinks: Vec::new(),
        };
        assert(cfg@.allowed_env =~= seq![]);
        self.info.env_entries = cfg.effective_env(self.host_env.as_slice());
    }

    /// Switches the sandbox. Kernel support is validated before it is switched on.
    fn toggle_sandbox_enabled(&mut self)
        ensures
            final(self)@ == old(self)@.sandbox_switched(),
    {
        if self.info.enabled {
            self.info.enabled = false;
            self.enabled_changed = true;
            self.spawn_error = None;
        } else {
            self.ask(Request::Probe);
        }
    }

    fn start(&mut self, goal: Goal)
        ensures
            final(self)@ == old(self)@.starting(goal),
    {
        if self.available {
            let config = self.build_namespace_config();
            self.ask(Request::Reinit(goal, config));
        } else {
            self.spawn_error = Some("sandbox not available".to_owned());
        }
    }

    fn spawn_browser(&mut self)
        ensures
            final(self)@ == old(self)@.opening_browser(),
    {
        if self.browser.is_some() {
            return;
        }
        self.close_shell();
        self.start(Goal::Browser);
    }

    fn spawn_shell(&mut self)
        ensures
            final(self)@ == old(self)@.opening_shell(),
    {
        if self.shell.is_some() {
            return;
        }
        self.close_browser();
        self.shell_entry_count = 0;
        self.start(Goal::Shell);
    }

    /// The configuration of the sandbox that the dialog starts.
    pub fn build_namespace_config(&self) -> (c: NamespaceConfig)
        ensures
            c@ == self@.config(),
    {
        let list = enabled_profiles(self.info.profiles.as_slice());
        let home = match &self.home {
            Some(h) => Some(h.as_str()),
            None => None,
        };
        build_namespace_config(
            list.as_slice(),
            self.info.workspace_dir.clone(),
            self.info.workspace_name.clone(),
            copy_pairs(self.info.home_mounts.as_slice()),
            copy_pairs(self.info.extra_workspace_dirs.as_slice()),
            home,
        )
    }

    fn next_page(&mut self)
        ensures
            final(self)@ == old(self)@.tabbed(),
    {
        match self.mode {
            Mode::Info => {
                if self.info.enabled {
                    self.spawn_browser();
                    self.mode = Mode::Browse;
                }
            },
            Mode::Browse => {
                self.close_browser();
                if self.info.enabled {
                    self.spawn_shell();
                    self.scroll_ops.push(ScrollOp::ToBottom);
                    self.mode = Mode::Shell;
                } else {
                    self.mode = Mode::Info;
                }
            },
            Mode::Shell => {
                self.close_shell();
                self.mode = Mode::Info;
            },
        }
        self.scroll_ops.push(ScrollOp::Reset);
        self.h_scroll = 0;
        assert(self@ =~= old(self)@.tabbed());
    }

    fn switch_profile(&mut self, cursor: usize)
        requires
            cursor < old(self)@.info.profiles.len(),
        ensures
            final(self)@ == old(self)@.profile_switched(cursor as int),
    {
        let mut item = self.info.profiles.remove(cursor);
        item.1 = !item.1;
        self.info.profiles.insert(cursor, item);
        proof {
            let list = old(self)@.info.profiles;
            assert(info::switch_views(self.info.profiles@) =~= list.update(
                cursor as int,
                (list[cursor as int].0, !list[cursor as int].1),
            ));
        }
        self.rebuild_env_entries();
        assert(self@ =~= old(self)@.profile_switched(cursor as int));
    }

    fn handle_info_key(&mut self, key: Key, cursor: usize)
        ensures
            final(self)@ == old(self)@.info_key(key, cursor as int),
    {
        match key {
            Key::Char('s') => self.toggle_sandbox_enabled(),
            Key::Char('y') => self.toggle_yolo(),
            Key::Up => {
                if cursor > 0 {
                    self.profile_cursor = Some(cursor - 1);
                }
            },
            Key::Down => {
                let len: usize = self.info.profiles.len();
                let max: usize = if len == 0 {
                    0
                } else {
                    len - 1
                };
                if cursor < max {
                    self.profile_cursor = Some(cursor + 1);
                }
            },
            Key::Enter | Key::Char(' ') => {
                if cursor < self.info.profiles.len() {
                    self.switch_profile(cursor);
                }
            },
            _ => {
                self.scroll_ops.push(ScrollOp::ByKey);
            },
        }
    }

    fn go(&mut self, target: Option<String>)
        ensures
            final(self)@ == old(self)@.going(wire::opt_view(target)),
    {
        match target {
            Some(t) => self.ask(Request::Cd(t)),
            None => {},
        }
    }

    fn handle_browse_key(&mut self, key: Key)
        ensures
            final(self)@ == old(self)@.browse_key(key),
    {
        let mut browser = match self.browser.take() {
            None => return,
            Some(b) => b,
        };
        let mut target: Option<String> = None;
        match key {
            Key::Enter | Key::Right => {
                target = browser.enter();
            },
            Key::Backspace | Key::Left => {
                target = browser.go_up();
            },
            Key::Up | Key::Char('k') => {
                if browser.cursor > 0 {
                    browser.cursor = browser.cursor - 1;
                    browser.clamp_cursor();
                }
            },
            Key::Down | Key::Char('j') => {
                let len: usize = browser.entries.len();
                let max: usize = if len == 0 {
                    0
                } else {
                    len - 1
                };
                if browser.cursor < max {
                    browser.cursor = browser.cursor + 1;
                    browser.clamp_cursor();
                }
            },
            _ => {},
        }
        self.browser = Some(browser);
        self.go(target);
    }

    /// Enters the input line of the shell.
    fn enter_line(&mut self)
        ensures
            match old(self)@.shell {
                Some(s) => final(self)@ == old(self)@.entered(s),
                None => final(self)@ == old(self)@,
            },
    {
        let mut shell = match self.shell.take() {
            None => return,
            Some(s) => s,
        };
        let command = shell.submit();
        self.shell = Some(shell);
        match command {
            Some(c) => self.ask(Request::Exec(c)),
            None => {},
        }
        self.scroll_ops.push(ScrollOp::ToBottom);
    }

    fn handle_shell_key(&mut self, key: Key)
        requires
            old(self)@.valid(),
        ensures
            final(self)@ == old(self)@.shell_key(key),
    {
        match key {
            Key::Enter => {
                if self.shell.is_some() {
                    self.enter_line();
                    self.h_scroll = 0;
                }
                return;
            },
            _ => {},
        }
        let mut shell = match self.shell.take() {
            None => return,
            Some(s) => s,
        };
        match key {
            Key::Up => shell.history_up(),
            Key::Down => shell.history_down(),
            Key::Backspace => {
                shell.input.pop();
            },
            Key::Char(ch) => {
                shell.input.push(ch);
            },
            Key::Left => {
                if self.h_scroll > 0 {
                    self.h_scroll = self.h_scroll - 1;
                }
            },
            Key::Right => {
                if self.h_scroll < usize::MAX {
                    self.h_scroll = self.h_scroll + 1;
                }
            },
            Key::PageUp | Key::PageDown | Key::Home | Key::End => {
                self.scroll_ops.push(ScrollOp::ByKey);
            },
            _ => {},
        }
        self.shell = Some(shell);
        assert(self@ =~= old(self)@.shell_key(key));
    }

    /// Handles a key. Every key is consumed.
    pub fn handle_key(&mut self, key: Key) -> (consumed: bool)
        requires
            old(self)@.valid(),
        ensures
            consumed,
            final(self)@ == old(self)@.keyed(key),
            final(self)@.valid(),
    {
        proof {
            lemma_keyed_valid(self@, key);
        }
        self.pass_key(key);
        true
    }

    fn pass_key(&mut self, key: Key)
        requires
            old(self)@.valid(),
        ensures
            final(self)@ == old(self)@.keyed(key),
    {
        match key {
            Key::Esc => self.close(),
            Key::Tab => self.next_page(),
            _ => match self.mode {
                Mode::Browse => self.handle_browse_key(key),
                Mode::Shell => self.handle_shell_key(key),
                Mode::Info => match self.profile_cursor {
                    Some(cursor) => self.handle_info_key(key, cursor),
                    None => {
                        self.scroll_ops.push(ScrollOp::ByKey);
                    },
                },
            },
        }
    }

    /// Handles pasted text: it goes to the shell, if that is shown.
    pub fn handle_paste(&mut self, text: &str) -> (consumed: bool)
        requires
            old(self)@.valid(),
        ensures
            consumed == (old(self)@.open && old(self)@.mode == Mode::Shell && old(self)@.shell
                is Some),
            final(self)@ == if consumed {
                old(self)@.pasted(text@)
            } else {
                old(self)@
            },
            final(self)@.valid(),
    {
        if !self.open || self.mode != Mode::Shell {
            return false;
        }
        if self.shell.is_none() {
            return false;
        }
        let chars = text::chars_of(text);
        assert(chars@.take(0) =~= seq![]);
        for i in 0..chars.len()
            invariant
                chars@ == text@,
                old(self)@.shell is Some,
                self@ == old(self)@.pasted(chars@.take(i as int)),
                self@.shell is Some,
                self@.valid(),
        {
            let ghost before = self@;
            let ch = chars[i];
            proof {
                assert(chars@.take(i + 1).drop_last() =~= chars@.take(i as int));
                assert(chars@.take(i + 1).last() == ch);
            }
            if ch == '\n' || ch == '\r' {
                self.enter_line();
            } else {
                match self.shell.take() {
                    None => {},
                    Some(mut shell) => {
                        shell.input.push(ch);
                        self.shell = Some(shell);
                    },
                }
            }
        }
        assert(chars@.take(chars@.len() as int) =~= chars@);
        true
    }
}

// ── Answers ──

/// The model of an answer. A failure is its reason.
#[verifier::ext_equal]
pub enum AnswerView {
    Done(Option<Seq<char>>),
    Path(Result<Seq<char>, Seq<char>>),
    Listing(Seq<wire::EntryView>, Option<Seq<char>>),
    Output(Result<(Seq<char>, bool), Seq<char>>),
}

impl View for Answer {
    type V = AnswerView;

    open spec fn view(&self) -> AnswerView {
        match self {
            Answer::Done(r) => AnswerView::Done(browser::failure(*r)),
            Answer::Path(Ok(p)) => AnswerView::Path(Ok(p@)),
            Answer::Path(Err(e)) => AnswerView::Path(Err(e@)),
            Answer::Listing(r) => AnswerView::Listing(
                browser::found_in(*r),
                browser::listing_failure(*r),
            ),
            Answer::Output(r) => AnswerView::Output(shell::outcome(*r)),
        }
    }
}

/// A browser that has not listed its directory yet.
pub open spec fn new_browser(cwd: Seq<char>) -> BrowserView {
    BrowserView {
        cwd,
        entries: seq![],
        cursor: 0,
        scroll: 0,
        viewport_entries: 0,
        error: None,
    }
}

/// A shell in which nothing was entered yet.
pub open spec fn new_shell(cwd: Seq<char>) -> ShellView {
    ShellView {
        cwd,
        input: seq![],
        entries: seq![],
        history: seq![],
        history_pos: None,
        error: None,
    }
}

impl ModalView {
    /// The dialog after an answer that is no listing. A new sandbox is set up for browsing
    /// and asked for its directory, and then the browser or the shell stands in it. An
    /// answer that does not fit its request changes nothing.
    pub open spec fn answered(self, q: RequestView, a: AnswerView) -> ModalView {
        match (q, a) {
            (RequestView::Probe, AnswerView::Done(None)) => ModalView {
                info: InfoView { enabled: true, ..self.info },
                enabled_changed: true,
                spawn_error: None,
                ..self
            },
            (RequestView::Probe, AnswerView::Done(Some(e))) => self.with_error(e),
            (RequestView::Reinit(g, _), AnswerView::Done(None)) => self.asking(
                RequestView::Setup(g),
            ),
            (RequestView::Reinit(_, _), AnswerView::Done(Some(e))) => self.with_error(e),
            (RequestView::Setup(g), AnswerView::Done(None)) => self.asking(RequestView::Pwd(g)),
            (RequestView::Setup(_), AnswerView::Done(Some(e))) => self.with_error(e),
            (RequestView::Pwd(Goal::Browser), AnswerView::Path(Ok(p))) => ModalView {
                browser: Some(new_browser(p)),
                spawn_error: None,
                ..self.without_shell()
            }.asking(RequestView::Ls(p)),
            (RequestView::Pwd(Goal::Browser), AnswerView::Path(Err(e))) => self.with_error(e),
            (RequestView::Pwd(Goal::Shell), AnswerView::Path(r)) => ModalView {
                shell: Some(
                    new_shell(
                        match r {
                            Ok(p) => p,
                            Err(_) => seq![],
                        },
                    ),
                ),
                spawn_error: None,
                ..self.without_browser()
            },
            (RequestView::Cd(t), AnswerView::Done(error)) => match self.browser {
                None => self,
                Some(b) => {
                    let m = ModalView { browser: Some(b.moved(t, error)), ..self };
                    if error is None {
                        m.asking(RequestView::Ls(t))
                    } else {
                        m
                    }
                },
            },
            (RequestView::Exec(c), AnswerView::Output(r)) => match self.shell {
                None => self,
                Some(s) => ModalView { shell: Some(s.executed(c, r)), ..self },
            },
            _ => self,
        }
    }

    /// Whether the dialog shows a listing of the browser's directory.
    pub open spec fn listed(
        self,
        before: ModalView,
        found: Seq<wire::EntryView>,
        error: Option<Seq<char>>,
    ) -> bool {
        match before.browser {
            None => self == before,
            Some(b) => {
                &&& self.browser matches Some(now) && browser::shows(now.entries, b.cwd, found)
                    && now == (BrowserView {
                    entries: now.entries,
                    error,
                    cursor: browser::least(b.cursor, browser::last_place(now.entries.len())),
                    ..b
                })
                &&& self == (ModalView { browser: self.browser, ..before })
            },
        }
    }
}

impl SandboxModal {
    fn probed(&mut self, r: Result<(), String>)
        ensures
            final(self)@ == old(self)@.answered(
                RequestView::Probe,
                AnswerView::Done(browser::failure(r)),
            ),
    {
        match r {
            Ok(_) => {
                self.info.enabled = true;
                self.enabled_changed = true;
                self.spawn_error = None;
            },
            Err(e) => {
                self.spawn_error = Some(e);
            },
        }
    }

    /// Goes on with the next request, or keeps the reason of the failure.
    fn go_on(&mut self, r: Result<(), String>, next: Request)
        ensures
            final(self)@ == match r {
                Ok(_) => old(self)@.asking(next@),
                Err(e) => old(self)@.with_error(e@),
            },
    {
        match r {
            Ok(_) => self.ask(next),
            Err(e) => {
                self.spawn_error = Some(e);
            },
        }
    }

    fn browser_ready(&mut self, r: Result<String, String>)
        ensures
            final(self)@ == match r {
                Ok(p) => old(self)@.answered(
                    RequestView::Pwd(Goal::Browser),
                    AnswerView::Path(Ok(p@)),
                ),
                Err(e) => old(self)@.with_error(e@),
            },
    {
        match r {
            Ok(p) => {
                self.close_shell();
                self.browser = Some(SandboxFileBrowser::new(p.clone()));
                self.spawn_error = None;
                self.ask(Request::Ls(p));
            },
            Err(e) => {
                self.spawn_error = Some(e);
            },
        }
    }

    fn shell_ready(&mut self, r: Result<String, String>)
        requires
            old(self)@.valid(),
        ensures
            final(self)@ == (ModalView {
                shell: Some(
                    new_shell(
                        match r {
                            Ok(p) => p@,
                            Err(_) => seq![],
                        },
                    ),
                ),
                spawn_error: None,
                ..old(self)@.without_browser()
            }),
            final(self)@.valid(),
    {
        self.close_browser();
        self.shell = Some(SandboxShellState::new(r));
        self.spawn_error = None;
    }

    fn directory_changed(&mut self, target: String, r: Result<(), String>)
        ensures
            final(self)@ == old(self)@.answered(
                RequestView::Cd(target@),
                AnswerView::Done(browser::failure(r)),
            ),
    {
        let mut b = match self.browser.take() {
            None => return,
            Some(b) => b,
        };
        let dir = target.clone();
        let needs_listing = b.arrive(target, r);
        self.browser = Some(b);
        if needs_listing {
            self.ask(Request::Ls(dir));
        }
    }

    fn directory_listed(&mut self, r: Result<Vec<DirEntry>, String>)
        ensures
            final(self)@.listed(
                old(self)@,
                browser::found_in(r),
                browser::listing_failure(r),
            ),
    {
        let mut b = match self.browser.take() {
            None => return,
            Some(b) => b,
        };
        b.refresh(r);
        self.browser = Some(b);
    }

    fn command_done(&mut self, command: &str, r: Result<(String, bool), String>)
        requires
            old(self)@.valid(),
        ensures
            final(self)@ == old(self)@.answered(
                RequestView::Exec(command@),
                AnswerView::Output(shell::outcome(r)),
            ),
            final(self)@.valid(),
    {
        let mut s = match self.shell.take() {
            None => return,
            Some(s) => s,
        };
        s.exec(command, r);
        self.shell = Some(s);
    }

    /// Takes the answer to a request.
    pub fn answer(&mut self, request: Request, answer: Answer)
        requires
            old(self)@.valid(),
        ensures
            match (request@, answer@) {
                (RequestView::Ls(_), AnswerView::Listing(found, error)) => final(self)@.listed(
                    old(self)@,
                    found,
                    error,
                ),
                (q, a) => final(self)@ == old(self)@.answered(q, a),
            },
            final(self)@.valid(),
    {
        match (request, answer) {
            (Request::Probe, Answer::Done(r)) => self.probed(r),
            (Request::Reinit(g, _), Answer::Done(r)) => self.go_on(r, Request::Setup(g)),
            (Request::Setup(g), Answer::Done(r)) => self.go_on(r, Request::Pwd(g)),
            (Request::Pwd(Goal::Browser), Answer::Path(r)) => self.browser_ready(r),
            (Request::Pwd(Goal::Shell), Answer::Path(r)) => self.shell_ready(r),
            (Request::Ls(_), Answer::Listing(r)) => self.directory_listed(r),
            (Request::Cd(target), Answer::Done(r)) => self.directory_changed(target, r),
            (Request::Exec(command), Answer::Output(r)) => {
                self.command_done(command.as_str(), r)
            },
            _ => {},
        }
    }
}

// ── What always holds ──

/// While the sandbox is on, the pages follow each other in a circle, whatever the sandbox
/// answers in between; what was open on a page is closed when it is left.
pub proof fn law_pages_in_a_circle(m: ModalView)
    requires
        m.info.enabled,
    ensures
        m.mode == Mode::Info ==> m.keyed(Key::Tab).mode == Mode::Browse,
        m.mode == Mode::Browse ==> m.keyed(Key::Tab).mode == Mode::Shell && m.keyed(
            Key::Tab,
        ).browser is None,
        m.mode == Mode::Shell ==> m.keyed(Key::Tab).mode == Mode::Info && m.keyed(
            Key::Tab,
        ).shell is None,
        m.keyed(Key::Tab).info == m.info,
{
}

/// The browser and the shell are never there together, whatever is typed or pasted and
/// whatever the sandbox answers, in whatever order.
pub proof fn law_browser_or_shell(
    m: ModalView,
    key: Key,
    text: Seq<char>,
    q: RequestView,
    a: AnswerView,
)
    requires
        m.valid(),
    ensures
        m.keyed(key).valid(),
        m.pasted(text).valid(),
        m.answered(q, a).valid(),
        m.toggled().valid(),
        m.closed().valid(),
        forall|after: ModalView, found: Seq<wire::EntryView>, error: Option<Seq<char>>|
            #[trigger] after.listed(m, found, error) ==> after.valid(),
{
    if text.len() > 0 {
        lemma_pasted_valid(m, text);
    }
    if m.shell is Some {
        shell::law_history_stays_valid(m.shell->Some_0);
    }
}

proof fn lemma_keyed_valid(m: ModalView, key: Key)
    requires
        m.valid(),
    ensures
        m.keyed(key).valid(),
{
    if m.shell is Some {
        shell::law_history_stays_valid(m.shell->Some_0);
    }
}

proof fn lemma_pasted_valid(m: ModalView, text: Seq<char>)
    requires
        m.valid(),
    ensures
        m.pasted(text).valid(),
    decreases text.len(),
{
    if text.len() > 0 {
        lemma_pasted_valid(m, text.drop_last());
    }
}

/// While the sandbox is off, the overview is not left and nothing is asked of the sandbox.
pub proof fn law_only_overview_while_off(m: ModalView, key: Key)
    requires
        !m.info.enabled,
        m.mode == Mode::Info,
    ensures
        m.keyed(key).mode == Mode::Info,
        m.keyed(key).requests == m.requests || m.keyed(key).requests == m.requests.push(
            RequestView::Probe,
        ),
        m.keyed(key).browser == m.browser || m.keyed(key).browser is None,
{
}

/// The sandbox is switched on only by the answer to a probe that succeeded: no key does it.
pub proof fn law_no_key_enables(m: ModalView, key: Key)
    ensures
        m.keyed(key).info.enabled ==> m.info.enabled,
{
}

/// A closed dialog holds neither a browser nor a shell.
pub proof fn law_closing_leaves_nothing_open(m: ModalView)
    ensures
        !m.closed().open,
        m.closed().browser is None,
        m.closed().shell is None,
        m.keyed(Key::Esc) == m.closed(),
        m.toggled().open == !m.open,
        m.toggled().browser is None,
        m.toggled().shell is None,
{
}

/// Switching a profile twice leaves the profiles as they were, and any other profile as it
/// was all the time.
pub proof fn law_switching_twice(m: ModalView, i: int, k: int)
    requires
        0 <= i < m.info.profiles.len(),
        0 <= k < m.info.profiles.len(),
        k != i,
    ensures
        m.profile_switched(i).profile_switched(i).info.profiles == m.info.profiles,
        m.profile_switched(i).info.profiles[k] == m.info.profiles[k],
        m.profile_switched(i).info.profiles[i].1 == !m.info.profiles[i].1,
{
    assert(m.profile_switched(i).profile_switched(i).info.profiles =~= m.info.profiles);
}

/// Pasting text that holds no line end types it; entering it asks for exactly that command.
pub proof fn law_pasted_line_is_entered(m: ModalView, line: Seq<char>)
    requires
        m.shell is Some,
        m.shell->Some_0.input.len() == 0,
        line.len() > 0,
        forall|i: int| 0 <= i < line.len() ==> line[i] != '\n' && line[i] != '\r',
    ensures
        m.pasted(line.push('\n')).requests == m.requests.push(RequestView::Exec(line)),
        m.pasted(line.push('\n')).shell matches Some(s) && s.input.len() == 0 && s.history
            == m.shell->Some_0.history.push(line),
{
    lemma_pasted_chars(m, line);
    assert(line.push('\n').drop_last() =~= line);
    assert(m.shell->Some_0.input + line =~= line);
}

proof fn lemma_pasted_chars(m: ModalView, line: Seq<char>)
    requires
        m.shell is Some,
        forall|i: int| 0 <= i < line.len() ==> line[i] != '\n' && line[i] != '\r',
    ensures
        m.pasted(line) == (ModalView {
            shell: Some(
                ShellView {
                    input: m.shell->Some_0.input + line,
                    ..m.shell->Some_0
                },
            ),
            ..m
        }),
    decreases line.len(),
{
    let s = m.shell->Some_0;
    if line.len() == 0 {
        assert(s.input + line =~= s.input);
    } else {
        let init = line.drop_last();
        assert forall|i: int| 0 <= i < init.len() implies init[i] != '\n' && init[i] != '\r' by {
            assert(init[i] == line[i]);
        }
        lemma_pasted_chars(m, init);
        assert((s.input + init).push(line.last()) =~= s.input + line);
    }
}

/// Opening the dialog shows the overview with the cursor on the first profile, without an
/// error and with no change to report; closing it leaves no error. Either way what it knows
/// of the sandbox and what it still asks for stays.
pub proof fn law_opening_starts_afresh(m: ModalView)
    ensures
        ({
            let n = m.toggled();
            &&& n.info == m.info && n.requests == m.requests && n.host_env == m.host_env
            &&& n.home == m.home && n.yolo == m.yolo && n.available == m.available
            &&& n.shell_entry_count == 0
            &&& n.scroll_ops == m.scroll_ops.push(ScrollOp::Reset)
            &&& !m.open ==> n.mode == Mode::Info && n.spawn_error is None && !n.enabled_changed
                && !n.yolo_changed
            &&& !m.open && m.info.profiles.len() > 0 ==> n.profile_cursor == Some(0int)
            &&& !m.open && m.info.profiles.len() == 0 ==> n.profile_cursor is None
            &&& m.open ==> n.mode == m.mode && n.spawn_error == m.spawn_error && n.profile_cursor
                == m.profile_cursor && n.enabled_changed == m.enabled_changed && n.yolo_changed
                == m.yolo_changed
        }),
        ({
            let n = m.closed();
            &&& n.info == m.info && n.requests == m.requests && n.yolo == m.yolo
            &&& n.spawn_error is None && n.profile_cursor is None && n.shell_entry_count == 0
            &&& n.mode == m.mode && n.enabled_changed == m.enabled_changed && n.yolo_changed
                == m.yolo_changed
            &&& n.scroll_ops == m.scroll_ops.push(ScrollOp::Reset)
        }),
{
}

/// The sandbox that the dialog starts has the workspace and the mounts of the overview, and
/// every mount of every profile that is on; of the others none.
pub proof fn law_enabled_profiles_are_mounted(m: ModalView)
    ensures
        ({
            let c = m.config();
            let mounts = m.info.profiles.filter(|p: (profiles::ProfileView, bool)| p.1).map_values(
                |p: (profiles::ProfileView, bool)| p.0.mounts,
            ).flatten();
            let named = |x: profiles::MountView| (x.host_path(m.home), x.short_name());
            &&& c.workspace_dir == m.info.workspace_dir
            &&& c.workspace_name == m.info.workspace_name
            &&& c.extra_workspace_dirs == m.info.extra_workspace_dirs
            &&& c.home_mounts == m.info.home_mounts + mounts.filter(
                |x: profiles::MountView| x.usage == profiles::MountUsage::Write,
            ).map_values(named)
            &&& c.readonly_mounts == mounts.filter(
                |x: profiles::MountView| x.usage == profiles::MountUsage::ReadOnly,
            ).map_values(named)
            &&& c.symlinks == mounts.filter(
                |x: profiles::MountView| x.usage == profiles::MountUsage::SymLink,
            ).map_values(named)
            &&& c.path_dirs == mounts.filter(
                |x: profiles::MountView| x.usage == profiles::MountUsage::OnlyPath,
            ).map_values(|x: profiles::MountView| x.inner_path())
        }),
{
    lemma_mounts_of_enabled(m.info.profiles);
    profiles::law_configuration_is_complete(
        info::enabled_of(m.info.profiles),
        m.info.workspace_dir,
        m.info.workspace_name,
        m.info.home_mounts,
        m.info.extra_workspace_dirs,
        m.home,
    );
}

proof fn lemma_mounts_of_enabled(list: Seq<(profiles::ProfileView, bool)>)
    ensures
        info::enabled_of(list).map_values(|p: profiles::ProfileView| p.mounts) == list.filter(
            |p: (profiles::ProfileView, bool)| p.1,
        ).map_values(|p: (profiles::ProfileView, bool)| p.0.mounts),
{
    info::law_switches_pick_profiles(list);
    assert(info::enabled_of(list).map_values(|p: profiles::ProfileView| p.mounts) =~= list.filter(
        |p: (profiles::ProfileView, bool)| p.1,
    ).map_values(|p: (profiles::ProfileView, bool)| p.0.mounts));
}

/// The pages ask for a sandbox exactly where they need one: the browser and the shell when
/// they are not there yet. Where none is available the reason is shown, and nothing is asked
/// for.
pub proof fn law_pages_ask_for_a_sandbox(m: ModalView)
    requires
        m.info.enabled,
    ensures
        ({
            let n = m.keyed(Key::Tab);
            &&& n.h_scroll == 0
            &&& m.mode == Mode::Info && m.browser is None && m.available ==> n.requests
                == m.requests.push(RequestView::Reinit(Goal::Browser, m.config()))
                && n.shell is None
            &&& m.mode == Mode::Info && m.browser is Some ==> n.requests == m.requests && n.browser
                == m.browser
            &&& m.mode == Mode::Browse && m.shell is None && m.available ==> n.requests
                == m.requests.push(RequestView::Reinit(Goal::Shell, m.config()))
            &&& m.mode == Mode::Browse && m.shell is Some ==> n.requests == m.requests && n.shell
                == m.shell
            &&& m.mode == Mode::Shell ==> n.requests == m.requests
            &&& !m.available && (m.mode == Mode::Info && m.browser is None || m.mode == Mode::Browse
                && m.shell is None) ==> n.requests == m.requests && n.spawn_error == Some(
                "sandbox not available"@,
            )
        }),
{
}

/// On the overview `s` switches the sandbox off at once, and on by way of a probe; `y`
/// switches the skipping of permission prompts. Both changes are reported.
pub proof fn law_switches_are_switched(m: ModalView)
    requires
        m.mode == Mode::Info,
        m.profile_cursor is Some,
    ensures
        ({
            let n = m.keyed(Key::Char('s'));
            &&& m.info.enabled ==> !n.info.enabled && n.enabled_changed && n.spawn_error is None
                && n.requests == m.requests
            &&& !m.info.enabled ==> !n.info.enabled && n.enabled_changed == m.enabled_changed
                && n.requests == m.requests.push(RequestView::Probe)
            &&& n.info.profiles == m.info.profiles && n.yolo == m.yolo
        }),
        ({
            let n = m.keyed(Key::Char('y'));
            &&& n.yolo == !m.yolo && n.yolo_changed
            &&& n.info == m.info && n.requests == m.requests
        }),
{
}

/// On the overview the arrows move the cursor by one profile and stop at the ends, and Enter
/// and the space bar switch the profile at the cursor.
pub proof fn law_profiles_are_chosen(m: ModalView, c: int)
    requires
        m.mode == Mode::Info,
        m.profile_cursor == Some(c),
        0 <= c < m.info.profiles.len(),
    ensures
        m.keyed(Key::Up).profile_cursor == Some(
            if c > 0 {
                c - 1
            } else {
                0
            },
        ),
        m.keyed(Key::Down).profile_cursor == Some(
            if c + 1 < m.info.profiles.len() {
                c + 1
            } else {
                c
            },
        ),
        m.keyed(Key::Up).info == m.info && m.keyed(Key::Down).info == m.info,
        m.keyed(Key::Enter) == m.keyed(Key::Char(' ')),
        ({
            let list = m.keyed(Key::Enter).info.profiles;
            &&& list.len() == m.info.profiles.len()
            &&& list[c].0 == m.info.profiles[c].0 && list[c].1 == !m.info.profiles[c].1
            &&& forall|i: int|
                0 <= i < list.len() && i != c ==> #[trigger] list[i] == m.info.profiles[i]
        }),
        m.keyed(Key::Enter).profile_cursor == m.profile_cursor,
        m.keyed(Key::Enter).info.enabled == m.info.enabled,
{
}

/// Switching a profile renews the environment: its search path is then that of all profiles
/// that are on, and the host's variables pass through as before.
pub proof fn law_switching_renews_the_environment(m: ModalView, i: int)
    requires
        0 <= i < m.info.profiles.len(),
    ensures
        ({
            let n = m.profile_switched(i);
            let dirs = n.info.profiles.filter(
                |p: (profiles::ProfileView, bool)| p.1,
            ).map_values(|p: (profiles::ProfileView, bool)| p.0.mounts).flatten().filter(
                |x: profiles::MountView| x.usage == profiles::MountUsage::OnlyPath,
            ).map_values(|x: profiles::MountView| x.inner_path());
            &&& n.info.env_entries.len() >= 3
            &&& n.info.env_entries[0].key == "PATH"@
            &&& n.info.env_entries[0].value == "/usr/bin:/usr/local/bin"@ + dirs.map_values(
                |dir: Seq<char>| ":"@ + dir,
            ).flatten()
            &&& n.info.env_entries == namespace::sandbox_env(dirs, Seq::empty(), m.host_env)
        }),
        m.profile_switched(i).info.workspace_dir == m.info.workspace_dir,
        m.profile_switched(i).info.home_mounts == m.info.home_mounts,
        m.profile_switched(i).info.enabled == m.info.enabled,
        m.profile_switched(i).requests == m.requests,
{
    let n = m.profile_switched(i);
    let list = n.info.profiles;
    lemma_mounts_of_enabled(list);
    profiles::law_configuration_is_complete(
        info::enabled_of(list),
        seq![],
        seq![],
        seq![],
        seq![],
        None,
    );
    let dirs = profiles::path_entries(profiles::all_mounts(info::enabled_of(list)));
    namespace::law_path_is_complete(dirs, Seq::empty(), m.host_env);
    namespace::law_environment_is_rebuilt(dirs, Seq::empty(), m.host_env);
}

/// In the browser Enter and the right arrow ask for the directory of the entry at the cursor,
/// and Backspace and the left arrow for the one above, where there is one. The arrows and
/// `k` and `j` move the cursor by one entry and stop at the ends. Nothing else is asked for.
pub proof fn law_browser_keys(m: ModalView, b: BrowserView)
    requires
        m.mode == Mode::Browse,
        m.browser == Some(b),
        0 <= b.cursor < b.entries.len(),
    ensures
        m.keyed(Key::Right) == m.keyed(Key::Enter) && m.keyed(Key::Left) == m.keyed(Key::Backspace),
        m.keyed(Key::Char('k')) == m.keyed(Key::Up),
        m.keyed(Key::Char('j')) == m.keyed(Key::Down),
        m.keyed(Key::Enter).requests == match b.entry_target() {
            Some(t) => m.requests.push(RequestView::Cd(t)),
            None => m.requests,
        },
        m.keyed(Key::Backspace).requests == match browser::dir_above(b.cwd) {
            Some(t) => m.requests.push(RequestView::Cd(t)),
            None => m.requests,
        },
        m.keyed(Key::Enter).browser == m.browser && m.keyed(Key::Backspace).browser == m.browser,
        m.keyed(Key::Up).browser matches Some(n) && n.cursor == (if b.cursor > 0 {
            b.cursor - 1
        } else {
            0
        }) && n.entries == b.entries && n.cwd == b.cwd,
        m.keyed(Key::Down).browser matches Some(n) && n.cursor == (if b.cursor + 1
            < b.entries.len() {
            b.cursor + 1
        } else {
            b.cursor
        }) && n.entries == b.entries && n.cwd == b.cwd,
        m.keyed(Key::Up).requests == m.requests && m.keyed(Key::Down).requests == m.requests,
{
}

/// In the shell a character is added to the line and Backspace takes the last one away; Enter
/// asks for the line as a command, unless it is empty, and scrolls to the bottom; the arrows
/// walk through the history and scroll sideways.
pub proof fn law_shell_keys(m: ModalView, s: ShellView, ch: char)
    requires
        m.mode == Mode::Shell,
        m.shell == Some(s),
        0 <= m.h_scroll < usize::MAX,
    ensures
        m.keyed(Key::Char(ch)).shell matches Some(n) && n.input == s.input.push(ch) && n.history
            == s.history && n.entries == s.entries,
        m.keyed(Key::Backspace).shell matches Some(n) && n.history == s.history && (s.input.len()
            > 0 ==> n.input == s.input.drop_last()) && (s.input.len() == 0 ==> n.input == s.input),
        s.input.len() > 0 ==> m.keyed(Key::Enter).requests == m.requests.push(
            RequestView::Exec(s.input),
        ),
        s.input.len() == 0 ==> m.keyed(Key::Enter).requests == m.requests,
        m.keyed(Key::Enter).shell == Some(s.submitted()),
        m.keyed(Key::Enter).scroll_ops == m.scroll_ops.push(ScrollOp::ToBottom),
        m.keyed(Key::Enter).h_scroll == 0,
        m.keyed(Key::Up).shell == Some(s.older()) && m.keyed(Key::Down).shell == Some(s.newer()),
        m.keyed(Key::Right).h_scroll == m.h_scroll + 1,
        m.keyed(Key::Left).h_scroll == if m.h_scroll > 0 {
            m.h_scroll - 1
        } else {
            0
        },
        m.keyed(Key::Char(ch)).requests == m.requests && m.keyed(Key::Backspace).requests
            == m.requests && m.keyed(Key::Up).requests == m.requests && m.keyed(
            Key::Down,
        ).requests == m.requests,
{
}

/// Without a browser or a shell the keys of its page do nothing.
pub proof fn law_keys_need_their_page(m: ModalView, key: Key)
    requires
        key != Key::Esc,
        key != Key::Tab,
    ensures
        m.mode == Mode::Browse && m.browser is None ==> m.keyed(key) == m,
        m.mode == Mode::Shell && m.shell is None ==> m.keyed(key) == m,
        m.mode == Mode::Info && m.profile_cursor is None ==> m.keyed(key) == (ModalView {
            scroll_ops: m.scroll_ops.push(ScrollOp::ByKey),
            ..m
        }),
{
}

/// Pasting a text is pasting its parts one after the other; an ordinary character is typed,
/// and the end of a line enters it.
pub proof fn law_pasting_is_typing(m: ModalView, a: Seq<char>, b: Seq<char>, ch: char)
    requires
        m.shell is Some,
    ensures
        m.pasted(a + b) == m.pasted(a).pasted(b),
        m.pasted(Seq::empty()) == m,
        ch != '\n' && ch != '\r' && m.mode == Mode::Shell ==> m.pasted(seq![ch]) == m.keyed(
            Key::Char(ch),
        ),
        ch == '\n' || ch == '\r' ==> m.pasted(seq![ch]).requests == (
        if m.shell->Some_0.input.len() > 0 {
            m.requests.push(RequestView::Exec(m.shell->Some_0.input))
        } else {
            m.requests
        }),
    decreases b.len(),
{
    if b.len() == 0 {
        assert(a + b =~= a);
    } else {
        law_pasting_is_typing(m, a, b.drop_last(), ch);
        assert((a + b).drop_last() =~= a + b.drop_last());
        assert((a + b).last() == b.last());
    }
    assert(seq![ch].drop_last() =~= Seq::<char>::empty());
    assert(m.pasted(seq![ch].drop_last()) == m);
}

/// Only a probe that succeeded switches the sandbox on, and the change is reported; one that
/// failed shows its reason.
pub proof fn law_probe_decides(m: ModalView, e: Seq<char>)
    ensures
        ({
            let n = m.answered(RequestView::Probe, AnswerView::Done(None));
            &&& n.info.enabled && n.enabled_changed && n.spawn_error is None
            &&& n.info.profiles == m.info.profiles && n.requests == m.requests
        }),
        ({
            let n = m.answered(RequestView::Probe, AnswerView::Done(Some(e)));
            &&& n.info == m.info && n.spawn_error == Some(e) && n.enabled_changed
                == m.enabled_changed
            &&& n.requests == m.requests
        }),
{
}

/// A new sandbox is set up, then asked for its directory, and then the browser that was asked
/// for lists that directory, or the shell stands in it. A step that fails shows its reason
/// and asks for nothing more.
pub proof fn law_sandbox_is_brought_up(
    m: ModalView,
    g: Goal,
    config: ConfigView,
    path: Seq<char>,
    e: Seq<char>,
)
    ensures
        m.answered(RequestView::Reinit(g, config), AnswerView::Done(None)).requests
            == m.requests.push(RequestView::Setup(g)),
        m.answered(RequestView::Setup(g), AnswerView::Done(None)).requests == m.requests.push(
            RequestView::Pwd(g),
        ),
        ({
            let n = m.answered(RequestView::Pwd(Goal::Browser), AnswerView::Path(Ok(path)));
            &&& n.browser matches Some(b) && b.cwd == path && b.entries.len() == 0
                && b.error is None
            &&& n.shell is None && n.spawn_error is None
            &&& n.requests == m.requests.push(RequestView::Ls(path))
        }),
        ({
            let n = m.answered(RequestView::Pwd(Goal::Shell), AnswerView::Path(Ok(path)));
            &&& n.shell matches Some(s) && s.cwd == path && s.input.len() == 0 && s.entries.len()
                == 0 && s.history.len() == 0 && s.error is None
            &&& n.browser is None && n.spawn_error is None && n.requests == m.requests
        }),
        ({
            let n = m.answered(RequestView::Pwd(Goal::Shell), AnswerView::Path(Err(e)));
            &&& n.shell matches Some(s) && s.cwd.len() == 0
            &&& n.requests == m.requests
        }),
        forall|q: RequestView|
            q == RequestView::Reinit(g, config) || q == RequestView::Setup(g) ==> {
                let n = #[trigger] m.answered(q, AnswerView::Done(Some(e)));
                n.spawn_error == Some(e) && n.requests == m.requests && n.browser == m.browser
                    && n.shell == m.shell
            },
        ({
            let n = m.answered(RequestView::Pwd(Goal::Browser), AnswerView::Path(Err(e)));
            n.spawn_error == Some(e) && n.requests == m.requests && n.browser == m.browser
        }),
{
}

/// A browser that could change its directory asks for the listing of the new one; one that
/// could not asks for nothing. A command that was executed is shown in the shell, and an
/// answer without its browser or shell changes nothing.
pub proof fn law_answers_reach_their_page(
    m: ModalView,
    target: Seq<char>,
    e: Seq<char>,
    command: Seq<char>,
    r: Result<(Seq<char>, bool), Seq<char>>,
)
    ensures
        m.browser matches Some(b) ==> {
            let n = m.answered(RequestView::Cd(target), AnswerView::Done(None));
            &&& n.requests == m.requests.push(RequestView::Ls(target))
            &&& n.browser == Some(b.moved(target, None))
        },
        m.browser matches Some(b) ==> {
            let n = m.answered(RequestView::Cd(target), AnswerView::Done(Some(e)));
            &&& n.requests == m.requests
            &&& n.browser == Some(b.moved(target, Some(e)))
        },
        m.browser is None ==> m.answered(RequestView::Cd(target), AnswerView::Done(None)) == m,
        m.shell matches Some(s) ==> {
            let n = m.answered(RequestView::Exec(command), AnswerView::Output(r));
            &&& n.shell == Some(s.executed(command, r))
            &&& n.requests == m.requests
        },
        m.shell is None ==> m.answered(RequestView::Exec(command), AnswerView::Output(r)) == m,
{
}

/// A listing reaches the browser: it shows what was found in its directory, with the reason
/// where the listing failed, and the cursor stays in the list. Nothing else changes.
pub proof fn law_listing_reaches_the_browser(
    after: ModalView,
    m: ModalView,
    found: Seq<wire::EntryView>,
    error: Option<Seq<char>>,
)
    requires
        after.listed(m, found, error),
    ensures
        m.browser is None ==> after == m,
        m.browser matches Some(b) ==> (after.browser matches Some(n) && n.cwd == b.cwd && n.error
            == error && n.scroll == b.scroll && n.cursor <= b.cursor && (n.entries.len() > 0
            ==> n.cursor < n.entries.len()) && (b.cursor < n.entries.len() ==> n.cursor
            == b.cursor) && browser::shows(n.entries, b.cwd, found)),
        after.requests == m.requests && after.shell == m.shell && after.info == m.info && after.mode
            == m.mode && after.spawn_error == m.spawn_error,
{
}

/// The overview of a configuration has its mounts and its environment, and every built-in
/// profile, each switched off. A new dialog is closed, shows it, and has asked for nothing.
pub proof fn law_new_dialog(
    enabled: bool,
    workspace_dir: Seq<char>,
    config: ConfigView,
    host_env: Seq<(Seq<char>, Seq<char>)>,
    available: bool,
    home: Option<Seq<char>>,
)
    ensures
        ({
            let o = info_of(enabled, workspace_dir, config, host_env);
            &&& o.enabled == enabled && o.workspace_dir == workspace_dir
            &&& o.workspace_name == config.workspace_name && o.home_mounts == config.home_mounts
            &&& o.extra_workspace_dirs == config.extra_workspace_dirs
            &&& o.env_entries == namespace::sandbox_env(
                config.path_dirs,
                config.allowed_env,
                host_env,
            )
            &&& o.profiles.map_values(|p: (profiles::ProfileView, bool)| p.0)
                == profiles::known_profiles()
            &&& forall|i: int| 0 <= i < o.profiles.len() ==> !(#[trigger] o.profiles[i]).1
            &&& info::enabled_of(o.profiles).len() == 0
            &&& fresh(o, available, host_env, home).profile_cursor == Some(0int)
        }),
        forall|o: InfoView|
            ({
                let m = #[trigger] fresh(o, available, host_env, home);
                &&& !m.open && m.mode == Mode::Info && m.info == o && m.available == available
                &&& m.browser is None && m.shell is None && m.spawn_error is None
                &&& m.requests.len() == 0 && m.scroll_ops.len() == 0 && m.h_scroll == 0
                &&& !m.yolo && !m.yolo_changed && !m.enabled_changed
                &&& m.host_env == host_env && m.home == home
            }),
{
    reveal(Seq::filter);
    let o = info_of(enabled, workspace_dir, config, host_env);
    assert(o.profiles.map_values(|p: (profiles::ProfileView, bool)| p.0)
        =~= profiles::known_profiles());
    info::law_switches_pick_profiles(o.profiles);
    o.profiles.lemma_all_neg_filter_empty(|p: (profiles::ProfileView, bool)| p.1);
}

/// Requests are taken in the order in which they were made, and a change is reported once.
pub proof fn law_requests_are_taken_in_order(
    a: &mut SandboxModal,
    q: Option<Request>,
    b: &mut SandboxModal,
    first: bool,
    c: &mut SandboxModal,
    again: bool,
)
    requires
        call_ensures(SandboxModal::take_request, (a,), q),
        call_ensures(SandboxModal::take_enabled_changed, (b,), first),
        *old(c) == *final(b),
        call_ensures(SandboxModal::take_enabled_changed, (c,), again),
    ensures
        q is None <==> old(a).requests@.len() == 0,
        q matches Some(r) ==> request_views(old(a).requests@) == seq![r@] + request_views(
            final(a).requests@,
        ),
        first == old(b).enabled_changed && !again,
        final(a).info@ == old(a).info@ && final(b).info@ == old(b).info@,
{
    assert(request_views(old(a).requests@).len() == old(a).requests@.len());
    assert(old(a)@.requests == request_views(old(a).requests@));
    if q is Some {
        assert(request_views(old(a).requests@) =~= seq![q->Some_0@] + request_views(
            final(a).requests@,
        )) by {
            assert(final(a)@.requests == old(a)@.requests.drop_first());
        }
    }
    assert(final(a)@.info == old(a)@.info);
    assert(final(b)@.info == old(b)@.info);
    assert(final(b)@.enabled_changed == final(b).enabled_changed);
}

/// The name of a workspace is the final component of its path, and empty where it has none.
pub proof fn law_workspace_is_named(dir: &str, s: String)
    requires
        call_ensures(workspace_name, (dir,), s),
    ensures
        text::final_component(dir@) matches Some(c) ==> s@ == c,
        text::final_component(dir@) is None ==> s@.len() == 0,
{
}

} // verus!
