//! What the dialog shows: its lines, and where they go on the screen.

use vstd::prelude::*;

use crate::browser;
use crate::browser::{BrowserView, SandboxFileBrowser};
use crate::info;
use crate::info::push_info;
use crate::ipc::{self, DirEntry};
use crate::modal;
use crate::modal::{Mode, ModalView, SandboxModal};
use crate::screen;
use crate::screen::{push_blank, push_spans, push_text, Line, Role, Span, SpanView};
use crate::shell;
use crate::shell::{SandboxShellState, ShellEntry, ShellEntryView, ShellView};
use crate::text;
use crate::text::{concat, lines_of, same};
use crate::wire;
use crate::wire::EntryView;

verus! {

/// The title of the dialog.
pub const TITLE: &'static str = " Sandbox ";

/// The width of the dialog, in percent of the screen.
pub const WIDTH_PERCENT: u16 = 65;

/// The greatest height of the dialog, in percent of the screen.
pub const MAX_HEIGHT_PERCENT: u16 = 85;

// ── The lines of the browser and the shell ──

/// The line that stands for a browser or a shell that could not be started.
pub open spec fn unavailable_line(spawn_error: Option<Seq<char>>) -> Seq<SpanView> {
    screen::one(
        "  ("@ + match spawn_error {
            Some(e) => e,
            None => "sandbox not available"@,
        } + ")"@,
        Role::Error,
    )
}

/// The line of an error.
pub open spec fn error_lines(error: Option<Seq<char>>) -> Seq<Seq<SpanView>> {
    match error {
        Some(e) => seq![screen::one("  error: "@ + e, Role::Error)],
        None => seq![],
    }
}

/// The line of a directory entry.
pub open spec fn entry_line(e: EntryView, selected: bool) -> Seq<SpanView> {
    screen::one(
        (if selected {
            "  ▸ "@
        } else {
            "    "@
        }) + (if e.name == ".."@ {
            "../"@
        } else if e.is_dir {
            e.name + "/"@
        } else {
            e.name
        }),
        if selected {
            Role::Selected
        } else if e.is_dir {
            Role::Plain
        } else {
            Role::Dim
        },
    )
}

/// The lines of a browser.
pub open spec fn browser_lines(b: BrowserView) -> Seq<Seq<SpanView>> {
    error_lines(b.error) + Seq::new(
        b.visible().len(),
        |i: int| entry_line(b.visible()[i], b.scroll + i == b.cursor),
    )
}

/// A browser on a screen of this height.
pub open spec fn fitted(b: BrowserView, viewport_h: int) -> BrowserView {
    BrowserView {
        viewport_entries: if viewport_h >= 2 {
            viewport_h - 2
        } else {
            0
        },
        ..b
    }
}

/// The lines of one command of the shell: the prompt with the command, what it gave, and
/// an empty line.
pub open spec fn command_lines(cwd: Seq<char>, e: ShellEntryView) -> Seq<Seq<SpanView>> {
    let output = text::lines_from(e.output, 0);
    seq![
        seq![
            screen::span("  "@ + cwd + ":$ "@, Role::Section),
            screen::span(e.command, Role::Plain),
        ],
    ] + Seq::new(
        output.len(),
        |i: int|
            screen::one(
                "    "@ + output[i],
                if e.is_error {
                    Role::Error
                } else {
                    Role::Plain
                },
            ),
    ) + seq![screen::blank()]
}

/// The lines of the first `n` commands.
pub open spec fn history_lines(s: ShellView, n: int) -> Seq<Seq<SpanView>>
    decreases n,
{
    if n <= 0 {
        seq![]
    } else {
        history_lines(s, n - 1) + command_lines(s.cwd, s.entries[n - 1])
    }
}

/// The lines of a shell.
pub open spec fn shell_lines(s: ShellView) -> Seq<Seq<SpanView>> {
    history_lines(s, s.entries.len() as int) + match s.error {
        Some(e) => seq![screen::one("  error: "@ + e, Role::Error), screen::blank()],
        None => seq![],
    }
}

/// The browser shows an error first, and then one line for each entry on the screen, in
/// order: its name, behind it a slash for a directory, and before it a mark at the cursor.
pub proof fn law_entries_are_shown(b: BrowserView, i: int)
    requires
        0 <= i < b.visible().len(),
    ensures
        ({
            let lead: int = if b.error is Some {
                1
            } else {
                0
            };
            let e = b.visible()[i];
            let selected = b.scroll + i == b.cursor;
            let mark = if selected {
                "  ▸ "@
            } else {
                "    "@
            };
            let line = browser_lines(b)[lead + i];
            &&& browser_lines(b).len() == lead + b.visible().len()
            &&& b.error matches Some(reason) ==> browser_lines(b)[0] == seq![
                SpanView { text: "  error: "@ + reason, role: Role::Error },
            ]
            &&& line.len() == 1
            &&& e.name == ".."@ ==> line[0].text == mark + "../"@
            &&& e.name != ".."@ && e.is_dir ==> line[0].text == mark + (e.name + "/"@)
            &&& e.name != ".."@ && !e.is_dir ==> line[0].text == mark + e.name
            &&& line[0].role == Role::Selected <==> selected
            &&& !selected ==> (line[0].role == Role::Plain <==> e.is_dir)
        }),
{
}

/// The shell shows every command in order: a line with the prompt and the command, a line
/// for each line of its output, as an error exactly where the command failed, and an empty
/// line. An error of the shell comes last.
pub proof fn law_commands_are_shown(s: ShellView)
    ensures
        shell_lines(s) == s.entries.map_values(
            |e: ShellEntryView|
                {
                    let role = if e.is_error {
                        Role::Error
                    } else {
                        Role::Plain
                    };
                    seq![
                        seq![
                            SpanView { text: "  "@ + s.cwd + ":$ "@, role: Role::Section },
                            SpanView { text: e.command, role: Role::Plain },
                        ],
                    ] + text::lines_from(e.output, 0).map_values(
                        |line: Seq<char>| seq![SpanView { text: "    "@ + line, role }],
                    ) + seq![Seq::<SpanView>::empty()]
                },
        ).flatten() + match s.error {
            Some(reason) => seq![
                seq![SpanView { text: "  error: "@ + reason, role: Role::Error }],
                Seq::<SpanView>::empty(),
            ],
            None => Seq::<Seq<SpanView>>::empty(),
        },
{
    lemma_history_lines(s, s.entries.len() as int);
    assert(s.entries.take(s.entries.len() as int) =~= s.entries);
    let shown = |e: ShellEntryView|
        {
            let role = if e.is_error {
                Role::Error
            } else {
                Role::Plain
            };
            seq![
                seq![
                    SpanView { text: "  "@ + s.cwd + ":$ "@, role: Role::Section },
                    SpanView { text: e.command, role: Role::Plain },
                ],
            ] + text::lines_from(e.output, 0).map_values(
                |line: Seq<char>| seq![SpanView { text: "    "@ + line, role }],
            ) + seq![Seq::<SpanView>::empty()]
        };
    assert forall|e: ShellEntryView| #[trigger] shown(e) == command_lines(s.cwd, e) by {
        assert(shown(e) =~= command_lines(s.cwd, e));
    }
    assert(s.entries.map_values(shown) =~= s.entries.map_values(
        |e: ShellEntryView| command_lines(s.cwd, e),
    ));
}

proof fn lemma_history_lines(s: ShellView, n: int)
    requires
        0 <= n <= s.entries.len(),
    ensures
        history_lines(s, n) == s.entries.take(n).map_values(
            |e: ShellEntryView| command_lines(s.cwd, e),
        ).flatten(),
    decreases n,
{
    let f = |e: ShellEntryView| command_lines(s.cwd, e);
    if n == 0 {
        assert(s.entries.take(0).map_values(f) =~= Seq::<Seq<Seq<SpanView>>>::empty());
    } else {
        lemma_history_lines(s, n - 1);
        let before = s.entries.take(n - 1).map_values(f);
        assert(s.entries.take(n).map_values(f) =~= before.push(
            command_lines(s.cwd, s.entries[n - 1]),
        ));
        before.lemma_flatten_push(command_lines(s.cwd, s.entries[n - 1]));
    }
}

/// A browser or a shell that is not there is replaced by the reason, and by a general one
/// where none is known.
pub proof fn law_reason_is_shown(reason: Seq<char>)
    ensures
        unavailable_line(Some(reason)) == seq![
            SpanView { text: "  ("@ + reason + ")"@, role: Role::Error },
        ],
        unavailable_line(None) == seq![
            SpanView { text: "  ("@ + "sandbox not available"@ + ")"@, role: Role::Error },
        ],
{
}

fn push_unavailable(lines: &mut Vec<Line>, spawn_error: &Option<String>)
    ensures
        screen::line_views(final(lines)@) == screen::line_views(old(lines)@) + seq![
            unavailable_line(wire::opt_view(*spawn_error)),
        ],
{
    let msg = match spawn_error {
        Some(e) => e.as_str(),
        None => "sandbox not available",
    };
    let mut s = concat("  (", msg);
    s.append(")");
    push_text(lines, s.as_str(), Role::Error);
}

fn push_entry(lines: &mut Vec<Line>, e: &DirEntry, selected: bool)
    ensures
        screen::line_views(final(lines)@) == screen::line_views(old(lines)@) + seq![
            entry_line(e@, selected),
        ],
{
    let prefix = if selected {
        "  ▸ "
    } else {
        "    "
    };
    let name = if same(e.name.as_str(), "..") {
        "../".to_owned()
    } else if e.is_dir {
        concat(e.name.as_str(), "/")
    } else {
        e.name.clone()
    };
    let role = if selected {
        Role::Selected
    } else if e.is_dir {
        Role::Plain
    } else {
        Role::Dim
    };
    push_text(lines, concat(prefix, name.as_str()).as_str(), role);
}

fn push_browser(lines: &mut Vec<Line>, b: &SandboxFileBrowser)
    ensures
        screen::line_views(final(lines)@) == screen::line_views(old(lines)@) + browser_lines(b@),
{
    let ghost before = screen::line_views(lines@);
    match &b.error {
        Some(e) => push_text(lines, concat("  error: ", e.as_str()).as_str(), Role::Error),
        None => {},
    }
    let ghost head = screen::line_views(lines@);
    assert(head =~= before + error_lines(b@.error));
    let list = b.visible_entries();
    let n: usize = list.len();
    let total: usize = b.entries.len();
    let ghost shown = b@.visible();
    assert(ipc::entry_views(list@).len() == list@.len());
    for i in 0..n
        invariant
            n == list@.len(),
            total == b@.entries.len(),
            shown == b@.visible(),
            ipc::entry_views(list@) == shown,
            shown.len() == n,
            screen::line_views(lines@) == head + Seq::new(
                i as nat,
                |k: int| entry_line(shown[k], b@.scroll + k == b@.cursor),
            ),
    {
        assert(b@.scroll + i < total);
        assert(shown[i as int] == list@[i as int]@);
        push_entry(lines, &list[i], b.scroll + i == b.cursor);
        assert(screen::line_views(lines@) =~= head + Seq::new(
            (i + 1) as nat,
            |k: int| entry_line(shown[k], b@.scroll + k == b@.cursor),
        ));
    }
    assert(screen::line_views(lines@) =~= before + browser_lines(b@));
}

fn push_command(lines: &mut Vec<Line>, cwd: &str, e: &ShellEntry)
    ensures
        screen::line_views(final(lines)@) == screen::line_views(old(lines)@) + command_lines(
            cwd@,
            e@,
        ),
{
    let ghost before = screen::line_views(lines@);
    let mut prompt = concat("  ", cwd);
    prompt.append(":$ ");
    let mut spans: Vec<Span> = Vec::new();
    spans.push(Span::new(prompt.as_str(), Role::Section));
    spans.push(Span::new(e.command.as_str(), Role::Plain));
    assert(Seq::new(spans@.len(), |i: int| spans@[i]@) =~= command_lines(cwd@, e@)[0]);
    push_spans(lines, spans);
    let ghost head = screen::line_views(lines@);
    let role = if e.is_error {
        Role::Error
    } else {
        Role::Plain
    };
    let output = lines_of(e.output.as_str());
    let ghost all = text::lines_from(e.output@, 0);
    assert(text::views(output@).len() == output@.len());
    for i in 0..output.len()
        invariant
            text::views(output@) == all,
            all.len() == output@.len(),
            screen::line_views(lines@) == head + Seq::new(
                i as nat,
                |k: int| screen::one("    "@ + all[k], role),
            ),
    {
        assert(all[i as int] == output@[i as int]@);
        push_text(lines, concat("    ", output[i].as_str()).as_str(), role);
        assert(screen::line_views(lines@) =~= head + Seq::new(
            (i + 1) as nat,
            |k: int| screen::one("    "@ + all[k], role),
        ));
    }
    push_blank(lines);
    assert(screen::line_views(lines@) =~= before + command_lines(cwd@, e@));
}

fn push_shell(lines: &mut Vec<Line>, s: &SandboxShellState)
    ensures
        screen::line_views(final(lines)@) == screen::line_views(old(lines)@) + shell_lines(s@),
{
    let ghost before = screen::line_views(lines@);
    assert(before + history_lines(s@, 0) =~= before);
    for i in 0..s.entries.len()
        invariant
            screen::line_views(lines@) == before + history_lines(s@, i as int),
    {
        push_command(lines, s.cwd.as_str(), &s.entries[i]);
        assert(screen::line_views(lines@) =~= before + history_lines(s@, i + 1));
    }
    match &s.error {
        Some(e) => {
            push_text(lines, concat("  error: ", e.as_str()).as_str(), Role::Error);
            push_blank(lines);
        },
        None => {},
    }
    assert(screen::line_views(lines@) =~= before + shell_lines(s@));
}

impl ModalView {
    /// The cursor in the profiles, moved back to the first where it is outside.
    pub open spec fn cursor_inside(self) -> Option<int> {
        match self.profile_cursor {
            Some(c) if c >= self.info.profiles.len() => modal::first_profile(self.info),
            c => c,
        }
    }

    /// The lines of the browser's page.
    pub open spec fn browse_lines(self) -> Seq<Seq<SpanView>> {
        match self.browser {
            None => seq![unavailable_line(self.spawn_error)],
            Some(b) => browser_lines(b),
        }
    }

    /// The lines of the shell's page.
    pub open spec fn shell_page(self) -> Seq<Seq<SpanView>> {
        match self.shell {
            None => seq![unavailable_line(self.spawn_error)],
            Some(s) => shell_lines(s),
        }
    }

    /// The dialog with its browser fitted to a screen of this height.
    pub open spec fn fitted(self, viewport_h: int) -> ModalView {
        match self.browser {
            None => self,
            Some(b) => ModalView { browser: Some(fitted(b, viewport_h)), ..self },
        }
    }
}

impl SandboxModal {
    /// Writes the overview. A cursor that points at no profile goes back to the first.
    pub fn render_info(&mut self, lines: &mut Vec<Line>)
        ensures
            final(self)@ == (ModalView {
                profile_cursor: old(self)@.cursor_inside(),
                ..old(self)@
            }),
            screen::line_views(final(lines)@) == screen::line_views(old(lines)@)
                + info::info_lines(old(self)@.info, old(self)@.yolo, old(self)@.cursor_inside()),
    {
        match self.profile_cursor {
            Some(cursor) => {
                if cursor >= self.info.profiles.len() {
                    self.profile_cursor = if self.info.profiles.len() == 0 {
                        None
                    } else {
                        Some(0)
                    };
                }
            },
            None => {},
        }
        push_info(lines, &self.info, self.yolo, self.profile_cursor);
    }

    /// Writes the browser's page for a screen of this height.
    pub fn render_browse(&mut self, lines: &mut Vec<Line>, viewport_h: u16)
        ensures
            final(self)@ == old(self)@.fitted(viewport_h as int),
            screen::line_views(final(lines)@) == screen::line_views(old(lines)@)
                + final(self)@.browse_lines(),
    {
        let mut b = match self.browser.take() {
            None => {
                push_unavailable(lines, &self.spawn_error);
                return;
            },
            Some(b) => b,
        };
        b.viewport_entries = if viewport_h >= 2 {
            (viewport_h - 2) as usize
        } else {
            0
        };
        push_browser(lines, &b);
        self.browser = Some(b);
    }

    /// Writes the shell's page.
    pub fn render_shell(&self, lines: &mut Vec<Line>)
        ensures
            screen::line_views(final(lines)@) == screen::line_views(old(lines)@)
                + self@.shell_page(),
    {
        match &self.shell {
            None => push_unavailable(lines, &self.spawn_error),
            Some(s) => push_shell(lines, s),
        }
    }
}

// ── The whole page ──

/// The greatest height of the dialog on a screen, frame included.
pub open spec fn max_height(screen_h: int, chrome: int) -> int {
    let h = screen_h * MAX_HEIGHT_PERCENT / 100;
    if h >= chrome + 1 {
        h
    } else {
        chrome + 1
    }
}

/// How many lines of text fit into the dialog.
pub open spec fn viewport(screen_h: int, chrome: int) -> int {
    max_height(screen_h, chrome) - chrome
}

/// The lowest sixteen bits of a number.
pub open spec fn low_bits(n: int) -> int {
    n % 65536
}

/// The hint below the overview.
pub open spec fn tab_hint(enabled: bool) -> Seq<char> {
    if enabled {
        "Tab: Browse files"@
    } else {
        "Tab: Browse (enable sandbox_enabled in config first)"@
    }
}

impl ModalView {
    /// The dialog once it is fitted to the screen and its cursor is inside the profiles.
    pub open spec fn prepared(self, viewport_h: int) -> ModalView {
        match self.mode {
            Mode::Info => ModalView { profile_cursor: self.cursor_inside(), ..self },
            Mode::Browse => self.fitted(viewport_h - 1),
            Mode::Shell => self,
        }
    }

    /// The lines of the page that is shown.
    pub open spec fn page(self) -> Seq<Seq<SpanView>> {
        match self.mode {
            Mode::Info => info::info_lines(self.info, self.yolo, self.profile_cursor) + seq![
                screen::blank(),
                screen::one(tab_hint(self.info.enabled), Role::Hint),
            ],
            Mode::Browse => seq![screen::blank()] + self.browse_lines() + seq![
                screen::blank(),
                screen::one(
                    "  Tab: Info  |  Esc: Close  |  Enter: Open dir  |  Backspace: Up"@,
                    Role::Hint,
                ),
            ],
            Mode::Shell => self.shell_page(),
        }
    }
}

/// How many lines the frame is asked to hold. The shell has at least thirteen, so that some
/// ten are left above its input line.
pub open spec fn framed_lines(mode: Mode, count: int) -> int {
    if mode == Mode::Shell {
        if count <= 14 {
            13
        } else {
            low_bits(count - 1)
        }
    } else {
        low_bits(count)
    }
}

/// The dialog takes at most 85 hundredths of the screen's height, and no line less than that
/// allows; but it always holds its frame and one line.
pub proof fn law_height_of_the_dialog(screen_h: int, chrome: int)
    requires
        screen_h >= 0,
        chrome >= 0,
    ensures
        max_height(screen_h, chrome) >= chrome + 1,
        max_height(screen_h, chrome) > chrome + 1 ==> 100 * max_height(screen_h, chrome) <= 85
            * screen_h,
        100 * (max_height(screen_h, chrome) + 1) > 85 * screen_h,
        viewport(screen_h, chrome) + chrome == max_height(screen_h, chrome),
        viewport(screen_h, chrome) >= 1,
{
}

/// The frame is asked for as many lines as the page has, while they can be counted; the
/// shell's own input line is not among them, and the shell has at least thirteen.
pub proof fn law_frame_holds_the_page(mode: Mode, count: int)
    requires
        0 <= count < 65536,
    ensures
        mode != Mode::Shell ==> framed_lines(mode, count) == count,
        mode == Mode::Shell && count > 14 ==> framed_lines(mode, count) == count - 1,
        mode == Mode::Shell && count <= 14 ==> framed_lines(mode, count) == 13,
{
}

/// The page of the overview ends with the hint that fits the switch of the sandbox, that of
/// the browser stands between an empty line and its hint, and that of the shell has no other
/// lines. A page whose browser or shell is not there shows one line instead of it.
pub proof fn law_page_is_that_of_the_mode(m: ModalView)
    ensures
        m.mode == Mode::Info ==> {
            let lines = info::info_lines(m.info, m.yolo, m.profile_cursor);
            &&& m.page().len() == lines.len() + 2
            &&& m.page().take(lines.len() as int) == lines
            &&& m.info.enabled ==> m.page().last() == seq![
                SpanView { text: "Tab: Browse files"@, role: Role::Hint },
            ]
            &&& !m.info.enabled ==> m.page().last() == seq![
                SpanView {
                    text: "Tab: Browse (enable sandbox_enabled in config first)"@,
                    role: Role::Hint,
                },
            ]
        },
        m.mode == Mode::Browse ==> (m.browser matches Some(b) ==> m.page().len()
            == browser_lines(b).len() + 3 && m.page().subrange(1, 1int + browser_lines(b).len())
            == browser_lines(b)),
        m.mode == Mode::Browse && m.browser is None ==> m.page().len() == 4 && m.page()[1]
            == unavailable_line(m.spawn_error),
        m.mode == Mode::Shell ==> (m.shell matches Some(s) ==> m.page() == shell_lines(s)),
        m.mode == Mode::Shell && m.shell is None ==> m.page() == seq![
            unavailable_line(m.spawn_error),
        ],
{
    if m.mode == Mode::Info {
        let lines = info::info_lines(m.info, m.yolo, m.profile_cursor);
        assert(m.page().take(lines.len() as int) =~= lines);
    }
    if m.mode == Mode::Browse && m.browser is Some {
        let lines = browser_lines(m.browser->Some_0);
        assert(m.page().subrange(1, 1int + lines.len()) =~= lines);
    }
}

/// Preparing a page changes only the cursor of the profiles, which goes back to the first
/// where it points at none, or how many entries the browser shows, which is three fewer than
/// the lines of the page.
pub proof fn law_preparing_changes_little(m: ModalView, viewport_h: int)
    requires
        viewport_h >= 0,
    ensures
        ({
            let n = m.prepared(viewport_h);
            &&& n.mode == m.mode && n.info == m.info && n.shell == m.shell && n.requests
                == m.requests && n.open == m.open
            &&& m.mode == Mode::Info ==> n.browser == m.browser && match m.profile_cursor {
                None => n.profile_cursor is None,
                Some(c) => if c < m.info.profiles.len() {
                    n.profile_cursor == Some(c)
                } else if m.info.profiles.len() > 0 {
                    n.profile_cursor == Some(0int)
                } else {
                    n.profile_cursor is None
                },
            }
            &&& m.mode != Mode::Info ==> n.profile_cursor == m.profile_cursor
            &&& m.mode == Mode::Shell ==> n == m
            &&& m.mode == Mode::Browse ==> match m.browser {
                None => n.browser is None,
                Some(b) => n.browser matches Some(c) && c.cwd == b.cwd && c.entries == b.entries
                    && c.cursor == b.cursor && c.scroll == b.scroll && c.error == b.error && (
                viewport_h >= 3 ==> c.viewport_entries == viewport_h - 3) && (viewport_h < 3
                    ==> c.viewport_entries == 0),
            }
        }),
{
}

/// What the dialog shows, before it has a place on the screen.
#[derive(Debug)]
pub struct Page {
    pub lines: Vec<Line>,
    /// How many lines the frame is to hold.
    pub framed: u16,
    /// How many lines of text fit into the dialog.
    pub viewport_h: u16,
}

fn low_16(n: usize) -> (r: u16)
    ensures
        r == low_bits(n as int),
{
    (n % 65536) as u16
}

impl SandboxModal {
    /// What the dialog shows on a screen of this height, if it is open. The frame and its
    /// margins take up `chrome_lines`.
    pub fn compose(&mut self, screen_h: u16, chrome_lines: u16) -> (r: Option<Page>)
        requires
            chrome_lines < u16::MAX,
        ensures
            match r {
                None => !old(self)@.open && final(self)@ == old(self)@,
                Some(p) => {
                    &&& old(self)@.open
                    &&& p.viewport_h == viewport(screen_h as int, chrome_lines as int)
                    &&& final(self)@ == old(self)@.prepared(p.viewport_h as int)
                    &&& screen::line_views(p.lines@) == final(self)@.page()
                    &&& p.framed == framed_lines(old(self)@.mode, p.lines@.len() as int)
                },
            },
    {
        if !self.open {
            return None;
        }
        assert(screen_h * MAX_HEIGHT_PERCENT <= 65535 * 85) by (nonlinear_arith)
            requires
                screen_h <= 65535,
                MAX_HEIGHT_PERCENT == 85,
        ;
        let wanted: u32 = screen_h as u32 * MAX_HEIGHT_PERCENT as u32 / 100;
        let least: u32 = chrome_lines as u32 + 1;
        let max_h: u32 = if wanted >= least {
            wanted
        } else {
            least
        };
        let viewport_h: u16 = (max_h - chrome_lines as u32) as u16;
        let mut lines: Vec<Line> = Vec::new();
        assert(screen::line_views(lines@) =~= seq![]);
        match self.mode {
            Mode::Info => {
                self.render_info(&mut lines);
                push_blank(&mut lines);
                let hint = if self.info.enabled {
                    "Tab: Browse files"
                } else {
                    "Tab: Browse (enable sandbox_enabled in config first)"
                };
                push_text(&mut lines, hint, Role::Hint);
            },
            Mode::Browse => {
                push_blank(&mut lines);
                self.render_browse(&mut lines, viewport_h - 1);
                push_blank(&mut lines);
                push_text(
                    &mut lines,
                    "  Tab: Info  |  Esc: Close  |  Enter: Open dir  |  Backspace: Up",
                    Role::Hint,
                );
            },
            Mode::Shell => {
                self.render_shell(&mut lines);
            },
        }
        assert(screen::line_views(lines@) =~= self@.page());
        let count: usize = lines.len();
        let framed: u16 = if self.mode == Mode::Shell {
            if count <= 14 {
                13
            } else {
                low_16(count - 1)
            }
        } else {
            low_16(count)
        };
        Some(Page { lines, framed, viewport_h })
    }
}

// ── Places on the screen ──

/// A part of the screen.
#[derive(Debug, Clone, Copy, PartialEq, Eq, Structural)]
pub struct Area {
    pub x: u16,
    pub y: u16,
    pub width: u16,
    pub height: u16,
}

impl Area {
    /// Whether this is a part of another area, as wide as that.
    pub open spec fn row_of(self, whole: Area) -> bool {
        &&& self.x == whole.x
        &&& self.width == whole.width
        &&& whole.y <= self.y
        &&& self.y + self.height <= whole.y + whole.height
    }
}

/// The sum of heights.
pub open spec fn sum_of(heights: Seq<u16>) -> int
    decreases heights.len(),
{
    if heights.len() == 0 {
        0
    } else {
        sum_of(heights.drop_last()) + heights.last()
    }
}

/// Whether rows stand one below the other from the top of an area: those above with their
/// heights, one that takes the rest, and those below with their heights.
pub open spec fn stacked(
    rows: Seq<Area>,
    whole: Area,
    above: Seq<u16>,
    below: Seq<u16>,
) -> bool {
    &&& rows.len() == above.len() + 1 + below.len()
    &&& rows[0].y == whole.y
    &&& forall|i: int, j: int|
        0 <= i && j == i + 1 && j < rows.len() ==> (#[trigger] rows[j]).y == (#[trigger] rows[i]).y
            + rows[i].height
    &&& forall|i: int| 0 <= i < above.len() ==> (#[trigger] rows[i]).height == above[i]
    &&& rows[above.len() as int].height == whole.height - sum_of(above) - sum_of(below)
    &&& forall|i: int|
        0 <= i < below.len() ==> rows[above.len() + 1 + i].height == #[trigger] below[i]
}

/// `ratatui::layout::Layout::split` divides an area into rows: some of fixed heights, then
/// some that fill what is left, then again some of fixed heights. There is one row for each
/// height, and each is as wide as the area and lies within it. With one filling row, and
/// where the fixed heights fit into an area that ends on the screen, every fixed row has
/// its height, the filling one takes the rest, and each starts where the one before it
/// ends. How the solver shares out the height where it is scarce is not stated, nor how
/// several filling rows share it.
#[verifier::external_body]
fn split_rows(whole: Area, above: &[u16], filling: &[u16], below: &[u16]) -> (rows: Vec<Area>)
    ensures
        rows@.len() == above@.len() + filling@.len() + below@.len(),
        forall|i: int| 0 <= i < rows@.len() ==> (#[trigger] rows@[i]).row_of(whole),
        filling@.len() == 1 && sum_of(above@) + sum_of(below@) <= whole.height && whole.y
            + whole.height <= u16::MAX ==> stacked(rows@, whole, above@, below@),
{
    let Area { x, y, width, height } = whole;
    let mut heights = ratatui::layout::Constraint::from_lengths(above.iter().copied());
    heights.extend(ratatui::layout::Constraint::from_fills(filling.iter().copied()));
    heights.extend(ratatui::layout::Constraint::from_lengths(below.iter().copied()));
    ratatui::layout::Layout::vertical(heights)
        .split(ratatui::layout::Rect { x, y, width, height })
        .iter()
        .map(|r| Area { x: r.x, y: r.y, width: r.width, height: r.height })
        .collect()
}

/// A scroll bar.
#[derive(Debug, Clone, Copy, PartialEq, Eq, Structural)]
pub struct Bar {
    pub total: u16,
    /// The position; without one, that of the text.
    pub pos: Option<u16>,
}

/// One line with its place.
#[derive(Debug)]
pub struct PlacedLine {
    pub area: Area,
    pub line: Line,
}

/// The model of a line with its place.
#[verifier::ext_equal]
pub struct PlacedView {
    pub area: Area,
    pub line: Seq<SpanView>,
}

/// The characters and the place of an optional line.
pub open spec fn placed_view(p: Option<PlacedLine>) -> Option<PlacedView> {
    match p {
        Some(l) => Some(PlacedView { area: l.area, line: l.line@ }),
        None => None,
    }
}

/// Where everything goes inside the frame.
#[derive(Debug)]
pub struct Placement {
    pub header: Option<PlacedLine>,
    /// The place of the page's lines.
    pub content: Area,
    /// How many lines there are to scroll through.
    pub total: u16,
    /// How many of them are seen at once.
    pub height: u16,
    /// Whether the text is to be scrolled to its bottom.
    pub to_bottom: bool,
    /// How far the text is moved to the left.
    pub h_offset: u16,
    pub bar: Option<Bar>,
    pub input: Option<PlacedLine>,
    pub hints: Option<PlacedLine>,
}

/// The model of a placement.
#[verifier::ext_equal]
pub struct PlacementView {
    pub header: Option<PlacedView>,
    pub content: Area,
    pub total: int,
    pub height: int,
    pub to_bottom: bool,
    pub h_offset: int,
    pub bar: Option<Bar>,
    pub input: Option<PlacedView>,
    pub hints: Option<PlacedView>,
}

impl View for Placement {
    type V = PlacementView;

    open spec fn view(&self) -> PlacementView {
        PlacementView {
            header: placed_view(self.header),
            content: self.content,
            total: self.total as int,
            height: self.height as int,
            to_bottom: self.to_bottom,
            h_offset: self.h_offset as int,
            bar: self.bar,
            input: placed_view(self.input),
            hints: placed_view(self.hints),
        }
    }
}

/// A scroll bar where there is more than fits.
pub open spec fn bar_for(total: int, height: int, pos: Option<u16>) -> Option<Bar> {
    if total > height {
        Some(Bar { total: low_bits(total) as u16, pos })
    } else {
        None
    }
}

/// How many rows the inside of the frame has on a page.
pub open spec fn rows_of(mode: Mode) -> int {
    match mode {
        Mode::Info => 0,
        Mode::Browse => 2,
        Mode::Shell => 3,
    }
}

impl ModalView {
    /// The input line of the shell.
    pub open spec fn input_line(self) -> Seq<SpanView> {
        match self.shell {
            Some(s) => seq![
                screen::span("  "@ + s.cwd + ":$ "@, Role::Section),
                screen::span(s.input, Role::Plain),
            ],
            None => seq![
                screen::span("  sandbox:$ "@, Role::Section),
                screen::span(seq![], Role::Plain),
            ],
        }
    }

    /// Where everything goes: the browser has a header above its lines, the shell an input
    /// line and a line of hints below them.
    pub open spec fn placement(
        self,
        count: int,
        viewport_h: int,
        inner: Area,
        rows: Seq<Area>,
    ) -> PlacementView {
        let plain = PlacementView {
            header: None,
            content: inner,
            total: low_bits(count),
            height: viewport_h,
            to_bottom: false,
            h_offset: 0,
            bar: bar_for(low_bits(count), viewport_h, None),
            input: None,
            hints: None,
        };
        match self.mode {
            Mode::Info => plain,
            Mode::Browse => PlacementView {
                header: Some(
                    PlacedView {
                        area: rows[0],
                        line: screen::one(
                            "  sandbox:"@ + match self.browser {
                                Some(b) => b.cwd,
                                None => "/"@,
                            },
                            Role::Section,
                        ),
                    },
                ),
                content: rows[1],
                height: rows[1].height as int,
                bar: match self.browser {
                    Some(b) => bar_for(
                        b.entries.len() as int,
                        rows[1].height as int,
                        Some(low_bits(b.scroll) as u16),
                    ),
                    None => None,
                },
                ..plain
            },
            Mode::Shell => PlacementView {
                content: rows[0],
                height: rows[0].height as int,
                to_bottom: self.shell matches Some(s) && s.entries.len() > self.shell_entry_count,
                h_offset: low_bits(self.h_scroll),
                bar: bar_for(low_bits(count), rows[0].height as int, None),
                input: Some(PlacedView { area: rows[1], line: self.input_line() }),
                hints: Some(
                    PlacedView {
                        area: rows[2],
                        line: screen::one(
                            "  Tab: Browse  |  Esc: Close  |  Enter: Run  |  Up/Down: History  |  Left/Right: Scroll"@,
                            Role::Hint,
                        ),
                    },
                ),
                ..plain
            },
        }
    }

    /// Whether the lines that are not the page's own fit into the frame.
    pub open spec fn fits(self, inner: Area) -> bool {
        &&& inner.y + inner.height <= u16::MAX
        &&& inner.height >= match self.mode {
            Mode::Info => 0,
            Mode::Browse => 1int,
            Mode::Shell => 2,
        }
    }

    /// The rows of the frame where they fit: for the browser its first line and the rest,
    /// for the shell the rest and its last two lines.
    pub open spec fn rows_in(self, inner: Area) -> Seq<Area> {
        match self.mode {
            Mode::Info => seq![],
            Mode::Browse => seq![
                Area { height: 1, ..inner },
                Area {
                    y: (inner.y + 1) as u16,
                    height: (inner.height - 1) as u16,
                    ..inner
                },
            ],
            Mode::Shell => seq![
                Area { height: (inner.height - 2) as u16, ..inner },
                Area { y: (inner.y + inner.height - 2) as u16, height: 1, ..inner },
                Area { y: (inner.y + inner.height - 1) as u16, height: 1, ..inner },
            ],
        }
    }

    /// The dialog once it was placed: the entries of the shell count as seen.
    pub open spec fn placed(self) -> ModalView {
        match self.shell {
            Some(s) if self.mode == Mode::Shell && s.entries.len() > self.shell_entry_count =>
                ModalView { shell_entry_count: s.entries.len() as int, ..self },
            _ => self,
        }
    }
}

/// The rows of a page lie one below the other in the frame, each as wide as it, and fill it:
/// a header of one line above the browser, and two single lines below the shell.
pub proof fn law_rows_fill_the_frame(m: ModalView, inner: Area)
    requires
        m.fits(inner),
        m.mode != Mode::Info,
    ensures
        ({
            let rows = m.rows_in(inner);
            &&& rows.len() == if m.mode == Mode::Browse {
                2int
            } else {
                3
            }
            &&& rows[0].y == inner.y
            &&& rows.last().y + rows.last().height == inner.y + inner.height
            &&& forall|i: int, j: int|
                0 <= i && j == i + 1 && j < rows.len() ==> (#[trigger] rows[i]).y + rows[i].height
                    == (#[trigger] rows[j]).y
            &&& forall|i: int|
                0 <= i < rows.len() ==> (#[trigger] rows[i]).x == inner.x && rows[i].width
                    == inner.width
            &&& m.mode == Mode::Browse ==> rows[0].height == 1
            &&& m.mode == Mode::Shell ==> rows[1].height == 1 && rows[2].height == 1
        }),
{
}

/// What is placed on the screen: the overview alone; the browser below a header with its
/// directory; or the shell above its input line and its hints. A bar is shown exactly where
/// there is more than fits.
pub proof fn law_page_is_placed(
    m: ModalView,
    count: int,
    viewport_h: int,
    inner: Area,
    rows: Seq<Area>,
)
    requires
        0 <= count < 65536,
        rows.len() == rows_of(m.mode),
    ensures
        ({
            let p = m.placement(count, viewport_h, inner, rows);
            &&& p.total == count
            &&& m.mode == Mode::Info ==> p.content == inner && p.height == viewport_h && (
            p.bar is Some <==> count > viewport_h)
            &&& p.header is Some <==> m.mode == Mode::Browse
            &&& p.input is Some <==> m.mode == Mode::Shell
            &&& p.hints is Some <==> m.mode == Mode::Shell
            &&& m.mode == Mode::Browse ==> p.content == rows[1] && p.height == rows[1].height
                && p.header->Some_0.area == rows[0]
            &&& m.mode == Mode::Browse ==> match m.browser {
                Some(b) => p.header->Some_0.line == seq![
                    SpanView { text: "  sandbox:"@ + b.cwd, role: Role::Section },
                ] && (p.bar is Some <==> b.entries.len() > rows[1].height),
                None => p.header->Some_0.line == seq![
                    SpanView { text: "  sandbox:"@ + "/"@, role: Role::Section },
                ] && p.bar is None,
            }
            &&& m.mode == Mode::Shell ==> p.content == rows[0] && p.height == rows[0].height
                && p.input->Some_0.area == rows[1] && p.hints->Some_0.area == rows[2] && (
            p.bar is Some <==> count > rows[0].height)
            &&& m.mode == Mode::Shell ==> (m.shell matches Some(s) ==> p.input->Some_0.line == seq![
                SpanView { text: "  "@ + s.cwd + ":$ "@, role: Role::Section },
                SpanView { text: s.input, role: Role::Plain },
            ])
            &&& p.to_bottom <==> m.mode == Mode::Shell && (m.shell matches Some(s)
                && s.entries.len() > m.shell_entry_count)
            &&& m.mode != Mode::Shell ==> p.h_offset == 0
            &&& m.mode == Mode::Shell && 0 <= m.h_scroll < 65536 ==> p.h_offset == m.h_scroll
            &&& p.bar matches Some(bar) ==> (m.mode != Mode::Browse ==> bar.total == count
                && bar.pos is None)
            &&& p.bar matches Some(bar) ==> (m.mode == Mode::Browse ==> (m.browser matches Some(b)
                && (b.entries.len() < 65536 ==> bar.total == b.entries.len()) && (0 <= b.scroll
                < 65536 ==> bar.pos == Some(b.scroll as u16))))
        }),
{
}

/// New output scrolls the shell to its bottom once: after it was placed there is none.
pub proof fn law_new_output_is_seen_once(m: ModalView)
    ensures
        m.mode == Mode::Shell ==> (m.placed().shell matches Some(s) ==> s.entries.len()
            <= m.placed().shell_entry_count),
        m.placed().shell == m.shell,
        m.placed().shell_entry_count >= m.shell_entry_count,
        m.mode != Mode::Shell ==> m.placed() == m,
        m.placed().placed() == m.placed(),
{
}

/// A page fits where the frame ends on the screen and has room for the header of the browser,
/// or for the input line and the hints of the shell.
pub proof fn law_page_fits(m: ModalView, inner: Area)
    ensures
        m.mode == Mode::Info ==> (m.fits(inner) <==> inner.y + inner.height <= 65535),
        m.mode == Mode::Browse ==> (m.fits(inner) <==> inner.y + inner.height <= 65535
            && inner.height >= 1),
        m.mode == Mode::Shell ==> (m.fits(inner) <==> inner.y + inner.height <= 65535
            && inner.height >= 2),
{
}

fn one_line(text: &str, role: Role) -> (line: Line)
    ensures
        line@ == screen::one(text@, role),
{
    let mut spans: Vec<Span> = Vec::new();
    spans.push(Span::new(text, role));
    let line = Line { spans };
    assert(line@ =~= screen::one(text@, role));
    line
}

impl SandboxModal {
    fn shell_prompt(&self) -> (line: Line)
        ensures
            line@ == self@.input_line(),
    {
        let mut spans: Vec<Span> = Vec::new();
        match &self.shell {
            Some(s) => {
                let mut prompt = concat("  ", s.cwd.as_str());
                prompt.append(":$ ");
                spans.push(Span::new(prompt.as_str(), Role::Section));
                spans.push(Span::new(s.input.as_str(), Role::Plain));
            },
            None => {
                spans.push(Span::new("  sandbox:$ ", Role::Section));
                let empty = String::new();
                spans.push(Span::new(empty.as_str(), Role::Plain));
            },
        }
        let line = Line { spans };
        assert(line@ =~= self@.input_line());
        line
    }

    /// Where everything goes, given the rows inside the frame.
    pub fn arrange(&mut self, count: usize, viewport_h: u16, inner: Area, rows: &[Area]) -> (p:
        Placement)
        requires
            rows@.len() == rows_of(old(self)@.mode),
        ensures
            p@ == old(self)@.placement(count as int, viewport_h as int, inner, rows@),
            final(self)@ == old(self)@.placed(),
    {
        let total: u16 = low_16(count);
        let mut p = Placement {
            header: None,
            content: inner,
            total,
            height: viewport_h,
            to_bottom: false,
            h_offset: 0,
            bar: None,
            input: None,
            hints: None,
        };
        match self.mode {
            Mode::Info => {
                if total > viewport_h {
                    p.bar = Some(Bar { total, pos: None });
                }
            },
            Mode::Browse => {
                let content = rows[1];
                let mut title = "  sandbox:".to_owned();
                match &self.browser {
                    Some(b) => {
                        title.append(b.cwd.as_str());
                        let entries: usize = b.total_entries();
                        if entries > content.height as usize {
                            let pos: u16 = low_16(b.scroll_offset());
                            p.bar = Some(Bar { total: low_16(entries), pos: Some(pos) });
                        }
                    },
                    None => {
                        title.append("/");
                    },
                }
                p.header = Some(
                    PlacedLine { area: rows[0], line: one_line(title.as_str(), Role::Section) },
                );
                p.content = content;
                p.height = content.height;
            },
            Mode::Shell => {
                let content = rows[0];
                match &self.shell {
                    Some(s) => {
                        if s.entries.len() > self.shell_entry_count {
                            p.to_bottom = true;
                        }
                    },
                    None => {},
                }
                p.content = content;
                p.height = content.height;
                p.h_offset = low_16(self.h_scroll);
                if total > content.height {
                    p.bar = Some(Bar { total, pos: None });
                }
                p.input = Some(PlacedLine { area: rows[1], line: self.shell_prompt() });
                p.hints = Some(
                    PlacedLine {
                        area: rows[2],
                        line: one_line(
                            "  Tab: Browse  |  Esc: Close  |  Enter: Run  |  Up/Down: History  |  Left/Right: Scroll",
                            Role::Hint,
                        ),
                    },
                );
                match &self.shell {
                    Some(s) => {
                        if p.to_bottom {
                            self.shell_entry_count = s.entries.len();
                        }
                    },
                    None => {},
                }
            },
        }
        p
    }

    /// Where everything goes inside the frame. The browser's header is the first line and its
    /// page the rest; below the shell's page come its input line and, last, its hints. Where
    /// the frame is too low for that, everything still lies within it.
    pub fn place(&mut self, count: usize, viewport_h: u16, inner: Area) -> (p: Placement)
        ensures
            old(self)@.fits(inner) ==> p@ == old(self)@.placement(
                count as int,
                viewport_h as int,
                inner,
                old(self)@.rows_in(inner),
            ),
            exists|rows: Seq<Area>|
                {
                    &&& rows.len() == rows_of(old(self)@.mode)
                    &&& forall|i: int| 0 <= i < rows.len() ==> (#[trigger] rows[i]).row_of(inner)
                    &&& p@ == #[trigger] old(self)@.placement(
                        count as int,
                        viewport_h as int,
                        inner,
                        rows,
                    )
                },
            final(self)@ == old(self)@.placed(),
    {
        let none: Vec<u16> = Vec::new();
        let one: Vec<u16> = vec![1];
        let two: Vec<u16> = vec![1, 1];
        let rows: Vec<Area> = match self.mode {
            Mode::Info => Vec::new(),
            Mode::Browse => split_rows(inner, one.as_slice(), one.as_slice(), none.as_slice()),
            Mode::Shell => split_rows(inner, none.as_slice(), one.as_slice(), two.as_slice()),
        };
        proof {
            reveal_with_fuel(sum_of, 3);
            assert(two@.drop_last() =~= one@);
            if self@.fits(inner) {
                assert(rows@ =~= self@.rows_in(inner));
            }
        }
        self.arrange(count, viewport_h, inner, rows.as_slice())
    }
}

} // verus!
