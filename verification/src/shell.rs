//! The interactive shell: its input line, its history, and what its commands gave.

use vstd::prelude::*;

use crate::text;
use crate::text::chars_of;
use crate::wire;

verus! {

/// A single entry in the shell output history.
#[derive(Debug)]
pub struct ShellEntry {
    pub command: String,
    pub output: String,
    pub is_error: bool,
}

/// The model of an entry.
#[verifier::ext_equal]
pub struct ShellEntryView {
    pub command: Seq<char>,
    pub output: Seq<char>,
    pub is_error: bool,
}

impl View for ShellEntry {
    type V = ShellEntryView;

    open spec fn view(&self) -> ShellEntryView {
        ShellEntryView {
            command: self.command@,
            output: self.output@,
            is_error: self.is_error,
        }
    }
}

/// The models of entries.
pub open spec fn entry_views(entries: Seq<ShellEntry>) -> Seq<ShellEntryView> {
    Seq::new(entries.len(), |i: int| entries[i]@)
}

/// Sandbox interactive shell.
///
/// Each command that is entered is handed out to be executed in the sandbox.
#[derive(Debug)]
pub struct SandboxShellState {
    pub cwd: String,
    pub input: String,
    pub entries: Vec<ShellEntry>,
    pub history: Vec<String>,
    pub history_pos: Option<usize>,
    pub error: Option<String>,
}

/// The model of a shell.
#[verifier::ext_equal]
pub struct ShellView {
    pub cwd: Seq<char>,
    pub input: Seq<char>,
    pub entries: Seq<ShellEntryView>,
    pub history: Seq<Seq<char>>,
    pub history_pos: Option<int>,
    pub error: Option<Seq<char>>,
}

impl View for SandboxShellState {
    type V = ShellView;

    open spec fn view(&self) -> ShellView {
        ShellView {
            cwd: self.cwd@,
            input: self.input@,
            entries: entry_views(self.entries@),
            history: text::views(self.history@),
            history_pos: match self.history_pos {
                Some(p) => Some(p as int),
                None => None,
            },
            error: wire::opt_view(self.error),
        }
    }
}

impl ShellView {
    /// Whether the place in the history is one of the history.
    pub open spec fn valid(self) -> bool {
        self.history_pos matches Some(p) ==> 0 <= p < self.history.len()
    }

    /// The shell after the input line was entered.
    pub open spec fn submitted(self) -> ShellView {
        if self.input.len() == 0 {
            self
        } else {
            ShellView {
                input: seq![],
                history: self.history.push(self.input),
                history_pos: None,
                ..self
            }
        }
    }

    /// The command that entering the input line asks for.
    pub open spec fn command(self) -> Option<Seq<char>> {
        if self.input.len() == 0 {
            None
        } else {
            Some(self.input)
        }
    }

    /// The shell after a command was executed.
    pub open spec fn executed(
        self,
        command: Seq<char>,
        result: Result<(Seq<char>, bool), Seq<char>>,
    ) -> ShellView {
        match result {
            Ok((output, is_error)) => ShellView {
                error: None,
                entries: self.entries.push(ShellEntryView { command, output, is_error }),
                ..self
            },
            Err(e) => ShellView { error: Some(e), ..self },
        }
    }

    /// The shell at a place of its history.
    pub open spec fn at(self, pos: int) -> ShellView {
        ShellView { history_pos: Some(pos), input: self.history[pos], ..self }
    }

    /// The shell one command further back: the last one first. At the oldest it stays.
    pub open spec fn older(self) -> ShellView {
        let pos = match self.history_pos {
            Some(p) => p,
            None => self.history.len() as int,
        };
        if pos > 0 {
            self.at(pos - 1)
        } else {
            self
        }
    }

    /// The shell one command further on. After the newest comes an empty line.
    pub open spec fn newer(self) -> ShellView {
        match self.history_pos {
            Some(p) if p + 1 < self.history.len() => self.at(p + 1),
            _ => ShellView { history_pos: None, input: seq![], ..self },
        }
    }
}

/// Going back and then on again leads to where it started.
pub proof fn law_back_and_on(s: ShellView)
    requires
        s.valid(),
        s.older() != s,
    ensures
        s.history_pos matches Some(p) ==> s.older().newer() == s.at(p),
        s.history_pos is None ==> s.older().newer() == (ShellView { input: seq![], ..s }),
{
}

/// The command that was entered last is the first one found again.
pub proof fn law_last_command_first(s: ShellView)
    requires
        s.input.len() > 0,
    ensures
        s.submitted().older().input == s.input,
{
}

/// Entering and moving in the history keep the place in the history valid.
pub proof fn law_history_stays_valid(s: ShellView)
    requires
        s.valid(),
    ensures
        s.submitted().valid(),
        s.older().valid(),
        s.newer().valid(),
{
}

/// Entering a line asks for exactly that line, keeps it as the newest of the history, and
/// leaves an empty one; an empty line asks for nothing and changes nothing.
pub proof fn law_line_is_entered(s: ShellView)
    ensures
        s.input.len() == 0 ==> s.command() is None && s.submitted() == s,
        s.input.len() > 0 ==> s.command() == Some(s.input),
        s.input.len() > 0 ==> {
            let t = s.submitted();
            &&& t.input.len() == 0 && t.history_pos is None
            &&& t.history.len() == s.history.len() + 1 && t.history.last() == s.input
            &&& t.history.drop_last() == s.history
            &&& t.cwd == s.cwd && t.entries == s.entries && t.error == s.error
        },
{
    assert(s.history.push(s.input).drop_last() =~= s.history);
}

/// A command that was executed is shown last, with its output and whether it failed, and
/// ends an error; one that could not be executed shows the reason and nothing else. The
/// line and the history stay.
pub proof fn law_output_is_shown(
    s: ShellView,
    command: Seq<char>,
    output: Seq<char>,
    is_error: bool,
    reason: Seq<char>,
)
    ensures
        ({
            let t = s.executed(command, Ok((output, is_error)));
            &&& t.entries.len() == s.entries.len() + 1 && t.entries.drop_last() == s.entries
            &&& t.entries.last().command == command && t.entries.last().output == output
            &&& t.entries.last().is_error == is_error
            &&& t.error is None
            &&& t.input == s.input && t.history == s.history && t.history_pos == s.history_pos
            &&& t.cwd == s.cwd
        }),
        ({
            let t = s.executed(command, Err(reason));
            &&& t.error == Some(reason)
            &&& t.entries == s.entries
            &&& t.input == s.input && t.history == s.history && t.history_pos == s.history_pos
            &&& t.cwd == s.cwd
        }),
{
    let t = s.executed(command, Ok((output, is_error)));
    assert(t.entries.drop_last() =~= s.entries);
}

/// Each step back shows the command before, from the newest on, and the oldest stays; each
/// step on shows the next one, and after the newest an empty line. The history and what was
/// executed stay.
pub proof fn law_history_is_walked(s: ShellView)
    requires
        s.valid(),
    ensures
        s.history_pos is None && s.history.len() > 0 ==> s.older().input == s.history.last()
            && s.older().history_pos == Some(s.history.len() - 1),
        s.history.len() == 0 ==> s.older() == s,
        s.history_pos matches Some(p) ==> {
            &&& p > 0 ==> s.older().input == s.history[p - 1] && s.older().history_pos == Some(
                p - 1,
            )
            &&& p == 0 ==> s.older() == s
            &&& p < s.history.len() - 1 ==> s.newer().input == s.history[p + 1]
                && s.newer().history_pos == Some(p + 1)
        },
        s.history_pos is None || s.history_pos == Some(s.history.len() - 1) ==> (
        s.newer().input.len() == 0 && s.newer().history_pos is None),
        s.older().history == s.history && s.newer().history == s.history,
        s.older().entries == s.entries && s.newer().entries == s.entries,
        s.older().cwd == s.cwd && s.newer().cwd == s.cwd,
        s.older().error == s.error && s.newer().error == s.error,
{
}

/// What a command gave, as text.
pub open spec fn outcome(r: Result<(String, bool), String>) -> Result<
    (Seq<char>, bool),
    Seq<char>,
> {
    match r {
        Ok(p) => Ok((p.0@, p.1)),
        Err(e) => Err(e@),
    }
}

impl SandboxShellState {
    /// A shell in the sandbox's directory, as far as that is known.
    pub fn new(pwd: Result<String, String>) -> (s: SandboxShellState)
        ensures
            s@ == (ShellView {
                cwd: match pwd {
                    Ok(p) => p@,
                    Err(_) => seq![],
                },
                input: seq![],
                entries: seq![],
                history: seq![],
                history_pos: None,
                error: None,
            }),
            s@.valid(),
    {
        let cwd = match pwd {
            Ok(p) => p,
            Err(_) => String::new(),
        };
        let s = SandboxShellState {
            cwd,
            input: String::new(),
            entries: Vec::new(),
            history: Vec::new(),
            history_pos: None,
            error: None,
        };
        assert(s@ =~= ShellView {
            cwd: match pwd {
                Ok(p) => p@,
                Err(_) => seq![],
            },
            input: seq![],
            entries: seq![],
            history: seq![],
            history_pos: None,
            error: None,
        });
        s
    }

    /// Takes what a command gave.
    pub fn exec(&mut self, command: &str, result: Result<(String, bool), String>)
        ensures
            final(self)@ == old(self)@.executed(command@, outcome(result)),
    {
        match result {
            Ok((output, is_error)) => {
                self.error = None;
                self.entries.push(
                    ShellEntry { command: command.to_owned(), output, is_error },
                );
            },
            Err(e) => {
                self.error = Some(e);
            },
        }
        assert(self@ =~= old(self)@.executed(command@, outcome(result)));
    }

    /// Enters the input line. An empty one asks for nothing.
    pub fn submit(&mut self) -> (r: Option<String>)
        ensures
            final(self)@ == old(self)@.submitted(),
            wire::opt_view(r) == old(self)@.command(),
    {
        let mut command = String::new();
        std::mem::swap(&mut command, &mut self.input);
        if chars_of(command.as_str()).len() == 0 {
            assert(self@ =~= old(self)@);
            return None;
        }
        self.history.push(command.clone());
        self.history_pos = None;
        assert(self@ =~= old(self)@.submitted());
        Some(command)
    }

    /// Goes one command back in the history.
    pub fn history_up(&mut self)
        requires
            old(self)@.valid(),
        ensures
            final(self)@ == old(self)@.older(),
            final(self)@.valid(),
    {
        if self.history.len() == 0 {
            assert(self@ =~= old(self)@.older());
            return;
        }
        let pos: usize = match self.history_pos {
            Some(p) => p,
            None => self.history.len(),
        };
        if pos > 0 {
            let new_pos: usize = pos - 1;
            self.history_pos = Some(new_pos);
            self.input = self.history[new_pos].clone();
        }
        assert(self@ =~= old(self)@.older());
    }

    /// Goes one command on in the history.
    pub fn history_down(&mut self)
        requires
            old(self)@.valid(),
        ensures
            final(self)@ == old(self)@.newer(),
            final(self)@.valid(),
    {
        match self.history_pos {
            Some(pos) if pos < self.history.len() - 1 => {
                let new_pos: usize = pos + 1;
                self.history_pos = Some(new_pos);
                self.input = self.history[new_pos].clone();
            },
            _ => {
                self.history_pos = None;
                self.input = String::new();
            },
        }
        assert(self@ =~= old(self)@.newer());
    }
}

} // verus!
