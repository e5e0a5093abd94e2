//! How an error and its causes are shown.

use vstd::prelude::*;

use crate::text;
use crate::text::concat;

verus! {

/// The line of the error itself.
pub open spec fn error_line(message: Seq<char>) -> Seq<char> {
    "\x1b[1;31m✖ "@ + message + "\x1b[0m"@
}

/// The line of a cause. The last one closes the tree.
pub open spec fn cause_line(cause: Seq<char>, last: bool) -> Seq<char> {
    "\x1b[2m"@ + (if last {
        "└─"@
    } else {
        "├─"@
    }) + "\x1b[0m \x1b[31m"@ + cause + "\x1b[0m"@
}

/// The lines of an error: an empty one, the error, its causes, and an empty one.
pub open spec fn error_report(message: Seq<char>, causes: Seq<Seq<char>>) -> Seq<Seq<char>> {
    seq![seq![], error_line(message)] + Seq::new(
        causes.len(),
        |i: int| cause_line(causes[i], i == causes.len() - 1),
    ) + seq![seq![]]
}

/// The report of an error has a line for it and one for each cause, in order, between two
/// empty lines; each shows its text, and of the branches only the last one closes.
pub proof fn law_every_cause_is_shown(message: Seq<char>, causes: Seq<Seq<char>>, i: int)
    requires
        0 <= i < causes.len(),
    ensures
        error_report(message, causes).len() == causes.len() + 3,
        error_report(message, causes)[0].len() == 0,
        error_report(message, causes)[1] == "\x1b[1;31m✖ "@ + message + "\x1b[0m"@,
        error_report(message, causes)[i + 2] == if i == causes.len() - 1 {
            "\x1b[2m"@ + "└─"@ + "\x1b[0m \x1b[31m"@ + causes[i] + "\x1b[0m"@
        } else {
            "\x1b[2m"@ + "├─"@ + "\x1b[0m \x1b[31m"@ + causes[i] + "\x1b[0m"@
        },
        error_report(message, causes).last().len() == 0,
{
}

/// The lines that show an error and its causes.
pub fn error_lines(message: &str, causes: &[String]) -> (lines: Vec<String>)
    ensures
        text::views(lines@) == error_report(message@, text::views(causes@)),
{
    let mut lines: Vec<String> = Vec::new();
    lines.push(String::new());
    let mut head = concat("\x1b[1;31m✖ ", message);
    head.append("\x1b[0m");
    lines.push(head);
    let ghost all = text::views(causes@);
    let ghost before = text::views(lines@);
    assert(before =~= seq![Seq::<char>::empty(), error_line(message@)]);
    for i in 0..causes.len()
        invariant
            all == text::views(causes@),
            text::views(lines@) == before + Seq::new(
                i as nat,
                |k: int| cause_line(all[k], k == all.len() - 1),
            ),
    {
        let ghost here = text::views(lines@);
        let branch = if i == causes.len() - 1 {
            "└─"
        } else {
            "├─"
        };
        let mut s = concat("\x1b[2m", branch);
        s.append("\x1b[0m \x1b[31m");
        s.append(causes[i].as_str());
        s.append("\x1b[0m");
        let ghost line = s@;
        lines.push(s);
        proof {
            assert(line == cause_line(all[i as int], i == all.len() - 1));
            assert(text::views(lines@) =~= here.push(line));
            assert(text::views(lines@) =~= before + Seq::new(
                (i + 1) as nat,
                |k: int| cause_line(all[k], k == all.len() - 1),
            ));
        }
    }
    let ghost here = text::views(lines@);
    lines.push(String::new());
    proof {
        assert(text::views(lines@) =~= here.push(Seq::<char>::empty()));
        assert(text::views(lines@) =~= error_report(message@, all));
    }
    lines
}

} // verus!
