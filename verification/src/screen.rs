//! Styled text, independent of the terminal that shows it.

use vstd::prelude::*;

verus! {

/// How a piece of text is to be shown.
#[derive(Debug, Clone, Copy, PartialEq, Eq, Structural)]
pub enum Role {
    /// Ordinary text.
    Plain,
    /// A section heading or a prompt.
    Section,
    /// A hint on the keys.
    Hint,
    /// Something selected or switched on.
    Selected,
    /// Text of less importance.
    Dim,
    /// An error.
    Error,
}

/// A piece of text in one style.
#[derive(Debug)]
pub struct Span {
    pub text: String,
    pub role: Role,
}

/// A line of text.
#[derive(Debug)]
pub struct Line {
    pub spans: Vec<Span>,
}

/// The model of a piece of text.
#[verifier::ext_equal]
pub struct SpanView {
    pub text: Seq<char>,
    pub role: Role,
}

impl View for Span {
    type V = SpanView;

    open spec fn view(&self) -> SpanView {
        SpanView { text: self.text@, role: self.role }
    }
}

impl View for Line {
    type V = Seq<SpanView>;

    open spec fn view(&self) -> Seq<SpanView> {
        Seq::new(self.spans@.len(), |i: int| self.spans@[i]@)
    }
}

/// The models of lines.
pub open spec fn line_views(lines: Seq<Line>) -> Seq<Seq<SpanView>> {
    Seq::new(lines.len(), |i: int| lines[i]@)
}

/// A piece of text.
pub open spec fn span(text: Seq<char>, role: Role) -> SpanView {
    SpanView { text, role }
}

/// A line that is one piece of text.
pub open spec fn one(text: Seq<char>, role: Role) -> Seq<SpanView> {
    seq![span(text, role)]
}

/// An empty line.
pub open spec fn blank() -> Seq<SpanView> {
    seq![]
}

impl Span {
    /// A piece of text.
    pub fn new(text: &str, role: Role) -> (s: Span)
        ensures
            s@ == span(text@, role),
    {
        Span { text: text.to_owned(), role }
    }
}

/// Adds a line that is one piece of text.
pub fn push_text(lines: &mut Vec<Line>, text: &str, role: Role)
    ensures
        line_views(final(lines)@) == line_views(old(lines)@) + seq![one(text@, role)],
{
    let ghost before = line_views(lines@);
    let mut spans: Vec<Span> = Vec::new();
    spans.push(Span::new(text, role));
    let line = Line { spans };
    assert(line@ =~= one(text@, role));
    lines.push(line);
    assert(line_views(lines@) =~= before + seq![one(text@, role)]);
}

/// Adds a line of several pieces.
pub fn push_spans(lines: &mut Vec<Line>, spans: Vec<Span>)
    ensures
        line_views(final(lines)@) == line_views(old(lines)@) + seq![
            Seq::new(spans@.len(), |i: int| spans@[i]@),
        ],
{
    let ghost before = line_views(lines@);
    let line = Line { spans };
    let ghost shown = line@;
    lines.push(line);
    assert(line_views(lines@) =~= before + seq![shown]);
}

/// Adds an empty line.
pub fn push_blank(lines: &mut Vec<Line>)
    ensures
        line_views(final(lines)@) == line_views(old(lines)@) + seq![blank()],
{
    let ghost before = line_views(lines@);
    let line = Line { spans: Vec::new() };
    assert(line@ =~= blank());
    lines.push(line);
    assert(line_views(lines@) =~= before + seq![blank()]);
}

} // verus!
