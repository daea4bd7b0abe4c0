//! Lines of text with colors and links.
use vstd::prelude::*;
use vstd::string::*;

use crate::text::views;

verus! {

/// A color of the terminal.
#[derive(Debug, Clone, Copy, PartialEq, Eq, Structural)]
pub enum Color {
    Blue,
    Green,
    Red,
    Yellow,
}

/// A piece of a line.
#[derive(Debug, Clone, PartialEq, Eq)]
pub enum Span {
    Plain(String),
    Colored(Color, String),
    Link { text: String, url: String },
}

/// What a piece of a line stands for.
pub enum SpanView {
    Plain(Seq<char>),
    Colored(Color, Seq<char>),
    Link { text: Seq<char>, url: Seq<char> },
}

impl View for Span {
    type V = SpanView;

    open spec fn view(&self) -> SpanView {
        match self {
            Span::Plain(text) => SpanView::Plain(text@),
            Span::Colored(color, text) => SpanView::Colored(*color, text@),
            Span::Link { text, url } => SpanView::Link { text: text@, url: url@ },
        }
    }
}

/// A line.
#[derive(Debug, Clone, PartialEq, Eq)]
pub struct Line {
    pub spans: Vec<Span>,
}

impl View for Line {
    type V = Seq<SpanView>;

    open spec fn view(&self) -> Seq<SpanView> {
        views(self.spans@)
    }
}

/// A line of plain text.
pub open spec fn plain(text: Seq<char>) -> Seq<SpanView> {
    seq![SpanView::Plain(text)]
}

/// A line of text in one color.
pub open spec fn colored(color: Color, text: Seq<char>) -> Seq<SpanView> {
    seq![SpanView::Colored(color, text)]
}

impl Line {
    /// A line of plain text.
    pub fn of(text: String) -> (r: Self)
        ensures
            r@ == plain(text@),
    {
        let mut spans: Vec<Span> = Vec::new();
        spans.push(Span::Plain(text));
        let line = Line { spans };
        assert(line@ =~= plain(text@));
        line
    }

    /// A line of plain text.
    pub fn text(text: &str) -> (r: Self)
        ensures
            r@ == plain(text@),
    {
        Line::of(text.to_owned())
    }

    /// A line of text in one color.
    pub fn painted(color: Color, text: &str) -> (r: Self)
        ensures
            r@ == colored(color, text@),
    {
        let mut spans: Vec<Span> = Vec::new();
        spans.push(Span::Colored(color, text.to_owned()));
        let line = Line { spans };
        assert(line@ =~= colored(color, text@));
        line
    }

    /// Adds plain text at the end.
    pub fn push_text(&mut self, text: &str)
        ensures
            final(self)@ == old(self)@.push(SpanView::Plain(text@)),
    {
        let ghost before = self@;
        self.spans.push(Span::Plain(text.to_owned()));
        assert(self@ =~= before.push(SpanView::Plain(text@)));
    }

    /// Adds colored text at the end.
    pub fn push_painted(&mut self, color: Color, text: &str)
        ensures
            final(self)@ == old(self)@.push(SpanView::Colored(color, text@)),
    {
        let ghost before = self@;
        self.spans.push(Span::Colored(color, text.to_owned()));
        assert(self@ =~= before.push(SpanView::Colored(color, text@)));
    }

    /// Adds a link at the end.
    pub fn push_link(&mut self, text: &str, url: &str)
        ensures
            final(self)@ == old(self)@.push(SpanView::Link { text: text@, url: url@ }),
    {
        let ghost before = self@;
        self.spans.push(Span::Link { text: text.to_owned(), url: url.to_owned() });
        assert(self@ =~= before.push(SpanView::Link { text: text@, url: url@ }));
    }
}

} // verus!
