//! The pretoken: a slice of the input with the place it was found at.

use crate::bytes::byte_offset;
use crate::cursor::{cursor_index, cursor_origin, cursor_text};
use crate::machine::{Outcome, Span};
use strcursor::StrCursor;
use vstd::math::{max, min};
use vstd::prelude::*;

verus! {

/// A pretoken holds a slice of the string that the `Pretokenizer` walks.
#[derive(Clone, Debug, PartialEq)]
pub struct Pretoken<'a> {
    /// The slice of the input. A quoted pretoken includes its quotes.
    pub s: &'a str,
    /// The number, counted from 1, of the last line that the pretoken touches.
    pub line: usize,
    /// The byte offset in the input of the pretoken's first code point.
    pub offset: usize,
}

/// What a pretoken says: its code points, its line and its byte offset.
pub struct PretokenView {
    /// The code points of the pretoken.
    pub s: Seq<char>,
    /// The line that the pretoken ends on.
    pub line: int,
    /// The byte offset of the pretoken's first code point.
    pub offset: int,
}

impl<'a> View for Pretoken<'a> {
    type V = PretokenView;

    open spec fn view(&self) -> PretokenView {
        PretokenView { s: self.s@, line: self.line as int, offset: self.offset as int }
    }
}

/// The pretoken for the code points of `text` in `span`, emitted while the
/// line counter stands at `line`.
pub open spec fn pretoken_at(text: Seq<char>, span: Span, line: int) -> PretokenView {
    PretokenView {
        s: text.subrange(span.start, span.end),
        line,
        offset: byte_offset(text, span.start),
    }
}

impl Outcome {
    /// The pretoken that the call hands out, if it hands one out. Its line is
    /// the line counter as the call leaves it.
    pub open spec fn pretoken(self) -> Option<PretokenView> {
        match self.span {
            Some(span) => Some(pretoken_at(self.state.text, span, self.state.line)),
            None => None,
        }
    }
}

/// What an optional pretoken says.
pub open spec fn view_of(t: Option<Pretoken>) -> Option<PretokenView> {
    match t {
        Some(t) => Some(t@),
        None => None,
    }
}

/// What each of a sequence of pretokens says.
pub open spec fn views(ts: Seq<Pretoken>) -> Seq<PretokenView> {
    ts.map_values(|t: Pretoken| t@)
}

impl<'a> Pretoken<'a> {
    /// The pretoken whose string is the slice between the two cursors.
    ///
    /// * `start`: the first code point of the pretoken.
    /// * `end`: the code point behind the last one of the pretoken.
    /// * `line`: the line to report.
    /// * `offset`: the byte offset to report.
    ///
    /// The cursors have to walk the same slice. Where `end` stands in front
    /// of `start` the slice between them is taken all the same.
    pub fn new(start: StrCursor<'a>, end: StrCursor<'a>, line: usize, offset: usize) -> (p:
        Pretoken<'a>)
        requires
            cursor_origin(start) == cursor_origin(end),
        ensures
            p.s@ == cursor_text(start).subrange(
                min(cursor_index(start) as int, cursor_index(end) as int),
                max(cursor_index(start) as int, cursor_index(end) as int),
            ),
            p.line == line,
            p.offset == offset,
    {
        Pretoken { s: start.slice_between(end).unwrap(), line, offset }
    }
}

} // verus!
