//! The scanning state machine, as a function on sequences of code points.
//!
//! A scan starts in [`Mode::Ws`] at the scanner's resume position and reads one
//! code point after the other. [`step`] says what each code point does in each
//! mode; [`run`] follows the steps until a pretoken is complete or the input
//! ends; [`scan`] is one whole call of the scanner.

use vstd::prelude::*;

verus! {

/// What the scanner is in the middle of.
#[derive(Clone, Copy, Debug)]
pub enum Mode {
    /// Skipping whitespace and line breaks.
    Ws,
    /// Just past a `/` that may open a comment.
    MaybeComment,
    /// Inside a `//` comment.
    LineComment,
    /// Inside a `/*` comment.
    BlockComment,
    /// Just past a `*` inside a block comment.
    MaybeBlockCommentDone,
    /// At the first code point of a pretoken.
    StartTok,
    /// Inside an unquoted pretoken.
    NormalTok,
    /// Inside a quoted pretoken.
    QuotedTok,
    /// Just past a `\` inside a quoted pretoken.
    EscapeChar,
}

/// What one code point does to a scan.
pub enum Move {
    /// The scan goes on in `mode`. The code point is consumed if `eat` holds,
    /// and counts as a line break if `newline` holds.
    Go { mode: Mode, eat: bool, newline: bool },
    /// The pretoken is complete. It ends behind the code point if `eat` holds,
    /// in front of it otherwise.
    Emit { eat: bool },
}

/// Consume the code point and go on in `mode`.
pub open spec fn take(mode: Mode) -> Move {
    Move::Go { mode, eat: true, newline: false }
}

/// Consume the code point, count a line break and go on in `mode`.
pub open spec fn take_line(mode: Mode) -> Move {
    Move::Go { mode, eat: true, newline: true }
}

/// Leave the code point where it is and look at it again in `mode`.
pub open spec fn defer(mode: Mode) -> Move {
    Move::Go { mode, eat: false, newline: false }
}

/// The move for the code point `c` read in `mode`, where `ahead` is the code
/// point behind `c`, if there is one.
pub open spec fn step(mode: Mode, c: char, ahead: Option<char>) -> Move {
    match mode {
        Mode::Ws => if c == '\n' {
            take_line(Mode::Ws)
        } else if c == ' ' || c == '\t' {
            take(Mode::Ws)
        } else if c == '/' {
            take(Mode::MaybeComment)
        } else {
            defer(Mode::StartTok)
        },
        Mode::MaybeComment => if c == '/' {
            take(Mode::LineComment)
        } else if c == '*' {
            take(Mode::BlockComment)
        } else {
            defer(Mode::StartTok)
        },
        Mode::LineComment => if c == '\n' {
            defer(Mode::Ws)
        } else {
            take(Mode::LineComment)
        },
        Mode::BlockComment => if c == '*' {
            take(Mode::MaybeBlockCommentDone)
        } else if c == '\n' {
            take_line(Mode::BlockComment)
        } else {
            take(Mode::BlockComment)
        },
        Mode::MaybeBlockCommentDone => if c == '/' {
            take(Mode::Ws)
        } else if c == '\n' {
            take_line(Mode::BlockComment)
        } else {
            take(Mode::BlockComment)
        },
        Mode::StartTok => if c == '"' {
            take(Mode::QuotedTok)
        } else {
            take(Mode::NormalTok)
        },
        Mode::NormalTok => if c == ' ' || c == '\t' || c == '\n' || c == '"' {
            Move::Emit { eat: false }
        } else if c == '/' {
            match ahead {
                None => Move::Emit { eat: true },
                Some(d) => if d == '/' || d == '*' {
                    Move::Emit { eat: false }
                } else {
                    take(Mode::NormalTok)
                },
            }
        } else {
            take(Mode::NormalTok)
        },
        Mode::QuotedTok => if c == '\n' {
            take_line(Mode::QuotedTok)
        } else if c == '"' {
            Move::Emit { eat: true }
        } else if c == '\\' {
            take(Mode::EscapeChar)
        } else {
            take(Mode::QuotedTok)
        },
        Mode::EscapeChar => if c == '\n' {
            take_line(Mode::QuotedTok)
        } else {
            take(Mode::QuotedTok)
        },
    }
}

/// The state of a scanner between two calls: the input, the number of code
/// points in front of the resume position, and the line counter.
pub struct Scan {
    /// The code points of the input.
    pub text: Seq<char>,
    /// The number of code points in front of the resume position.
    pub at: int,
    /// The line counter. Lines are counted from 1.
    pub line: int,
}

impl Scan {
    /// The state of a fresh scanner over `text`.
    pub open spec fn start(text: Seq<char>) -> Scan {
        Scan { text, at: 0, line: 1 }
    }

    /// The resume position lies in the input, and the line counter has seen
    /// no more line breaks than there are code points in front of it.
    pub open spec fn wf(self) -> bool {
        &&& 0 <= self.at <= self.text.len() < usize::MAX
        &&& 1 <= self.line <= self.at + 1
    }

    /// Nothing is left to read.
    pub open spec fn at_end(self) -> bool {
        self.at == self.text.len()
    }
}

/// The code points from `start` up to, not including, `end`.
pub struct Span {
    /// The index of the first code point.
    pub start: int,
    /// The index of the code point behind the last one.
    pub end: int,
}

/// What one call of the scanner comes to: the span of the pretoken that it
/// emits, if it emits one, and the state that it leaves.
pub struct Outcome {
    /// The code points of the pretoken, where there is one.
    pub span: Option<Span>,
    /// The state in which the next call starts.
    pub state: Scan,
}

/// The outcome for a pretoken that runs from `start` to `end`. Nothing is
/// emitted for an empty span.
pub open spec fn emit(text: Seq<char>, start: int, end: int, line: int) -> Outcome {
    if end == start {
        Outcome { span: None, state: Scan { text, at: start, line } }
    } else {
        Outcome { span: Some(Span { start, end }), state: Scan { text, at: end, line } }
    }
}

/// How many moves a mode can make at most without consuming a code point.
pub open spec fn patience(mode: Mode) -> int {
    match mode {
        Mode::MaybeComment | Mode::LineComment => 2,
        Mode::Ws => 1,
        _ => 0,
    }
}

/// The outcome of a scan that is in `mode` with `at` code points read, where
/// `start` is the resume position and `line` the line counter.
///
/// At the end of the input a pretoken that has been started is emitted, closed
/// or not; whitespace and comments, closed or not, come to nothing.
pub open spec fn run(text: Seq<char>, mode: Mode, start: int, at: int, line: int) -> Outcome
    decreases text.len() - at, patience(mode),
{
    if 0 <= at < text.len() {
        let start = if mode is StartTok { at } else { start };
        let ahead = if at + 1 < text.len() { Some(text[at + 1]) } else { None };
        match step(mode, text[at], ahead) {
            Move::Go { mode: next, eat, newline } => run(
                text,
                next,
                start,
                if eat { at + 1 } else { at },
                if newline { line + 1 } else { line },
            ),
            Move::Emit { eat } => emit(text, start, if eat { at + 1 } else { at }, line),
        }
    } else {
        match mode {
            Mode::NormalTok | Mode::QuotedTok | Mode::EscapeChar => emit(text, start, at, line),
            _ => Outcome { span: None, state: Scan { text, at, line } },
        }
    }
}

/// One call of the scanner in state `st`.
pub open spec fn scan(st: Scan) -> Outcome {
    run(st.text, Mode::Ws, st.at, st.at, st.line)
}

} // verus!
