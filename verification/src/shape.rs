//! What a call hands out, read off the input without the state machine.
//!
//! The next pretoken starts behind the whitespace and the comments that
//! follow the resume position, and ends where the kind of pretoken it is
//! ends. [`lemma_scan_span`] proves that the state machine finds just that,
//! [`lemma_scan_lines`] how far it moves the line counter on the way.

use crate::laws::{in_token, lemma_run};
use crate::machine::{patience, run, scan, step, Mode, Move, Scan, Span};
use vstd::prelude::*;

verus! {

/// Whether an unquoted pretoken ends in front of the code point with index
/// `i`: it does at whitespace, at a line break, at a quote, and at a `/` that
/// opens a comment.
pub open spec fn breaks(text: Seq<char>, i: int) -> bool {
    let c = text[i];
    ||| c == ' ' || c == '\t' || c == '\n' || c == '"'
    ||| c == '/' && i + 1 < text.len() && (text[i + 1] == '/' || text[i + 1] == '*')
}

/// The end of an unquoted pretoken that has come as far as `i`: the first
/// place from `i` on at which it breaks, or the end of the input.
pub open spec fn unquoted_end(text: Seq<char>, i: int) -> int
    decreases text.len() - i,
{
    if 0 <= i < text.len() {
        if breaks(text, i) {
            i
        } else {
            unquoted_end(text, i + 1)
        }
    } else {
        text.len() as int
    }
}

/// The end of a quoted pretoken whose inside has come as far as `i`: behind
/// the first quote from `i` on, where a backslash takes the code point behind
/// it along, or the end of the input.
pub open spec fn quoted_end(text: Seq<char>, i: int) -> int
    decreases text.len() - i,
{
    if 0 <= i < text.len() {
        if text[i] == '"' {
            i + 1
        } else if text[i] == '\\' && i + 1 < text.len() {
            quoted_end(text, i + 2)
        } else {
            quoted_end(text, i + 1)
        }
    } else {
        text.len() as int
    }
}

/// The end of the pretoken that starts with the code point with index
/// `start`. The first code point belongs to the pretoken whatever it is; a
/// quote makes the pretoken a quoted one.
pub open spec fn pretoken_end(text: Seq<char>, start: int) -> int {
    if text[start] == '"' {
        quoted_end(text, start + 1)
    } else {
        unquoted_end(text, start + 1)
    }
}

/// The end of a line comment whose inside has come as far as `i`: the first
/// line break from `i` on, which is not part of the comment, or the end of the
/// input.
pub open spec fn line_comment_end(text: Seq<char>, i: int) -> int
    decreases text.len() - i,
{
    if 0 <= i < text.len() {
        if text[i] == '\n' {
            i
        } else {
            line_comment_end(text, i + 1)
        }
    } else {
        text.len() as int
    }
}

/// The end of a block comment whose inside has come as far as `i`: behind the
/// first `*/` from `i` on, or the end of the input. A `*` that no `/` follows
/// takes the code point behind it along, be it another `*`.
pub open spec fn block_comment_end(text: Seq<char>, i: int) -> int
    decreases text.len() - i,
{
    if 0 <= i < text.len() {
        if text[i] != '*' {
            block_comment_end(text, i + 1)
        } else if i + 1 >= text.len() {
            text.len() as int
        } else if text[i + 1] == '/' {
            i + 2
        } else {
            block_comment_end(text, i + 2)
        }
    } else {
        text.len() as int
    }
}

/// Where the next pretoken starts for a scanner that resumes at `i`: behind
/// all whitespace, line breaks and comments from `i` on. A `/` that opens no
/// comment is passed over, and the pretoken starts right behind it. Where the
/// input holds no further pretoken this is the end of the input.
pub open spec fn pretoken_start(text: Seq<char>, i: int) -> int
    decreases text.len() - i,
    via pretoken_start_ends
{
    if 0 <= i < text.len() {
        let c = text[i];
        if c == ' ' || c == '\t' || c == '\n' {
            pretoken_start(text, i + 1)
        } else if c != '/' {
            i
        } else if i + 1 >= text.len() {
            text.len() as int
        } else if text[i + 1] == '/' {
            pretoken_start(text, line_comment_end(text, i + 2))
        } else if text[i + 1] == '*' {
            pretoken_start(text, block_comment_end(text, i + 2))
        } else {
            i + 1
        }
    } else {
        text.len() as int
    }
}

/// A comment ends behind where it started.
#[via_fn]
proof fn pretoken_start_ends(text: Seq<char>, i: int) {
    if 0 <= i && i + 1 < text.len() {
        lemma_comment_ends(text, i + 2);
    }
}

/// The end of a comment lies between where its inside has come to and the
/// end of the input.
pub proof fn lemma_comment_ends(text: Seq<char>, i: int)
    requires
        0 <= i <= text.len(),
    ensures
        i <= line_comment_end(text, i) <= text.len(),
        i <= block_comment_end(text, i) <= text.len(),
    decreases text.len() - i,
{
    if i < text.len() {
        lemma_comment_ends(text, i + 1);
        if i + 1 < text.len() {
            lemma_comment_ends(text, i + 2);
        }
    }
}

/// The span of the pretoken that starts at `start`, if `start` lies in the
/// input.
pub open spec fn span_from(text: Seq<char>, start: int) -> Option<Span> {
    if start < text.len() {
        Some(Span { start, end: pretoken_end(text, start) })
    } else {
        None
    }
}

/// The number of line breaks in `chars`.
pub open spec fn line_breaks(chars: Seq<char>) -> int
    decreases chars.len(),
{
    if chars.len() == 0 {
        0
    } else {
        line_breaks(chars.drop_first()) + if chars[0] == '\n' {
            1int
        } else {
            0int
        }
    }
}

/// One where the pretoken of `span` starts with a line break, zero
/// otherwise.
pub open spec fn leading_break(text: Seq<char>, span: Option<Span>) -> int {
    match span {
        Some(span) => if text[span.start] == '\n' {
            1
        } else {
            0
        },
        None => 0,
    }
}

/// Where the next pretoken starts for a scan that is in `mode`, not in a
/// pretoken, with `at` code points read.
pub open spec fn start_from(text: Seq<char>, mode: Mode, at: int) -> int {
    if 0 <= at < text.len() {
        match mode {
            Mode::Ws => pretoken_start(text, at),
            Mode::MaybeComment => if text[at] == '/' {
                pretoken_start(text, line_comment_end(text, at + 1))
            } else if text[at] == '*' {
                pretoken_start(text, block_comment_end(text, at + 1))
            } else {
                at
            },
            Mode::LineComment => pretoken_start(text, line_comment_end(text, at)),
            Mode::BlockComment => pretoken_start(text, block_comment_end(text, at)),
            Mode::MaybeBlockCommentDone => if text[at] == '/' {
                pretoken_start(text, at + 1)
            } else {
                pretoken_start(text, block_comment_end(text, at + 1))
            },
            _ => at,
        }
    } else {
        text.len() as int
    }
}

/// A pretoken that has been started is emitted, from its start to its end,
/// and the line breaks in the rest of it are counted, escaped or not. The
/// rest of an unquoted one holds none.
pub proof fn lemma_token_run(text: Seq<char>, mode: Mode, start: int, at: int, line: int)
    requires
        0 <= start < at <= text.len(),
        in_token(mode),
    ensures
        ({
            let o = run(text, mode, start, at, line);
            &&& o.span == Some(Span { start, end: o.state.at })
            &&& at <= o.state.at <= text.len()
            &&& o.state.at == match mode {
                Mode::NormalTok => unquoted_end(text, at),
                Mode::QuotedTok => quoted_end(text, at),
                _ => quoted_end(text, at + 1),
            }
            &&& o.state.line == line + line_breaks(text.subrange(at, o.state.at))
            &&& mode is NormalTok ==> o.state.line == line
        }),
    decreases text.len() - at,
{
    if at < text.len() {
        let ahead = if at + 1 < text.len() { Some(text[at + 1]) } else { None };
        match step(mode, text[at], ahead) {
            Move::Go { mode: next, eat, newline } => {
                let l = if newline { line + 1 } else { line };
                lemma_token_run(text, next, start, at + 1, l);
                let end = run(text, mode, start, at, line).state.at;
                assert(text.subrange(at, end).drop_first() == text.subrange(at + 1, end));
            },
            Move::Emit { eat } => {
                if eat {
                    if mode is NormalTok {
                        assert(unquoted_end(text, at + 1) == at + 1);
                    }
                    assert(text.subrange(at, at + 1).drop_first() == Seq::<char>::empty());
                    assert(line_breaks(Seq::<char>::empty()) == 0);
                }
            },
        }
    } else {
        assert(text.subrange(at, at) == Seq::<char>::empty());
    }
}

/// A scan that is not in a pretoken emits the pretoken that comes next, if
/// one does. It counts the line breaks that it reads, but for one with which
/// the pretoken starts.
pub proof fn lemma_skip_run(text: Seq<char>, mode: Mode, start: int, at: int, line: int)
    requires
        0 <= start <= at <= text.len(),
        !in_token(mode),
    ensures
        ({
            let o = run(text, mode, start, at, line);
            &&& o.span == span_from(text, start_from(text, mode, at))
            &&& o.state.line == line + line_breaks(text.subrange(at, o.state.at))
                - leading_break(text, o.span)
        }),
    decreases text.len() - at, patience(mode),
{
    lemma_run(text, mode, start, at, line);
    let end = run(text, mode, start, at, line).state.at;
    let len = text.len() as int;
    assert(pretoken_start(text, len) == len);
    assert(line_comment_end(text, len) == len);
    assert(block_comment_end(text, len) == len);
    if at < text.len() {
        let from = if mode is StartTok { at } else { start };
        let ahead = if at + 1 < text.len() { Some(text[at + 1]) } else { None };
        match step(mode, text[at], ahead) {
            Move::Go { mode: next, eat, newline } => {
                let to = if eat { at + 1 } else { at };
                let l = if newline { line + 1 } else { line };
                lemma_run(text, next, from, to, l);
                if in_token(next) {
                    lemma_token_run(text, next, from, to, l);
                } else {
                    lemma_skip_run(text, next, from, to, l);
                }
                if eat {
                    assert(text.subrange(at, end).drop_first() == text.subrange(at + 1, end));
                }
            },
            Move::Emit { eat } => {},
        }
    } else {
        assert(text.subrange(at, at) == Seq::<char>::empty());
    }
}

/// A call hands out the pretoken that starts behind the whitespace and the
/// comments at the resume position and ends where a pretoken with its first
/// code point ends. Where whitespace and comments run to the end of the
/// input, it hands out nothing.
pub proof fn lemma_scan_span(st: Scan)
    requires
        st.wf(),
    ensures
        scan(st).span == span_from(st.text, pretoken_start(st.text, st.at)),
{
    lemma_skip_run(st.text, Mode::Ws, st.at, st.at, st.line);
}

/// The line counter moves on by the line breaks that the call reads. The one
/// exception is a line break that starts a pretoken, as one right behind a
/// `/` that opens no comment does: it is not counted.
pub proof fn lemma_scan_lines(st: Scan)
    requires
        st.wf(),
    ensures
        ({
            let o = scan(st);
            o.state.line == st.line + line_breaks(st.text.subrange(st.at, o.state.at))
                - leading_break(st.text, o.span)
        }),
{
    lemma_skip_run(st.text, Mode::Ws, st.at, st.at, st.line);
}

} // verus!
