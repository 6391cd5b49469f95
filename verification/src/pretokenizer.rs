//! The scanner.

use crate::bytes::{byte_len, byte_offset, lemma_byte_len_lower};
use crate::cursor::{cursor_index, cursor_origin, cursor_text};
use crate::laws::{lemma_scan, lemma_scan_offsets};
use crate::machine::{emit, patience, run, scan, Mode, Scan};
use crate::pretoken::{view_of, views, Pretoken};
use crate::shape::{
    leading_break, lemma_scan_lines, lemma_scan_span, line_breaks, pretoken_end, pretoken_start,
};
use crate::stream::pretokens;
use strcursor::StrCursor;
use vstd::prelude::*;
use vstd::utf8::encode_utf8;

verus! {

/// The `Pretokenizer` hands out the pretokens of its input one by one.
#[derive(Debug)]
pub struct Pretokenizer<'a> {
    /// Where the next call resumes.
    pos: StrCursor<'a>,
    /// The line that `pos` is on, counted from 1.
    line: usize,
}

impl<'a> View for Pretokenizer<'a> {
    type V = Scan;

    closed spec fn view(&self) -> Scan {
        Scan {
            text: cursor_text(self.pos),
            at: cursor_index(self.pos) as int,
            line: self.line as int,
        }
    }
}

impl<'a> Clone for Pretokenizer<'a> {
    /// A second scanner over the same input, in the same state. The two go
    /// on apart.
    fn clone(&self) -> (pt: Self)
        ensures
            pt == *self,
    {
        Pretokenizer { pos: self.pos, line: self.line }
    }
}

impl<'a> Pretokenizer<'a> {
    /// The scanner's state is well formed.
    pub open spec fn wf(&self) -> bool {
        self@.wf()
    }

    /// A scanner at the start of `s`, on line 1.
    pub fn new(s: &'a str) -> (pt: Pretokenizer<'a>)
        ensures
            pt@ == Scan::start(s@),
            pt.wf(),
    {
        let pos = StrCursor::new_at_start(s);
        proof {
            lemma_byte_len_lower(s@);
        }
        Pretokenizer { pos, line: 1 }
    }

    /// Ends a pretoken at `end`: the pretoken runs from the resume position
    /// to `end`, and the scanner resumes at `end`. Where `end` is the resume
    /// position there is no pretoken, and nothing changes.
    fn make_pretok(&mut self, end: StrCursor<'a>) -> (r: Option<Pretoken<'a>>)
        requires
            cursor_origin(end) == cursor_origin(old(self).pos),
            cursor_text(end) == old(self)@.text,
            old(self)@.at <= cursor_index(end),
        ensures
            final(self)@ == emit(
                old(self)@.text,
                old(self)@.at,
                cursor_index(end) as int,
                old(self)@.line,
            ).state,
            view_of(r) == emit(
                old(self)@.text,
                old(self)@.at,
                cursor_index(end) as int,
                old(self)@.line,
            ).pretoken(),
    {
        if end == self.pos {
            return None;
        }
        let start = self.pos;
        self.pos = end;
        Some(Pretoken::new(start, end, self.line, start.byte_pos()))
    }

    /// Advances to the next pretoken, skipping whitespace and comments.
    ///
    /// Returns `None` once the input is used up, and on every call after
    /// that. An unquoted pretoken ends in front of whitespace, of a quote and
    /// of a comment, and at the end of the input. A quoted pretoken ends with
    /// its closing quote, which a backslash in front of it does not let
    /// close, or unclosed at the end of the input. A comment that the input
    /// ends in comes to nothing.
    #[verifier::loop_isolation(false)]
    pub fn next(&mut self) -> (r: Option<Pretoken<'a>>)
        requires
            old(self).wf(),
        ensures
            // The call is one scan of the state machine.
            final(self)@ == scan(old(self)@).state,
            view_of(r) == scan(old(self)@).pretoken(),
            // The scanner stays well formed and never moves back.
            final(self).wf(),
            final(self)@.text == old(self)@.text,
            old(self)@.at <= final(self)@.at,
            old(self)@.line <= final(self)@.line,
            // The end of the input is final.
            r is None ==> final(self)@.at_end(),
            old(self)@.at_end() ==> r is None && final(self)@ == old(self)@,
            // The pretoken is the next one that the input holds. It is not
            // empty, and the scanner resumes behind it.
            r is Some <==> pretoken_start(old(self)@.text, old(self)@.at) < old(self)@.text.len(),
            r matches Some(t) ==> {
                let text = old(self)@.text;
                let start = pretoken_start(text, old(self)@.at);
                &&& old(self)@.at <= start < pretoken_end(text, start) == final(self)@.at
                &&& t.s@ == text.subrange(start, final(self)@.at)
                &&& t.line == final(self)@.line
                &&& t.offset == byte_offset(text, start)
            },
            // The line counter counts the line breaks that the call reads,
            // but for one with which the pretoken starts.
            final(self)@.line == old(self)@.line + line_breaks(
                old(self)@.text.subrange(old(self)@.at, final(self)@.at),
            ) - leading_break(old(self)@.text, scan(old(self)@).span),
            // The pretoken sits in the input at its offset.
            r matches Some(t) ==> {
                let input = encode_utf8(old(self)@.text);
                &&& byte_offset(old(self)@.text, old(self)@.at) <= t.offset
                &&& t.offset + byte_len(t.s@) == byte_offset(old(self)@.text, final(self)@.at)
                &&& input.subrange(t.offset as int, t.offset + byte_len(t.s@)) == encode_utf8(
                    t.s@,
                )
            },
    {
        proof {
            lemma_scan(old(self)@);
            lemma_scan_span(old(self)@);
            lemma_scan_lines(old(self)@);
            if scan(old(self)@).span is Some {
                lemma_scan_offsets(old(self)@);
            }
        }

        // Start by skipping any whitespace.
        let mut state = Mode::Ws;

        // A local cursor that runs ahead of the resume position.
        let mut curs = self.pos;

        loop
            invariant
                cursor_text(curs) == old(self)@.text,
                cursor_text(self.pos) == old(self)@.text,
                cursor_origin(curs) == cursor_origin(self.pos),
                cursor_index(self.pos) <= cursor_index(curs) <= old(self)@.text.len()
                    < usize::MAX,
                1 <= self.line <= cursor_index(curs) + 1,
                run(
                    old(self)@.text,
                    state,
                    cursor_index(self.pos) as int,
                    cursor_index(curs) as int,
                    self.line as int,
                ) == scan(old(self)@),
            decreases old(self)@.text.len() - cursor_index(curs), patience(state),
        {
            // Code points, not grapheme clusters.
            let copt = curs.cp_after();

            if copt.is_none() {
                // End of input.
                match state {
                    Mode::NormalTok => {
                        return self.make_pretok(curs);
                    },
                    Mode::BlockComment => {
                        // A block comment that the input ends in.
                    },
                    Mode::QuotedTok | Mode::EscapeChar => {
                        // A quoted string that the input ends in.
                        return self.make_pretok(curs);
                    },
                    _ => {},
                }

                self.pos = curs;
                return None;
            }
            let c = copt.unwrap();

            match state {
                Mode::Ws => {
                    match c {
                        '\n' => {
                            self.line += 1;
                            curs.seek_next_cp();
                        },
                        ' ' | '\t' => {
                            curs.seek_next_cp();
                        },
                        '/' => {
                            state = Mode::MaybeComment;
                            curs.seek_next_cp();
                        },
                        _ => state = Mode::StartTok,
                    }
                },
                // Behind a '/': another '/' or a '*' makes it a comment.
                Mode::MaybeComment => {
                    match c {
                        '/' => {
                            state = Mode::LineComment;
                            curs.seek_next_cp();
                        },
                        '*' => {
                            state = Mode::BlockComment;
                            curs.seek_next_cp();
                        },
                        _ => state = Mode::StartTok,
                    }
                },
                Mode::LineComment => {
                    if c == '\n' {
                        // The line break is counted as whitespace.
                        state = Mode::Ws;
                    } else {
                        curs.seek_next_cp();
                    }
                },
                Mode::BlockComment => {
                    match c {
                        '*' => {
                            state = Mode::MaybeBlockCommentDone;
                        },
                        '\n' => {
                            self.line += 1;
                        },
                        _ => {},
                    }
                    curs.seek_next_cp();
                },
                Mode::MaybeBlockCommentDone => {
                    match c {
                        '/' => {
                            // The comment is closed.
                            state = Mode::Ws;
                        },
                        '\n' => {
                            self.line += 1;
                            state = Mode::BlockComment;
                        },
                        _ => {
                            state = Mode::BlockComment;
                        },
                    }
                    curs.seek_next_cp();
                },
                Mode::StartTok => {
                    // The pretoken starts here. A quoted one includes its
                    // opening quote.
                    self.pos = curs;

                    if c == '"' {
                        state = Mode::QuotedTok;
                        curs.seek_next_cp();
                    } else {
                        state = Mode::NormalTok;
                        curs.seek_next_cp();
                    }
                },
                Mode::NormalTok => {
                    match c {
                        ' ' | '\t' => {
                            // The whitespace is left for the next call.
                            return self.make_pretok(curs);
                        },
                        '\n' => {
                            // The line break is left for the next call.
                            return self.make_pretok(curs);
                        },
                        '"' => {
                            // A quote with no whitespace in front of it: the
                            // quoted string is left for the next call.
                            return self.make_pretok(curs);
                        },
                        '/' => {
                            // Maybe a comment with no whitespace in front of
                            // it: one more code point tells.
                            let mut temp = curs;
                            temp.seek_next_cp();
                            let temp_copt = temp.cp_after();
                            if temp_copt.is_none() {
                                // Nothing is behind the '/': it ends the
                                // pretoken.
                                return self.make_pretok(temp);
                            } else {
                                match temp_copt.unwrap() {
                                    '/' | '*' => {
                                        // A comment: it is left for the next
                                        // call.
                                        return self.make_pretok(curs);
                                    },
                                    _ => {
                                        // A lonely '/'.
                                        curs.seek_next_cp();
                                    },
                                }
                            }
                        },
                        _ => {
                            curs.seek_next_cp();
                        },
                    }
                },
                Mode::QuotedTok => {
                    match c {
                        '\n' => {
                            self.line += 1;
                        },
                        '"' => {
                            // The closing quote belongs to the pretoken.
                            curs.seek_next_cp();
                            return self.make_pretok(curs);
                        },
                        '\\' => {
                            // An escape: the next code point stays inside the
                            // string, be it a quote.
                            state = Mode::EscapeChar;
                        },
                        _ => {},
                    }
                    curs.seek_next_cp();
                },
                Mode::EscapeChar => {
                    if c == '\n' {
                        self.line += 1;
                    }
                    state = Mode::QuotedTok;
                    curs.seek_next_cp();
                },
            }
        }
    }

    /// Hands out all the pretokens that are left, in their order.
    pub fn collect(self) -> (v: Vec<Pretoken<'a>>)
        requires
            self.wf(),
        ensures
            views(v@) == pretokens(self@),
    {
        let mut pt = self;
        let mut v: Vec<Pretoken<'a>> = Vec::new();
        loop
            invariant
                pt.wf(),
                views(v@) + pretokens(pt@) == pretokens(self@),
            decreases pt@.text.len() - pt@.at,
        {
            let ghost before = pt@;
            let ghost seen = v@;
            match pt.next() {
                Some(t) => {
                    v.push(t);
                    assert(views(v@) == views(seen) + seq![t@]);
                    assert(views(v@) + pretokens(pt@) == views(seen) + pretokens(before));
                },
                None => {
                    assert(views(v@) + pretokens(before) == views(v@));
                    return v;
                },
            }
        }
    }
}

} // verus!
