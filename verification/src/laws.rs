//! What holds of every scan.

use crate::bytes::{byte_len, byte_offset, lemma_span_bytes};
use crate::machine::{patience, run, scan, step, Mode, Move, Outcome, Scan};
use vstd::prelude::*;
use vstd::utf8::encode_utf8;

verus! {

/// The modes in which a pretoken has been started.
pub open spec fn in_token(mode: Mode) -> bool {
    mode is NormalTok || mode is QuotedTok || mode is EscapeChar
}

/// A scan that is under way reads on from where it is, counts no more line
/// breaks than it reads code points, and ends in one of two ways: with a
/// pretoken that is not empty, at whose end the scanner resumes, or with
/// nothing at the end of the input.
pub proof fn lemma_run(text: Seq<char>, mode: Mode, start: int, at: int, line: int)
    requires
        0 <= start <= at <= text.len(),
        in_token(mode) ==> start < at,
    ensures
        ({
            let o = run(text, mode, start, at, line);
            &&& o.state.text == text
            &&& at <= o.state.at <= text.len()
            &&& line <= o.state.line <= line + (o.state.at - at)
            &&& o.span is None ==> o.state.at == text.len()
            &&& o.span matches Some(span) ==> {
                &&& span.start < span.end == o.state.at
                &&& if in_token(mode) {
                    span.start == start
                } else {
                    at <= span.start
                }
            }
        }),
    decreases text.len() - at, patience(mode),
{
    if at < text.len() {
        let from = if mode is StartTok { at } else { start };
        let ahead = if at + 1 < text.len() { Some(text[at + 1]) } else { None };
        match step(mode, text[at], ahead) {
            Move::Go { mode: next, eat, newline } => {
                lemma_run(
                    text,
                    next,
                    from,
                    if eat { at + 1 } else { at },
                    if newline { line + 1 } else { line },
                );
            },
            Move::Emit { eat } => {},
        }
    }
}

/// One call from a well-formed state leaves a well-formed state over the same
/// input and moves neither the resume position nor the line counter back. A
/// pretoken that it hands out is not empty, starts no earlier than the old
/// resume position and ends at the new one. A call that hands out nothing
/// leaves the scanner at the end of the input.
pub proof fn lemma_scan(st: Scan)
    requires
        st.wf(),
    ensures
        ({
            let o = scan(st);
            &&& o.state.wf()
            &&& o.state.text == st.text
            &&& st.at <= o.state.at
            &&& st.line <= o.state.line
            &&& o.span is None ==> o.state.at_end()
            &&& o.span matches Some(span) ==> st.at <= span.start < span.end == o.state.at
        }),
{
    lemma_run(st.text, Mode::Ws, st.at, st.at, st.line);
}

/// The pretoken that a call hands out sits at its offset in the input, no
/// earlier than the call's resume position, and the scanner resumes right
/// behind it.
pub proof fn lemma_scan_offsets(st: Scan)
    requires
        st.wf(),
        scan(st).span is Some,
    ensures
        ({
            let o = scan(st);
            let t = o.pretoken().unwrap();
            let input = encode_utf8(st.text);
            &&& t.s.len() > 0
            &&& byte_offset(st.text, st.at) <= t.offset
            &&& t.offset + byte_len(t.s) == byte_offset(st.text, o.state.at) <= input.len()
            &&& input.subrange(t.offset, t.offset + byte_len(t.s)) == encode_utf8(t.s)
        }),
{
    lemma_scan(st);
    let span = scan(st).span.unwrap();
    lemma_span_bytes(st.text, st.at, span.start);
    lemma_span_bytes(st.text, span.start, span.end);
}

/// At the end of the input a call hands out nothing and changes nothing.
pub proof fn lemma_end_is_final(st: Scan)
    requires
        st.wf(),
        st.at_end(),
    ensures
        scan(st) == (Outcome { span: None, state: st }),
{
}

} // verus!
