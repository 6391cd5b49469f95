//! The pretokens of a whole scan, one call after the other.

use crate::bytes::{byte_len, byte_offset, lemma_span_bytes};
use crate::laws::{lemma_end_is_final, lemma_scan, lemma_scan_offsets};
use crate::machine::{scan, Scan};
use crate::pretoken::PretokenView;
use vstd::prelude::*;
use vstd::utf8::encode_utf8;

verus! {

/// The pretokens that the calls from state `st` on hand out, in their order.
pub open spec fn pretokens(st: Scan) -> Seq<PretokenView>
    decreases st.text.len() - st.at,
    when st.wf()
    via pretokens_end
{
    match scan(st).pretoken() {
        Some(t) => seq![t] + pretokens(scan(st).state),
        None => Seq::empty(),
    }
}

/// A call that hands out a pretoken moves the resume position forward, so
/// the pretokens run out.
#[via_fn]
proof fn pretokens_end(st: Scan) {
    lemma_scan(st);
}

/// The state that `n` calls from state `st` on leave.
pub open spec fn after(st: Scan, n: nat) -> Scan
    decreases n,
{
    if n == 0 {
        st
    } else {
        after(scan(st).state, (n - 1) as nat)
    }
}

/// The input put together again from the pretokens and the gaps between them.
/// A gap is what `input` holds from `from`, where the pretoken before it ended,
/// up to the offset of the pretoken behind it; the last gap runs to the end of
/// the input.
pub open spec fn reassemble(input: Seq<u8>, tokens: Seq<PretokenView>, from: int) -> Seq<u8>
    decreases tokens.len(),
{
    if tokens.len() == 0 {
        input.subrange(from, input.len() as int)
    } else {
        let t = tokens[0];
        input.subrange(from, t.offset) + encode_utf8(t.s) + reassemble(
            input,
            tokens.drop_first(),
            t.offset + byte_len(t.s),
        )
    }
}

/// Calls keep a state well formed and its input the same, and move neither
/// the resume position nor the line counter back.
pub proof fn lemma_after(st: Scan, n: nat)
    requires
        st.wf(),
    ensures
        after(st, n).wf(),
        after(st, n).text == st.text,
        st.at <= after(st, n).at,
        st.line <= after(st, n).line,
    decreases n,
{
    if n > 0 {
        lemma_scan(st);
        lemma_after(scan(st).state, (n - 1) as nat);
    }
}

/// There are no more pretokens than code points left to read.
pub proof fn lemma_pretokens_count(st: Scan)
    requires
        st.wf(),
    ensures
        pretokens(st).len() <= st.text.len() - st.at,
    decreases st.text.len() - st.at,
{
    lemma_scan(st);
    if scan(st).pretoken() is Some {
        lemma_pretokens_count(scan(st).state);
    }
}

/// At the end of the input calls hand out nothing and change nothing.
pub proof fn lemma_stays_at_end(st: Scan, n: nat)
    requires
        st.wf(),
        st.at_end(),
    ensures
        after(st, n) == st,
        scan(st).pretoken() is None,
        pretokens(st).len() == 0,
    decreases n,
{
    lemma_end_is_final(st);
    if n > 0 {
        lemma_stays_at_end(st, (n - 1) as nat);
    }
}

/// Every scan comes to an end, and the end is final: the call with number `n`,
/// counted from 0, hands out the pretoken with number `n` while there is one
/// and nothing from then on. Once a call has handed out nothing the scanner
/// stands at the end of the input, and no call moves it.
pub proof fn lemma_calls(st: Scan, n: nat)
    requires
        st.wf(),
    ensures
        scan(after(st, n)).pretoken() == if n < pretokens(st).len() {
            Some(pretokens(st)[n as int])
        } else {
            None
        },
        n > pretokens(st).len() ==> after(st, n).at_end() && after(st, n + 1) == after(st, n),
    decreases n,
{
    lemma_scan(st);
    let next = scan(st).state;
    if n > 0 {
        lemma_calls(next, (n - 1) as nat);
        if scan(st).pretoken() is Some {
            assert(pretokens(st).drop_first() == pretokens(next));
        } else {
            lemma_stays_at_end(next, (n - 1) as nat);
            lemma_stays_at_end(next, n);
        }
    }
}

/// No pretoken reports a line in front of the line that the scan started on.
pub proof fn lemma_lines_from(st: Scan, i: int)
    requires
        st.wf(),
        0 <= i < pretokens(st).len(),
    ensures
        st.line <= pretokens(st)[i].line,
    decreases i,
{
    lemma_scan(st);
    if i > 0 {
        lemma_lines_from(scan(st).state, i - 1);
    }
}

/// The lines that successive pretokens report never go back.
pub proof fn lemma_lines_ascend(st: Scan, i: int, j: int)
    requires
        st.wf(),
        0 <= i <= j < pretokens(st).len(),
    ensures
        pretokens(st)[i].line <= pretokens(st)[j].line,
    decreases i,
{
    lemma_scan(st);
    if i > 0 {
        lemma_lines_ascend(scan(st).state, i - 1, j - 1);
    } else if j > 0 {
        lemma_lines_from(scan(st).state, j - 1);
    }
}

/// The pretokens lie in the input one behind the other: none is empty, each
/// sits at its offset, no earlier than the resume position, and the next one
/// starts no earlier than it ends.
pub proof fn lemma_pretokens_in_place(st: Scan, i: int)
    requires
        st.wf(),
        0 <= i < pretokens(st).len(),
    ensures
        ({
            let t = pretokens(st)[i];
            let input = encode_utf8(st.text);
            &&& t.s.len() > 0
            &&& byte_offset(st.text, st.at) <= t.offset
            &&& t.offset + byte_len(t.s) <= input.len()
            &&& input.subrange(t.offset, t.offset + byte_len(t.s)) == encode_utf8(t.s)
            &&& i + 1 < pretokens(st).len() ==> t.offset + byte_len(t.s) <= pretokens(st)[i
                + 1].offset
        }),
    decreases st.text.len() - st.at,
{
    lemma_scan(st);
    lemma_scan_offsets(st);
    let next = scan(st).state;
    if i > 0 {
        lemma_pretokens_in_place(next, i - 1);
    } else if pretokens(st).len() > 1 {
        lemma_pretokens_in_place(next, 0);
    }
}

/// The pretokens from state `st` on and the gaps between them make up the
/// input from the resume position on, byte for byte.
pub proof fn lemma_reassemble(st: Scan)
    requires
        st.wf(),
    ensures
        reassemble(encode_utf8(st.text), pretokens(st), byte_offset(st.text, st.at))
            == encode_utf8(st.text).subrange(byte_offset(st.text, st.at), byte_len(st.text)),
    decreases st.text.len() - st.at,
{
    lemma_scan(st);
    let input = encode_utf8(st.text);
    let from = byte_offset(st.text, st.at);
    lemma_span_bytes(st.text, st.at, st.text.len() as int);
    assert(st.text.take(st.text.len() as int) == st.text);
    match scan(st).span {
        Some(span) => {
            let next = scan(st).state;
            let t = scan(st).pretoken().unwrap();
            lemma_reassemble(next);
            lemma_span_bytes(st.text, st.at, span.start);
            lemma_span_bytes(st.text, span.start, span.end);
            lemma_span_bytes(st.text, span.end, st.text.len() as int);
            assert(pretokens(st).drop_first() == pretokens(next));
            assert(input.subrange(from, t.offset) + encode_utf8(t.s) + input.subrange(
                byte_offset(st.text, span.end),
                byte_len(st.text),
            ) == input.subrange(from, byte_len(st.text)));
        },
        None => {},
    }
}

/// The pretokens of a whole input and the gaps between them, each pretoken
/// put at its offset, make up the input again.
pub proof fn lemma_reconstruction(text: Seq<char>)
    requires
        text.len() < usize::MAX,
    ensures
        reassemble(encode_utf8(text), pretokens(Scan::start(text)), 0) == encode_utf8(text),
{
    lemma_reassemble(Scan::start(text));
    assert(text.take(0) == Seq::<char>::empty());
    assert(encode_utf8(text).subrange(0, byte_len(text)) == encode_utf8(text));
}

} // verus!
