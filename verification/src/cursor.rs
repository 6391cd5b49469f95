//! The string cursor that the scanner walks the input with.
//!
//! The cursor is `strcursor::StrCursor`. Nothing in this module is proved: it
//! states what the cursor's operations do, in terms of the code points of the
//! slice that the cursor walks and the number of code points to its left.

use crate::bytes::{byte_len, byte_offset};
use strcursor::StrCursor;
use vstd::math::{max, min};
use vstd::prelude::*;

verus! {

/// `strcursor::StrCursor`: a place between two code points of a string slice,
/// or at one of its ends.
#[verifier::external_type_specification]
#[verifier::external_body]
pub struct ExStrCursor<'a>(StrCursor<'a>);

/// The code points of the whole slice that the cursor walks.
pub uninterp spec fn cursor_text(c: StrCursor) -> Seq<char>;

/// The number of code points to the left of the cursor.
pub uninterp spec fn cursor_index(c: StrCursor) -> nat;

/// The cursor at the start of the slice that `c` walks. Two cursors walk the
/// same slice, and not merely slices of equal content, exactly when their
/// origins are equal.
pub uninterp spec fn cursor_origin(c: StrCursor) -> StrCursor;

/// `StrCursor::new_at_start`: a cursor over `s` with nothing to its left. It
/// is its own origin. A string slice never spans more than `isize::MAX`
/// bytes, which bounds the encoded length of the text.
pub assume_specification<'a>[ StrCursor::<'a>::new_at_start ](s: &'a str) -> (c: StrCursor<'a>)
    ensures
        cursor_text(c) == s@,
        cursor_index(c) == 0,
        cursor_origin(c) == c,
        byte_len(cursor_text(c)) <= isize::MAX,
;

/// `StrCursor::cp_after`: the code point to the right of the cursor, or
/// `None` when the cursor stands at the end of its slice. A cursor never
/// stands outside its slice.
pub assume_specification<'a>[ StrCursor::<'a>::cp_after ](c: &StrCursor<'a>) -> (r: Option<char>)
    ensures
        r is Some ==> cursor_index(*c) < cursor_text(*c).len(),
        r is Some ==> r == Some(cursor_text(*c)[cursor_index(*c) as int]),
        r is None ==> cursor_index(*c) == cursor_text(*c).len(),
;

/// `StrCursor::seek_next_cp`: moves the cursor over one code point. The
/// method panics at the end of the slice, which `requires` leaves out.
pub assume_specification<'a>[ StrCursor::<'a>::seek_next_cp ](c: &mut StrCursor<'a>)
    requires
        cursor_index(*old(c)) < cursor_text(*old(c)).len(),
    ensures
        cursor_text(*final(c)) == cursor_text(*old(c)),
        cursor_index(*final(c)) == cursor_index(*old(c)) + 1,
        cursor_origin(*final(c)) == cursor_origin(*old(c)),
;

/// `StrCursor::byte_pos`: the number of bytes to the left of the cursor.
pub assume_specification<'a>[ StrCursor::<'a>::byte_pos ](c: &StrCursor<'a>) -> (r: usize)
    ensures
        r == byte_offset(cursor_text(*c), cursor_index(*c) as int),
;

/// `StrCursor::slice_between`: the part of the slice between the two
/// cursors, whichever of them comes first, or `None` when they do not walk
/// the same slice.
pub assume_specification<'a>[ StrCursor::<'a>::slice_between ](
    c: &StrCursor<'a>,
    until: StrCursor<'a>,
) -> (r: Option<&'a str>)
    ensures
        r is Some <==> cursor_origin(*c) == cursor_origin(until),
        r is Some ==> r.unwrap()@ == cursor_text(*c).subrange(
            min(cursor_index(*c) as int, cursor_index(until) as int),
            max(cursor_index(*c) as int, cursor_index(until) as int),
        ),
;

/// `==` on `StrCursor`: two cursors are equal when they walk the same slice
/// and stand at the same place in it.
pub assume_specification<'a>[ <StrCursor<'a> as PartialEq>::eq ](
    c: &StrCursor<'a>,
    other: &StrCursor<'a>,
) -> (r: bool)
    ensures
        r == (cursor_origin(*c) == cursor_origin(*other) && cursor_index(*c) == cursor_index(
            *other,
        )),
;

} // verus!
