use pretok::Pretoken;
use strcursor::StrCursor;

#[test]
fn new_takes_the_slice_between_the_cursors() {
    let s = "hello world";
    let start = StrCursor::new_at_start(s);
    let mut end = start;
    for _ in 0..5 {
        end.seek_next_cp();
    }
    let t = Pretoken::new(start, end, 3, 7);
    assert_eq!(t.s, "hello");
    assert_eq!(t.line, 3);
    assert_eq!(t.offset, 7);
}

#[test]
fn new_takes_the_cursors_in_either_order() {
    let s = "gr\u{fc}\u{df}e dich";
    let mut start = StrCursor::new_at_start(s);
    start.seek_next_cp();
    let mut end = start;
    for _ in 0..4 {
        end.seek_next_cp();
    }
    assert_eq!(Pretoken::new(start, end, 1, 1), Pretoken { s: "r\u{fc}\u{df}e", line: 1, offset: 1 });
    assert_eq!(Pretoken::new(end, start, 1, 1), Pretoken { s: "r\u{fc}\u{df}e", line: 1, offset: 1 });
}

#[test]
fn new_with_one_cursor_twice_is_empty() {
    let at = StrCursor::new_at_end("abc");
    assert_eq!(Pretoken::new(at, at, 1, 3), Pretoken { s: "", line: 1, offset: 3 });
}

#[test]
fn pretokens_compare_by_all_three_fields() {
    let t = Pretoken { s: "a", line: 1, offset: 0 };
    assert_eq!(t.clone(), t);
    assert_ne!(t, Pretoken { s: "b", line: 1, offset: 0 });
    assert_ne!(t, Pretoken { s: "a", line: 2, offset: 0 });
    assert_ne!(t, Pretoken { s: "a", line: 1, offset: 1 });
}
