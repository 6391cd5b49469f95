use pretok::{Pretoken, Pretokenizer};

fn tok(s: &str, line: usize, offset: usize) -> Option<Pretoken<'_>> {
    Some(Pretoken { s, line, offset })
}

#[test]
fn whitespace_separates_pretokens() {
    let mut pt = Pretokenizer::new("Hello World!");
    assert_eq!(pt.next(), tok("Hello", 1, 0));
    assert_eq!(pt.next(), tok("World!", 1, 6));
    assert_eq!(pt.next(), None);
}

#[test]
fn block_comment_separates_pretokens() {
    let mut pt = Pretokenizer::new("x/*y*/z");
    assert_eq!(pt.next(), tok("x", 1, 0));
    assert_eq!(pt.next(), tok("z", 1, 6));
    assert_eq!(pt.next(), None);
}

#[test]
fn trailing_line_comment_gives_nothing() {
    let mut pt = Pretokenizer::new("x\ny//z");
    assert_eq!(pt.next(), tok("x", 1, 0));
    assert_eq!(pt.next(), tok("y", 2, 2));
    assert_eq!(pt.next(), None);
}

#[test]
fn quoted_string_keeps_its_spaces() {
    let mut pt = Pretokenizer::new("Hello \"W o r l d!\"");
    assert_eq!(pt.next(), tok("Hello", 1, 0));
    assert_eq!(pt.next(), tok("\"W o r l d!\"", 1, 6));
    assert_eq!(pt.next(), None);
}

#[test]
fn quoted_string_splits_its_neighbours() {
    let mut pt = Pretokenizer::new("x+\"h e l l o\"+z");
    assert_eq!(pt.next(), tok("x+", 1, 0));
    assert_eq!(pt.next(), tok("\"h e l l o\"", 1, 2));
    assert_eq!(pt.next(), tok("+z", 1, 13));
    assert_eq!(pt.next(), None);
}

#[test]
fn quoted_string_over_two_lines_reports_the_last() {
    let mut pt = Pretokenizer::new("\" x\nx\"");
    assert_eq!(pt.next(), tok("\" x\nx\"", 2, 0));
    assert_eq!(pt.next(), None);
}

#[test]
fn empty_input_gives_nothing() {
    let mut pt = Pretokenizer::new("");
    assert_eq!(pt.next(), None);
}

#[test]
fn input_ending_in_an_escape_is_one_pretoken() {
    let input = "\" \\";
    let mut pt = Pretokenizer::new(input);
    assert_eq!(pt.next(), tok(input, 1, 0));
    assert_eq!(pt.next(), None);
}

#[test]
fn unclosed_quote_runs_to_the_end() {
    let mut pt = Pretokenizer::new("a \"b c");
    assert_eq!(pt.next(), tok("a", 1, 0));
    assert_eq!(pt.next(), tok("\"b c", 1, 2));
    assert_eq!(pt.next(), None);
}

#[test]
fn escaped_quote_does_not_close() {
    let mut pt = Pretokenizer::new("\"a\\\"b\" c");
    assert_eq!(pt.next(), tok("\"a\\\"b\"", 1, 0));
    assert_eq!(pt.next(), tok("c", 1, 7));
    assert_eq!(pt.next(), None);
}

#[test]
fn escaped_backslash_lets_the_quote_close() {
    let mut pt = Pretokenizer::new("\"a\\\\\"b");
    assert_eq!(pt.next(), tok("\"a\\\\\"", 1, 0));
    assert_eq!(pt.next(), tok("b", 1, 5));
    assert_eq!(pt.next(), None);
}

#[test]
fn escaped_line_break_counts_a_line() {
    let mut pt = Pretokenizer::new("\"a\\\nb\" c");
    assert_eq!(pt.next(), tok("\"a\\\nb\"", 2, 0));
    assert_eq!(pt.next(), tok("c", 2, 7));
    assert_eq!(pt.next(), None);
}

#[test]
fn unclosed_block_comment_gives_nothing() {
    let mut pt = Pretokenizer::new("a/*b");
    assert_eq!(pt.next(), tok("a", 1, 0));
    assert_eq!(pt.next(), None);
    let mut pt = Pretokenizer::new("/* b *");
    assert_eq!(pt.next(), None);
}

#[test]
fn block_comment_counts_its_lines() {
    let mut pt = Pretokenizer::new("/*\n\n*/x");
    assert_eq!(pt.next(), tok("x", 3, 6));
    assert_eq!(pt.next(), None);
}

#[test]
fn line_break_behind_a_star_counts_a_line() {
    let mut pt = Pretokenizer::new("/* *\n */ x");
    assert_eq!(pt.next(), tok("x", 2, 9));
    assert_eq!(pt.next(), None);
}

#[test]
fn second_star_hides_the_closing_slash() {
    let mut pt = Pretokenizer::new("/* a **/ b");
    assert_eq!(pt.next(), None);
    let mut pt = Pretokenizer::new("/* a **/ b */ c");
    assert_eq!(pt.next(), tok("c", 1, 14));
    assert_eq!(pt.next(), None);
}

#[test]
fn block_comments_do_not_nest() {
    let mut pt = Pretokenizer::new("/* a /* b */ c */");
    assert_eq!(pt.next(), tok("c", 1, 13));
    assert_eq!(pt.next(), tok("*/", 1, 15));
    assert_eq!(pt.next(), None);
}

#[test]
fn lonely_slash_stays_in_the_pretoken() {
    let mut pt = Pretokenizer::new("a/b c");
    assert_eq!(pt.next(), tok("a/b", 1, 0));
    assert_eq!(pt.next(), tok("c", 1, 4));
    assert_eq!(pt.next(), None);
}

#[test]
fn slash_at_the_end_stays_in_the_pretoken() {
    let mut pt = Pretokenizer::new("a/");
    assert_eq!(pt.next(), tok("a/", 1, 0));
    assert_eq!(pt.next(), None);
}

#[test]
fn comment_ends_a_pretoken() {
    let mut pt = Pretokenizer::new("a//b\nc/*d*/e");
    assert_eq!(pt.next(), tok("a", 1, 0));
    assert_eq!(pt.next(), tok("c", 2, 5));
    assert_eq!(pt.next(), tok("e", 2, 11));
    assert_eq!(pt.next(), None);
}

#[test]
fn pretoken_starts_behind_a_leading_slash() {
    let mut pt = Pretokenizer::new("/x");
    assert_eq!(pt.next(), tok("x", 1, 1));
    assert_eq!(pt.next(), None);
    let mut pt = Pretokenizer::new("a /\"b\"");
    assert_eq!(pt.next(), tok("a", 1, 0));
    assert_eq!(pt.next(), tok("\"b\"", 1, 3));
    assert_eq!(pt.next(), None);
}

#[test]
fn code_point_behind_a_leading_slash_starts_the_pretoken() {
    let mut pt = Pretokenizer::new("/ x y");
    assert_eq!(pt.next(), tok(" x", 1, 1));
    assert_eq!(pt.next(), tok("y", 1, 4));
    assert_eq!(pt.next(), None);
}

#[test]
fn lone_slash_gives_nothing() {
    let mut pt = Pretokenizer::new("/");
    assert_eq!(pt.next(), None);
    let mut pt = Pretokenizer::new("a /");
    assert_eq!(pt.next(), tok("a", 1, 0));
    assert_eq!(pt.next(), None);
}

#[test]
fn tabs_and_line_breaks_separate_pretokens() {
    let mut pt = Pretokenizer::new("a\tb\nc");
    assert_eq!(pt.next(), tok("a", 1, 0));
    assert_eq!(pt.next(), tok("b", 1, 2));
    assert_eq!(pt.next(), tok("c", 2, 4));
    assert_eq!(pt.next(), None);
}

#[test]
fn carriage_return_is_no_whitespace() {
    let mut pt = Pretokenizer::new("a\r\nb");
    assert_eq!(pt.next(), tok("a\r", 1, 0));
    assert_eq!(pt.next(), tok("b", 2, 3));
    assert_eq!(pt.next(), None);
}

#[test]
fn offsets_count_bytes() {
    let mut pt = Pretokenizer::new("\u{e9} \u{fc}");
    assert_eq!(pt.next(), tok("\u{e9}", 1, 0));
    assert_eq!(pt.next(), tok("\u{fc}", 1, 3));
    assert_eq!(pt.next(), None);
    let mut pt = Pretokenizer::new("\u{65e5}\u{672c}\u{8a9e} x");
    assert_eq!(pt.next(), tok("\u{65e5}\u{672c}\u{8a9e}", 1, 0));
    assert_eq!(pt.next(), tok("x", 1, 10));
    assert_eq!(pt.next(), None);
    let mut pt = Pretokenizer::new("\u{1f600}a\n\u{1f600}");
    assert_eq!(pt.next(), tok("\u{1f600}a", 1, 0));
    assert_eq!(pt.next(), tok("\u{1f600}", 2, 6));
    assert_eq!(pt.next(), None);
}

#[test]
fn slash_in_front_of_a_wide_code_point() {
    let mut pt = Pretokenizer::new("a/\u{e9}/");
    assert_eq!(pt.next(), tok("a/\u{e9}/", 1, 0));
    assert_eq!(pt.next(), None);
}

#[test]
fn collect_hands_out_what_is_left() {
    let pt = Pretokenizer::new("a+b c// stuff\nd");
    let all = pt.collect();
    assert_eq!(
        all,
        vec![
            Pretoken { s: "a+b", line: 1, offset: 0 },
            Pretoken { s: "c", line: 1, offset: 4 },
            Pretoken { s: "d", line: 2, offset: 14 },
        ]
    );
    let mut pt = Pretokenizer::new("a b c");
    assert_eq!(pt.next(), tok("a", 1, 0));
    assert_eq!(
        pt.collect(),
        vec![Pretoken { s: "b", line: 1, offset: 2 }, Pretoken { s: "c", line: 1, offset: 4 }]
    );
    assert_eq!(Pretokenizer::new(" // nothing").collect(), vec![]);
}

#[test]
fn clone_goes_its_own_way() {
    let mut pt = Pretokenizer::new("a\nb c");
    assert_eq!(pt.next(), tok("a", 1, 0));
    let mut other = pt.clone();
    assert_eq!(pt.next(), tok("b", 2, 2));
    assert_eq!(pt.next(), tok("c", 2, 4));
    assert_eq!(other.next(), tok("b", 2, 2));
    assert_eq!(pt.next(), None);
    assert_eq!(other.next(), tok("c", 2, 4));
    assert_eq!(other.next(), None);
}

#[test]
fn quoted_string_and_both_comments() {
    let mut pt = Pretokenizer::new("x+\"h e l l o\"+z // and\n/* so */ on");
    assert_eq!(pt.next(), tok("x+", 1, 0));
    assert_eq!(pt.next(), tok("\"h e l l o\"", 1, 2));
    assert_eq!(pt.next(), tok("+z", 1, 13));
    assert_eq!(pt.next(), tok("on", 2, 32));
    assert_eq!(pt.next(), None);
}

#[test]
fn uncounted_line_break_behind_a_slash() {
    let mut pt = Pretokenizer::new("/\nx y");
    assert_eq!(pt.next(), tok("\nx", 1, 1));
    assert_eq!(pt.next(), tok("y", 1, 4));
    assert_eq!(pt.next(), None);
}
