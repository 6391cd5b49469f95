use pretok::{Pretoken, Pretokenizer};

const INPUTS: [&str; 12] = [
    "",
    "   \n\t ",
    "Hello World!",
    "x/*y*/z",
    "a+b c// stuff\nd",
    "  x // foo\ny\n   z",
    "\"one\ntwo\" three /* four\nfive */ six\n\"seven",
    "/ x /\"y\" z/",
    "/* a **/ b",
    "\u{e9}t\u{e9} /* \u{1f600} */ \"na\u{ef}ve\" \u{65e5}\u{672c}\n\u{8a9e}//\u{fc}",
    "\" \\",
    "a\\\"b\"c\\\"d\" e",
];

fn all(input: &str) -> Vec<Pretoken<'_>> {
    let mut pt = Pretokenizer::new(input);
    let mut v = Vec::new();
    // No input has more pretokens than bytes.
    for _ in 0..=input.len() {
        match pt.next() {
            Some(t) => v.push(t),
            None => return v,
        }
    }
    panic!("the scan of {:?} did not end", input);
}

#[test]
fn every_scan_ends_and_stays_ended() {
    for input in INPUTS {
        let mut pt = Pretokenizer::new(input);
        let mut calls = 0;
        while pt.next().is_some() {
            calls += 1;
            assert!(calls <= input.len());
        }
        for _ in 0..3 {
            assert_eq!(pt.next(), None);
        }
    }
}

#[test]
fn end_of_input_is_final_after_trailing_whitespace() {
    let mut pt = Pretokenizer::new("a  \n ");
    assert_eq!(pt.next(), Some(Pretoken { s: "a", line: 1, offset: 0 }));
    assert_eq!(pt.next(), None);
    assert_eq!(pt.next(), None);
    assert_eq!(pt.collect(), vec![]);
}

#[test]
fn pretokens_and_gaps_make_up_the_input() {
    for input in INPUTS {
        let mut rebuilt = String::new();
        let mut from = 0;
        for t in all(input) {
            assert!(from <= t.offset);
            assert!(!t.s.is_empty());
            rebuilt.push_str(&input[from..t.offset]);
            rebuilt.push_str(t.s);
            from = t.offset + t.s.len();
        }
        rebuilt.push_str(&input[from..]);
        assert_eq!(rebuilt, input);
    }
}

#[test]
fn pretokens_sit_at_their_offsets() {
    for input in INPUTS {
        for t in all(input) {
            assert_eq!(&input[t.offset..t.offset + t.s.len()], t.s);
        }
    }
}

#[test]
fn lines_never_go_back() {
    for input in INPUTS {
        let mut line = 1;
        for t in all(input) {
            assert!(line <= t.line);
            line = t.line;
        }
        assert!(line <= 1 + input.matches('\n').count());
    }
}

#[test]
fn line_is_the_line_of_the_last_code_point() {
    let input = "\"one\ntwo\" three /* four\nfive */ six\n\"seven";
    let lines: Vec<usize> = all(input).iter().map(|t| t.line).collect();
    assert_eq!(lines, vec![2, 2, 3, 4]);
    for t in all(input) {
        let end = t.offset + t.s.len();
        assert_eq!(t.line, 1 + input[..end].matches('\n').count());
    }
}

#[test]
fn collect_is_the_calls_one_by_one() {
    for input in INPUTS {
        assert_eq!(Pretokenizer::new(input).collect(), all(input));
    }
}
