use std::collections::VecDeque;

use terminal::tail::read_output_chunks_tail;

fn chunks(texts: &[&str]) -> VecDeque<String> {
    texts.iter().map(|t| t.to_string()).collect()
}

fn tail(texts: &[&str], max: usize) -> (String, bool) {
    read_output_chunks_tail(&chunks(texts), max)
}

#[test]
fn output_tail_respects_byte_limit_inside_large_chunk() {
    let mut output = VecDeque::new();
    output.push_back("prefix".to_string());
    output.push_back("abcdefghijklmnopqrstuvwxyz".to_string());

    let (tail, truncated) = read_output_chunks_tail(&output, 8);

    assert_eq!(tail, "stuvwxyz");
    assert!(truncated);
}

#[test]
fn no_budget_gives_no_output() {
    assert_eq!(tail(&[], 0), (String::new(), false));
    assert_eq!(tail(&["a"], 0), (String::new(), true));
    assert_eq!(tail(&[""], 0), (String::new(), true));
}

#[test]
fn output_that_fits_is_read_whole() {
    assert_eq!(tail(&[], 5), (String::new(), false));
    assert_eq!(tail(&["ab", "", "cd"], 5), ("abcd".to_string(), false));
    assert_eq!(tail(&["ab", "cd"], 4), ("abcd".to_string(), false));
}

#[test]
fn tail_spans_chunks() {
    assert_eq!(tail(&["abc", "def", "ghi"], 5), ("efghi".to_string(), true));
    assert_eq!(tail(&["abc", "def", "ghi"], 6), ("defghi".to_string(), true));
}

#[test]
fn spent_budget_counts_as_truncated() {
    assert_eq!(tail(&["", "abc"], 3), ("abc".to_string(), true));
    assert_eq!(tail(&["abc", ""], 3), ("abc".to_string(), false));
}

#[test]
fn tail_is_cut_between_characters() {
    assert_eq!(tail(&["\u{e9}\u{20ac}"], 4), ("\u{20ac}".to_string(), true));
    assert_eq!(tail(&["\u{e9}\u{20ac}"], 2), (String::new(), true));
    assert_eq!(tail(&["\u{1f600}x"], 4), ("x".to_string(), true));
    assert_eq!(tail(&["a\u{1f600}", "x"], 4), ("x".to_string(), true));
    assert_eq!(tail(&["a\u{1f600}", "x"], 5), ("\u{1f600}x".to_string(), true));
}
