use rust_saas::chunking::chunk_text;
use rust_saas::text::{
    chars_eq, contains_chars, i64_string, is_blank_chars, is_whitespace, lines_of, split_chars,
    starts_with, text_contains, text_eq, trim_bounds, trim_chars, trimmed, u64_string,
};

fn chars(s: &str) -> Vec<char> {
    s.chars().collect()
}

fn text(v: &[char]) -> String {
    v.iter().collect()
}

#[test]
fn integers_as_text() {
    assert_eq!(u64_string(0), "0");
    assert_eq!(u64_string(18446744073709551615), "18446744073709551615");
    assert_eq!(i64_string(-42), "-42");
    assert_eq!(i64_string(i64::MIN), "-9223372036854775808");
}

#[test]
fn trimming() {
    assert_eq!(trim_bounds(&chars("  ab c \n")), (2, 6));
    assert_eq!(text(&trim_chars(&chars("\t x \t"))), "x");
    assert_eq!(trimmed("  hi  "), "hi");
    assert!(is_blank_chars(&chars(" \n\t ")));
    assert!(!is_blank_chars(&chars(" a ")));
    assert!(is_whitespace('\n'));
    assert!(!is_whitespace('x'));
}

#[test]
fn comparing_and_searching() {
    assert!(chars_eq(&chars("abc"), &chars("abc")));
    assert!(!chars_eq(&chars("abc"), &chars("abd")));
    assert!(starts_with(&chars("docker"), &chars("dock")));
    assert!(!starts_with(&chars("do"), &chars("dock")));
    assert!(contains_chars(&chars("a needle here"), &chars("needle")));
    assert!(!contains_chars(&chars("a need"), &chars("needle")));
    assert!(text_eq("same", "same"));
    assert!(text_contains("haystack", "st"));
    assert!(!text_contains("haystack", "xy"));
}

#[test]
fn splitting_and_lines() {
    let pieces: Vec<String> = split_chars(&chars("a,,b,"), ',').iter().map(|p| text(p)).collect();
    assert_eq!(pieces, vec!["a", "", "b", ""]);
    let lines: Vec<String> = lines_of(&chars("one\r\ntwo\n\nthree\n")).iter().map(|p| text(p)).collect();
    let expected: Vec<String> = "one\r\ntwo\n\nthree\n".lines().map(|l| l.to_string()).collect();
    assert_eq!(lines, expected);
}

#[test]
fn chunks_end_at_white_space_and_overlap() {
    let cs = chunk_text("hello world foo", 8, 2);
    let ranges: Vec<(usize, usize)> = cs.iter().map(|c| (c.start_pos, c.end_pos)).collect();
    assert_eq!(ranges, vec![(0, 6), (4, 12), (10, 15), (13, 15)]);
    assert_eq!(cs[0].content, "hello ");
    assert_eq!(cs[1].content, "o world ");
    assert_eq!(cs[2].content, "d foo");
}

#[test]
fn blank_chunks_are_dropped() {
    assert!(chunk_text("   ", 2, 0).is_empty());
    assert!(chunk_text("", 512, 50).is_empty());
    let cs = chunk_text("ab", 512, 50);
    assert_eq!(cs.len(), 1);
    assert_eq!(cs[0].content, "ab");
}

#[test]
fn chunks_are_ordered_bounded_and_cover_the_text() {
    let text = "alpha beta gamma\ndelta epsilon zeta eta theta iota kappa lambda mu";
    for (size, overlap) in [(10, 3), (7, 0), (16, 15)] {
        let cs = chunk_text(text, size, overlap);
        assert!(!cs.is_empty());
        assert_eq!(cs[0].start_pos, 0);
        assert_eq!(cs.last().unwrap().end_pos, text.len());
        for (i, c) in cs.iter().enumerate() {
            assert!(c.start_pos < c.end_pos && c.end_pos <= text.len());
            assert!(c.end_pos - c.start_pos <= size);
            if i > 0 {
                assert!(cs[i - 1].start_pos < c.start_pos);
                assert!(c.start_pos <= cs[i - 1].end_pos);
            }
        }
    }
}
