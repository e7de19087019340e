use iamcommitted::text::{
    chars_of, contains, contains_any, find_from, is_whitespace, join, lower_ascii,
    lower_ascii_all, matches_at, remove_char, replace_all, split_lines,
    starts_with_ignoring_case, string_of, trim,
};

fn chars(text: &str) -> Vec<char> {
    text.chars().collect()
}

fn text(chars: &[char]) -> String {
    chars.iter().collect()
}

fn all_texts(pieces: &[&str], depth: usize) -> Vec<String> {
    let mut texts = vec![String::new()];
    let mut level = vec![String::new()];
    for _ in 0..depth {
        let mut next = Vec::new();
        for text in &level {
            for piece in pieces {
                next.push(format!("{}{}", text, piece));
            }
        }
        texts.extend(next.iter().cloned());
        level = next;
    }
    texts
}

#[test]
fn whitespace_is_what_unicode_calls_white_space() {
    for code in 0..=0x10ffff_u32 {
        if let Some(c) = char::from_u32(code) {
            assert_eq!(is_whitespace(c), c.is_whitespace(), "on U+{:04X}", code);
        }
    }
}

#[test]
fn only_ascii_capitals_are_lowered() {
    for code in 0..=0x10ffff_u32 {
        if let Some(c) = char::from_u32(code) {
            assert_eq!(lower_ascii(c), c.to_ascii_lowercase(), "on U+{:04X}", code);
        }
    }
    assert_eq!(text(&lower_ascii_all(&chars("AbC-ÄÖ_Z9"))), "abc-ÄÖ_z9");
}

#[test]
fn characters_and_strings_turn_into_each_other() {
    for sample in ["", "a", "größer 数字 🎉\n"] {
        assert_eq!(chars_of(sample), chars(sample));
        assert_eq!(string_of(&chars(sample)), sample);
    }
}

#[test]
fn trimming_drops_whitespace_at_both_ends_only() {
    assert_eq!(text(&trim(&chars("  a b  "))), "a b");
    assert_eq!(text(&trim(&chars("\n\t"))), "");
    assert_eq!(text(&trim(&chars(""))), "");
    for sample in all_texts(&[" ", "\n", "a", "\u{3000}", "\u{200b}"], 5) {
        assert_eq!(text(&trim(&chars(&sample))), sample.trim(), "on {:?}", sample);
    }
}

#[test]
fn replacing_goes_from_left_to_right_without_overlap() {
    assert_eq!(text(&replace_all(&chars("aaa"), &chars("aa"), &chars("b"))), "ba");
    assert_eq!(text(&replace_all(&chars("abab"), &chars("ab"), &chars("abab"))), "abababab");
    assert_eq!(text(&replace_all(&chars("abc"), &chars("abcd"), &chars("x"))), "abc");
    for sample in all_texts(&["a", "b", "ab", "c"], 5) {
        for pattern in ["a", "ab", "aba", "bb", "abab"] {
            assert_eq!(
                text(&replace_all(&chars(&sample), &chars(pattern), &chars("-"))),
                sample.replace(pattern, "-"),
                "on {:?} and {:?}",
                sample,
                pattern
            );
        }
    }
}

#[test]
fn empty_pattern_is_found_nowhere_by_replacing() {
    assert_eq!(text(&replace_all(&chars("abc"), &chars(""), &chars("x"))), "abc");
    assert_eq!(text(&replace_all(&chars(""), &chars(""), &chars("x"))), "");
}

#[test]
fn removing_a_character_removes_each_of_its_places() {
    assert_eq!(text(&remove_char(&chars("`a``b`"), '`')), "ab");
    assert_eq!(text(&remove_char(&chars("ab"), '`')), "ab");
    assert_eq!(text(&remove_char(&chars("```"), '`')), "");
}

#[test]
fn searching_finds_the_first_place() {
    assert!(matches_at(&chars("abcabc"), 3, &chars("abc")));
    assert!(!matches_at(&chars("abcabc"), 4, &chars("abc")));
    assert!(matches_at(&chars("abc"), 3, &chars("")));
    assert!(!matches_at(&chars("abc"), 4, &chars("")));
    assert_eq!(find_from(&chars("abcabc"), &chars("bc"), 0), Some(1));
    assert_eq!(find_from(&chars("abcabc"), &chars("bc"), 2), Some(4));
    assert_eq!(find_from(&chars("abcabc"), &chars("bc"), 5), None);
    assert_eq!(find_from(&chars("abc"), &chars(""), 3), Some(3));
    assert_eq!(find_from(&chars("abc"), &chars(""), 4), None);
    for sample in all_texts(&["a", "b", "ab"], 5) {
        for pattern in ["", "a", "ba", "bab", "aab"] {
            assert_eq!(contains(&chars(&sample), &chars(pattern)), sample.contains(pattern));
            assert_eq!(
                find_from(&chars(&sample), &chars(pattern), 0),
                sample.find(pattern),
                "on {:?} and {:?}",
                sample,
                pattern
            );
        }
    }
}

#[test]
fn one_word_of_several_is_enough() {
    let words = vec![chars("fix"), chars("bug")];
    assert!(contains_any(&chars("a bug"), &words));
    assert!(contains_any(&chars("prefix"), &words));
    assert!(!contains_any(&chars("feature"), &words));
    assert!(!contains_any(&chars("a bug"), &Vec::new()));
}

#[test]
fn prefix_is_compared_without_regard_to_ascii_case() {
    assert!(starts_with_ignoring_case(&chars("FIXES it"), &chars("Fixes ")));
    assert!(starts_with_ignoring_case(&chars("fixes "), &chars("Fixes ")));
    assert!(!starts_with_ignoring_case(&chars("fixes"), &chars("Fixes ")));
    assert!(!starts_with_ignoring_case(&chars("Fixed it"), &chars("Fixes ")));
    assert!(starts_with_ignoring_case(&chars("x"), &chars("")));
    // Letters beyond ASCII are compared as they are.
    assert!(!starts_with_ignoring_case(&chars("ÄNDERT"), &chars("ändert")));
}

#[test]
fn lines_are_split_at_line_feeds() {
    for sample in all_texts(&["a", "\n", "b\r", " "], 5) {
        let lines: Vec<String> = split_lines(&chars(&sample)).iter().map(|l| text(l)).collect();
        let expected: Vec<String> = sample.split('\n').map(|l| l.to_string()).collect();
        assert_eq!(lines, expected, "on {:?}", sample);
    }
}

#[test]
fn parts_are_joined_with_the_separator_between_them() {
    let parts = vec![chars("a"), chars(""), chars("bc")];
    assert_eq!(text(&join(&parts, &chars("\n\n"))), "a\n\n\n\nbc");
    assert_eq!(text(&join(&parts[..1].to_vec(), &chars(", "))), "a");
    assert_eq!(text(&join(&Vec::new(), &chars(", "))), "");
}
