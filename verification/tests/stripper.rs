use iamcommitted::stripper::strip_artifacts;
use iamcommitted::CommitFormatter;
use regex::Regex;

/// The patterns of a fenced block with a language hint, of one without,
/// and of a language hint at the head of a text.
struct Patterns {
    hinted: Regex,
    bare: Regex,
    hint: Regex,
}

fn patterns() -> Patterns {
    Patterns {
        hinted: Regex::new(
            r"(?s)^\s*```(?:shell|sh|bash|plaintext|text|markdown|md)\s*\n(.*?)\n```\s*$",
        )
        .unwrap(),
        bare: Regex::new(r"(?s)^\s*```\s*\n(.*?)\n```\s*$").unwrap(),
        hint: Regex::new(r"^(?:shell|sh|bash|plaintext|text|markdown|md)\s+").unwrap(),
    }
}

/// The same cleaning, written with regular expressions.
fn clean_by_patterns(patterns: &Patterns, raw: &str) -> String {
    let mut text = raw
        .replace("<commit_message>", "")
        .replace("</commit_message>", "");
    let inner = match patterns.hinted.captures(&text) {
        Some(found) => Some(found.get(1).unwrap().as_str().to_string()),
        None => match patterns.bare.captures(&text) {
            Some(found) => Some(found.get(1).unwrap().as_str().to_string()),
            None => None,
        },
    };
    if let Some(inner) = inner {
        text = inner;
    }
    text = patterns.hint.replace(&text, "").to_string();
    text = text.replace('`', "");
    text.trim().to_string()
}

fn all_texts(pieces: &[&str], depth: usize) -> Vec<String> {
    let mut texts = vec![String::new()];
    let mut level = vec![String::new()];
    for _ in 0..depth {
        let mut next = Vec::new();
        for text in &level {
            for piece in pieces {
                next.push(format!("{}{}", text, piece));
            }
        }
        texts.extend(next.iter().cloned());
        level = next;
    }
    texts
}

#[test]
fn clean_text_is_returned_unchanged() {
    assert_eq!(strip_artifacts("fix: handle empty input"), "fix: handle empty input");
}

#[test]
fn empty_text_is_cleaned_to_empty_text() {
    assert_eq!(strip_artifacts(""), "");
    assert_eq!(strip_artifacts(" \n\t "), "");
    assert_eq!(strip_artifacts("```"), "");
}

#[test]
fn tags_are_deleted_wherever_they_stand() {
    assert_eq!(
        strip_artifacts("a<commit_message>b</commit_message>c</commit_message>"),
        "abc"
    );
    assert_eq!(strip_artifacts("</commit_message>x<commit_message>"), "x");
}

#[test]
fn fence_with_each_language_hint_gives_the_inner_content() {
    for hint in ["shell", "sh", "bash", "plaintext", "text", "markdown", "md", ""] {
        let raw = format!("```{}\n  feat: add parser  \n\nbody\n```", hint);
        assert_eq!(strip_artifacts(&raw), "feat: add parser  \n\nbody");
    }
}

#[test]
fn fence_may_stand_in_whitespace() {
    assert_eq!(strip_artifacts(" \n```sh  \n\nfix: a\n```\n\n"), "fix: a");
    assert_eq!(strip_artifacts("\t```\nfix: a\n```  "), "fix: a");
}

#[test]
fn fence_with_unknown_hint_is_not_opened() {
    assert_eq!(strip_artifacts("```rust\nfix: a\n```"), "rust\nfix: a");
}

#[test]
fn fence_needs_a_line_of_its_own_for_the_content() {
    assert_eq!(strip_artifacts("```sh\n```"), "sh");
    assert_eq!(strip_artifacts("```sh\n\n```"), "");
}

#[test]
fn content_of_a_fence_begins_after_the_blank_lines() {
    // The hint below the blank lines stands at the head of the content.
    assert_eq!(strip_artifacts("```md\n \n\nsh fix: a\n```"), "fix: a");
    // Here it does not: whitespace stands before it.
    assert_eq!(strip_artifacts("```md\n \n sh fix: a\n```"), "sh fix: a");
}

#[test]
fn only_one_fence_is_opened() {
    assert_eq!(strip_artifacts("```sh\n```\nsh fix: a\n```\n```"), "sh fix: a");
}

#[test]
fn leading_hint_needs_whitespace_behind_it() {
    assert_eq!(strip_artifacts("shell: fix it"), "shell: fix it");
    assert_eq!(strip_artifacts("shellfish"), "shellfish");
    assert_eq!(strip_artifacts("sh"), "sh");
    assert_eq!(strip_artifacts("md\n\n\tfix: a"), "fix: a");
    assert_eq!(strip_artifacts("text\u{a0}fix: a"), "fix: a");
}

#[test]
fn leading_hint_is_dropped_once() {
    assert_eq!(strip_artifacts("sh sh fix: a"), "sh fix: a");
}

#[test]
fn whitespace_of_every_kind_is_trimmed() {
    assert_eq!(
        strip_artifacts("\u{2003}\u{3000}\u{85}fix: a\u{2028}\u{1680}\r\n"),
        "fix: a"
    );
    assert_eq!(strip_artifacts("\u{200b}fix\u{200b}"), "\u{200b}fix\u{200b}");
}

#[test]
fn text_beyond_ascii_is_kept() {
    assert_eq!(
        strip_artifacts("```text\nfeat: größere Zahlen 数字 🎉\n```"),
        "feat: größere Zahlen 数字 🎉"
    );
}

#[test]
fn cleaning_twice_is_cleaning_once() {
    for raw in [
        "feat(auth): Add login functionality",
        "<commit_message>```shell\nfeat(api): Add rate limiting\n\nBody\n```</commit_message>",
        "`feat(core)`: Add new feature",
        "plaintext   refactor: x  ",
        "```\n\n```",
    ] {
        let once = strip_artifacts(raw);
        assert_eq!(strip_artifacts(&once), once);
    }
}

#[test]
fn cleaning_twice_differs_where_a_tag_or_hint_is_left() {
    let once = strip_artifacts("<commit_<commit_message>message>fix: a");
    assert_eq!(once, "<commit_message>fix: a");
    assert_eq!(strip_artifacts(&once), "fix: a");
    let once = strip_artifacts("`sh fix: a");
    assert_eq!(once, "sh fix: a");
    assert_eq!(strip_artifacts(&once), "fix: a");
    let once = strip_artifacts("  plaintext   refactor: x  ");
    assert_eq!(once, "plaintext   refactor: x");
    assert_eq!(strip_artifacts(&once), "refactor: x");
}

#[test]
fn cleaned_text_has_no_backtick_and_is_trim() {
    for raw in all_texts(&["`", " ", "\n", "a", "```", "sh"], 4) {
        let cleaned = strip_artifacts(&raw);
        assert!(!cleaned.contains('`'));
        assert_eq!(cleaned.trim(), cleaned);
    }
}

#[test]
fn cleaning_agrees_with_the_patterns_on_chosen_texts() {
    let patterns = patterns();
    for raw in [
        "",
        "```",
        "``````",
        "```\n```",
        "```\n\n```",
        "```sh\n\n\n```",
        "```sh \n a \n```",
        "```shell\nsh\n```",
        "```sh\nx\n``` \n```",
        "```sh\nx\n```\n```\n",
        "x```sh\na\n```",
        "```sh\na\n```x",
        "```shx\na\n```",
        "```SH\na\n```",
        "```\nshell\nfoo\n```",
        "```md\r\nfix\r\n```\r\n",
        "```text\u{2028}\nfix\n```",
        "<commit_message>\n```bash\nfix: a\n```\n</commit_message>",
        "```sh\n<commit_message>fix</commit_message>\n```",
        "<commit_</commit_message>message>",
        "</commit_<commit_message>message>",
        "sh\u{3000}\u{3000}fix",
        "markdown md text",
        " sh fix",
        "plaintextual fix",
    ] {
        assert_eq!(strip_artifacts(raw), clean_by_patterns(&patterns, raw), "on {:?}", raw);
    }
}

#[test]
fn cleaning_agrees_with_the_patterns_on_all_short_texts() {
    let patterns = patterns();
    let pieces = ["```", "`", "sh", "shell", "\n", " ", "a", "md "];
    for raw in all_texts(&pieces, 5) {
        assert_eq!(strip_artifacts(&raw), clean_by_patterns(&patterns, &raw), "on {:?}", raw);
    }
}

#[test]
fn cleaning_agrees_with_the_patterns_on_short_tagged_texts() {
    let pieces = ["<commit_message>", "</commit_message>", "```", "text", "\n", "\u{a0}", "<", "/"];
    let patterns = patterns();
    for raw in all_texts(&pieces, 4) {
        assert_eq!(strip_artifacts(&raw), clean_by_patterns(&patterns, &raw), "on {:?}", raw);
    }
}

#[test]
fn formatter_gives_the_cleaned_text() {
    let raw = "<commit_message>```md\nsh docs: explain `strip`\n```</commit_message>";
    let formatter = CommitFormatter::new(raw.to_string());
    assert_eq!(formatter.format().as_str(), "docs: explain strip");
    assert_eq!(formatter.format().to_string(), strip_artifacts(raw));
}

/// `inner` from the line on that follows the last line feed of its leading
/// whitespace.
fn after_blank_lines(inner: &str) -> &str {
    let blank = inner.len() - inner.trim_start().len();
    match inner[..blank].rfind('\n') {
        Some(at) => &inner[at + 1..],
        None => inner,
    }
}

fn begins_with_hint(text: &str) -> bool {
    ["shell", "sh", "bash", "plaintext", "text", "markdown", "md"]
        .iter()
        .any(|hint| match text.strip_prefix(hint) {
            Some(rest) => rest.starts_with(char::is_whitespace),
            None => false,
        })
}

#[test]
fn fenced_block_gives_its_trimmed_content_unless_the_content_is_cleaned_itself() {
    let pieces = ["sh", " ", "\n", "a", "`", "<commit_message>", "md\t", "</commit_message>"];
    for inner in all_texts(&pieces, 4) {
        let kept = !inner.contains('`')
            && !inner.contains("<commit_message>")
            && !inner.contains("</commit_message>")
            && !begins_with_hint(after_blank_lines(&inner));
        for (before, hint, gap, after) in [
            ("", "", "", ""),
            ("", "sh", "", ""),
            ("", "shell", "", ""),
            (" \n", "markdown", " \t", "\n\n"),
            ("\u{a0}", "", "\n ", " "),
        ] {
            let raw = format!("{}```{}{}\n{}\n```{}", before, hint, gap, inner, after);
            assert_eq!(
                strip_artifacts(&raw) == inner.trim(),
                kept,
                "on {:?}",
                raw
            );
        }
    }
}
