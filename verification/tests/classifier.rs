use iamcommitted::classifier::{classify, classify_lowered, detect_breaking_change};
use iamcommitted::CommitTypeToken;

#[test]
fn each_type_is_found_by_its_keywords() {
    assert_eq!(classify("Add new feature", false), CommitTypeToken::Feat);
    assert_eq!(classify("Fix bug in login", false), CommitTypeToken::Fix);
    assert_eq!(classify("Update documentation", false), CommitTypeToken::Docs);
    assert_eq!(classify("Format code", false), CommitTypeToken::Style);
    assert_eq!(classify("Refactor user service", false), CommitTypeToken::Refactor);
    assert_eq!(classify("Optimize database queries", false), CommitTypeToken::Perf);
    assert_eq!(classify("Update dependencies", false), CommitTypeToken::Build);
    assert_eq!(classify("Update CI pipeline", false), CommitTypeToken::Ci);
    assert_eq!(classify("Revert last commit", false), CommitTypeToken::Revert);
    assert_eq!(classify("Random change", false), CommitTypeToken::Chore);
}

#[test]
fn earlier_type_wins_over_a_later_keyword() {
    // `add` is a keyword of feat, which is tried before test.
    assert_eq!(classify("Add unit tests", false), CommitTypeToken::Feat);
    assert_eq!(classify("Write unit tests", false), CommitTypeToken::Test);
    // `fix` before `docs`, `docs` before `style`.
    assert_eq!(classify("fix the readme", false), CommitTypeToken::Fix);
    assert_eq!(classify("lint the readme", false), CommitTypeToken::Docs);
    assert_eq!(classify("undo the workflow", false), CommitTypeToken::Ci);
}

#[test]
fn keywords_are_found_inside_words() {
    assert_eq!(classify("renewal", false), CommitTypeToken::Feat);
    assert_eq!(classify("precision", false), CommitTypeToken::Ci);
    assert_eq!(classify("inspect", false), CommitTypeToken::Test);
}

#[test]
fn every_keyword_gives_its_type() {
    let table: [(&[&str], CommitTypeToken); 10] = [
        (&["add", "new", "implement", "create"], CommitTypeToken::Feat),
        (&["fix", "bug", "issue", "resolve", "patch"], CommitTypeToken::Fix),
        (&["document", "comment", "readme"], CommitTypeToken::Docs),
        (&["format", "style", "lint"], CommitTypeToken::Style),
        (&["refactor", "restructure", "reorganize"], CommitTypeToken::Refactor),
        (&["performance", "optimize", "speed"], CommitTypeToken::Perf),
        (&["test", "spec", "coverage"], CommitTypeToken::Test),
        (&["build", "dependency", "dependencies", "version"], CommitTypeToken::Build),
        (&["ci", "pipeline", "workflow", "github action"], CommitTypeToken::Ci),
        (&["revert", "rollback", "undo"], CommitTypeToken::Revert),
    ];
    for (words, token) in table {
        for word in words {
            assert_eq!(classify_lowered(word, false), token, "on {:?}", word);
        }
    }
}

#[test]
fn text_without_keyword_is_a_chore() {
    assert_eq!(classify("", false), CommitTypeToken::Chore);
    assert_eq!(classify("tidy up", false), CommitTypeToken::Chore);
    assert_eq!(classify_lowered("", false), CommitTypeToken::Chore);
}

#[test]
fn classify_puts_the_text_in_lower_case_first() {
    assert_eq!(classify("FIX THE LOGIN", false), CommitTypeToken::Fix);
    assert_eq!(classify("ÄNDERUNG: ROLLBACK", false), CommitTypeToken::Revert);
    // Keywords are lower case: text given as already lowered is not lowered again.
    assert_eq!(classify_lowered("FIX THE LOGIN", false), CommitTypeToken::Chore);
}

#[test]
fn breaking_change_forces_feat() {
    assert_eq!(classify("Fix bug in login", true), CommitTypeToken::Feat);
    assert_eq!(classify("Random change", true), CommitTypeToken::Feat);
    assert_eq!(classify_lowered("revert it", true), CommitTypeToken::Feat);
}

#[test]
fn each_marker_announces_a_breaking_change() {
    for marker in [
        "breaking change",
        "breaking-change",
        "major version",
        "incompatible",
        "backwards-incompatible",
        "breaking update",
    ] {
        assert!(detect_breaking_change(marker));
        assert!(detect_breaking_change(&format!("this is a {} of the api", marker)));
    }
}

#[test]
fn text_without_marker_announces_nothing() {
    assert!(!detect_breaking_change(""));
    assert!(!detect_breaking_change("breaking  change"));
    assert!(!detect_breaking_change("change that breaks"));
    // The detector reads lower-cased text.
    assert!(!detect_breaking_change("BREAKING CHANGE: x"));
    assert!(detect_breaking_change(&"BREAKING CHANGE: x".to_lowercase()));
}

#[test]
fn token_texts_are_the_conventional_ones() {
    let texts: Vec<&str> = [
        CommitTypeToken::Feat,
        CommitTypeToken::Fix,
        CommitTypeToken::Chore,
        CommitTypeToken::Docs,
        CommitTypeToken::Style,
        CommitTypeToken::Refactor,
        CommitTypeToken::Perf,
        CommitTypeToken::Test,
        CommitTypeToken::Build,
        CommitTypeToken::Ci,
        CommitTypeToken::Revert,
    ]
    .iter()
    .map(|token| token.as_str())
    .collect();
    assert_eq!(
        texts,
        vec![
            "feat", "fix", "chore", "docs", "style", "refactor", "perf", "test", "build", "ci",
            "revert"
        ]
    );
}
