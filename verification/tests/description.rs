use iamcommitted::description::{finish_description, normalize_description};

fn chars(text: &str) -> Vec<char> {
    text.chars().collect()
}

#[test]
fn description_is_trimmed_capitalized_and_loses_its_full_stop() {
    assert_eq!(normalize_description("  add login.  "), "Add login");
    assert_eq!(normalize_description("add login!"), "Add login");
    assert_eq!(normalize_description("Add login"), "Add login");
}

#[test]
fn each_boilerplate_phrase_is_removed() {
    assert_eq!(normalize_description("This commit adds a parser"), "Adds a parser");
    assert_eq!(normalize_description("Updates to the parser"), "The parser");
    assert_eq!(normalize_description("Changes to the parser"), "The parser");
    assert_eq!(normalize_description("Implements the parser"), "The parser");
    assert_eq!(normalize_description("Fixes the parser"), "The parser");
}

#[test]
fn boilerplate_is_found_without_regard_to_case() {
    assert_eq!(normalize_description("THIS COMMIT adds X"), "Adds X");
    assert_eq!(normalize_description("fixes the Parser."), "The Parser");
}

#[test]
fn boilerplate_is_removed_once_and_only_at_the_head() {
    assert_eq!(normalize_description("This commit fixes the parser"), "Fixes the parser");
    assert_eq!(normalize_description("It fixes the parser"), "It fixes the parser");
    // The phrase ends in a space: without it nothing is removed.
    assert_eq!(normalize_description("Fixes"), "Fixes");
    assert_eq!(normalize_description("Fixes."), "Fixes");
}

#[test]
fn what_follows_the_boilerplate_is_kept_as_it_is() {
    assert_eq!(normalize_description("Fixes  two spaces"), " two spaces");
}

#[test]
fn only_one_final_mark_is_removed() {
    assert_eq!(normalize_description("done.."), "Done.");
    assert_eq!(normalize_description("done!."), "Done!");
    assert_eq!(normalize_description("done?"), "Done?");
    assert_eq!(normalize_description("."), "");
}

#[test]
fn first_character_beyond_ascii_is_capitalized_as_a_whole() {
    assert_eq!(normalize_description("éclair"), "Éclair");
    assert_eq!(normalize_description("ßtraße"), "SStraße");
    assert_eq!(normalize_description("ǆungla"), "Ǆungla");
    assert_eq!(normalize_description("数字"), "数字");
}

#[test]
fn empty_description_stays_empty() {
    assert_eq!(normalize_description(""), "");
    assert_eq!(normalize_description("   "), "");
}

#[test]
fn finishing_puts_the_given_head_in_place() {
    assert_eq!(finish_description(&chars("XY"), &chars("abc.")), chars("XYbc"));
    assert_eq!(finish_description(&chars(""), &chars("abc")), chars("bc"));
    assert_eq!(finish_description(&chars("A."), &chars("a")), chars("A"));
    assert_eq!(finish_description(&chars("XY"), &chars("")), chars(""));
}

#[test]
fn settled_description_comes_back_unchanged() {
    for text in ["Add login", "Éclair for all", "1 more fix", "Add login?"] {
        assert_eq!(normalize_description(text), text);
    }
}
