use iamcommitted::ai::{extract_section, fill_user_prompt, parse_prompts, response_text};
use iamcommitted::AIError;

const DOCUMENT: &str = "# Prompts\n\n## System Prompt\n\nYou write commit messages.\n\n### Examples\n\nfeat: x\n\n## User Prompt\n\nDescribe this diff:\n{diff}\n";

#[test]
fn both_prompts_are_read_from_the_document() {
    let prompts = parse_prompts(DOCUMENT).unwrap();
    assert_eq!(
        prompts.system,
        "You write commit messages.\n\n### Examples\n\nfeat: x"
    );
    assert_eq!(prompts.user, "Describe this diff:\n{diff}");
}

#[test]
fn document_without_system_prompt_is_refused() {
    let error = parse_prompts("## User Prompt\n\nDescribe:\n{diff}").unwrap_err();
    assert_eq!(error.message, "Failed to extract system prompt from markdown");
    let error = parse_prompts("").unwrap_err();
    assert_eq!(error.message, "Failed to extract system prompt from markdown");
}

#[test]
fn document_without_user_prompt_is_refused() {
    let error = parse_prompts("## System Prompt\n\nYou write.").unwrap_err();
    assert_eq!(error.message, "Failed to extract user prompt from markdown");
    assert_eq!(error.to_string(), "Failed to extract user prompt from markdown");
}

#[test]
fn section_ends_at_the_next_heading_of_its_level() {
    let document = "## System Prompt\ns1\ns2\n## User Prompt\nu\n## Notes\nn\n";
    assert_eq!(extract_section(document, "## System Prompt"), Some("s1\ns2".to_string()));
    assert_eq!(extract_section(document, "## User Prompt"), Some("u".to_string()));
    assert_eq!(extract_section(document, "## Notes"), Some("n".to_string()));
    assert_eq!(extract_section(document, "## Other"), None);
}

#[test]
fn section_may_be_empty() {
    assert_eq!(extract_section("## System Prompt", "## System Prompt"), Some(String::new()));
    assert_eq!(
        extract_section("## System Prompt\n\n## User Prompt\n", "## System Prompt"),
        Some(String::new())
    );
}

#[test]
fn heading_line_may_end_in_whitespace_but_not_begin_with_it() {
    assert_eq!(
        extract_section("## User Prompt \r\nu\r\n", "## User Prompt"),
        Some("u".to_string())
    );
    assert_eq!(extract_section(" ## User Prompt\nu", "## User Prompt"), None);
    assert_eq!(extract_section("text ## User Prompt\nu", "## User Prompt"), None);
    assert_eq!(extract_section("## User Prompts\nu", "## User Prompt"), None);
}

#[test]
fn deeper_headings_and_hashes_inside_a_line_end_nothing() {
    let document = "## User Prompt\na\n### Deeper\nb ## c\n##d\n";
    assert_eq!(
        extract_section(document, "## User Prompt"),
        Some("a\n### Deeper\nb ## c\n##d".to_string())
    );
}

#[test]
fn first_of_two_sections_with_one_heading_is_taken() {
    let document = "## User Prompt\nfirst\n## User Prompt\nsecond";
    assert_eq!(extract_section(document, "## User Prompt"), Some("first".to_string()));
}

#[test]
fn diff_takes_the_place_of_every_placeholder() {
    assert_eq!(fill_user_prompt("Describe:\n{diff}", "+a\n-b"), "Describe:\n+a\n-b");
    assert_eq!(fill_user_prompt("{diff}{diff} and {diff}", "x"), "xx and x");
    assert_eq!(fill_user_prompt("no placeholder", "x"), "no placeholder");
    assert_eq!(fill_user_prompt("{diff}", ""), "");
    assert_eq!(fill_user_prompt("{{diff}} {dif} {diff", "x"), "{x} {dif} {diff");
}

#[test]
fn diff_that_holds_the_placeholder_is_not_filled_again() {
    assert_eq!(fill_user_prompt("a {diff} b", "{diff}"), "a {diff} b");
}

#[test]
fn response_without_content_is_an_error() {
    assert_eq!(response_text(Some("feat: x".to_string())).unwrap(), "feat: x");
    assert_eq!(response_text(Some(String::new())).unwrap(), "");
    let error = response_text(None).unwrap_err();
    assert_eq!(error.message, "No content in OpenAI response");
}

#[test]
fn error_message_is_built_from_context_and_detail() {
    let error = AIError::with_detail("OpenAI API error", "timeout");
    assert_eq!(error.message, "OpenAI API error: timeout");
    let error = AIError::new("plain".to_string());
    assert_eq!(error.to_string(), "plain");
}
