use iamcommitted::scope::extract_scope;

fn scope(text: &str) -> Option<String> {
    extract_scope(text)
}

#[test]
fn component_pattern_captures_the_token() {
    assert_eq!(scope("Fix crash in the parser component"), Some("parser".to_string()));
    assert_eq!(scope("Fix crash in the `parser` component"), Some("parser".to_string()));
    assert_eq!(scope("in the a-b_9 component"), Some("a-b_9".to_string()));
}

#[test]
fn module_pattern_captures_the_token() {
    assert_eq!(scope("Rename helper in utils module"), Some("utils".to_string()));
    assert_eq!(scope("Rename helper in `utils` module"), Some("utils".to_string()));
}

#[test]
fn path_pattern_captures_the_first_segment() {
    assert_eq!(scope("Add tests for src/lib.rs"), Some("src".to_string()));
    assert_eq!(scope("Move files to `docs/guide`"), Some("docs".to_string()));
    assert_eq!(scope("Fix typo in crates/core/README"), Some("crates".to_string()));
}

#[test]
fn suffix_pattern_captures_the_name_before_the_suffix() {
    assert_eq!(scope("Refactor UserService to use async"), Some("user".to_string()));
    assert_eq!(scope("Split LoginComponent"), Some("login".to_string()));
    assert_eq!(scope("Document the Cache2Module"), Some("cache2".to_string()));
    // The name runs up to the last suffix of the identifier.
    assert_eq!(scope("Update AuthServiceModule"), Some("authservice".to_string()));
    // The name begins at the first capital from which a suffix is reached.
    assert_eq!(scope("myAuthService"), Some("auth".to_string()));
}

#[test]
fn captured_scope_is_put_in_lower_case() {
    assert_eq!(scope("Fix in the PARSER component"), Some("parser".to_string()));
    assert_eq!(scope("for SRC/x"), Some("src".to_string()));
}

#[test]
fn first_pattern_that_applies_wins_wherever_it_stands() {
    assert_eq!(
        scope("Touch PaymentService in the billing component"),
        Some("billing".to_string())
    );
    assert_eq!(
        scope("Touch PaymentService for web/api in core module"),
        Some("core".to_string())
    );
    assert_eq!(scope("Touch PaymentService for web/api"), Some("web".to_string()));
}

#[test]
fn leftmost_place_of_a_pattern_wins() {
    assert_eq!(
        scope("in the first component and in the second component"),
        Some("first".to_string())
    );
    assert_eq!(scope("to a/b for c/d"), Some("a".to_string()));
}

#[test]
fn patterns_are_found_inside_words() {
    assert_eq!(scope("within the cache component"), Some("cache".to_string()));
}

#[test]
fn text_that_fits_no_pattern_has_no_scope() {
    assert_eq!(scope(""), None);
    assert_eq!(scope("Fix bug in login"), None);
    assert_eq!(scope("in the  component"), None);
    assert_eq!(scope("in the parser  component"), None);
    assert_eq!(scope("In the parser component"), None);
    assert_eq!(scope("in the parser Component"), None);
    assert_eq!(scope("for /etc"), None);
    assert_eq!(scope("Service"), None);
    assert_eq!(scope("userService"), None);
    assert_eq!(scope("User Service"), None);
    assert_eq!(scope("User_Service"), None);
}

#[test]
fn module_named_without_preposition_is_no_scope() {
    // Only `in TOKEN module` names a module: here `the` stands before it.
    assert_eq!(scope("Update the authentication module with new features"), None);
    assert_eq!(
        scope("Update features in authentication module"),
        Some("authentication".to_string())
    );
}
