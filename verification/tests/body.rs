use iamcommitted::body::extract_body;

#[test]
fn message_of_one_line_has_no_body() {
    assert_eq!(extract_body(""), None);
    assert_eq!(extract_body("feat: add parser"), None);
    assert_eq!(extract_body("feat: add parser\n"), None);
    assert_eq!(extract_body("feat: add parser\n\n  \n\t\n"), None);
}

#[test]
fn line_after_the_first_is_the_body() {
    assert_eq!(extract_body("title\nbody"), Some("body".to_string()));
    assert_eq!(extract_body("title\n\n  body  \n"), Some("body".to_string()));
    assert_eq!(extract_body("\nbody"), Some("body".to_string()));
}

#[test]
fn lines_of_a_paragraph_are_joined_by_one_space() {
    assert_eq!(
        extract_body("title\n\nfirst line\n   second line\nthird"),
        Some("first line second line third".to_string())
    );
}

#[test]
fn paragraphs_are_joined_by_an_empty_line() {
    assert_eq!(
        extract_body("title\n\none\n\n\n\ntwo\n \nthree"),
        Some("one\n\ntwo\n\nthree".to_string())
    );
}

#[test]
fn paragraph_that_was_seen_is_left_out() {
    assert_eq!(
        extract_body("title\n\npara one\nstill one\n\npara two\n\npara one still one\n\npara two"),
        Some("para one still one\n\npara two".to_string())
    );
    assert_eq!(extract_body("title\n\na\n\na\n\na"), Some("a".to_string()));
    assert_eq!(extract_body("title\n\na\n\nb\n\na"), Some("a\n\nb".to_string()));
}

#[test]
fn carriage_returns_are_trimmed_with_the_line() {
    assert_eq!(
        extract_body("title\r\n\r\nbody line\r\nmore\r\n"),
        Some("body line more".to_string())
    );
}

#[test]
fn first_line_is_never_part_of_the_body() {
    assert_eq!(extract_body("same\n\nsame"), Some("same".to_string()));
    assert_eq!(extract_body("only the first line\n\n"), None);
}
