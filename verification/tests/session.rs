use iamcommitted::session::{choice_for_number, read_choice, skips_generation, MenuChoice};

#[test]
fn one_and_two_choose_and_other_numbers_cancel() {
    assert_eq!(read_choice("1"), Some(MenuChoice::UseSuggested));
    assert_eq!(read_choice("2"), Some(MenuChoice::EditManually));
    assert_eq!(read_choice("3"), Some(MenuChoice::Cancel));
    assert_eq!(read_choice("0"), Some(MenuChoice::Cancel));
    assert_eq!(read_choice("12"), Some(MenuChoice::Cancel));
    assert_eq!(choice_for_number(1), MenuChoice::UseSuggested);
    assert_eq!(choice_for_number(2), MenuChoice::EditManually);
    assert_eq!(choice_for_number(u32::MAX), MenuChoice::Cancel);
}

#[test]
fn answer_is_trimmed_before_it_is_read() {
    assert_eq!(read_choice("1\n"), Some(MenuChoice::UseSuggested));
    assert_eq!(read_choice("  2\r\n"), Some(MenuChoice::EditManually));
    assert_eq!(read_choice("1 2"), None);
}

#[test]
fn number_may_have_a_plus_sign_and_leading_zeros() {
    assert_eq!(read_choice("+1"), Some(MenuChoice::UseSuggested));
    assert_eq!(read_choice("002"), Some(MenuChoice::EditManually));
    assert_eq!(read_choice("+0002"), Some(MenuChoice::EditManually));
}

#[test]
fn answer_that_is_no_number_is_refused() {
    for answer in ["", " ", "+", "-1", "++1", "1+", "one", "1.0", "0x1", "１", "+ 1"] {
        assert_eq!(read_choice(answer), None, "on {:?}", answer);
    }
}

#[test]
fn number_beyond_thirty_two_bits_is_refused() {
    assert_eq!(read_choice("4294967295"), Some(MenuChoice::Cancel));
    assert_eq!(read_choice("4294967296"), None);
    assert_eq!(read_choice("99999999999999999999999999"), None);
    assert_eq!(read_choice("00000000000000000000000001"), Some(MenuChoice::UseSuggested));
}

#[test]
fn answers_are_read_as_numbers_of_thirty_two_bits_are() {
    let pieces = ["", "+", "-", "0", "1", "2", "9", " ", "4294967295", "4294967296", "a"];
    for first in pieces {
        for second in pieces {
            for third in pieces {
                let answer = format!("{}{}{}", first, second, third);
                let expected = match answer.trim().parse::<u32>() {
                    Ok(1) => Some(MenuChoice::UseSuggested),
                    Ok(2) => Some(MenuChoice::EditManually),
                    Ok(_) => Some(MenuChoice::Cancel),
                    Err(_) => None,
                };
                assert_eq!(read_choice(&answer), expected, "on {:?}", answer);
            }
        }
    }
}

#[test]
fn hook_leaves_a_given_message_or_template_alone() {
    assert!(skips_generation(Some("message")));
    assert!(skips_generation(Some("template")));
    assert!(!skips_generation(Some("merge")));
    assert!(!skips_generation(Some("squash")));
    assert!(!skips_generation(Some("commit")));
    assert!(!skips_generation(Some("Message")));
    assert!(!skips_generation(Some("")));
    assert!(!skips_generation(None));
}
