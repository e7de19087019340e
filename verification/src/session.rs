//! The decisions of a run: whether a hook leaves the message alone, and
//! what the answer at the menu asks for.

use vstd::prelude::*;
use crate::text::{chars_of, same_text, trim, trimmed};

verus! {

/// What the user asks for at the menu.
#[derive(Clone, Copy, Debug, PartialEq, Eq, Structural)]
pub enum MenuChoice {
    /// Commit with the suggested message.
    UseSuggested,
    /// Edit the message, then commit.
    EditManually,
    /// Do not commit.
    Cancel,
}

/// An ASCII digit.
pub open spec fn is_digit(c: char) -> bool {
    '0' <= c && c <= '9'
}

/// Every character of `s` is an ASCII digit.
pub open spec fn all_digits(s: Seq<char>) -> bool {
    forall|k: int| 0 <= k < s.len() ==> is_digit(#[trigger] s[k])
}

/// The number that the digits of `s` write in base ten.
pub open spec fn digits_value(s: Seq<char>) -> nat
    decreases s.len(),
{
    if s.len() == 0 {
        0
    } else {
        digits_value(s.drop_last()) * 10 + (s.last() as nat - '0' as nat) as nat
    }
}

/// `s` without a plus sign at its head.
pub open spec fn unsigned_part(s: Seq<char>) -> Seq<char> {
    if s.len() > 0 && s[0] == '+' {
        s.skip(1)
    } else {
        s
    }
}

/// The number that `s` writes: digits, at least one, after an optional
/// plus sign, with a value of at most `u32::MAX`. `None` for any other
/// text.
pub open spec fn number_of(s: Seq<char>) -> Option<nat> {
    let digits = unsigned_part(s);
    if digits.len() > 0 && all_digits(digits) && digits_value(digits) <= u32::MAX {
        Some(digits_value(digits))
    } else {
        None
    }
}

/// What a number at the menu asks for.
pub open spec fn choice_for(number: nat) -> MenuChoice {
    if number == 1 {
        MenuChoice::UseSuggested
    } else if number == 2 {
        MenuChoice::EditManually
    } else {
        MenuChoice::Cancel
    }
}

/// What an answer at the menu asks for: the answer is trimmed and read as
/// a number; `None` where it is no number.
pub open spec fn choice_of(answer: Seq<char>) -> Option<MenuChoice> {
    match number_of(trimmed(answer)) {
        Some(number) => Some(choice_for(number)),
        None => None,
    }
}

/// A hook leaves the message alone where its source is a message given on
/// the command line or a template.
pub open spec fn keeps_message(source: Option<Seq<char>>) -> bool {
    match source {
        Some(name) => name == "message"@ || name == "template"@,
        None => false,
    }
}

/// The digits before the last do not write a larger number than all of
/// them.
pub proof fn lemma_digits_value_grows(s: Seq<char>, n: int)
    requires
        0 <= n <= s.len(),
        all_digits(s),
    ensures
        digits_value(s.take(n)) <= digits_value(s),
    decreases s.len() - n,
{
    if n < s.len() {
        let longer = s.take(n + 1);
        assert(longer.drop_last() == s.take(n));
        assert(is_digit(s[n]));
        assert(longer.last() == s[n]);
        lemma_digits_value_grows(s, n + 1);
    } else {
        assert(s.take(n) == s);
    }
}

/// The number that the characters from `from` on write, if they are
/// digits, at least one, and the number is at most `u32::MAX`.
fn read_digits(s: &Vec<char>, from: usize) -> (r: Option<u32>)
    requires
        from <= s.len(),
    ensures
        ({
            let digits = s@.skip(from as int);
            match r {
                Some(n) => digits.len() > 0 && all_digits(digits) && digits_value(digits) == n,
                None => !(digits.len() > 0 && all_digits(digits) && digits_value(digits)
                    <= u32::MAX),
            }
        }),
{
    let ghost digits = s@.skip(from as int);
    if from == s.len() {
        return None;
    }
    let mut i: usize = from;
    while i < s.len()
        invariant
            from <= i <= s.len(),
            digits == s@.skip(from as int),
            forall|k: int| 0 <= k < i - from ==> is_digit(#[trigger] digits[k]),
        decreases s.len() - i,
    {
        if !('0' <= s[i] && s[i] <= '9') {
            assert(!is_digit(digits[i - from]));
            return None;
        }
        i += 1;
    }
    let mut value: u64 = 0;
    let mut j: usize = from;
    assert(digits.take(0) =~= Seq::<char>::empty());
    while j < s.len()
        invariant
            from <= j <= s.len(),
            digits == s@.skip(from as int),
            all_digits(digits),
            value == digits_value(digits.take(j - from)),
            value <= u32::MAX,
        decreases s.len() - j,
    {
        proof {
            let longer = digits.take(j - from + 1);
            assert(longer.drop_last() == digits.take(j - from));
            assert(longer.last() == s@[j as int]);
            assert(is_digit(digits[j - from]));
        }
        let digit: u64 = (s[j] as u64) - ('0' as u64);
        let next: u64 = value * 10 + digit;
        if next > 0xffff_ffff {
            proof {
                lemma_digits_value_grows(digits, j - from + 1);
            }
            return None;
        }
        value = next;
        j += 1;
    }
    assert(digits.take(digits.len() as int) == digits);
    Some(value as u32)
}

/// What a number at the menu asks for.
pub fn choice_for_number(number: u32) -> (choice: MenuChoice)
    ensures
        choice == choice_for(number as nat),
{
    if number == 1 {
        MenuChoice::UseSuggested
    } else if number == 2 {
        MenuChoice::EditManually
    } else {
        MenuChoice::Cancel
    }
}

/// What an answer at the menu asks for, or `None` where the answer is no
/// number.
pub fn read_choice(answer: &str) -> (choice: Option<MenuChoice>)
    ensures
        choice == choice_of(answer@),
{
    let chars = chars_of(answer);
    let bare = trim(&chars);
    let from: usize = if bare.len() > 0 && bare[0] == '+' {
        1
    } else {
        0
    };
    assert(bare@.skip(from as int) == unsigned_part(bare@)) by {
        assert(bare@.skip(0) == bare@);
    }
    match read_digits(&bare, from) {
        Some(number) => Some(choice_for_number(number)),
        None => None,
    }
}

/// Tells whether a hook leaves the message alone, given the source of the
/// message as `git` names it.
pub fn skips_generation(source: Option<&str>) -> (skip: bool)
    ensures
        skip == keeps_message(
            match source {
                Some(name) => Some(name@),
                None => None,
            },
        ),
{
    match source {
        Some(name) => {
            let chars = chars_of(name);
            let message = chars_of("message");
            let template = chars_of("template");
            same_text(&chars, &message) || same_text(&chars, &template)
        },
        None => false,
    }
}

} // verus!
