//! The description of a commit: one line, freed of boilerplate, with a
//! capital at its head and no full stop at its end.

use vstd::prelude::*;
use crate::text_facts::{is_trim, lemma_trimmed_of_trim};
use crate::text::{
    append_chars, chars_of, copy_range, has_prefix_ignoring_case, starts_with_ignoring_case,
    string_of, trim, trimmed, uppercase_chars, uppercase_of,
};

verus! {

/// The phrases that say nothing at the head of a description, in the order
/// in which they are tried.
pub open spec fn boilerplate_prefixes() -> Seq<Seq<char>> {
    seq!["This commit "@, "Updates to "@, "Changes to "@, "Implements "@, "Fixes "@]
}

/// The first boilerplate phrase, from number `k` on, with which `s` begins,
/// letters compared without regard to case.
pub open spec fn boilerplate_prefix(s: Seq<char>, k: int) -> Option<Seq<char>>
    decreases boilerplate_prefixes().len() - k,
{
    if k < 0 || k >= boilerplate_prefixes().len() {
        None
    } else if has_prefix_ignoring_case(s, boilerplate_prefixes()[k]) {
        Some(boilerplate_prefixes()[k])
    } else {
        boilerplate_prefix(s, k + 1)
    }
}

/// `s` without the boilerplate phrase at its head, if it has one; what
/// follows the phrase is kept as it is.
pub open spec fn without_boilerplate(s: Seq<char>) -> Seq<char> {
    match boilerplate_prefix(s, 0) {
        Some(prefix) => s.skip(prefix.len() as int),
        None => s,
    }
}

/// `s` with `upper` in the place of its first character; an empty text
/// stays empty.
pub open spec fn with_head(upper: Seq<char>, s: Seq<char>) -> Seq<char> {
    if s.len() == 0 {
        s
    } else {
        upper + s.skip(1)
    }
}

/// `s` with its first character in upper case.
pub open spec fn capitalized(s: Seq<char>) -> Seq<char> {
    if s.len() == 0 {
        s
    } else {
        with_head(uppercase_of(s[0]), s)
    }
}

/// `s` without one full stop or exclamation mark at its end.
pub open spec fn without_final_mark(s: Seq<char>) -> Seq<char> {
    if s.len() > 0 && (s.last() == '.' || s.last() == '!') {
        s.drop_last()
    } else {
        s
    }
}

/// The description that `text` gives: trimmed, without a boilerplate
/// phrase at its head, capitalized, and without one final mark.
pub open spec fn normalized(text: Seq<char>) -> Seq<char> {
    without_final_mark(capitalized(without_boilerplate(trimmed(text))))
}

/// Boilerplate phrase number `k`.
fn prefix_number(k: usize) -> (prefix: Vec<char>)
    requires
        k < 5,
    ensures
        prefix@ == boilerplate_prefixes()[k as int],
{
    if k == 0 {
        chars_of("This commit ")
    } else if k == 1 {
        chars_of("Updates to ")
    } else if k == 2 {
        chars_of("Changes to ")
    } else if k == 3 {
        chars_of("Implements ")
    } else {
        chars_of("Fixes ")
    }
}

/// Removes the boilerplate phrase at the head of `s`, if it has one.
pub fn strip_boilerplate(s: &Vec<char>) -> (out: Vec<char>)
    ensures
        out@ == without_boilerplate(s@),
{
    let mut k: usize = 0;
    while k < 5
        invariant
            k <= 5,
            boilerplate_prefixes().len() == 5,
            boilerplate_prefix(s@, k as int) == boilerplate_prefix(s@, 0),
        decreases 5 - k,
    {
        let prefix = prefix_number(k);
        if starts_with_ignoring_case(s, &prefix) {
            return copy_range(s, prefix.len(), s.len());
        }
        k += 1;
    }
    copy_range(s, 0, s.len())
}

/// Puts `upper` in the place of the first character of `s` and removes one
/// final full stop or exclamation mark from the result.
pub fn finish_description(upper: &Vec<char>, s: &Vec<char>) -> (out: Vec<char>)
    ensures
        out@ == without_final_mark(with_head(upper@, s@)),
{
    let mut whole: Vec<char> = Vec::new();
    if s.len() > 0 {
        append_chars(&mut whole, upper);
        let rest = copy_range(s, 1, s.len());
        append_chars(&mut whole, &rest);
        assert(whole@ == upper@ + s@.skip(1));
    } else {
        assert(whole@ == s@);
    }
    let n = whole.len();
    if n > 0 && (whole[n - 1] == '.' || whole[n - 1] == '!') {
        copy_range(&whole, 0, n - 1)
    } else {
        whole
    }
}

/// The description that `text` gives, as characters.
pub fn normalize(text: &Vec<char>) -> (out: Vec<char>)
    ensures
        out@ == normalized(text@),
{
    let bare = trim(text);
    let stripped = strip_boilerplate(&bare);
    if stripped.len() == 0 {
        let nothing: Vec<char> = Vec::new();
        finish_description(&nothing, &stripped)
    } else {
        let upper = uppercase_chars(stripped[0]);
        finish_description(&upper, &stripped)
    }
}

/// The description that `text` gives: trimmed, without a boilerplate
/// phrase at its head, capitalized, and without one final mark.
pub fn normalize_description(text: &str) -> (description: String)
    ensures
        description@ == normalized(text@),
{
    let chars = chars_of(text);
    let out = normalize(&chars);
    string_of(&out)
}

/// A description is settled: it is trim, begins with no boilerplate
/// phrase, has a first character that is its own upper-case form, and ends
/// with neither a full stop nor an exclamation mark.
pub open spec fn is_settled(d: Seq<char>) -> bool {
    &&& is_trim(d)
    &&& boilerplate_prefix(d, 0) is None
    &&& d.len() > 0 ==> uppercase_of(d[0]) == seq![d[0]]
    &&& d.len() > 0 ==> d.last() != '.' && d.last() != '!'
}

/// Normalizing a settled description gives the description back.
pub proof fn lemma_settled_description_is_kept(d: Seq<char>)
    requires
        is_settled(d),
    ensures
        normalized(d) == d,
{
    lemma_trimmed_of_trim(d);
    if d.len() > 0 {
        assert(seq![d[0]] + d.skip(1) =~= d);
    }
}

} // verus!
