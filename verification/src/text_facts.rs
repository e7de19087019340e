//! What holds of trimming, replacing and removing, whatever the text.

use vstd::prelude::*;
use crate::text::{
    has_at, is_space, leading_spaces, lemma_leading_spaces_bounds, lemma_leading_spaces_is,
    lemma_trailing_spaces_bounds, lemma_trailing_spaces_is, occurs_in, replaced, trailing_spaces,
    trimmed, trimmed_start, without,
};

verus! {

/// A text is trim: it neither begins nor ends with whitespace.
pub open spec fn is_trim(s: Seq<char>) -> bool {
    s.len() == 0 || (!is_space(s[0]) && !is_space(s.last()))
}

/// The character `c` does not stand in `s`.
pub open spec fn lacks(s: Seq<char>, c: char) -> bool {
    forall|k: int| 0 <= k < s.len() ==> #[trigger] s[k] != c
}

/// Replacing a pattern that does not occur changes nothing.
pub proof fn lemma_replaced_absent(s: Seq<char>, pat: Seq<char>, with: Seq<char>)
    requires
        !occurs_in(pat, s),
    ensures
        replaced(s, pat, with) == s,
    decreases s.len(),
{
    if pat.len() == 0 || s.len() < pat.len() {
    } else {
        assert(!has_at(s, 0, pat));
        let rest = s.skip(1);
        assert(!occurs_in(pat, rest)) by {
            if occurs_in(pat, rest) {
                let i = choose|i: int| has_at(rest, i, pat);
                assert(rest.subrange(i, i + pat.len()) == s.subrange(i + 1, i + 1 + pat.len()));
                assert(has_at(s, i + 1, pat));
            }
        }
        lemma_replaced_absent(rest, pat, with);
        assert(seq![s[0]] + rest == s);
    }
}

/// Deleting a pattern never makes a text longer, and makes it shorter
/// where the pattern occurs.
pub proof fn lemma_deleted_len(s: Seq<char>, pat: Seq<char>)
    ensures
        replaced(s, pat, Seq::<char>::empty()).len() <= s.len(),
        pat.len() > 0 && occurs_in(pat, s) ==> replaced(s, pat, Seq::<char>::empty()).len()
            < s.len(),
    decreases s.len(),
{
    let nothing = Seq::<char>::empty();
    if pat.len() == 0 || s.len() < pat.len() {
        if occurs_in(pat, s) {
            let i = choose|i: int| has_at(s, i, pat);
        }
    } else if has_at(s, 0, pat) {
        lemma_deleted_len(s.skip(pat.len() as int), pat);
    } else {
        let rest = s.skip(1);
        lemma_deleted_len(rest, pat);
        if occurs_in(pat, s) {
            let i = choose|i: int| has_at(s, i, pat);
            assert(i > 0);
            assert(rest.subrange(i - 1, i - 1 + pat.len()) == s.subrange(i, i + pat.len()));
            assert(has_at(rest, i - 1, pat));
        }
    }
}

/// What is left after removing a character does not hold it, and is no
/// longer than the text was.
pub proof fn lemma_without_lacks(s: Seq<char>, c: char)
    ensures
        lacks(without(s, c), c),
        without(s, c).len() <= s.len(),
    decreases s.len(),
{
    if s.len() > 0 {
        lemma_without_lacks(s.drop_last(), c);
    }
}

/// Removing a character from a text that does not hold it changes nothing.
pub proof fn lemma_without_absent(s: Seq<char>, c: char)
    requires
        lacks(s, c),
    ensures
        without(s, c) == s,
    decreases s.len(),
{
    if s.len() > 0 {
        let before = s.drop_last();
        assert forall|k: int| 0 <= k < before.len() implies #[trigger] before[k] != c by {
            assert(before[k] == s[k]);
        }
        lemma_without_absent(before, c);
        assert(before.push(s.last()) == s);
    }
}

/// A trimmed text is the part of the text between its leading and its
/// trailing whitespace.
pub proof fn lemma_trimmed_bounds(s: Seq<char>)
    ensures
        leading_spaces(s) + trailing_spaces(trimmed_start(s)) <= s.len(),
        trimmed(s) == s.subrange(
            leading_spaces(s) as int,
            s.len() - trailing_spaces(trimmed_start(s)),
        ),
        is_trim(trimmed(s)),
{
    lemma_leading_spaces_bounds(s);
    let rest = trimmed_start(s);
    lemma_trailing_spaces_bounds(rest);
    let a = leading_spaces(s) as int;
    let b = s.len() - trailing_spaces(rest);
    assert(rest.take(rest.len() - trailing_spaces(rest)) == s.subrange(a, b));
    let t = trimmed(s);
    if t.len() > 0 {
        assert(t[0] == s[a]);
        assert(t.last() == rest[rest.len() - trailing_spaces(rest) - 1]);
    }
}

/// Trimming a trim text changes nothing.
pub proof fn lemma_trimmed_of_trim(s: Seq<char>)
    requires
        is_trim(s),
    ensures
        trimmed(s) == s,
{
    lemma_leading_spaces_is(s, 0);
    assert(s.skip(0) == s);
    lemma_trailing_spaces_is(s, 0);
    assert(s.take(s.len() as int) == s);
}

/// Whitespace dropped from the front of a text does not show in the
/// trimmed text.
pub proof fn lemma_trimmed_skips_spaces(s: Seq<char>, n: int)
    requires
        0 <= n <= leading_spaces(s),
    ensures
        trimmed(s.skip(n)) == trimmed(s),
{
    lemma_leading_spaces_bounds(s);
    let rest = s.skip(n);
    let m = leading_spaces(s) - n;
    assert forall|k: int| 0 <= k < m implies is_space(#[trigger] rest[k]) by {
        assert(rest[k] == s[n + k]);
    }
    if m < rest.len() {
        assert(rest[m] == s[leading_spaces(s) as int]);
    }
    lemma_leading_spaces_is(rest, m);
    assert(rest.skip(m) == s.skip(leading_spaces(s) as int));
}

/// A character that the text does not hold is not in the trimmed text
/// either.
pub proof fn lemma_trimmed_lacks(s: Seq<char>, c: char)
    requires
        lacks(s, c),
    ensures
        lacks(trimmed(s), c),
{
    lemma_trimmed_bounds(s);
    let a = leading_spaces(s) as int;
    assert forall|k: int| 0 <= k < trimmed(s).len() implies #[trigger] trimmed(s)[k] != c by {
        assert(trimmed(s)[k] == s[a + k]);
    }
}

} // verus!
