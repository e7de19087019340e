//! What holds of cleaning, whatever the raw text.

use vstd::prelude::*;
use crate::stripper::{
    cleaned, close_tag, fence, fence_body, fenced_content, hinted_body, language_hints,
    last_line_feed, leading_hint, open_tag, unfenced, unhinted, untagged,
};
use crate::text::{
    has_at, is_space, leading_spaces, lemma_leading_spaces_bounds, occurs_in, replaced,
    trailing_spaces, trimmed, without,
};
use crate::text_facts::{
    is_trim, lacks, lemma_deleted_len, lemma_replaced_absent, lemma_trimmed_bounds,
    lemma_trimmed_lacks, lemma_trimmed_of_trim, lemma_without_absent, lemma_without_lacks,
};

verus! {

/// A text made of lower-case ASCII letters, at least one.
pub open spec fn is_word(s: Seq<char>) -> bool {
    s.len() > 0 && forall|j: int| 0 <= j < s.len() ==> 'a' <= #[trigger] s[j] <= 'z'
}

/// There are seven language hints, and each is a word.
pub proof fn lemma_hints_are_words()
    ensures
        language_hints().len() == 7,
        forall|k: int| 0 <= k < 7 ==> is_word(#[trigger] language_hints()[k]),
{
    reveal_strlit("shell");
    reveal_strlit("sh");
    reveal_strlit("bash");
    reveal_strlit("plaintext");
    reveal_strlit("text");
    reveal_strlit("markdown");
    reveal_strlit("md");
    assert(is_word(language_hints()[0]));
    assert(is_word(language_hints()[1]));
    assert(is_word(language_hints()[2]));
    assert(is_word(language_hints()[3]));
    assert(is_word(language_hints()[4]));
    assert(is_word(language_hints()[5]));
    assert(is_word(language_hints()[6]));
}

/// A cleaned message holds no backtick and is trim.
pub proof fn lemma_cleaned_is_plain(raw: Seq<char>)
    ensures
        lacks(cleaned(raw), '`'),
        is_trim(cleaned(raw)),
{
    let inner = unhinted(unfenced(untagged(raw)));
    lemma_without_lacks(inner, '`');
    lemma_trimmed_lacks(without(inner, '`'), '`');
    lemma_trimmed_bounds(without(inner, '`'));
}

/// A text without a backtick is no fenced block.
pub proof fn lemma_no_fence_without_backtick(t: Seq<char>)
    requires
        lacks(t, '`'),
    ensures
        fenced_content(t) is None,
        unfenced(t) == t,
{
    reveal_strlit("```");
    let start = leading_spaces(t) as int;
    if has_at(t, start, fence()) {
        assert(t.subrange(start, start + 3)[0] == '`');
        assert(t[start] == '`');
    }
}

/// Cleaning leaves a text as it is if the text holds no backtick and no
/// wrapper tag, is trim, and does not begin with a language hint followed
/// by whitespace.
pub proof fn lemma_plain_text_is_kept(t: Seq<char>)
    requires
        lacks(t, '`'),
        is_trim(t),
        !occurs_in(open_tag(), t),
        !occurs_in(close_tag(), t),
        leading_hint(t, 0) is None,
    ensures
        cleaned(t) == t,
{
    let nothing = Seq::<char>::empty();
    lemma_replaced_absent(t, open_tag(), nothing);
    lemma_replaced_absent(t, close_tag(), nothing);
    lemma_no_fence_without_backtick(t);
    lemma_without_absent(t, '`');
    lemma_trimmed_of_trim(t);
}

/// Cleaning is idempotent: cleaning a cleaned message again changes
/// nothing, as long as the cleaned message holds no wrapper tag and does
/// not begin with a language hint followed by whitespace.
pub proof fn lemma_cleaning_is_idempotent(raw: Seq<char>)
    requires
        !occurs_in(open_tag(), cleaned(raw)),
        !occurs_in(close_tag(), cleaned(raw)),
        leading_hint(cleaned(raw), 0) is None,
    ensures
        cleaned(cleaned(raw)) == cleaned(raw),
{
    lemma_cleaned_is_plain(raw);
    lemma_plain_text_is_kept(cleaned(raw));
}

/// The index of a line feed found by `last_line_feed` lies in the range
/// that was searched, and a line feed stands there.
pub proof fn lemma_last_line_feed_bounds(s: Seq<char>, lo: int, hi: int)
    ensures
        last_line_feed(s, lo, hi) matches Some(j) ==> lo <= j < hi && s[j] == '\n',
    decreases hi - lo,
{
    if hi > lo && s[hi - 1] != '\n' {
        lemma_last_line_feed_bounds(s, lo, hi - 1);
    }
}

/// What a fenced block encloses is a part of the block.
pub proof fn lemma_fence_body_len(t: Seq<char>, from: int)
    requires
        0 <= from,
    ensures
        fence_body(t, from) matches Some(content) ==> content.len() <= t.len(),
{
    let close = t.len() - trailing_spaces(t) - 4;
    let run_end = from + leading_spaces(t.skip(from));
    let limit = if run_end < close {
        run_end
    } else {
        close
    };
    lemma_last_line_feed_bounds(t, from, limit);
}

/// What a hinted fenced block encloses is a part of the block.
pub proof fn lemma_hinted_body_len(t: Seq<char>, start: int, k: int)
    requires
        0 <= start,
    ensures
        hinted_body(t, start, k) matches Some(content) ==> content.len() <= t.len(),
    decreases language_hints().len() - k,
{
    if 0 <= k < language_hints().len() {
        lemma_fence_body_len(t, start + language_hints()[k].len());
        lemma_hinted_body_len(t, start, k + 1);
    }
}

/// Opening a fence never makes a text longer.
pub proof fn lemma_unfenced_len(t: Seq<char>)
    ensures
        unfenced(t).len() <= t.len(),
{
    let start = leading_spaces(t) as int;
    lemma_hinted_body_len(t, start + 3, 0);
    lemma_fence_body_len(t, start + 3);
}

/// The hint found at the head of a text is one of the language hints,
/// stands at the head, and is followed by whitespace.
pub proof fn lemma_leading_hint_stands(s: Seq<char>, k: int)
    requires
        0 <= k,
    ensures
        leading_hint(s, k) matches Some(hint) ==> is_word(hint) && has_at(s, 0, hint) && hint.len()
            < s.len() && is_space(s[hint.len() as int]),
    decreases language_hints().len() - k,
{
    lemma_hints_are_words();
    if k < language_hints().len() {
        lemma_leading_hint_stands(s, k + 1);
    }
}

/// Dropping a leading hint makes a text shorter; a text without one stays
/// as it is.
pub proof fn lemma_unhinted_len(s: Seq<char>)
    ensures
        unhinted(s).len() <= s.len(),
        leading_hint(s, 0) is Some ==> unhinted(s).len() < s.len(),
{
    lemma_leading_hint_stands(s, 0);
    match leading_hint(s, 0) {
        Some(hint) => {
            lemma_leading_spaces_bounds(s.skip(hint.len() as int));
        },
        None => {},
    }
}

/// Cleaning never makes a text longer.
pub proof fn lemma_cleaned_len(t: Seq<char>)
    ensures
        cleaned(t).len() <= t.len(),
        cleaned(t).len() <= untagged(t).len(),
        untagged(t).len() <= t.len(),
{
    let nothing = Seq::<char>::empty();
    lemma_deleted_len(t, open_tag());
    lemma_deleted_len(replaced(t, open_tag(), nothing), close_tag());
    lemma_unfenced_len(untagged(t));
    lemma_unhinted_len(unfenced(untagged(t)));
    lemma_without_lacks(unhinted(unfenced(untagged(t))), '`');
    lemma_trimmed_bounds(without(unhinted(unfenced(untagged(t))), '`'));
}

/// The texts that cleaning leaves as they are: exactly those that hold no
/// backtick and no wrapper tag, are trim, and do not begin with a language
/// hint followed by whitespace. Cleaning makes every other text shorter.
pub proof fn lemma_cleaning_fixed_points(t: Seq<char>)
    ensures
        cleaned(t) == t <==> (lacks(t, '`') && is_trim(t) && !occurs_in(open_tag(), t)
            && !occurs_in(close_tag(), t) && leading_hint(t, 0) is None),
        cleaned(t) != t ==> cleaned(t).len() < t.len(),
{
    let nothing = Seq::<char>::empty();
    reveal_strlit("<commit_message>");
    reveal_strlit("</commit_message>");
    lemma_cleaned_is_plain(t);
    lemma_cleaned_len(t);
    if lacks(t, '`') && is_trim(t) {
        if occurs_in(open_tag(), t) {
            lemma_deleted_len(t, open_tag());
            lemma_deleted_len(replaced(t, open_tag(), nothing), close_tag());
        } else if occurs_in(close_tag(), t) {
            lemma_replaced_absent(t, open_tag(), nothing);
            lemma_deleted_len(t, close_tag());
        } else if leading_hint(t, 0) is Some {
            lemma_replaced_absent(t, open_tag(), nothing);
            lemma_replaced_absent(t, close_tag(), nothing);
            lemma_no_fence_without_backtick(t);
            lemma_unhinted_len(t);
            lemma_without_lacks(unhinted(t), '`');
            lemma_trimmed_bounds(without(unhinted(t), '`'));
        } else {
            lemma_plain_text_is_kept(t);
        }
    } else {
        lemma_cleaning_shortens_rough_text(t);
    }
}

/// Cleaning makes a text shorter if the text holds a backtick or is not
/// trim.
pub proof fn lemma_cleaning_shortens_rough_text(t: Seq<char>)
    requires
        !lacks(t, '`') || !is_trim(t),
    ensures
        cleaned(t).len() < t.len(),
{
    lemma_cleaned_is_plain(t);
    lemma_cleaned_len(t);
    let last = unhinted(unfenced(untagged(t)));
    lemma_unfenced_len(untagged(t));
    lemma_unhinted_len(unfenced(untagged(t)));
    lemma_without_lacks(last, '`');
    lemma_trimmed_bounds(without(last, '`'));
    if cleaned(t).len() == t.len() {
        // Then no step dropped a character, so every step kept the text.
        assert(trimmed(without(last, '`')) == without(last, '`')) by {
            assert(without(last, '`').subrange(0, without(last, '`').len() as int) == without(
                last,
                '`',
            ));
        }
        lemma_without_same_len(last, '`');
        lemma_unhinted_same_len(unfenced(untagged(t)));
        lemma_unfenced_same_len(untagged(t));
        lemma_untagged_same_len(t);
        assert(cleaned(t) == t);
    }
}

/// Removing a character keeps the length only if it keeps the text.
pub proof fn lemma_without_same_len(s: Seq<char>, c: char)
    requires
        without(s, c).len() == s.len(),
    ensures
        without(s, c) == s,
    decreases s.len(),
{
    if s.len() > 0 {
        lemma_without_lacks(s.drop_last(), c);
        lemma_without_same_len(s.drop_last(), c);
        assert(s.drop_last().push(s.last()) == s);
    }
}

/// Dropping a leading hint keeps the length only if it keeps the text.
pub proof fn lemma_unhinted_same_len(s: Seq<char>)
    requires
        unhinted(s).len() == s.len(),
    ensures
        unhinted(s) == s,
{
    lemma_unhinted_len(s);
}

/// Opening a fence keeps the length only if it keeps the text.
pub proof fn lemma_unfenced_same_len(t: Seq<char>)
    requires
        unfenced(t).len() == t.len(),
    ensures
        unfenced(t) == t,
{
    reveal_strlit("\n```");
    let start = leading_spaces(t) as int;
    if fenced_content(t) is Some {
        let close = t.len() - trailing_spaces(t) - 4;
        assert(unfenced(t).len() <= close) by {
            lemma_hinted_body_ends_at_close(t, start + 3, 0);
            lemma_fence_body_ends_at_close(t, start + 3);
        }
    }
}

/// What a fenced block encloses ends before the closing fence.
pub proof fn lemma_fence_body_ends_at_close(t: Seq<char>, from: int)
    requires
        0 <= from,
    ensures
        fence_body(t, from) matches Some(content) ==> content.len() <= t.len() - trailing_spaces(t)
            - 4,
{
    let close = t.len() - trailing_spaces(t) - 4;
    let run_end = from + leading_spaces(t.skip(from));
    let limit = if run_end < close {
        run_end
    } else {
        close
    };
    lemma_last_line_feed_bounds(t, from, limit);
}

/// What a hinted fenced block encloses ends before the closing fence.
pub proof fn lemma_hinted_body_ends_at_close(t: Seq<char>, start: int, k: int)
    requires
        0 <= start,
    ensures
        hinted_body(t, start, k) matches Some(content) ==> content.len() <= t.len()
            - trailing_spaces(t) - 4,
    decreases language_hints().len() - k,
{
    if 0 <= k < language_hints().len() {
        lemma_fence_body_ends_at_close(t, start + language_hints()[k].len());
        lemma_hinted_body_ends_at_close(t, start, k + 1);
    }
}

/// Deleting the wrapper tags keeps the length only if it keeps the text.
pub proof fn lemma_untagged_same_len(t: Seq<char>)
    requires
        untagged(t).len() == t.len(),
    ensures
        untagged(t) == t,
{
    let nothing = Seq::<char>::empty();
    reveal_strlit("<commit_message>");
    reveal_strlit("</commit_message>");
    lemma_deleted_len(t, open_tag());
    lemma_deleted_len(replaced(t, open_tag(), nothing), close_tag());
    if !occurs_in(open_tag(), t) {
        lemma_replaced_absent(t, open_tag(), nothing);
        if !occurs_in(close_tag(), t) {
            lemma_replaced_absent(t, close_tag(), nothing);
        }
    }
}

} // verus!
