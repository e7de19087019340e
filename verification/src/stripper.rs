//! Removal of what a text generator wraps round a commit message: wrapper
//! tags, a code fence, a leading language hint and stray backticks.

use vstd::prelude::*;
use crate::stripper_laws::lemma_cleaned_is_plain;
use crate::text_facts::{is_trim, lacks};
use crate::text::{
    chars_of, copy_range, end_before_spaces, has_at, is_space, is_whitespace, leading_spaces,
    matches_at, remove_char, replace_all, replaced, skip_spaces, string_of, trailing_spaces,
    trim, trimmed, trimmed_start, without,
};

verus! {

/// The tag that opens a wrapped message.
pub open spec fn open_tag() -> Seq<char> {
    "<commit_message>"@
}

/// The tag that closes a wrapped message.
pub open spec fn close_tag() -> Seq<char> {
    "</commit_message>"@
}

/// The delimiter of a fenced block.
pub open spec fn fence() -> Seq<char> {
    "```"@
}

/// A line feed and the delimiter that closes a fenced block.
pub open spec fn closing_fence() -> Seq<char> {
    "\n```"@
}

/// The language hints that may follow an opening fence, in the order in
/// which they are tried.
pub open spec fn language_hints() -> Seq<Seq<char>> {
    seq!["shell"@, "sh"@, "bash"@, "plaintext"@, "text"@, "markdown"@, "md"@]
}

/// `s` with both wrapper tags deleted wherever they stand: first every
/// opening tag, then every closing tag.
pub open spec fn untagged(s: Seq<char>) -> Seq<char> {
    replaced(replaced(s, open_tag(), Seq::<char>::empty()), close_tag(), Seq::<char>::empty())
}

/// Index of the last line feed of `s` at or after `lo` and before `hi`.
pub open spec fn last_line_feed(s: Seq<char>, lo: int, hi: int) -> Option<int>
    decreases hi - lo,
{
    if hi <= lo {
        None
    } else if s[hi - 1] == '\n' {
        Some(hi - 1)
    } else {
        last_line_feed(s, lo, hi - 1)
    }
}

/// What a fence encloses, where `t` reads from index `from` on: whitespace
/// that ends in a line feed, the content, a line feed, the closing
/// delimiter, and whitespace up to the end. The content begins after the
/// last line feed of the whitespace that still leaves room for the closing
/// line feed.
pub open spec fn fence_body(t: Seq<char>, from: int) -> Option<Seq<char>> {
    let close = t.len() - trailing_spaces(t) - 4;
    if from <= close && has_at(t, close, closing_fence()) {
        let run_end = from + leading_spaces(t.skip(from));
        let limit = if run_end < close {
            run_end
        } else {
            close
        };
        match last_line_feed(t, from, limit) {
            Some(j) => Some(t.subrange(j + 1, close)),
            None => None,
        }
    } else {
        None
    }
}

/// What a fence with a language hint encloses, the hint standing at index
/// `start` of `t`: the hints are tried in order from number `k` on, and the
/// first after which the fence body is found decides.
pub open spec fn hinted_body(t: Seq<char>, start: int, k: int) -> Option<Seq<char>>
    decreases language_hints().len() - k,
{
    if k < 0 || k >= language_hints().len() {
        None
    } else {
        let hint = language_hints()[k];
        if has_at(t, start, hint) && fence_body(t, start + hint.len()) is Some {
            fence_body(t, start + hint.len())
        } else {
            hinted_body(t, start, k + 1)
        }
    }
}

/// The content of the fenced block that `t` as a whole consists of, with or
/// without a language hint; `None` where `t` is no such block.
pub open spec fn fenced_content(t: Seq<char>) -> Option<Seq<char>> {
    let start = leading_spaces(t) as int;
    if has_at(t, start, fence()) {
        match hinted_body(t, start + 3, 0) {
            Some(content) => Some(content),
            None => fence_body(t, start + 3),
        }
    } else {
        None
    }
}

/// `t` itself, or the content of the fenced block that it consists of.
pub open spec fn unfenced(t: Seq<char>) -> Seq<char> {
    match fenced_content(t) {
        Some(content) => content,
        None => t,
    }
}

/// The first language hint, from number `k` on, that stands at the very
/// start of `s` and is followed by whitespace.
pub open spec fn leading_hint(s: Seq<char>, k: int) -> Option<Seq<char>>
    decreases language_hints().len() - k,
{
    if k < 0 || k >= language_hints().len() {
        None
    } else {
        let hint = language_hints()[k];
        if has_at(s, 0, hint) && hint.len() < s.len() && is_space(s[hint.len() as int]) {
            Some(hint)
        } else {
            leading_hint(s, k + 1)
        }
    }
}

/// `s` without a language hint at its very start and the whitespace that
/// follows the hint.
pub open spec fn unhinted(s: Seq<char>) -> Seq<char> {
    match leading_hint(s, 0) {
        Some(hint) => trimmed_start(s.skip(hint.len() as int)),
        None => s,
    }
}

/// The message that `raw` carries: tags deleted, the enclosing fence
/// opened, a leading language hint dropped, every backtick removed, and
/// the whitespace at both ends trimmed.
pub open spec fn cleaned(raw: Seq<char>) -> Seq<char> {
    trimmed(without(unhinted(unfenced(untagged(raw))), '`'))
}

/// Language hint number `k`.
fn hint_number(k: usize) -> (hint: Vec<char>)
    requires
        k < 7,
    ensures
        hint@ == language_hints()[k as int],
{
    if k == 0 {
        chars_of("shell")
    } else if k == 1 {
        chars_of("sh")
    } else if k == 2 {
        chars_of("bash")
    } else if k == 3 {
        chars_of("plaintext")
    } else if k == 4 {
        chars_of("text")
    } else if k == 5 {
        chars_of("markdown")
    } else {
        chars_of("md")
    }
}

/// Deletes both wrapper tags wherever they stand.
pub fn remove_tags(s: &Vec<char>) -> (out: Vec<char>)
    ensures
        out@ == untagged(s@),
{
    let nothing: Vec<char> = Vec::new();
    let open = chars_of("<commit_message>");
    let close = chars_of("</commit_message>");
    let once = replace_all(s, &open, &nothing);
    replace_all(&once, &close, &nothing)
}

/// Index of the last line feed of `t` at or after `lo` and before `hi`.
fn find_last_line_feed(t: &Vec<char>, lo: usize, hi: usize) -> (r: Option<usize>)
    requires
        hi <= t.len(),
    ensures
        match r {
            Some(j) => lo <= j < hi && last_line_feed(t@, lo as int, hi as int) == Some(j as int),
            None => last_line_feed(t@, lo as int, hi as int) is None,
        },
{
    let mut i: usize = hi;
    while i > lo
        invariant
            i <= hi <= t.len(),
            last_line_feed(t@, lo as int, i as int) == last_line_feed(t@, lo as int, hi as int),
        decreases i,
    {
        if t[i - 1] == '\n' {
            return Some(i - 1);
        }
        i -= 1;
    }
    None
}

/// The bounds of what a fence encloses, where `t` reads from `from` on as
/// `fence_body` describes.
fn find_fence_body(t: &Vec<char>, from: usize) -> (r: Option<(usize, usize)>)
    requires
        from <= t.len(),
    ensures
        match r {
            Some((a, b)) => a <= b <= t.len() && fence_body(t@, from as int) == Some(
                t@.subrange(a as int, b as int),
            ),
            None => fence_body(t@, from as int) is None,
        },
{
    let end = end_before_spaces(t, 0);
    assert(t@.skip(0) == t@);
    if end < 4 || end - 4 < from {
        return None;
    }
    let close = end - 4;
    let closing = chars_of("\n```");
    if !matches_at(t, close, &closing) {
        return None;
    }
    let run_end = skip_spaces(t, from);
    let limit = if run_end < close {
        run_end
    } else {
        close
    };
    match find_last_line_feed(t, from, limit) {
        Some(j) => Some((j + 1, close)),
        None => None,
    }
}

/// The bounds of what a fence with a language hint encloses, the hint
/// standing at index `start` of `t`.
fn find_hinted_body(t: &Vec<char>, start: usize) -> (r: Option<(usize, usize)>)
    requires
        start <= t.len(),
    ensures
        match r {
            Some((a, b)) => a <= b <= t.len() && hinted_body(t@, start as int, 0) == Some(
                t@.subrange(a as int, b as int),
            ),
            None => hinted_body(t@, start as int, 0) is None,
        },
{
    let mut k: usize = 0;
    while k < 7
        invariant
            k <= 7,
            start <= t.len(),
            language_hints().len() == 7,
            hinted_body(t@, start as int, k as int) == hinted_body(t@, start as int, 0),
        decreases 7 - k,
    {
        let hint = hint_number(k);
        if matches_at(t, start, &hint) {
            match find_fence_body(t, start + hint.len()) {
                Some(bounds) => {
                    return Some(bounds);
                },
                None => {},
            }
        }
        k += 1;
    }
    None
}

/// Opens the fenced block that `t` as a whole consists of; any other text
/// comes back unchanged.
pub fn open_fence(t: &Vec<char>) -> (out: Vec<char>)
    ensures
        out@ == unfenced(t@),
{
    let start = skip_spaces(t, 0);
    assert(t@.skip(0) == t@);
    let delimiter = chars_of("```");
    proof {
        reveal_strlit("```");
    }
    if !matches_at(t, start, &delimiter) {
        return copy_range(t, 0, t.len());
    }
    let bounds = match find_hinted_body(t, start + 3) {
        Some(bounds) => Some(bounds),
        None => find_fence_body(t, start + 3),
    };
    match bounds {
        Some((a, b)) => copy_range(t, a, b),
        None => copy_range(t, 0, t.len()),
    }
}

/// Drops a language hint at the very start of `s` and the whitespace that
/// follows it.
pub fn drop_leading_hint(s: &Vec<char>) -> (out: Vec<char>)
    ensures
        out@ == unhinted(s@),
{
    let mut k: usize = 0;
    while k < 7
        invariant
            k <= 7,
            language_hints().len() == 7,
            leading_hint(s@, k as int) == leading_hint(s@, 0),
        decreases 7 - k,
    {
        let hint = hint_number(k);
        if matches_at(s, 0, &hint) && hint.len() < s.len() && is_whitespace(s[hint.len()]) {
            let from = skip_spaces(s, hint.len());
            let ghost rest = s@.skip(hint.len() as int);
            assert(rest.skip(leading_spaces(rest) as int) == s@.subrange(
                from as int,
                s.len() as int,
            ));
            return copy_range(s, from, s.len());
        }
        k += 1;
    }
    copy_range(s, 0, s.len())
}

/// The message that `raw` carries, freed of tags, fence, language hint and
/// backticks, and trimmed.
pub fn clean(raw: &Vec<char>) -> (out: Vec<char>)
    ensures
        out@ == cleaned(raw@),
{
    let bare = remove_tags(raw);
    let inner = open_fence(&bare);
    let message = drop_leading_hint(&inner);
    let plain = remove_char(&message, '`');
    trim(&plain)
}

/// The message that `raw` carries, freed of tags, fence, language hint and
/// backticks, and trimmed.
pub fn strip_artifacts(raw: &str) -> (out: String)
    ensures
        out@ == cleaned(raw@),
        lacks(out@, '`'),
        is_trim(out@),
{
    proof {
        lemma_cleaned_is_plain(raw@);
    }
    let chars = chars_of(raw);
    let kept = clean(&chars);
    string_of(&kept)
}

} // verus!
