//! The scope of a commit: the component, module or directory that a
//! message names, found by four patterns tried in order.

use vstd::prelude::*;
use crate::text::{
    ascii_lowered, chars_of, copy_range, has_at, lower_ascii_all, matches_at, string_of,
};

verus! {

/// A character of a token: an ASCII letter or digit, an underscore or a
/// hyphen.
pub open spec fn is_token_char(c: char) -> bool {
    ||| ('a' <= c && c <= 'z')
    ||| ('A' <= c && c <= 'Z')
    ||| ('0' <= c && c <= '9')
    ||| c == '_'
    ||| c == '-'
}

/// A character of an identifier: an ASCII letter or digit.
pub open spec fn is_identifier_char(c: char) -> bool {
    ||| ('a' <= c && c <= 'z')
    ||| ('A' <= c && c <= 'Z')
    ||| ('0' <= c && c <= '9')
}

/// An ASCII capital.
pub open spec fn is_capital(c: char) -> bool {
    'A' <= c && c <= 'Z'
}

/// Length of the run of token characters of `s` that begins at `from`.
pub open spec fn token_run(s: Seq<char>, from: int) -> nat
    decreases s.len() - from,
{
    if 0 <= from < s.len() && is_token_char(s[from]) {
        1 + token_run(s, from + 1)
    } else {
        0
    }
}

/// Length of the run of identifier characters of `s` that begins at `from`.
pub open spec fn identifier_run(s: Seq<char>, from: int) -> nat
    decreases s.len() - from,
{
    if 0 <= from < s.len() && is_identifier_char(s[from]) {
        1 + identifier_run(s, from + 1)
    } else {
        0
    }
}

/// The index `i`, or the next one where a backtick stands at `i`.
pub open spec fn past_backtick(s: Seq<char>, i: int) -> int {
    if 0 <= i < s.len() && s[i] == '`' {
        i + 1
    } else {
        i
    }
}

/// The token that stands between `before` and `after`, `before` beginning
/// at index `i` of `s`; the token may be enclosed in backticks.
pub open spec fn enclosed_token(s: Seq<char>, i: int, before: Seq<char>, after: Seq<char>)
    -> Option<(int, int)> {
    let start = past_backtick(s, i + before.len());
    let end = start + token_run(s, start);
    if has_at(s, i, before) && start < end && has_at(s, past_backtick(s, end), after) {
        Some((start, end))
    } else {
        None
    }
}

/// The path segment that follows `before`, which begins at index `i` of
/// `s`: a token, after an optional backtick, with a slash right behind it.
pub open spec fn path_segment(s: Seq<char>, i: int, before: Seq<char>) -> Option<(int, int)> {
    let start = past_backtick(s, i + before.len());
    let end = start + token_run(s, start);
    if has_at(s, i, before) && start < end && has_at(s, end, "/"@) {
        Some((start, end))
    } else {
        None
    }
}

/// One of the suffixes `Component`, `Service` and `Module` stands at index
/// `i` of `s`.
pub open spec fn suffix_at(s: Seq<char>, i: int) -> bool {
    has_at(s, i, "Component"@) || has_at(s, i, "Service"@) || has_at(s, i, "Module"@)
}

/// The last index at or after `lo` and before `hi` at which a suffix
/// stands.
pub open spec fn last_suffix(s: Seq<char>, lo: int, hi: int) -> Option<int>
    decreases hi - lo,
{
    if hi <= lo {
        None
    } else if suffix_at(s, hi - 1) {
        Some(hi - 1)
    } else {
        last_suffix(s, lo, hi - 1)
    }
}

/// The name that begins with a capital at index `i` of `s` and runs up to
/// the last suffix inside the identifier that begins there.
pub open spec fn suffixed_name(s: Seq<char>, i: int) -> Option<(int, int)> {
    if 0 <= i < s.len() && is_capital(s[i]) {
        match last_suffix(s, i + 1, i + identifier_run(s, i)) {
            Some(end) => Some((i, end)),
            None => None,
        }
    } else {
        None
    }
}

/// The number of patterns.
pub open spec fn pattern_count() -> int {
    4
}

/// The bounds of what pattern number `pattern` captures where it is
/// applied at index `i` of `s`:
/// 0. `in the TOKEN component`,
/// 1. `in TOKEN module`,
/// 2. `in`, `for` or `to`, a space, and `TOKEN/`,
/// 3. a capitalized identifier that ends in `Component`, `Service` or
///    `Module`, of which the part before the suffix is captured.
pub open spec fn capture_at(s: Seq<char>, i: int, pattern: int) -> Option<(int, int)> {
    if pattern == 0 {
        enclosed_token(s, i, "in the "@, " component"@)
    } else if pattern == 1 {
        enclosed_token(s, i, "in "@, " module"@)
    } else if pattern == 2 {
        if path_segment(s, i, "in "@) is Some {
            path_segment(s, i, "in "@)
        } else if path_segment(s, i, "for "@) is Some {
            path_segment(s, i, "for "@)
        } else {
            path_segment(s, i, "to "@)
        }
    } else {
        suffixed_name(s, i)
    }
}

/// The capture of pattern number `pattern` at the first index, from `from`
/// on, at which the pattern applies.
pub open spec fn first_capture(s: Seq<char>, pattern: int, from: int) -> Option<(int, int)>
    decreases s.len() - from,
{
    if from < 0 || from >= s.len() {
        None
    } else if capture_at(s, from, pattern) is Some {
        capture_at(s, from, pattern)
    } else {
        first_capture(s, pattern, from + 1)
    }
}

/// The capture of the first pattern, from number `pattern` on, that applies
/// anywhere in `s`.
pub open spec fn capture(s: Seq<char>, pattern: int) -> Option<(int, int)>
    decreases pattern_count() - pattern,
{
    if pattern < 0 || pattern >= pattern_count() {
        None
    } else if first_capture(s, pattern, 0) is Some {
        first_capture(s, pattern, 0)
    } else {
        capture(s, pattern + 1)
    }
}

/// The scope that `s` names: what the first applicable pattern captures at
/// its leftmost place, in lower case; `None` where no pattern applies.
pub open spec fn scope_of(s: Seq<char>) -> Option<Seq<char>> {
    match capture(s, 0) {
        Some((start, end)) => Some(ascii_lowered(s.subrange(start, end))),
        None => None,
    }
}

/// A scope is well formed: not empty, and made of lower-case ASCII
/// letters, digits, underscores and hyphens.
pub open spec fn is_scope(scope: Seq<char>) -> bool {
    &&& scope.len() > 0
    &&& forall|k: int|
        0 <= k < scope.len() ==> is_token_char(#[trigger] scope[k]) && !is_capital(scope[k])
}

fn token_char(c: char) -> (b: bool)
    ensures
        b == is_token_char(c),
{
    ('a' <= c && c <= 'z') || ('A' <= c && c <= 'Z') || ('0' <= c && c <= '9') || c == '_' || c
        == '-'
}

fn identifier_char(c: char) -> (b: bool)
    ensures
        b == is_identifier_char(c),
{
    ('a' <= c && c <= 'z') || ('A' <= c && c <= 'Z') || ('0' <= c && c <= '9')
}

/// The end of the run of token characters that begins at `from`.
fn token_end(s: &Vec<char>, from: usize) -> (end: usize)
    requires
        from <= s.len(),
    ensures
        from <= end <= s.len(),
        end == from + token_run(s@, from as int),
{
    let mut i: usize = from;
    while i < s.len() && token_char(s[i])
        invariant
            from <= i <= s.len(),
            from + token_run(s@, from as int) == i + token_run(s@, i as int),
        decreases s.len() - i,
    {
        i += 1;
    }
    i
}

/// The end of the run of identifier characters that begins at `from`.
fn identifier_end(s: &Vec<char>, from: usize) -> (end: usize)
    requires
        from <= s.len(),
    ensures
        from <= end <= s.len(),
        end == from + identifier_run(s@, from as int),
{
    let mut i: usize = from;
    while i < s.len() && identifier_char(s[i])
        invariant
            from <= i <= s.len(),
            from + identifier_run(s@, from as int) == i + identifier_run(s@, i as int),
        decreases s.len() - i,
    {
        i += 1;
    }
    i
}

fn skip_backtick(s: &Vec<char>, i: usize) -> (j: usize)
    requires
        i <= s.len(),
    ensures
        i <= j <= s.len(),
        j == past_backtick(s@, i as int),
{
    if i < s.len() && s[i] == '`' {
        i + 1
    } else {
        i
    }
}

fn find_enclosed_token(s: &Vec<char>, i: usize, before: &str, after: &str) -> (r: Option<
    (usize, usize),
>)
    ensures
        match r {
            Some((a, b)) => a < b <= s.len() && enclosed_token(s@, i as int, before@, after@)
                == Some((a as int, b as int)),
            None => enclosed_token(s@, i as int, before@, after@) is None,
        },
{
    let head = chars_of(before);
    let tail = chars_of(after);
    if !matches_at(s, i, &head) {
        return None;
    }
    assert(i + head.len() <= s.len());
    let start = skip_backtick(s, i + head.len());
    let end = token_end(s, start);
    if start < end && matches_at(s, skip_backtick(s, end), &tail) {
        Some((start, end))
    } else {
        None
    }
}

fn find_path_segment(s: &Vec<char>, i: usize, before: &str) -> (r: Option<(usize, usize)>)
    ensures
        match r {
            Some((a, b)) => a < b <= s.len() && path_segment(s@, i as int, before@) == Some(
                (a as int, b as int),
            ),
            None => path_segment(s@, i as int, before@) is None,
        },
{
    let head = chars_of(before);
    let slash = chars_of("/");
    if !matches_at(s, i, &head) {
        return None;
    }
    assert(i + head.len() <= s.len());
    let start = skip_backtick(s, i + head.len());
    let end = token_end(s, start);
    if start < end && matches_at(s, end, &slash) {
        Some((start, end))
    } else {
        None
    }
}

fn has_suffix_at(s: &Vec<char>, i: usize) -> (b: bool)
    ensures
        b == suffix_at(s@, i as int),
{
    let component = chars_of("Component");
    let service = chars_of("Service");
    let module = chars_of("Module");
    matches_at(s, i, &component) || matches_at(s, i, &service) || matches_at(s, i, &module)
}

fn find_suffixed_name(s: &Vec<char>, i: usize) -> (r: Option<(usize, usize)>)
    ensures
        match r {
            Some((a, b)) => a < b <= s.len() && suffixed_name(s@, i as int) == Some(
                (a as int, b as int),
            ),
            None => suffixed_name(s@, i as int) is None,
        },
{
    if !(i < s.len() && 'A' <= s[i] && s[i] <= 'Z') {
        return None;
    }
    let hi = identifier_end(s, i);
    let mut e: usize = hi;
    while e > i + 1
        invariant
            i < s.len(),
            is_capital(s@[i as int]),
            hi == i + identifier_run(s@, i as int),
            e <= hi <= s.len(),
            last_suffix(s@, i + 1, e as int) == last_suffix(s@, i + 1, hi as int),
        decreases e,
    {
        if has_suffix_at(s, e - 1) {
            return Some((i, e - 1));
        }
        e -= 1;
    }
    None
}

fn find_capture_at(s: &Vec<char>, i: usize, pattern: usize) -> (r: Option<(usize, usize)>)
    requires
        pattern < 4,
    ensures
        match r {
            Some((a, b)) => a < b <= s.len() && capture_at(s@, i as int, pattern as int) == Some(
                (a as int, b as int),
            ),
            None => capture_at(s@, i as int, pattern as int) is None,
        },
{
    if pattern == 0 {
        find_enclosed_token(s, i, "in the ", " component")
    } else if pattern == 1 {
        find_enclosed_token(s, i, "in ", " module")
    } else if pattern == 2 {
        match find_path_segment(s, i, "in ") {
            Some(bounds) => Some(bounds),
            None => match find_path_segment(s, i, "for ") {
                Some(bounds) => Some(bounds),
                None => find_path_segment(s, i, "to "),
            },
        }
    } else {
        find_suffixed_name(s, i)
    }
}

fn find_first_capture(s: &Vec<char>, pattern: usize) -> (r: Option<(usize, usize)>)
    requires
        pattern < 4,
    ensures
        match r {
            Some((a, b)) => a < b <= s.len() && first_capture(s@, pattern as int, 0) == Some(
                (a as int, b as int),
            ),
            None => first_capture(s@, pattern as int, 0) is None,
        },
{
    let mut i: usize = 0;
    while i < s.len()
        invariant
            i <= s.len(),
            pattern < 4,
            first_capture(s@, pattern as int, i as int) == first_capture(s@, pattern as int, 0),
        decreases s.len() - i,
    {
        match find_capture_at(s, i, pattern) {
            Some(bounds) => {
                return Some(bounds);
            },
            None => {},
        }
        i += 1;
    }
    None
}

fn find_capture(s: &Vec<char>) -> (r: Option<(usize, usize)>)
    ensures
        match r {
            Some((a, b)) => a < b <= s.len() && capture(s@, 0) == Some((a as int, b as int)),
            None => capture(s@, 0) is None,
        },
{
    let mut pattern: usize = 0;
    while pattern < 4
        invariant
            pattern <= 4,
            capture(s@, pattern as int) == capture(s@, 0),
        decreases 4 - pattern,
    {
        match find_first_capture(s, pattern) {
            Some(bounds) => {
                return Some(bounds);
            },
            None => {},
        }
        pattern += 1;
    }
    None
}

/// The scope that a message names, in lower case, or `None` where it names
/// none.
pub fn extract_scope(text: &str) -> (scope: Option<String>)
    ensures
        match scope {
            Some(name) => scope_of(text@) == Some(name@) && is_scope(name@),
            None => scope_of(text@) is None,
        },
{
    proof {
        lemma_scope_is_well_formed(text@);
    }
    let chars = chars_of(text);
    match find_capture(&chars) {
        Some((start, end)) => {
            let captured = copy_range(&chars, start, end);
            let lowered = lower_ascii_all(&captured);
            Some(string_of(&lowered))
        },
        None => None,
    }
}

/// The characters of `s` from `a` up to `b` are token characters, at least
/// one.
pub open spec fn is_token_range(s: Seq<char>, a: int, b: int) -> bool {
    &&& 0 <= a < b <= s.len()
    &&& forall|k: int| a <= k < b ==> is_token_char(#[trigger] s[k])
}

/// A run of token characters lies inside the text and holds token
/// characters only.
pub proof fn lemma_token_run_holds_tokens(s: Seq<char>, from: int)
    requires
        0 <= from,
    ensures
        token_run(s, from) > 0 ==> from + token_run(s, from) <= s.len(),
        forall|k: int| from <= k < from + token_run(s, from) ==> is_token_char(#[trigger] s[k]),
    decreases s.len() - from,
{
    if from < s.len() && is_token_char(s[from]) {
        lemma_token_run_holds_tokens(s, from + 1);
    }
}

/// A run of identifier characters lies inside the text and holds
/// identifier characters only.
pub proof fn lemma_identifier_run_holds_identifiers(s: Seq<char>, from: int)
    requires
        0 <= from,
    ensures
        identifier_run(s, from) > 0 ==> from + identifier_run(s, from) <= s.len(),
        forall|k: int|
            from <= k < from + identifier_run(s, from) ==> is_identifier_char(#[trigger] s[k]),
    decreases s.len() - from,
{
    if from < s.len() && is_identifier_char(s[from]) {
        lemma_identifier_run_holds_identifiers(s, from + 1);
    }
}

/// The index of a suffix found by `last_suffix` lies in the range that was
/// searched.
pub proof fn lemma_last_suffix_bounds(s: Seq<char>, lo: int, hi: int)
    ensures
        last_suffix(s, lo, hi) matches Some(e) ==> lo <= e < hi,
    decreases hi - lo,
{
    if hi > lo && !suffix_at(s, hi - 1) {
        lemma_last_suffix_bounds(s, lo, hi - 1);
    }
}

/// What a pattern captures at an index is a run of token characters.
pub proof fn lemma_capture_at_is_token(s: Seq<char>, i: int, pattern: int)
    ensures
        capture_at(s, i, pattern) matches Some((a, b)) ==> is_token_range(s, a, b),
{
    match capture_at(s, i, pattern) {
        Some((a, b)) => {
            if pattern == 0 || pattern == 1 || pattern == 2 {
                lemma_token_run_holds_tokens(s, a);
            } else {
                lemma_identifier_run_holds_identifiers(s, i);
                lemma_last_suffix_bounds(s, i + 1, i + identifier_run(s, i));
            }
        },
        None => {},
    }
}

/// What a pattern captures at its leftmost place is a run of token
/// characters.
pub proof fn lemma_first_capture_is_token(s: Seq<char>, pattern: int, from: int)
    ensures
        first_capture(s, pattern, from) matches Some((a, b)) ==> is_token_range(s, a, b),
    decreases s.len() - from,
{
    if 0 <= from < s.len() {
        lemma_capture_at_is_token(s, from, pattern);
        lemma_first_capture_is_token(s, pattern, from + 1);
    }
}

/// What the first applicable pattern captures is a run of token
/// characters.
pub proof fn lemma_capture_is_token(s: Seq<char>, pattern: int)
    ensures
        capture(s, pattern) matches Some((a, b)) ==> is_token_range(s, a, b),
    decreases pattern_count() - pattern,
{
    if 0 <= pattern < pattern_count() {
        lemma_first_capture_is_token(s, pattern, 0);
        lemma_capture_is_token(s, pattern + 1);
    }
}

/// A scope, where a message names one, is well formed: not empty, and made
/// of lower-case ASCII letters, digits, underscores and hyphens.
pub proof fn lemma_scope_is_well_formed(s: Seq<char>)
    ensures
        scope_of(s) matches Some(scope) ==> is_scope(scope),
{
    lemma_capture_is_token(s, 0);
    match capture(s, 0) {
        Some((a, b)) => {
            let found = s.subrange(a, b);
            let scope = ascii_lowered(found);
            assert forall|k: int| 0 <= k < scope.len() implies is_token_char(#[trigger] scope[k])
                && !is_capital(scope[k]) by {
                assert(found[k] == s[a + k]);
                assert(is_token_char(s[a + k]));
            }
        },
        None => {},
    }
}

} // verus!
