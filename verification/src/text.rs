//! Character sequences: whitespace, trimming, searching and rewriting.
//!
//! Every function here works on the characters of a text, held in a
//! `Vec<char>`, and is specified over `Seq<char>`.

use vstd::prelude::*;

verus! {

/// The characters that carry the Unicode `White_Space` property.
pub open spec fn is_space(c: char) -> bool {
    ||| ('\u{9}' <= c && c <= '\u{D}')
    ||| c == ' '
    ||| c == '\u{85}'
    ||| c == '\u{A0}'
    ||| c == '\u{1680}'
    ||| ('\u{2000}' <= c && c <= '\u{200A}')
    ||| c == '\u{2028}'
    ||| c == '\u{2029}'
    ||| c == '\u{202F}'
    ||| c == '\u{205F}'
    ||| c == '\u{3000}'
}

/// Number of whitespace characters at the front of `s`.
pub open spec fn leading_spaces(s: Seq<char>) -> nat
    decreases s.len(),
{
    if s.len() > 0 && is_space(s[0]) {
        1 + leading_spaces(s.skip(1))
    } else {
        0
    }
}

/// Number of whitespace characters at the back of `s`.
pub open spec fn trailing_spaces(s: Seq<char>) -> nat
    decreases s.len(),
{
    if s.len() > 0 && is_space(s.last()) {
        1 + trailing_spaces(s.drop_last())
    } else {
        0
    }
}

/// `s` without its leading whitespace.
pub open spec fn trimmed_start(s: Seq<char>) -> Seq<char> {
    s.skip(leading_spaces(s) as int)
}

/// `s` without its trailing whitespace.
pub open spec fn trimmed_end(s: Seq<char>) -> Seq<char> {
    s.take(s.len() - trailing_spaces(s))
}

/// `s` without its leading and trailing whitespace.
pub open spec fn trimmed(s: Seq<char>) -> Seq<char> {
    trimmed_end(trimmed_start(s))
}

/// `pat` stands in `s` at index `i`.
pub open spec fn has_at(s: Seq<char>, i: int, pat: Seq<char>) -> bool {
    &&& 0 <= i
    &&& i + pat.len() <= s.len()
    &&& s.subrange(i, i + pat.len()) == pat
}

/// `pat` stands somewhere in `s`.
pub open spec fn occurs_in(pat: Seq<char>, s: Seq<char>) -> bool {
    exists|i: int| has_at(s, i, pat)
}

/// One of `words` stands somewhere in `s`.
pub open spec fn any_occurs(words: Seq<Seq<char>>, s: Seq<char>) -> bool {
    exists|k: int| 0 <= k < words.len() && occurs_in(#[trigger] words[k], s)
}

/// Names the text that `str::to_lowercase` returns for `s`.
pub uninterp spec fn lowercase_of(s: Seq<char>) -> Seq<char>;

/// Names the characters that `char::to_uppercase` yields for `c`.
pub uninterp spec fn uppercase_of(c: char) -> Seq<char>;

/// `s` with every occurrence of `pat`, found from left to right without
/// overlap, replaced by `with`. An empty pattern occurs nowhere.
pub open spec fn replaced(s: Seq<char>, pat: Seq<char>, with: Seq<char>) -> Seq<char>
    decreases s.len(),
{
    if pat.len() == 0 || s.len() < pat.len() {
        s
    } else if has_at(s, 0, pat) {
        with + replaced(s.skip(pat.len() as int), pat, with)
    } else {
        seq![s[0]] + replaced(s.skip(1), pat, with)
    }
}

/// `s` without the characters equal to `c`.
pub open spec fn without(s: Seq<char>, c: char) -> Seq<char>
    decreases s.len(),
{
    if s.len() == 0 {
        s
    } else if s.last() == c {
        without(s.drop_last(), c)
    } else {
        without(s.drop_last(), c).push(s.last())
    }
}

/// The lower-case form of an ASCII capital; any other character unchanged.
pub open spec fn ascii_lower(c: char) -> char {
    if 'A' <= c && c <= 'Z' {
        ((c as u8) + 32) as char
    } else {
        c
    }
}

/// `s` with each ASCII capital in lower case.
pub open spec fn ascii_lowered(s: Seq<char>) -> Seq<char> {
    Seq::new(s.len(), |i: int| ascii_lower(s[i]))
}

/// `s` begins with `prefix`, ASCII letters compared without regard to case.
pub open spec fn has_prefix_ignoring_case(s: Seq<char>, prefix: Seq<char>) -> bool {
    &&& prefix.len() <= s.len()
    &&& ascii_lowered(s.take(prefix.len() as int)) == ascii_lowered(prefix)
}

/// The pieces of `s` between its line feeds; a text without a line feed is
/// one line, and a final line feed is followed by an empty line.
pub open spec fn lines_of(s: Seq<char>) -> Seq<Seq<char>>
    decreases s.len(),
{
    if s.len() == 0 {
        seq![Seq::<char>::empty()]
    } else {
        let before = lines_of(s.drop_last());
        if s.last() == '\n' {
            before.push(Seq::<char>::empty())
        } else {
            before.drop_last().push(before.last().push(s.last()))
        }
    }
}

/// The pieces of `parts` in order, with `sep` between neighbours.
pub open spec fn joined(parts: Seq<Seq<char>>, sep: Seq<char>) -> Seq<char>
    decreases parts.len(),
{
    if parts.len() == 0 {
        Seq::<char>::empty()
    } else if parts.len() == 1 {
        parts[0]
    } else {
        joined(parts.drop_last(), sep) + sep + parts.last()
    }
}

/// The view of each text in `v`.
pub open spec fn views(v: Seq<Vec<char>>) -> Seq<Seq<char>> {
    Seq::new(v.len(), |i: int| v[i]@)
}

/// The characters of an optional text.
pub open spec fn optional_text(text: Option<String>) -> Option<Seq<char>> {
    match text {
        Some(t) => Some(t@),
        None => None,
    }
}

/// `String::push` appends one character to the string.
pub assume_specification[ String::push ](s: &mut String, c: char)
    ensures
        final(s)@ == old(s)@.push(c),
;

/// `str::to_lowercase` returns the lower-case form of the text, which std
/// computes from the Unicode tables and from the text alone; that form is
/// named, not described.
pub assume_specification[ str::to_lowercase ](s: &str) -> (r: String)
    ensures
        r@ == lowercase_of(s@),
;

/// `char::to_uppercase` yields the upper-case form of one character, which
/// may be several characters long and depends on the character alone; the
/// characters are collected in order, and their sequence is named, not
/// described.
#[verifier::external_body]
pub(crate) fn uppercase_chars(c: char) -> (r: Vec<char>)
    ensures
        r@ == uppercase_of(c),
{
    c.to_uppercase().collect()
}

/// Tells whether `c` is a whitespace character.
pub fn is_whitespace(c: char) -> (b: bool)
    ensures
        b == is_space(c),
{
    ('\u{9}' <= c && c <= '\u{D}') || c == ' ' || c == '\u{85}' || c == '\u{A0}' || c == '\u{1680}'
        || ('\u{2000}' <= c && c <= '\u{200A}') || c == '\u{2028}' || c == '\u{2029}' || c
        == '\u{202F}' || c == '\u{205F}' || c == '\u{3000}'
}

/// The characters of `s`, in order.
pub fn chars_of(s: &str) -> (v: Vec<char>)
    ensures
        v@ == s@,
{
    let mut v: Vec<char> = Vec::new();
    for c in it: s.chars()
        invariant
            v@ == it.seq().take(it.index() as int),
            it.seq() == s@,
    {
        v.push(c);
    }
    v
}

/// The string made of the characters of `v`, in order.
pub fn string_of(v: &Vec<char>) -> (s: String)
    ensures
        s@ == v@,
{
    let mut s = String::new();
    let mut i: usize = 0;
    while i < v.len()
        invariant
            i <= v.len(),
            s@ == v@.take(i as int),
        decreases v.len() - i,
    {
        s.push(v[i]);
        i += 1;
        assert(v@.take(i as int) == v@.take(i - 1).push(v@[i - 1]));
    }
    assert(v@.take(v.len() as int) == v@);
    s
}

/// A copy of the characters of `s` from index `from` up to `to`.
pub fn copy_range(s: &Vec<char>, from: usize, to: usize) -> (out: Vec<char>)
    requires
        from <= to <= s.len(),
    ensures
        out@ == s@.subrange(from as int, to as int),
{
    let mut out: Vec<char> = Vec::new();
    let mut i: usize = from;
    while i < to
        invariant
            from <= i <= to,
            to <= s.len(),
            out@ == s@.subrange(from as int, i as int),
        decreases to - i,
    {
        out.push(s[i]);
        i += 1;
        assert(s@.subrange(from as int, i as int) == s@.subrange(from as int, i - 1).push(
            s@[i - 1],
        ));
    }
    out
}

/// Appends the characters of `more` to `out`.
pub fn append_chars(out: &mut Vec<char>, more: &Vec<char>)
    ensures
        final(out)@ == old(out)@ + more@,
{
    let mut i: usize = 0;
    while i < more.len()
        invariant
            i <= more.len(),
            out@ == old(out)@ + more@.take(i as int),
        decreases more.len() - i,
    {
        out.push(more[i]);
        i += 1;
        assert(more@.take(i as int) == more@.take(i - 1).push(more@[i - 1]));
    }
    assert(more@.take(more.len() as int) == more@);
}

/// Tells whether `pat` stands in `s` at index `i`.
pub fn matches_at(s: &Vec<char>, i: usize, pat: &Vec<char>) -> (b: bool)
    ensures
        b == has_at(s@, i as int, pat@),
{
    if pat.len() > s.len() || i > s.len() - pat.len() {
        return false;
    }
    let mut j: usize = 0;
    while j < pat.len()
        invariant
            j <= pat.len(),
            i + pat.len() <= s.len(),
            forall|k: int| 0 <= k < j ==> s@[i + k] == pat@[k],
        decreases pat.len() - j,
    {
        if s[i + j] != pat[j] {
            assert(s@.subrange(i as int, i + pat.len())[j as int] != pat@[j as int]);
            return false;
        }
        j += 1;
    }
    assert(s@.subrange(i as int, i + pat.len()) =~= pat@);
    true
}

/// `leading_spaces(s)` is the one count `n` such that the first `n`
/// characters are whitespace and the next one, if any, is not.
pub proof fn lemma_leading_spaces_is(s: Seq<char>, n: int)
    requires
        0 <= n <= s.len(),
        forall|k: int| 0 <= k < n ==> is_space(#[trigger] s[k]),
        n == s.len() || !is_space(s[n]),
    ensures
        leading_spaces(s) == n,
    decreases n,
{
    if n > 0 {
        let rest = s.skip(1);
        assert forall|k: int| 0 <= k < n - 1 implies is_space(#[trigger] rest[k]) by {
            assert(rest[k] == s[k + 1]);
        }
        lemma_leading_spaces_is(rest, n - 1);
    }
}

/// `trailing_spaces(s)` is the one count `n` such that the last `n`
/// characters are whitespace and the one before them, if any, is not.
pub proof fn lemma_trailing_spaces_is(s: Seq<char>, n: int)
    requires
        0 <= n <= s.len(),
        forall|k: int| s.len() - n <= k < s.len() ==> is_space(#[trigger] s[k]),
        n == s.len() || !is_space(s[s.len() - n - 1]),
    ensures
        trailing_spaces(s) == n,
    decreases n,
{
    if n > 0 {
        let rest = s.drop_last();
        assert forall|k: int| rest.len() - (n - 1) <= k < rest.len() implies is_space(
            #[trigger] rest[k],
        ) by {
            assert(rest[k] == s[k]);
        }
        lemma_trailing_spaces_is(rest, n - 1);
    }
}

/// The first `leading_spaces(s)` characters are whitespace and the next
/// one, if any, is not.
pub proof fn lemma_leading_spaces_bounds(s: Seq<char>)
    ensures
        leading_spaces(s) <= s.len(),
        forall|k: int| 0 <= k < leading_spaces(s) ==> is_space(#[trigger] s[k]),
        leading_spaces(s) == s.len() || !is_space(s[leading_spaces(s) as int]),
    decreases s.len(),
{
    if s.len() > 0 && is_space(s[0]) {
        let rest = s.skip(1);
        lemma_leading_spaces_bounds(rest);
        assert forall|k: int| 0 <= k < leading_spaces(s) implies is_space(#[trigger] s[k]) by {
            if k > 0 {
                assert(s[k] == rest[k - 1]);
            }
        }
        if leading_spaces(s) < s.len() {
            assert(s[leading_spaces(s) as int] == rest[leading_spaces(rest) as int]);
        }
    }
}

/// The last `trailing_spaces(s)` characters are whitespace and the one
/// before them, if any, is not.
pub proof fn lemma_trailing_spaces_bounds(s: Seq<char>)
    ensures
        trailing_spaces(s) <= s.len(),
        forall|k: int| s.len() - trailing_spaces(s) <= k < s.len() ==> is_space(#[trigger] s[k]),
        trailing_spaces(s) == s.len() || !is_space(s[s.len() - trailing_spaces(s) - 1]),
    decreases s.len(),
{
    if s.len() > 0 && is_space(s.last()) {
        let rest = s.drop_last();
        lemma_trailing_spaces_bounds(rest);
        assert forall|k: int| s.len() - trailing_spaces(s) <= k < s.len() implies is_space(
            #[trigger] s[k],
        ) by {
            if k < s.len() - 1 {
                assert(s[k] == rest[k]);
            }
        }
        if trailing_spaces(s) < s.len() {
            assert(s[s.len() - trailing_spaces(s) - 1] == rest[rest.len() - trailing_spaces(rest)
                - 1]);
        }
    }
}

/// The index of the first character at or after `from` that is not
/// whitespace, or the length of `s` when there is none.
pub fn skip_spaces(s: &Vec<char>, from: usize) -> (to: usize)
    requires
        from <= s.len(),
    ensures
        from <= to <= s.len(),
        to == from + leading_spaces(s@.skip(from as int)),
{
    let mut i: usize = from;
    while i < s.len() && is_whitespace(s[i])
        invariant
            from <= i <= s.len(),
            forall|k: int| from <= k < i ==> is_space(#[trigger] s@[k]),
        decreases s.len() - i,
    {
        i += 1;
    }
    proof {
        let rest = s@.skip(from as int);
        assert forall|k: int| 0 <= k < i - from implies is_space(#[trigger] rest[k]) by {
            assert(rest[k] == s@[from + k]);
        }
        lemma_leading_spaces_is(rest, i - from);
    }
    i
}

/// The end of `s` once the whitespace at its back is left out, counted
/// from `from` on.
pub fn end_before_spaces(s: &Vec<char>, from: usize) -> (to: usize)
    requires
        from <= s.len(),
    ensures
        from <= to <= s.len(),
        to == s.len() - trailing_spaces(s@.skip(from as int)),
{
    let mut i: usize = s.len();
    while i > from && is_whitespace(s[i - 1])
        invariant
            from <= i <= s.len(),
            forall|k: int| i <= k < s.len() ==> is_space(#[trigger] s@[k]),
        decreases i,
    {
        i -= 1;
    }
    proof {
        let rest = s@.skip(from as int);
        assert forall|k: int| rest.len() - (s.len() - i) <= k < rest.len() implies is_space(
            #[trigger] rest[k],
        ) by {
            assert(rest[k] == s@[from + k]);
        }
        if i > from {
            assert(rest[rest.len() - (s.len() - i) - 1] == s@[i - 1]);
        }
        lemma_trailing_spaces_is(rest, s.len() - i);
    }
    i
}

/// `s` without its leading and trailing whitespace.
pub fn trim(s: &Vec<char>) -> (out: Vec<char>)
    ensures
        out@ == trimmed(s@),
{
    let a = skip_spaces(s, 0);
    let b = end_before_spaces(s, a);
    proof {
        assert(s@.skip(0) == s@);
        let rest = s@.skip(a as int);
        assert(rest.take(rest.len() - trailing_spaces(rest)) == s@.subrange(a as int, b as int));
    }
    copy_range(s, a, b)
}

/// `s` with every occurrence of `pat` replaced by `with`.
pub fn replace_all(s: &Vec<char>, pat: &Vec<char>, with: &Vec<char>) -> (out: Vec<char>)
    ensures
        out@ == replaced(s@, pat@, with@),
{
    let mut out: Vec<char> = Vec::new();
    let mut i: usize = 0;
    assert(s@.skip(0) == s@);
    assert(out@ + replaced(s@, pat@, with@) == replaced(s@, pat@, with@));
    while i < s.len()
        invariant
            i <= s.len(),
            out@ + replaced(s@.skip(i as int), pat@, with@) == replaced(s@, pat@, with@),
        decreases s.len() - i,
    {
        let ghost rest = s@.skip(i as int);
        if pat.len() > 0 && matches_at(s, i, pat) {
            proof {
                assert(rest.subrange(0, pat.len() as int) == s@.subrange(
                    i as int,
                    i + pat.len(),
                ));
                assert(rest.skip(pat.len() as int) == s@.skip(i + pat.len()));
                assert(out@ + with@ + replaced(s@.skip(i + pat.len()), pat@, with@) == out@ + (
                with@ + replaced(s@.skip(i + pat.len()), pat@, with@)));
            }
            append_chars(&mut out, with);
            i += pat.len();
        } else {
            proof {
                if pat.len() > 0 && rest.len() >= pat.len() {
                    assert(rest.subrange(0, pat.len() as int) == s@.subrange(
                        i as int,
                        i + pat.len(),
                    ));
                    assert(rest.skip(1) == s@.skip(i + 1));
                    assert(out@.push(s@[i as int]) + replaced(s@.skip(i + 1), pat@, with@)
                        == out@ + (seq![rest[0]] + replaced(s@.skip(i + 1), pat@, with@)));
                } else {
                    lemma_replaced_short(s@.skip(i + 1), pat@, with@);
                    assert(out@.push(s@[i as int]) + s@.skip(i + 1) == out@ + rest);
                }
            }
            out.push(s[i]);
            i += 1;
        }
    }
    assert(out@ + Seq::<char>::empty() == out@);
    out
}

/// A text shorter than a pattern, or an empty pattern, leaves the text as
/// it is.
pub proof fn lemma_replaced_short(s: Seq<char>, pat: Seq<char>, with: Seq<char>)
    requires
        pat.len() == 0 || s.len() < pat.len(),
    ensures
        replaced(s, pat, with) == s,
{
}

/// `s` without the characters equal to `c`.
pub fn remove_char(s: &Vec<char>, c: char) -> (out: Vec<char>)
    ensures
        out@ == without(s@, c),
{
    let mut out: Vec<char> = Vec::new();
    let mut i: usize = 0;
    while i < s.len()
        invariant
            i <= s.len(),
            out@ == without(s@.take(i as int), c),
        decreases s.len() - i,
    {
        proof {
            assert(s@.take(i + 1).drop_last() == s@.take(i as int));
        }
        if s[i] != c {
            out.push(s[i]);
        }
        i += 1;
    }
    assert(s@.take(s.len() as int) == s@);
    out
}

/// The lower-case form of an ASCII capital; any other character unchanged.
pub fn lower_ascii(c: char) -> (r: char)
    ensures
        r == ascii_lower(c),
{
    if 'A' <= c && c <= 'Z' {
        ((c as u8) + 32) as char
    } else {
        c
    }
}

/// `s` with each ASCII capital in lower case.
pub fn lower_ascii_all(s: &Vec<char>) -> (out: Vec<char>)
    ensures
        out@ == ascii_lowered(s@),
{
    let mut out: Vec<char> = Vec::new();
    let mut i: usize = 0;
    while i < s.len()
        invariant
            i <= s.len(),
            out@.len() == i,
            forall|k: int| 0 <= k < i ==> out@[k] == ascii_lower(s@[k]),
        decreases s.len() - i,
    {
        out.push(lower_ascii(s[i]));
        i += 1;
    }
    assert(out@ =~= ascii_lowered(s@));
    out
}

/// Tells whether `s` begins with `prefix`, ASCII letters compared without
/// regard to case.
pub fn starts_with_ignoring_case(s: &Vec<char>, prefix: &Vec<char>) -> (b: bool)
    ensures
        b == has_prefix_ignoring_case(s@, prefix@),
{
    if prefix.len() > s.len() {
        return false;
    }
    let mut j: usize = 0;
    while j < prefix.len()
        invariant
            j <= prefix.len() <= s.len(),
            forall|k: int| 0 <= k < j ==> ascii_lower(s@[k]) == ascii_lower(prefix@[k]),
        decreases prefix.len() - j,
    {
        if lower_ascii(s[j]) != lower_ascii(prefix[j]) {
            assert(ascii_lowered(s@.take(prefix.len() as int))[j as int] != ascii_lowered(
                prefix@,
            )[j as int]);
            return false;
        }
        j += 1;
    }
    assert(ascii_lowered(s@.take(prefix.len() as int)) =~= ascii_lowered(prefix@));
    true
}

/// The index of the first occurrence of `pat` in `s` at or after `from`.
pub fn find_from(s: &Vec<char>, pat: &Vec<char>, from: usize) -> (r: Option<usize>)
    ensures
        match r {
            Some(i) => from <= i && has_at(s@, i as int, pat@) && forall|k: int|
                from <= k < i ==> !has_at(s@, k, pat@),
            None => forall|k: int| from <= k ==> !has_at(s@, k, pat@),
        },
{
    let mut i: usize = from;
    while i < s.len()
        invariant
            from <= i,
            forall|k: int| from <= k < i ==> !has_at(s@, k, pat@),
        decreases s.len() - i,
    {
        if matches_at(s, i, pat) {
            return Some(i);
        }
        i += 1;
    }
    if matches_at(s, i, pat) {
        return Some(i);
    }
    None
}

/// Tells whether `pat` stands somewhere in `s`.
pub fn contains(s: &Vec<char>, pat: &Vec<char>) -> (b: bool)
    ensures
        b == occurs_in(pat@, s@),
{
    match find_from(s, pat, 0) {
        Some(i) => true,
        None => false,
    }
}

/// The lines of `s`.
pub fn split_lines(s: &Vec<char>) -> (lines: Vec<Vec<char>>)
    ensures
        views(lines@) == lines_of(s@),
{
    let mut lines: Vec<Vec<char>> = Vec::new();
    let mut current: Vec<char> = Vec::new();
    let mut i: usize = 0;
    while i < s.len()
        invariant
            i <= s.len(),
            views(lines@).push(current@) == lines_of(s@.take(i as int)),
        decreases s.len() - i,
    {
        proof {
            assert(s@.take(i + 1).drop_last() == s@.take(i as int));
        }
        if s[i] == '\n' {
            let ghost before = views(lines@);
            lines.push(current);
            assert(views(lines@) == before.push(current@));
            current = Vec::new();
        } else {
            proof {
                let before = views(lines@).push(current@);
                assert(before.drop_last() == views(lines@));
            }
            current.push(s[i]);
        }
        i += 1;
    }
    assert(s@.take(s.len() as int) == s@);
    let ghost before = views(lines@);
    lines.push(current);
    assert(views(lines@) == before.push(current@));
    lines
}

/// The texts of `parts` in order, with `sep` between neighbours.
pub fn join(parts: &Vec<Vec<char>>, sep: &Vec<char>) -> (out: Vec<char>)
    ensures
        out@ == joined(views(parts@), sep@),
{
    let mut out: Vec<char> = Vec::new();
    let mut i: usize = 0;
    while i < parts.len()
        invariant
            i <= parts.len(),
            out@ == joined(views(parts@).take(i as int), sep@),
        decreases parts.len() - i,
    {
        proof {
            let upto = views(parts@).take(i + 1);
            assert(upto.drop_last() == views(parts@).take(i as int));
            assert(upto.last() == parts@[i as int]@);
            if i == 0 {
                assert(Seq::<char>::empty() + parts@[0]@ == parts@[0]@);
            }
        }
        if i > 0 {
            append_chars(&mut out, sep);
        }
        append_chars(&mut out, &parts[i]);
        i += 1;
    }
    assert(views(parts@).take(parts.len() as int) == views(parts@));
    out
}

/// Tells whether one of `words` stands somewhere in `s`.
pub fn contains_any(s: &Vec<char>, words: &Vec<Vec<char>>) -> (b: bool)
    ensures
        b == any_occurs(views(words@), s@),
{
    let mut k: usize = 0;
    while k < words.len()
        invariant
            k <= words.len(),
            forall|j: int| 0 <= j < k ==> !occurs_in(#[trigger] views(words@)[j], s@),
        decreases words.len() - k,
    {
        if contains(s, &words[k]) {
            assert(occurs_in(views(words@)[k as int], s@));
            return true;
        }
        k += 1;
    }
    false
}

/// Tells whether two texts hold the same characters.
pub fn same_text(a: &Vec<char>, b: &Vec<char>) -> (same: bool)
    ensures
        same == (a@ == b@),
{
    if a.len() != b.len() {
        return false;
    }
    let same = matches_at(a, 0, b);
    proof {
        assert(a@.subrange(0, a@.len() as int) == a@);
    }
    same
}

} // verus!
