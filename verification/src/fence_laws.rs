//! What holds of cleaning a fenced block, whatever the block encloses.

use vstd::prelude::*;
use crate::stripper::{
    cleaned, close_tag, closing_fence, fence, fence_body, hinted_body, language_hints,
    last_line_feed, leading_hint, open_tag, unfenced, untagged,
};
use crate::stripper_laws::{is_word, lemma_hints_are_words, lemma_last_line_feed_bounds};
use crate::text::{
    has_at, is_space, leading_spaces, lemma_leading_spaces_bounds, lemma_leading_spaces_is,
    lemma_trailing_spaces_is, occurs_in, trimmed,
};
use crate::text_facts::{
    lacks, lemma_replaced_absent, lemma_trimmed_skips_spaces, lemma_without_absent,
};

verus! {

/// The parts of a text that consists of one fenced block.
pub ghost struct FencedBlock {
    /// What stands before the opening delimiter.
    pub before: Seq<char>,
    /// What stands right behind the opening delimiter.
    pub hint: Seq<char>,
    /// What stands between the hint and the end of the opening line.
    pub gap: Seq<char>,
    /// What the fence encloses, from line feed to line feed.
    pub inner: Seq<char>,
    /// What stands behind the closing delimiter.
    pub after: Seq<char>,
}

/// A text of whitespace only.
pub open spec fn is_blank(s: Seq<char>) -> bool {
    forall|k: int| 0 <= k < s.len() ==> is_space(#[trigger] s[k])
}

/// The parts are those of a fenced block: only whitespace round the
/// delimiters, and one of the language hints or none.
pub open spec fn is_fenced_block(block: FencedBlock) -> bool {
    &&& is_blank(block.before)
    &&& is_blank(block.gap)
    &&& is_blank(block.after)
    &&& block.hint.len() == 0 || language_hints().contains(block.hint)
}

/// The text of a fenced block: the opening delimiter with its hint, a line
/// feed, the inner content, a line feed and the closing delimiter, with
/// whitespace where it may stand.
pub open spec fn block_text(block: FencedBlock) -> Seq<char> {
    block.before + fence() + block.hint + block.gap + seq!['\n'] + block.inner + closing_fence()
        + block.after
}

/// The index at which the hint of a block begins.
pub open spec fn hint_start(block: FencedBlock) -> int {
    (block.before.len() + 3) as int
}

/// The index at which the inner content of a block begins.
pub open spec fn inner_start(block: FencedBlock) -> int {
    (block.before.len() + 3 + block.hint.len() + block.gap.len() + 1) as int
}

/// `s` from the line on that follows the last line feed of its leading
/// whitespace: `s` without the blank lines at its head.
pub open spec fn after_blank_lines(s: Seq<char>) -> Seq<char> {
    match last_line_feed(s, 0, leading_spaces(s) as int) {
        Some(j) => s.skip(j + 1),
        None => s,
    }
}

/// Where each character of a fenced block stands.
pub proof fn lemma_block_shape(block: FencedBlock)
    ensures
        ({
            let t = block_text(block);
            let open = block.before.len() as int;
            let hint = hint_start(block);
            let gap = hint + block.hint.len();
            let off = inner_start(block);
            let close = off + block.inner.len();
            &&& t.len() == close + 4 + block.after.len()
            &&& forall|i: int| 0 <= i < open ==> #[trigger] t[i] == block.before[i]
            &&& forall|i: int| open <= i < hint ==> #[trigger] t[i] == '`'
            &&& forall|i: int| hint <= i < gap ==> #[trigger] t[i] == block.hint[i - hint]
            &&& forall|i: int| gap <= i < off - 1 ==> #[trigger] t[i] == block.gap[i - gap]
            &&& t[off - 1] == '\n'
            &&& forall|i: int| off <= i < close ==> #[trigger] t[i] == block.inner[i - off]
            &&& t[close] == '\n'
            &&& forall|i: int| close < i < close + 4 ==> #[trigger] t[i] == '`'
            &&& forall|i: int|
                close + 4 <= i < t.len() ==> #[trigger] t[i] == block.after[i - close - 4]
        }),
{
    reveal_strlit("```");
    reveal_strlit("\n```");
}

/// A tag that begins with `<`, ends with `>` and does not occur in the
/// inner content does not occur in the fenced block.
pub proof fn lemma_block_has_no_tag(block: FencedBlock, tag: Seq<char>)
    requires
        is_blank(block.before),
        is_blank(block.gap),
        is_blank(block.after),
        block.hint.len() == 0 || is_word(block.hint),
        tag.len() >= 2,
        tag[0] == '<',
        tag.last() == '>',
        !occurs_in(tag, block.inner),
    ensures
        !occurs_in(tag, block_text(block)),
{
    let t = block_text(block);
    let off = inner_start(block);
    lemma_block_shape(block);
    if occurs_in(tag, t) {
        let i = choose|i: int| has_at(t, i, tag);
        let found = t.subrange(i, i + tag.len());
        assert(found[0] == t[i]);
        assert(found[tag.len() - 1] == t[i + tag.len() - 1]);
        assert(t[i] == '<');
        assert(t[i + tag.len() - 1] == '>');
        assert(off <= i < off + block.inner.len());
        assert(off <= i + tag.len() - 1 < off + block.inner.len());
        assert(block.inner.subrange(i - off, i - off + tag.len()) =~= found);
        assert(has_at(block.inner, i - off, tag));
    }
}

/// The last line feed of a text that repeats `inner` from `off` on, behind
/// a line feed at `off - 1`, searched from `lo` on.
pub proof fn lemma_line_feed_behind(t: Seq<char>, inner: Seq<char>, lo: int, off: int, hi: int)
    requires
        0 <= lo < off,
        0 <= hi <= inner.len(),
        off + hi <= t.len(),
        t[off - 1] == '\n',
        forall|i: int| off <= i < off + hi ==> #[trigger] t[i] == inner[i - off],
    ensures
        last_line_feed(t, lo, off + hi) == match last_line_feed(inner, 0, hi) {
            Some(j) => Some(off + j),
            None => Some(off - 1),
        },
    decreases hi,
{
    if hi > 0 {
        assert(t[off + hi - 1] == inner[hi - 1]);
        if inner[hi - 1] != '\n' {
            lemma_line_feed_behind(t, inner, lo, off, hi - 1);
        }
    }
}

/// What the fence of a fenced block encloses, read from the end of the
/// hint on: the inner content without the blank lines at its head.
pub proof fn lemma_block_body(block: FencedBlock)
    requires
        is_blank(block.gap),
        is_blank(block.after),
    ensures
        fence_body(block_text(block), hint_start(block) + block.hint.len()) == Some(
            after_blank_lines(block.inner),
        ),
{
    reveal_strlit("\n```");
    let t = block_text(block);
    let inner = block.inner;
    let from = hint_start(block) + block.hint.len();
    let off = inner_start(block);
    let close = off + inner.len();
    let spaces = leading_spaces(inner) as int;
    lemma_block_shape(block);
    lemma_trailing_spaces_is(t, block.after.len() as int);
    assert(t.subrange(close, close + 4) =~= closing_fence());
    // The whitespace behind the hint: the rest of the opening line, the
    // line feed, the leading whitespace of the inner content and, if the
    // content holds nothing else, the line feed before the closing
    // delimiter.
    let rest = t.skip(from);
    lemma_leading_spaces_bounds(inner);
    let run = if spaces < inner.len() {
        off - from + spaces
    } else {
        off - from + spaces + 1
    };
    assert forall|k: int| 0 <= k < run implies is_space(#[trigger] rest[k]) by {
        assert(rest[k] == t[from + k]);
        if from + k < off - 1 {
            assert(t[from + k] == block.gap[k]);
        } else if off <= from + k < close {
            assert(t[from + k] == inner[from + k - off]);
        }
    }
    assert(!is_space(rest[run])) by {
        assert(rest[run] == t[from + run]);
        if spaces < inner.len() {
            assert(t[from + run] == inner[spaces]);
        }
    }
    lemma_leading_spaces_is(rest, run);
    lemma_line_feed_behind(t, inner, from, off, spaces);
    lemma_last_line_feed_bounds(inner, 0, spaces);
    match last_line_feed(inner, 0, spaces) {
        Some(j) => {
            assert(t.subrange(off + j + 1, close) =~= inner.skip(j + 1));
        },
        None => {
            assert(t.subrange(off, close) =~= inner);
        },
    }
}

/// A hint other than the one of a fenced block opens no fence in it.
pub proof fn lemma_other_hint_fails(block: FencedBlock, other: Seq<char>)
    requires
        is_blank(block.gap),
        block.hint.len() == 0 || is_word(block.hint),
        is_word(other),
        other != block.hint,
    ensures
        !has_at(block_text(block), hint_start(block), other) || fence_body(
            block_text(block),
            hint_start(block) + other.len(),
        ) is None,
{
    let t = block_text(block);
    let hint = block.hint;
    let at = hint_start(block);
    lemma_block_shape(block);
    if has_at(t, at, other) {
        let found = t.subrange(at, at + other.len());
        if other.len() > hint.len() {
            assert(found[hint.len() as int] == t[at + hint.len()]);
            if block.gap.len() > 0 {
                assert(t[at + hint.len()] == block.gap[0]);
            }
            assert(false);
        } else if other.len() == hint.len() {
            assert forall|j: int| 0 <= j < hint.len() implies other[j] == hint[j] by {
                assert(found[j] == t[at + j]);
            }
            assert(other =~= hint);
            assert(false);
        } else {
            let from = at + other.len();
            let rest = t.skip(from);
            assert(rest[0] == t[from]);
            assert(t[from] == hint[other.len() as int]);
            lemma_leading_spaces_is(rest, 0);
        }
    }
}

/// What the hinted fence of a fenced block encloses, the hints tried from
/// number `k` on.
pub proof fn lemma_block_hinted_body(block: FencedBlock, k: int)
    requires
        is_blank(block.gap),
        is_blank(block.after),
        block.hint.len() == 0 || is_word(block.hint),
        0 <= k <= language_hints().len(),
    ensures
        hinted_body(block_text(block), hint_start(block), k) == if exists|j: int|
            k <= j < language_hints().len() && language_hints()[j] == block.hint {
            Some(after_blank_lines(block.inner))
        } else {
            None
        },
    decreases language_hints().len() - k,
{
    lemma_hints_are_words();
    let t = block_text(block);
    let at = hint_start(block);
    if k < language_hints().len() {
        let tried = language_hints()[k];
        lemma_block_hinted_body(block, k + 1);
        if tried == block.hint {
            lemma_block_body(block);
            lemma_block_shape(block);
            assert(t.subrange(at, at + block.hint.len()) =~= block.hint);
        } else {
            lemma_other_hint_fails(block, tried);
            if exists|j: int| k <= j < language_hints().len() && language_hints()[j] == block.hint {
                let j = choose|j: int|
                    k <= j < language_hints().len() && language_hints()[j] == block.hint;
                assert(k + 1 <= j);
            }
        }
    }
}

/// A text that consists of one fenced block, with one of the language
/// hints or with none, is cleaned to the inner content of the block,
/// trimmed. This holds as long as the inner content holds no backtick and
/// no wrapper tag and does not begin, below the blank lines at its head,
/// with a language hint followed by whitespace.
pub proof fn lemma_fenced_block_gives_inner(block: FencedBlock)
    requires
        is_fenced_block(block),
        lacks(block.inner, '`'),
        !occurs_in(open_tag(), block.inner),
        !occurs_in(close_tag(), block.inner),
        leading_hint(after_blank_lines(block.inner), 0) is None,
    ensures
        cleaned(block_text(block)) == trimmed(block.inner),
{
    let nothing = Seq::<char>::empty();
    let t = block_text(block);
    let inner = block.inner;
    let content = after_blank_lines(inner);
    let open = block.before.len() as int;
    lemma_hints_are_words();
    reveal_strlit("<commit_message>");
    reveal_strlit("</commit_message>");
    reveal_strlit("```");
    lemma_block_shape(block);
    if block.hint.len() == 0 {
        assert forall|j: int| 0 <= j < language_hints().len() implies language_hints()[j]
            != block.hint by {
            assert(is_word(language_hints()[j]));
        }
    } else {
        let j = choose|j: int| 0 <= j < language_hints().len() && language_hints()[j]
            == block.hint;
        assert(is_word(language_hints()[j]));
    }
    // No tag stands in the block.
    lemma_block_has_no_tag(block, open_tag());
    lemma_block_has_no_tag(block, close_tag());
    lemma_replaced_absent(t, open_tag(), nothing);
    lemma_replaced_absent(t, close_tag(), nothing);
    assert(untagged(t) == t);
    // The block opens to the content.
    lemma_leading_spaces_is(t, open);
    assert(t.subrange(open, open + 3) =~= fence());
    lemma_block_hinted_body(block, 0);
    lemma_block_body(block);
    assert(unfenced(t) == content);
    // The content is a tail of the inner text behind whitespace only.
    lemma_last_line_feed_bounds(inner, 0, leading_spaces(inner) as int);
    lemma_leading_spaces_bounds(inner);
    let dropped = inner.len() - content.len();
    assert(content =~= inner.skip(dropped));
    assert(lacks(content, '`')) by {
        assert forall|k: int| 0 <= k < content.len() implies #[trigger] content[k] != '`' by {
            assert(content[k] == inner[dropped + k]);
        }
    }
    lemma_without_absent(content, '`');
    lemma_trimmed_skips_spaces(inner, dropped);
}

} // verus!
