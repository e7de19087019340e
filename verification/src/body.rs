//! The body of a commit: the paragraphs below the first line, each once.

use vstd::prelude::*;
use crate::text::{
    append_chars, chars_of, join, joined, lines_of, same_text, split_lines, string_of, trim,
    trimmed, views,
};

verus! {

/// Each line of `lines`, trimmed.
pub open spec fn trimmed_lines(lines: Seq<Seq<char>>) -> Seq<Seq<char>> {
    Seq::new(lines.len(), |i: int| trimmed(lines[i]))
}

/// The paragraphs that trimmed `lines` have closed so far, and the one
/// still open: a line that is not empty joins the open paragraph after a
/// space, and an empty line closes it.
pub open spec fn grouped(lines: Seq<Seq<char>>) -> (Seq<Seq<char>>, Seq<char>)
    decreases lines.len(),
{
    if lines.len() == 0 {
        (Seq::<Seq<char>>::empty(), Seq::<char>::empty())
    } else {
        let (closed, open) = grouped(lines.drop_last());
        let line = lines.last();
        if line.len() == 0 {
            if open.len() > 0 {
                (closed.push(open), Seq::<char>::empty())
            } else {
                (closed, open)
            }
        } else if open.len() == 0 {
            (closed, line)
        } else {
            (closed, open + seq![' '] + line)
        }
    }
}

/// The paragraphs of trimmed `lines`: runs of lines that are not empty,
/// the lines of a run joined by single spaces.
pub open spec fn paragraphs(lines: Seq<Seq<char>>) -> Seq<Seq<char>> {
    let (closed, open) = grouped(lines);
    if open.len() > 0 {
        closed.push(open)
    } else {
        closed
    }
}

/// `parts` with each text kept where it first occurs and left out after
/// that.
pub open spec fn unique(parts: Seq<Seq<char>>) -> Seq<Seq<char>>
    decreases parts.len(),
{
    if parts.len() == 0 {
        parts
    } else {
        let before = unique(parts.drop_last());
        if before.contains(parts.last()) {
            before
        } else {
            before.push(parts.last())
        }
    }
}

/// The paragraphs of the body of `text`: those of its lines after the
/// first, trimmed, each paragraph once.
pub open spec fn body_paragraphs(text: Seq<char>) -> Seq<Seq<char>> {
    unique(paragraphs(trimmed_lines(lines_of(text).skip(1))))
}

/// The body of `text`: its paragraphs with an empty line between
/// neighbours, or `None` where no line after the first holds anything.
pub open spec fn body_of(text: Seq<char>) -> Option<Seq<char>> {
    if body_paragraphs(text).len() == 0 {
        None
    } else {
        Some(joined(body_paragraphs(text), "\n\n"@))
    }
}

/// Tells whether `part` is among `parts`.
fn holds(parts: &Vec<Vec<char>>, part: &Vec<char>) -> (found: bool)
    ensures
        found == views(parts@).contains(part@),
{
    let mut i: usize = 0;
    while i < parts.len()
        invariant
            i <= parts.len(),
            forall|k: int| 0 <= k < i ==> views(parts@)[k] != part@,
        decreases parts.len() - i,
    {
        if same_text(&parts[i], part) {
            assert(views(parts@)[i as int] == part@);
            return true;
        }
        i += 1;
    }
    false
}

/// The paragraphs of the lines of `lines` after the first.
fn collect_paragraphs(lines: &Vec<Vec<char>>) -> (out: Vec<Vec<char>>)
    requires
        lines.len() > 0,
    ensures
        views(out@) == paragraphs(trimmed_lines(views(lines@).skip(1))),
{
    let ghost rest = trimmed_lines(views(lines@).skip(1));
    let mut closed: Vec<Vec<char>> = Vec::new();
    let mut open: Vec<char> = Vec::new();
    let mut i: usize = 1;
    assert(views(closed@) =~= Seq::<Seq<char>>::empty());
    assert(rest.take(0) =~= Seq::<Seq<char>>::empty());
    while i < lines.len()
        invariant
            1 <= i <= lines.len(),
            rest == trimmed_lines(views(lines@).skip(1)),
            grouped(rest.take(i - 1)) == (views(closed@), open@),
        decreases lines.len() - i,
    {
        let line = trim(&lines[i]);
        proof {
            assert(rest.take(i as int).drop_last() == rest.take(i - 1));
            assert(rest.take(i as int).last() == line@);
        }
        if line.len() == 0 {
            if open.len() > 0 {
                let ghost before = views(closed@);
                closed.push(open);
                assert(views(closed@) == before.push(open@));
                open = Vec::new();
            }
        } else if open.len() == 0 {
            open = line;
        } else {
            open.push(' ');
            append_chars(&mut open, &line);
        }
        i += 1;
    }
    assert(rest.take(lines.len() - 1) == rest);
    if open.len() > 0 {
        let ghost before = views(closed@);
        closed.push(open);
        assert(views(closed@) == before.push(open@));
    }
    closed
}

/// `parts` with each text kept where it first occurs.
fn keep_first(parts: Vec<Vec<char>>) -> (out: Vec<Vec<char>>)
    ensures
        views(out@) == unique(views(parts@)),
{
    let ghost all = views(parts@);
    let mut out: Vec<Vec<char>> = Vec::new();
    let mut i: usize = 0;
    assert(views(out@) =~= unique(all.take(0)));
    while i < parts.len()
        invariant
            i <= parts.len(),
            all == views(parts@),
            views(out@) == unique(all.take(i as int)),
        decreases parts.len() - i,
    {
        proof {
            assert(all.take(i + 1).drop_last() == all.take(i as int));
            assert(all.take(i + 1).last() == parts@[i as int]@);
        }
        if !holds(&out, &parts[i]) {
            let ghost before = views(out@);
            let part = copy_part(&parts[i]);
            out.push(part);
            assert(views(out@) == before.push(parts@[i as int]@));
        }
        i += 1;
    }
    assert(all.take(parts.len() as int) == all);
    out
}

fn copy_part(part: &Vec<char>) -> (out: Vec<char>)
    ensures
        out@ == part@,
{
    let mut out: Vec<char> = Vec::new();
    append_chars(&mut out, part);
    assert(Seq::<char>::empty() + part@ == part@);
    out
}

/// The body of a message: the paragraphs below its first line, each kept
/// once, with an empty line between neighbours; `None` where no line
/// after the first holds anything.
pub fn extract_body(text: &str) -> (body: Option<String>)
    ensures
        match body {
            Some(b) => body_of(text@) == Some(b@),
            None => body_of(text@) is None,
        },
{
    let chars = chars_of(text);
    let lines = split_lines(&chars);
    proof {
        lemma_lines_not_empty(chars@);
        assert(views(lines@).len() == lines@.len());
    }
    let all = collect_paragraphs(&lines);
    let kept = keep_first(all);
    assert(views(kept@).len() == kept@.len());
    if kept.len() == 0 {
        None
    } else {
        let gap = chars_of("\n\n");
        let whole = join(&kept, &gap);
        Some(string_of(&whole))
    }
}

/// Every text has at least one line.
pub proof fn lemma_lines_not_empty(s: Seq<char>)
    ensures
        lines_of(s).len() > 0,
    decreases s.len(),
{
    if s.len() > 0 {
        lemma_lines_not_empty(s.drop_last());
    }
}

/// What `unique` keeps is what the texts hold, no more and no less.
pub proof fn lemma_unique_holds_the_same(parts: Seq<Seq<char>>, part: Seq<char>)
    ensures
        unique(parts).contains(part) <==> parts.contains(part),
    decreases parts.len(),
{
    if parts.len() > 0 {
        let before = parts.drop_last();
        let last = parts.last();
        lemma_unique_holds_the_same(before, part);
        let kept = unique(before);
        let all = unique(parts);
        if parts.contains(part) {
            let i = choose|i: int| 0 <= i < parts.len() && parts[i] == part;
            if i < parts.len() - 1 {
                assert(before[i] == part);
                assert(before.contains(part));
                let j = choose|j: int| 0 <= j < kept.len() && kept[j] == part;
                assert(all[j] == part);
            } else if kept.contains(last) {
                assert(all == kept);
            } else {
                assert(all[kept.len() as int] == part);
            }
            assert(all.contains(part));
        }
        if all.contains(part) {
            let i = choose|i: int| 0 <= i < all.len() && all[i] == part;
            if i < kept.len() {
                assert(kept[i] == part);
                assert(kept.contains(part));
                let j = choose|j: int| 0 <= j < before.len() && before[j] == part;
                assert(parts[j] == part);
            } else {
                assert(parts[parts.len() - 1] == part);
            }
            assert(parts.contains(part));
        }
    }
}

/// No paragraph stands twice among those that `unique` keeps.
pub proof fn lemma_unique_has_no_duplicates(parts: Seq<Seq<char>>)
    ensures
        unique(parts).no_duplicates(),
    decreases parts.len(),
{
    if parts.len() > 0 {
        lemma_unique_has_no_duplicates(parts.drop_last());
    }
}

/// No paragraph stands twice in the body of a message, and every paragraph
/// below the first line of the message stands in it.
pub proof fn lemma_body_holds_each_paragraph_once(text: Seq<char>)
    ensures
        body_paragraphs(text).no_duplicates(),
        forall|part: Seq<char>|
            paragraphs(trimmed_lines(lines_of(text).skip(1))).contains(part)
                <==> #[trigger] body_paragraphs(text).contains(part),
{
    let all = paragraphs(trimmed_lines(lines_of(text).skip(1)));
    lemma_unique_has_no_duplicates(all);
    assert forall|part: Seq<char>|
        all.contains(part) <==> #[trigger] body_paragraphs(text).contains(part) by {
        lemma_unique_holds_the_same(all, part);
    }
}

} // verus!
