//! Commit types, and the keywords by which a message is given one.

use vstd::prelude::*;
use crate::text::{any_occurs, chars_of, contains_any, lowercase_of, occurs_in, views};

verus! {

/// The closed set of commit types.
#[derive(Clone, Copy, Debug, PartialEq, Eq, Structural)]
pub enum CommitTypeToken {
    Feat,
    Fix,
    Chore,
    Docs,
    Style,
    Refactor,
    Perf,
    Test,
    Build,
    Ci,
    Revert,
}

/// The types that have keywords, in the order in which they are tried.
pub open spec fn priority() -> Seq<CommitTypeToken> {
    seq![
        CommitTypeToken::Feat,
        CommitTypeToken::Fix,
        CommitTypeToken::Docs,
        CommitTypeToken::Style,
        CommitTypeToken::Refactor,
        CommitTypeToken::Perf,
        CommitTypeToken::Test,
        CommitTypeToken::Build,
        CommitTypeToken::Ci,
        CommitTypeToken::Revert,
    ]
}

/// The keywords of a type; `Chore` has none, it is what is left.
pub open spec fn keywords(token: CommitTypeToken) -> Seq<Seq<char>> {
    match token {
        CommitTypeToken::Feat => seq!["add"@, "new"@, "implement"@, "create"@],
        CommitTypeToken::Fix => seq!["fix"@, "bug"@, "issue"@, "resolve"@, "patch"@],
        CommitTypeToken::Chore => Seq::<Seq<char>>::empty(),
        CommitTypeToken::Docs => seq!["document"@, "comment"@, "readme"@],
        CommitTypeToken::Style => seq!["format"@, "style"@, "lint"@],
        CommitTypeToken::Refactor => seq!["refactor"@, "restructure"@, "reorganize"@],
        CommitTypeToken::Perf => seq!["performance"@, "optimize"@, "speed"@],
        CommitTypeToken::Test => seq!["test"@, "spec"@, "coverage"@],
        CommitTypeToken::Build => seq!["build"@, "dependency"@, "dependencies"@, "version"@],
        CommitTypeToken::Ci => seq!["ci"@, "pipeline"@, "workflow"@, "github action"@],
        CommitTypeToken::Revert => seq!["revert"@, "rollback"@, "undo"@],
    }
}

/// The literal markers of a breaking change.
pub open spec fn breaking_markers() -> Seq<Seq<char>> {
    seq![
        "breaking change"@,
        "breaking-change"@,
        "major version"@,
        "incompatible"@,
        "backwards-incompatible"@,
        "breaking update"@,
    ]
}

/// A lower-cased text announces a breaking change: one of the markers
/// stands in it.
pub open spec fn announces_breaking(lowered: Seq<char>) -> bool {
    any_occurs(breaking_markers(), lowered)
}

/// The first type, from number `k` of the priority order on, one of whose
/// keywords stands in `lowered`; `Chore` where there is none.
pub open spec fn first_keyword_type(lowered: Seq<char>, k: int) -> CommitTypeToken
    decreases priority().len() - k,
{
    if k < 0 || k >= priority().len() {
        CommitTypeToken::Chore
    } else if any_occurs(keywords(priority()[k]), lowered) {
        priority()[k]
    } else {
        first_keyword_type(lowered, k + 1)
    }
}

/// The type of a message whose lower-cased text is `lowered`: `Feat` for a
/// breaking change, else the first type in priority order with a keyword in
/// the text, else `Chore`.
pub open spec fn classified(lowered: Seq<char>, breaking: bool) -> CommitTypeToken {
    if breaking {
        CommitTypeToken::Feat
    } else {
        first_keyword_type(lowered, 0)
    }
}

/// The text of a type as it stands at the head of a commit message.
pub open spec fn token_text(token: CommitTypeToken) -> Seq<char> {
    match token {
        CommitTypeToken::Feat => "feat"@,
        CommitTypeToken::Fix => "fix"@,
        CommitTypeToken::Chore => "chore"@,
        CommitTypeToken::Docs => "docs"@,
        CommitTypeToken::Style => "style"@,
        CommitTypeToken::Refactor => "refactor"@,
        CommitTypeToken::Perf => "perf"@,
        CommitTypeToken::Test => "test"@,
        CommitTypeToken::Build => "build"@,
        CommitTypeToken::Ci => "ci"@,
        CommitTypeToken::Revert => "revert"@,
    }
}

impl CommitTypeToken {
    /// The text of the type as it stands at the head of a commit message.
    pub fn as_str(&self) -> (s: &'static str)
        ensures
            s@ == token_text(*self),
    {
        match self {
            CommitTypeToken::Feat => "feat",
            CommitTypeToken::Fix => "fix",
            CommitTypeToken::Chore => "chore",
            CommitTypeToken::Docs => "docs",
            CommitTypeToken::Style => "style",
            CommitTypeToken::Refactor => "refactor",
            CommitTypeToken::Perf => "perf",
            CommitTypeToken::Test => "test",
            CommitTypeToken::Build => "build",
            CommitTypeToken::Ci => "ci",
            CommitTypeToken::Revert => "revert",
        }
    }
}

/// Type number `k` of the priority order.
fn priority_number(k: usize) -> (token: CommitTypeToken)
    requires
        k < 10,
    ensures
        token == priority()[k as int],
{
    if k == 0 {
        CommitTypeToken::Feat
    } else if k == 1 {
        CommitTypeToken::Fix
    } else if k == 2 {
        CommitTypeToken::Docs
    } else if k == 3 {
        CommitTypeToken::Style
    } else if k == 4 {
        CommitTypeToken::Refactor
    } else if k == 5 {
        CommitTypeToken::Perf
    } else if k == 6 {
        CommitTypeToken::Test
    } else if k == 7 {
        CommitTypeToken::Build
    } else if k == 8 {
        CommitTypeToken::Ci
    } else {
        CommitTypeToken::Revert
    }
}

/// The texts of `words`, as characters.
fn word_list(words: &[&str]) -> (list: Vec<Vec<char>>)
    ensures
        list@.len() == words@.len(),
        forall|k: int| 0 <= k < words@.len() ==> (#[trigger] list@[k])@ == words@[k]@,
{
    let mut list: Vec<Vec<char>> = Vec::new();
    let mut k: usize = 0;
    while k < words.len()
        invariant
            k <= words.len(),
            list@.len() == k,
            forall|j: int| 0 <= j < k ==> (#[trigger] list@[j])@ == words@[j]@,
        decreases words.len() - k,
    {
        list.push(chars_of(words[k]));
        k += 1;
    }
    list
}

/// The keywords of a type.
fn keyword_list(token: CommitTypeToken) -> (list: Vec<Vec<char>>)
    ensures
        views(list@) == keywords(token),
{
    let list = match token {
        CommitTypeToken::Feat => word_list(&["add", "new", "implement", "create"]),
        CommitTypeToken::Fix => word_list(&["fix", "bug", "issue", "resolve", "patch"]),
        CommitTypeToken::Chore => word_list(&[]),
        CommitTypeToken::Docs => word_list(&["document", "comment", "readme"]),
        CommitTypeToken::Style => word_list(&["format", "style", "lint"]),
        CommitTypeToken::Refactor => word_list(&["refactor", "restructure", "reorganize"]),
        CommitTypeToken::Perf => word_list(&["performance", "optimize", "speed"]),
        CommitTypeToken::Test => word_list(&["test", "spec", "coverage"]),
        CommitTypeToken::Build => word_list(&["build", "dependency", "dependencies", "version"]),
        CommitTypeToken::Ci => word_list(&["ci", "pipeline", "workflow", "github action"]),
        CommitTypeToken::Revert => word_list(&["revert", "rollback", "undo"]),
    };
    assert(views(list@) =~= keywords(token));
    list
}

/// Tells whether a lower-cased text announces a breaking change.
pub fn detect_breaking_change(lowered: &str) -> (breaking: bool)
    ensures
        breaking == announces_breaking(lowered@),
{
    let markers = word_list(
        &[
            "breaking change",
            "breaking-change",
            "major version",
            "incompatible",
            "backwards-incompatible",
            "breaking update",
        ],
    );
    assert(views(markers@) =~= breaking_markers());
    let text = chars_of(lowered);
    contains_any(&text, &markers)
}

/// The type of a message whose lower-cased text is `lowered`.
pub fn classify_lowered(lowered: &str, breaking: bool) -> (token: CommitTypeToken)
    ensures
        token == classified(lowered@, breaking),
{
    if breaking {
        return CommitTypeToken::Feat;
    }
    let text = chars_of(lowered);
    let mut k: usize = 0;
    while k < 10
        invariant
            k <= 10,
            !breaking,
            text@ == lowered@,
            priority().len() == 10,
            first_keyword_type(lowered@, k as int) == first_keyword_type(lowered@, 0),
        decreases 10 - k,
    {
        let token = priority_number(k);
        let words = keyword_list(token);
        if contains_any(&text, &words) {
            return token;
        }
        k += 1;
    }
    CommitTypeToken::Chore
}

/// The type of a message: its text is put in lower case and searched for
/// the keywords of each type in priority order.
pub fn classify(text: &str, breaking: bool) -> (token: CommitTypeToken)
    ensures
        token == classified(lowercase_of(text@), breaking),
        breaking ==> token == CommitTypeToken::Feat,
{
    let lowered = text.to_lowercase();
    classify_lowered(lowered.as_str(), breaking)
}

/// Precedence: the type of a message that breaks nothing is the first type
/// in priority order with a keyword in the text.
pub proof fn lemma_earliest_type_wins(lowered: Seq<char>, k: int)
    requires
        0 <= k < priority().len(),
        any_occurs(keywords(priority()[k]), lowered),
        forall|j: int| 0 <= j < k ==> !any_occurs(keywords(#[trigger] priority()[j]), lowered),
    ensures
        classified(lowered, false) == priority()[k],
{
    lemma_skips_types_without_keyword(lowered, 0, k);
}

/// The types without a keyword in the text are passed over.
pub proof fn lemma_skips_types_without_keyword(lowered: Seq<char>, from: int, k: int)
    requires
        0 <= from <= k <= priority().len(),
        forall|j: int| from <= j < k ==> !any_occurs(keywords(#[trigger] priority()[j]), lowered),
    ensures
        first_keyword_type(lowered, from) == first_keyword_type(lowered, k),
    decreases k - from,
{
    if from < k {
        lemma_skips_types_without_keyword(lowered, from + 1, k);
    }
}

/// A message in which no type has a keyword is a chore.
pub proof fn lemma_chore_is_what_is_left(lowered: Seq<char>)
    requires
        forall|j: int|
            0 <= j < priority().len() ==> !any_occurs(
                keywords(#[trigger] priority()[j]),
                lowered,
            ),
    ensures
        classified(lowered, false) == CommitTypeToken::Chore,
{
    lemma_skips_types_without_keyword(lowered, 0, priority().len() as int);
}

/// A text that holds a breaking-change marker announces a breaking change,
/// and its type is then `Feat` whatever other keywords it holds.
pub proof fn lemma_marker_forces_feat(lowered: Seq<char>, k: int)
    requires
        0 <= k < breaking_markers().len(),
        occurs_in(breaking_markers()[k], lowered),
    ensures
        announces_breaking(lowered),
        classified(lowered, announces_breaking(lowered)) == CommitTypeToken::Feat,
{
}

} // verus!
