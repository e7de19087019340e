//! The commit record: what a message says, part by part, and the rendering
//! of the parts as a Conventional Commits message.

use vstd::prelude::*;
use vstd::string::StringExecFns;
use crate::body::{body_of, extract_body};
use crate::classifier::{
    announces_breaking, classified, classify_lowered, detect_breaking_change, token_text,
    CommitTypeToken,
};
use crate::description::{
    is_settled, lemma_settled_description_is_kept, normalize_description, normalized,
};
use crate::scope::{extract_scope, is_scope, lemma_scope_is_well_formed, scope_of};
use crate::stripper::{cleaned, strip_artifacts};
use crate::text::{
    chars_of, copy_range, has_at, lines_of, lowercase_of, optional_text, string_of,
};

verus! {

/// The parts of a commit record, as mathematical values.
pub ghost struct RecordParts {
    pub commit_type: CommitTypeToken,
    pub scope: Option<Seq<char>>,
    pub description: Seq<char>,
    pub body: Option<Seq<char>>,
    pub breaking_change: bool,
}

/// A commit in parts: type, scope, description, body, and whether it
/// breaks compatibility. A record is made once and never changed.
#[derive(Debug)]
pub struct CommitRecord {
    commit_type: CommitTypeToken,
    scope: Option<String>,
    description: String,
    body: Option<String>,
    breaking_change: bool,
}

/// The footer of a breaking change.
pub open spec fn breaking_footer() -> Seq<char> {
    "\n\nBREAKING CHANGE: This commit introduces breaking changes"@
}

/// The head of a rendered message: the type, the scope in parentheses if
/// there is one, a colon and a space.
pub open spec fn rendered_head(parts: RecordParts) -> Seq<char> {
    match parts.scope {
        Some(scope) => token_text(parts.commit_type) + "("@ + scope + ")"@ + ": "@,
        None => token_text(parts.commit_type) + ": "@,
    }
}

/// The rendered message: head and description; then, after an empty line,
/// the body if there is one; then the breaking-change footer if the record
/// is marked so.
pub open spec fn rendered(parts: RecordParts) -> Seq<char> {
    let first = rendered_head(parts) + parts.description;
    let second = match parts.body {
        Some(body) => first + "\n\n"@ + body,
        None => first,
    };
    if parts.breaking_change {
        second + breaking_footer()
    } else {
        second
    }
}

/// What holds of every record that is read off a message: its scope, if
/// it has one, is well formed, and it has the type `Feat` if it is marked
/// as breaking.
pub open spec fn is_derived(parts: RecordParts) -> bool {
    &&& parts.scope matches Some(scope) ==> is_scope(scope)
    &&& parts.breaking_change ==> parts.commit_type == CommitTypeToken::Feat
}

/// The record of a cleaned message whose lower-case form is `lowered`.
pub open spec fn record_from(message: Seq<char>, lowered: Seq<char>) -> RecordParts {
    let breaking = announces_breaking(lowered);
    RecordParts {
        commit_type: classified(lowered, breaking),
        scope: scope_of(message),
        description: normalized(lines_of(message)[0]),
        body: body_of(message),
        breaking_change: breaking,
    }
}

/// The record that a raw text gives: the text is cleaned, and each part is
/// read off the cleaned message.
pub open spec fn record_of(raw: Seq<char>) -> RecordParts {
    record_from(cleaned(raw), lowercase_of(cleaned(raw)))
}

impl View for CommitRecord {
    type V = RecordParts;

    closed spec fn view(&self) -> RecordParts {
        RecordParts {
            commit_type: self.commit_type,
            scope: optional_text(self.scope),
            description: self.description@,
            body: optional_text(self.body),
            breaking_change: self.breaking_change,
        }
    }
}

/// The first line of a text.
pub fn first_line(text: &str) -> (line: String)
    ensures
        line@ == lines_of(text@)[0],
{
    let chars = chars_of(text);
    let mut end: usize = 0;
    while end < chars.len() && chars[end] != '\n'
        invariant
            end <= chars.len(),
            forall|k: int| 0 <= k < end ==> chars@[k] != '\n',
        decreases chars.len() - end,
    {
        end += 1;
    }
    proof {
        lemma_first_line(chars@, end as int);
    }
    let line = copy_range(&chars, 0, end);
    string_of(&line)
}

/// The first line of a text ends before its first line feed.
pub proof fn lemma_first_line(s: Seq<char>, end: int)
    requires
        0 <= end <= s.len(),
        forall|k: int| 0 <= k < end ==> s[k] != '\n',
        end == s.len() || s[end] == '\n',
    ensures
        lines_of(s).len() > 0,
        lines_of(s)[0] == s.subrange(0, end),
        end == s.len() ==> lines_of(s).len() == 1,
        end < s.len() ==> lines_of(s).len() > 1,
    decreases s.len(),
{
    if s.len() == 0 {
        assert(s.subrange(0, 0) =~= Seq::<char>::empty());
    } else {
        let before = s.drop_last();
        if end == s.len() {
            lemma_first_line(before, end - 1);
            assert(lines_of(before).len() == 1);
            assert(before.subrange(0, end - 1).push(s.last()) =~= s.subrange(0, end));
        } else {
            lemma_first_line(before, end);
            assert(before.subrange(0, end) =~= s.subrange(0, end));
        }
    }
}

impl CommitRecord {
    /// Puts the parts of a commit together.
    pub fn new(
        commit_type: CommitTypeToken,
        scope: Option<String>,
        description: String,
        body: Option<String>,
        breaking_change: bool,
    ) -> (r: Self)
        ensures
            r@ == (RecordParts {
                commit_type,
                scope: optional_text(scope),
                description: description@,
                body: optional_text(body),
                breaking_change,
            }),
    {
        CommitRecord { commit_type, scope, description, body, breaking_change }
    }

    /// The record of a message that is already clean, given its lower-case
    /// form.
    pub fn from_cleaned(message: &str, lowered: &str) -> (r: Self)
        ensures
            r@ == record_from(message@, lowered@),
            is_derived(r@),
    {
        let breaking_change = detect_breaking_change(lowered);
        let commit_type = classify_lowered(lowered, breaking_change);
        let scope = extract_scope(message);
        let head = first_line(message);
        let description = normalize_description(head.as_str());
        let body = extract_body(message);
        CommitRecord { commit_type, scope, description, body, breaking_change }
    }

    /// The record that a raw text gives.
    pub fn from_raw(raw: &str) -> (r: Self)
        ensures
            r@ == record_of(raw@),
            is_derived(r@),
    {
        let message = strip_artifacts(raw);
        let lowered = message.as_str().to_lowercase();
        CommitRecord::from_cleaned(message.as_str(), lowered.as_str())
    }

    /// The type of the commit.
    pub fn commit_type(&self) -> (t: CommitTypeToken)
        ensures
            t == self@.commit_type,
    {
        self.commit_type
    }

    /// The scope of the commit, if it has one.
    pub fn scope(&self) -> (s: Option<&str>)
        ensures
            match s {
                Some(text) => self@.scope == Some(text@),
                None => self@.scope is None,
            },
    {
        match &self.scope {
            Some(text) => Some(text.as_str()),
            None => None,
        }
    }

    /// The description of the commit.
    pub fn description(&self) -> (s: &str)
        ensures
            s@ == self@.description,
    {
        self.description.as_str()
    }

    /// The body of the commit, if it has one.
    pub fn body(&self) -> (s: Option<&str>)
        ensures
            match s {
                Some(text) => self@.body == Some(text@),
                None => self@.body is None,
            },
    {
        match &self.body {
            Some(text) => Some(text.as_str()),
            None => None,
        }
    }

    /// Whether the commit breaks compatibility.
    pub fn breaking_change(&self) -> (b: bool)
        ensures
            b == self@.breaking_change,
    {
        self.breaking_change
    }

    /// The record as a Conventional Commits message.
    pub fn render(&self) -> (message: String)
        ensures
            message@ == rendered(self@),
    {
        let mut out = String::new();
        out.append(self.commit_type.as_str());
        match &self.scope {
            Some(scope) => {
                out.append("(");
                out.append(scope.as_str());
                out.append(")");
            },
            None => {},
        }
        out.append(": ");
        out.append(self.description.as_str());
        assert(out@ == rendered_head(self@) + self@.description) by {
            assert(Seq::<char>::empty() + token_text(self.commit_type) == token_text(
                self.commit_type,
            ));
        }
        match &self.body {
            Some(body) => {
                out.append("\n\n");
                out.append(body.as_str());
            },
            None => {},
        }
        if self.breaking_change {
            out.append("\n\nBREAKING CHANGE: This commit introduces breaking changes");
        }
        out
    }
}

/// Round trip of a description: in the rendered message the description
/// stands right behind the head, and where it is settled the normalizer
/// gives it back unchanged.
pub proof fn lemma_rendered_description_round_trip(parts: RecordParts)
    requires
        is_settled(parts.description),
    ensures
        has_at(rendered(parts), rendered_head(parts).len() as int, parts.description),
        normalized(
            rendered(parts).subrange(
                rendered_head(parts).len() as int,
                (rendered_head(parts).len() + parts.description.len()) as int,
            ),
        ) == parts.description,
{
    let head = rendered_head(parts);
    let first = head + parts.description;
    let from = head.len() as int;
    let to = from + parts.description.len();
    assert(first.subrange(from, to) =~= parts.description);
    assert(rendered(parts).subrange(from, to) =~= parts.description);
    lemma_settled_description_is_kept(parts.description);
}

/// A record made from a message is marked as breaking exactly where the
/// lower-cased message holds a breaking-change marker; a record so marked
/// has the type `Feat`, and the scope of a record is well formed.
pub proof fn lemma_record_of_message_is_derived(message: Seq<char>, lowered: Seq<char>)
    ensures
        record_from(message, lowered).breaking_change == announces_breaking(lowered),
        is_derived(record_from(message, lowered)),
{
    lemma_scope_is_well_formed(message);
}

} // verus!
