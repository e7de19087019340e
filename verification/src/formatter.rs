//! The formatter: from the raw text of a generator to the commit message
//! that it carries.

use vstd::prelude::*;
use crate::record::{is_derived, record_of, CommitRecord};
use crate::stripper::{cleaned, strip_artifacts};
use crate::text_facts::{is_trim, lacks};

verus! {

/// A commit message ready to be handed to the version-control tool.
#[derive(Debug, Clone)]
pub struct CommitType {
    message: String,
}

impl View for CommitType {
    type V = Seq<char>;

    /// The characters of the message.
    closed spec fn view(&self) -> Seq<char> {
        self.message@
    }
}

impl CommitType {
    /// Wraps a finished message.
    pub fn new(message: String) -> (r: Self)
        ensures
            r@ == message@,
    {
        CommitType { message }
    }

    /// The message as text.
    pub fn as_str(&self) -> (s: &str)
        ensures
            s@ == self@,
    {
        self.message.as_str()
    }

    /// A copy of the message as an owned string.
    pub fn to_string(&self) -> (s: String)
        ensures
            s@ == self@,
    {
        self.message.clone()
    }
}

/// Holds the raw text of a generator until it is formatted.
pub struct CommitFormatter {
    raw_message: String,
}

impl View for CommitFormatter {
    type V = Seq<char>;

    /// The characters of the raw text.
    closed spec fn view(&self) -> Seq<char> {
        self.raw_message@
    }
}

impl CommitFormatter {
    /// Takes the raw text as the generator returned it.
    pub fn new(raw_message: String) -> (r: Self)
        ensures
            r@ == raw_message@,
    {
        CommitFormatter { raw_message }
    }

    /// The message that the raw text carries: the generator's own wording,
    /// freed of wrapper tags, an enclosing code fence, a leading language
    /// hint and backticks, and trimmed.
    pub fn format(&self) -> (r: CommitType)
        ensures
            r@ == cleaned(self@),
            lacks(r@, '`'),
            is_trim(r@),
    {
        CommitType::new(strip_artifacts(self.raw_message.as_str()))
    }

    /// The raw text taken apart: the message it carries is cleaned as in
    /// `format`, and type, scope, description, body and breaking-change
    /// mark are read off the cleaned message.
    pub fn analyze(&self) -> (r: CommitRecord)
        ensures
            r@ == record_of(self@),
            is_derived(r@),
    {
        CommitRecord::from_raw(self.raw_message.as_str())
    }
}

} // verus!
