//! The version-control side: which `git` commands are asked for, and what
//! their output says. Running the commands is left to the caller.

use vstd::prelude::*;
use vstd::string::StringExecFns;
use vstd::utf8::{decode_utf8, valid_utf8};

verus! {

/// Why a `git` command could not be run.
#[derive(Debug)]
pub struct GitError {
    pub message: String,
}

/// The text with which the message of a failed command begins.
pub open spec fn failure_prefix() -> Seq<char> {
    "Git command failed: "@
}

impl GitError {
    /// The error of a command that failed for the reason `detail`.
    pub fn command_failed(detail: &str) -> (e: Self)
        ensures
            e.message@ == failure_prefix() + detail@,
    {
        let message = String::from_str("Git command failed: ").concat(detail);
        GitError { message }
    }

    /// The message as an owned string.
    pub fn to_string(&self) -> (s: String)
        ensures
            s@ == self.message@,
    {
        self.message.clone()
    }
}

/// The characters of each text in `v`.
pub open spec fn texts(v: Seq<String>) -> Seq<Seq<char>> {
    Seq::new(v.len(), |i: int| v[i]@)
}

/// The arguments that ask `git` for the staged changes as a diff.
pub open spec fn staged_changes_arguments() -> Seq<Seq<char>> {
    seq!["diff"@, "--cached"@, "--diff-algorithm=minimal"@]
}

/// The arguments that ask `git` for the names of the staged files.
pub open spec fn staged_files_arguments() -> Seq<Seq<char>> {
    seq!["diff"@, "--cached"@, "--name-only"@]
}

/// The arguments that ask `git` to commit with `message`.
pub open spec fn commit_arguments(message: Seq<char>) -> Seq<Seq<char>> {
    seq!["commit"@, "-m"@, message]
}

/// Names the text that `String::from_utf8_lossy` returns for `bytes`.
pub uninterp spec fn lossy_text(bytes: Seq<u8>) -> Seq<char>;

/// `String::from_utf8_lossy` decodes bytes as UTF-8 and puts a replacement
/// character in the place of each sequence that is not UTF-8. The result
/// is named; of bytes that are UTF-8 it is the text that they encode.
#[verifier::external_body]
fn decode_lossy(bytes: &[u8]) -> (text: String)
    ensures
        text@ == lossy_text(bytes@),
        valid_utf8(bytes@) ==> text@ == decode_utf8(bytes@),
{
    String::from_utf8_lossy(bytes).to_string()
}

/// Where `git` is to run.
pub struct GitClient {
    working_dir: Option<String>,
}

impl View for GitClient {
    type V = Option<Seq<char>>;

    /// The working directory, if one was chosen.
    closed spec fn view(&self) -> Option<Seq<char>> {
        match self.working_dir {
            Some(dir) => Some(dir@),
            None => None,
        }
    }
}

impl GitClient {
    /// A client that runs `git` in the directory of the process.
    pub fn new() -> (client: Self)
        ensures
            client@ is None,
    {
        GitClient { working_dir: None }
    }

    /// A client that runs `git` in `working_dir`.
    pub fn with_working_dir(working_dir: String) -> (client: Self)
        ensures
            client@ == Some(working_dir@),
    {
        GitClient { working_dir: Some(working_dir) }
    }

    /// The directory in which `git` is to run, if one was chosen.
    pub fn working_dir(&self) -> (dir: Option<&str>)
        ensures
            match dir {
                Some(d) => self@ == Some(d@),
                None => self@ is None,
            },
    {
        match &self.working_dir {
            Some(d) => Some(d.as_str()),
            None => None,
        }
    }

    /// The arguments that ask for the staged changes as a diff.
    pub fn staged_changes_args(&self) -> (args: Vec<String>)
        ensures
            texts(args@) == staged_changes_arguments(),
    {
        let mut args: Vec<String> = Vec::new();
        args.push(String::from_str("diff"));
        args.push(String::from_str("--cached"));
        args.push(String::from_str("--diff-algorithm=minimal"));
        assert(texts(args@) =~= staged_changes_arguments());
        args
    }

    /// The arguments that ask for the names of the staged files.
    pub fn staged_files_args(&self) -> (args: Vec<String>)
        ensures
            texts(args@) == staged_files_arguments(),
    {
        let mut args: Vec<String> = Vec::new();
        args.push(String::from_str("diff"));
        args.push(String::from_str("--cached"));
        args.push(String::from_str("--name-only"));
        assert(texts(args@) =~= staged_files_arguments());
        args
    }

    /// The arguments that commit the staged changes with `message`.
    pub fn commit_args(&self, message: &str) -> (args: Vec<String>)
        ensures
            texts(args@) == commit_arguments(message@),
    {
        let mut args: Vec<String> = Vec::new();
        args.push(String::from_str("commit"));
        args.push(String::from_str("-m"));
        args.push(String::from_str(message));
        assert(texts(args@) =~= commit_arguments(message@));
        args
    }

    /// The staged changes as text, given what `git` wrote for
    /// `staged_changes_args`: the bytes are decoded as UTF-8, and each
    /// sequence that is not UTF-8 gives a replacement character.
    pub fn get_staged_changes(&self, stdout: &[u8]) -> (diff: String)
        ensures
            diff@ == lossy_text(stdout@),
            valid_utf8(stdout@) ==> diff@ == decode_utf8(stdout@),
    {
        decode_lossy(stdout)
    }

    /// The names of the staged files, one to a line, given what `git`
    /// wrote for `staged_files_args`; decoded as the staged changes are.
    pub fn get_staged_files(&self, stdout: &[u8]) -> (names: String)
        ensures
            names@ == lossy_text(stdout@),
            valid_utf8(stdout@) ==> names@ == decode_utf8(stdout@),
    {
        decode_lossy(stdout)
    }

    /// Tells whether anything is staged, given what `git` wrote for
    /// `staged_changes_args`: something is unless the decoded diff is
    /// empty.
    pub fn has_staged_changes(&self, stdout: &[u8]) -> (staged: bool)
        ensures
            staged == (lossy_text(stdout@).len() > 0),
            stdout@.len() == 0 ==> !staged,
    {
        let changes = self.get_staged_changes(stdout);
        !changes.as_str().is_empty()
    }
}

} // verus!
