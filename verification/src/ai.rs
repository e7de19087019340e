//! The text-generation side: the prompts document, the prompt sent with a
//! diff, and the errors of the exchange. The request itself is left to the
//! caller.

use vstd::prelude::*;
use vstd::string::StringExecFns;
use crate::text::{
    append_chars, chars_of, copy_range, end_before_spaces, has_at, joined, lines_of, matches_at,
    replace_all, replaced, same_text, split_lines, string_of, trim, trimmed, trimmed_end, views,
};

verus! {

/// Why no commit message could be generated.
#[derive(Debug)]
pub struct AIError {
    pub message: String,
}

impl AIError {
    /// An error with the given message.
    pub fn new(message: String) -> (e: Self)
        ensures
            e.message@ == message@,
    {
        AIError { message }
    }

    /// An error whose message is `context`, a colon and a space, and
    /// `detail`.
    pub fn with_detail(context: &str, detail: &str) -> (e: Self)
        ensures
            e.message@ == context@ + ": "@ + detail@,
    {
        let message = String::from_str(context).concat(": ").concat(detail);
        AIError { message }
    }

    /// The message as an owned string.
    pub fn to_string(&self) -> (s: String)
        ensures
            s@ == self.message@,
    {
        self.message.clone()
    }
}

/// The two prompts of a prompts document.
#[derive(Debug)]
pub struct Prompts {
    pub system: String,
    pub user: String,
}

/// The heading of the section that holds the system prompt.
pub open spec fn system_heading() -> Seq<char> {
    "## System Prompt"@
}

/// The heading of the section that holds the user prompt.
pub open spec fn user_heading() -> Seq<char> {
    "## User Prompt"@
}

/// The placeholder of a user prompt that stands for the diff.
pub open spec fn diff_placeholder() -> Seq<char> {
    "{diff}"@
}

/// A line is a second-level heading: it begins with two hashes and a
/// space.
pub open spec fn is_heading(line: Seq<char>) -> bool {
    has_at(line, 0, "## "@)
}

/// The index of the first line, from `from` on, that reads `heading` once
/// the whitespace at its end is left out.
pub open spec fn heading_line(lines: Seq<Seq<char>>, heading: Seq<char>, from: int) -> Option<
    int,
>
    decreases lines.len() - from,
{
    if from < 0 || from >= lines.len() {
        None
    } else if trimmed_end(lines[from]) == heading {
        Some(from)
    } else {
        heading_line(lines, heading, from + 1)
    }
}

/// The index of the first second-level heading from `from` on, or the
/// number of lines where there is none.
pub open spec fn section_end(lines: Seq<Seq<char>>, from: int) -> int
    decreases lines.len() - from,
{
    if from < 0 || from >= lines.len() {
        lines.len() as int
    } else if is_heading(lines[from]) {
        from
    } else {
        section_end(lines, from + 1)
    }
}

/// The section of `document` under `heading`: the lines after the first
/// line that reads `heading`, up to the next second-level heading or the
/// end, trimmed as a whole. `None` where no line reads `heading`.
pub open spec fn section(document: Seq<char>, heading: Seq<char>) -> Option<Seq<char>> {
    let lines = lines_of(document);
    match heading_line(lines, heading, 0) {
        Some(at) => Some(
            trimmed(joined(lines.subrange(at + 1, section_end(lines, at + 1)), seq!['\n'])),
        ),
        None => None,
    }
}

/// The message of the error for a document without a system prompt.
pub open spec fn no_system_prompt() -> Seq<char> {
    "Failed to extract system prompt from markdown"@
}

/// The message of the error for a document without a user prompt.
pub open spec fn no_user_prompt() -> Seq<char> {
    "Failed to extract user prompt from markdown"@
}

/// The message of the error for a response without content.
pub open spec fn no_content() -> Seq<char> {
    "No content in OpenAI response"@
}

fn find_heading_line(lines: &Vec<Vec<char>>, heading: &Vec<char>) -> (r: Option<usize>)
    ensures
        match r {
            Some(at) => at < lines.len() && heading_line(views(lines@), heading@, 0) == Some(
                at as int,
            ),
            None => heading_line(views(lines@), heading@, 0) is None,
        },
{
    let mut i: usize = 0;
    while i < lines.len()
        invariant
            i <= lines.len(),
            heading_line(views(lines@), heading@, i as int) == heading_line(
                views(lines@),
                heading@,
                0,
            ),
        decreases lines.len() - i,
    {
        let end = end_before_spaces(&lines[i], 0);
        let bare = copy_range(&lines[i], 0, end);
        proof {
            assert(lines@[i as int]@.skip(0) == lines@[i as int]@);
            assert(views(lines@)[i as int] == lines@[i as int]@);
        }
        if same_text(&bare, heading) {
            return Some(i);
        }
        i += 1;
    }
    None
}

fn find_section_end(lines: &Vec<Vec<char>>, from: usize) -> (end: usize)
    requires
        from <= lines.len(),
    ensures
        from <= end <= lines.len(),
        end == section_end(views(lines@), from as int),
{
    let mark = chars_of("## ");
    let mut i: usize = from;
    while i < lines.len()
        invariant
            from <= i <= lines.len(),
            mark@ == "## "@,
            section_end(views(lines@), i as int) == section_end(views(lines@), from as int),
        decreases lines.len() - i,
    {
        assert(views(lines@)[i as int] == lines@[i as int]@);
        if matches_at(&lines[i], 0, &mark) {
            return i;
        }
        i += 1;
    }
    i
}

fn join_lines(lines: &Vec<Vec<char>>, from: usize, to: usize) -> (out: Vec<char>)
    requires
        from <= to <= lines.len(),
    ensures
        out@ == joined(views(lines@).subrange(from as int, to as int), seq!['\n']),
{
    let mut out: Vec<char> = Vec::new();
    let mut i: usize = from;
    while i < to
        invariant
            from <= i <= to <= lines.len(),
            out@ == joined(views(lines@).subrange(from as int, i as int), seq!['\n']),
        decreases to - i,
    {
        proof {
            let upto = views(lines@).subrange(from as int, i + 1);
            assert(upto.drop_last() == views(lines@).subrange(from as int, i as int));
            assert(upto.last() == lines@[i as int]@);
            if i == from {
                assert(Seq::<char>::empty() + lines@[i as int]@ == lines@[i as int]@);
            }
        }
        if i > from {
            out.push('\n');
            assert(out@ == joined(views(lines@).subrange(from as int, i as int), seq!['\n'])
                + seq!['\n']);
        }
        append_chars(&mut out, &lines[i]);
        i += 1;
    }
    out
}

/// The section of a prompts document under `heading`: what stands between
/// the line that reads `heading` and the next second-level heading or the
/// end of the document, trimmed. `None` where the document has no such
/// line.
pub fn extract_section(document: &str, heading: &str) -> (r: Option<String>)
    ensures
        match r {
            Some(text) => section(document@, heading@) == Some(text@),
            None => section(document@, heading@) is None,
        },
{
    let chars = chars_of(document);
    let lines = split_lines(&chars);
    let wanted = chars_of(heading);
    match find_heading_line(&lines, &wanted) {
        Some(at) => {
            let end = find_section_end(&lines, at + 1);
            let inner = join_lines(&lines, at + 1, end);
            let bare = trim(&inner);
            Some(string_of(&bare))
        },
        None => None,
    }
}

/// The prompts of a prompts document. A document without a system prompt
/// section is refused, then one without a user prompt section.
pub fn parse_prompts(document: &str) -> (r: Result<Prompts, AIError>)
    ensures
        match r {
            Ok(prompts) => section(document@, system_heading()) == Some(prompts.system@)
                && section(document@, user_heading()) == Some(prompts.user@),
            Err(e) => if section(document@, system_heading()) is None {
                e.message@ == no_system_prompt()
            } else {
                section(document@, user_heading()) is None && e.message@ == no_user_prompt()
            },
        },
{
    let system = match extract_section(document, "## System Prompt") {
        Some(text) => text,
        None => {
            return Err(
                AIError::new(String::from_str("Failed to extract system prompt from markdown")),
            );
        },
    };
    let user = match extract_section(document, "## User Prompt") {
        Some(text) => text,
        None => {
            return Err(
                AIError::new(String::from_str("Failed to extract user prompt from markdown")),
            );
        },
    };
    Ok(Prompts { system, user })
}

/// The user prompt for a diff: the template with the diff in the place of
/// every placeholder.
pub fn fill_user_prompt(template: &str, diff: &str) -> (prompt: String)
    ensures
        prompt@ == replaced(template@, diff_placeholder(), diff@),
{
    let text = chars_of(template);
    let mark = chars_of("{diff}");
    let with = chars_of(diff);
    let out = replace_all(&text, &mark, &with);
    string_of(&out)
}

/// The text of a response: its content, or an error where it has none.
pub fn response_text(content: Option<String>) -> (r: Result<String, AIError>)
    ensures
        match r {
            Ok(text) => content == Some(text),
            Err(e) => content is None && e.message@ == no_content(),
        },
{
    match content {
        Some(text) => Ok(text),
        None => Err(AIError::new(String::from_str("No content in OpenAI response"))),
    }
}

} // verus!
