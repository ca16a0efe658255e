//! The text of a document's body: the lines of the converted page, each
//! with its empty anchor links taken out.

use vstd::prelude::*;
use vstd::string::*;
use crate::error::ProcessingError;

verus! {

/// A compiled pattern of the `regex` crate. Nothing of its inside is known
/// here.
#[verifier::external_type_specification]
#[verifier::external_body]
pub struct ExRegex(regex::Regex);

/// The reason for which the `regex` crate refused a pattern. Nothing of its
/// inside is known here.
#[verifier::external_type_specification]
#[verifier::external_body]
pub struct ExRegexError(regex::Error);

/// A heading's stars and space, followed by a link to an anchor of the same
/// page that shows no text.
pub const ANCHOR_PATTERN: &'static str = r"(\*+ )(\[\[\#\S+\]\[\]\])";

/// What stands in place of each match: the stars and the space alone.
pub const ANCHOR_REPLACEMENT: &'static str = "${1}";

/// The regex that the `regex` crate compiles from a pattern, or `None`
/// where it refuses the pattern.
pub uninterp spec fn regex_for(pattern: Seq<char>) -> Option<regex::Regex>;

/// The text that the `regex` crate gives when every match of a regex in a
/// text is replaced, `$` groups of the replacement filled in.
pub uninterp spec fn replaced_all(
    regex: regex::Regex,
    text: Seq<char>,
    replacement: Seq<char>,
) -> Seq<char>;

/// Calls `regex::Regex::new`. The crate compiles a pattern in one way, so
/// what comes back is named after the pattern; whether a given pattern is
/// accepted stays with the crate.
#[verifier::external_body]
fn compile(pattern: &str) -> (r: Result<regex::Regex, regex::Error>)
    ensures
        match r {
            Ok(regex) => regex_for(pattern@) == Some(regex),
            Err(_) => regex_for(pattern@) is None,
        },
{
    regex::Regex::new(pattern)
}

/// Calls `regex::Regex::replace_all` with a text as the replacement. The
/// result depends on the regex, the text and the replacement alone; what it
/// is stays with the crate.
#[verifier::external_body]
fn replace_all(regex: &regex::Regex, text: &str, replacement: &str) -> (out: String)
    ensures
        out@ == replaced_all(*regex, text@, replacement@),
{
    regex.replace_all(text, replacement).into_owned()
}

/// One line of the converted page, as it was read.
#[derive(Debug, Clone)]
pub enum Line {
    Text(String),
    /// The line could not be read.
    Unreadable,
}

/// A line as the document holds it: its anchors cleaned, and a line feed.
pub open spec fn cleaned_line(regex: regex::Regex, line: Seq<char>) -> Seq<char> {
    replaced_all(regex, line, ANCHOR_REPLACEMENT@) + seq!['\n']
}

/// The lines one after the other, each as the document holds it.
pub open spec fn cleaned_text(regex: regex::Regex, lines: Seq<Line>) -> Seq<char>
    decreases lines.len(),
{
    if lines.len() == 0 {
        Seq::empty()
    } else {
        cleaned_text(regex, lines.drop_last()) + match lines.last() {
            Line::Text(text) => cleaned_line(regex, text@),
            Line::Unreadable => Seq::empty(),
        }
    }
}

/// How many lines were read before the first that could not be.
pub open spec fn readable_count(lines: Seq<Line>) -> nat
    decreases lines.len(),
{
    if lines.len() > 0 && lines[0] is Text {
        1 + readable_count(lines.skip(1))
    } else {
        0
    }
}

/// The body of a document: the lines that were read before the first that
/// could not be, each as the document holds it.
pub open spec fn body_of(regex: regex::Regex, lines: Seq<Line>) -> Seq<char> {
    cleaned_text(regex, lines.take(readable_count(lines) as int))
}

/// Ends a line of the document: the text, and one line feed.
pub fn terminated(text: String) -> (out: String)
    ensures
        out@ == text@ + seq!['\n'],
{
    let mut out = text;
    out.append("\n");
    proof {
        reveal_strlit("\n");
        assert("\n"@ =~= seq!['\n']);
    }
    out
}

/// The rule that cleans the lines of a converted page.
pub struct AnchorCleanup {
    regex: regex::Regex,
}

impl AnchorCleanup {
    /// The compiled pattern.
    pub closed spec fn regex(&self) -> regex::Regex {
        self.regex
    }

    /// Compiles the rule. `None` where the pattern is refused.
    pub fn new() -> (r: Option<AnchorCleanup>)
        ensures
            match r {
                Some(rule) => regex_for(ANCHOR_PATTERN@) == Some(rule.regex()),
                None => regex_for(ANCHOR_PATTERN@) is None,
            },
    {
        match compile(ANCHOR_PATTERN) {
            Ok(regex) => Some(AnchorCleanup { regex }),
            Err(_) => None,
        }
    }

    /// One line as the document holds it.
    pub fn clean_line(&self, line: &str) -> (out: String)
        ensures
            out@ == cleaned_line(self.regex(), line@),
    {
        terminated(replace_all(&self.regex, line, ANCHOR_REPLACEMENT))
    }

    /// The body of a document from the lines of its converted page. Ends at
    /// the first line that could not be read, and then reports the fault
    /// beside the text that came before it.
    pub fn body(&self, lines: &Vec<Line>) -> (r: (String, Result<(), ProcessingError>))
        ensures
            r.0@ == body_of(self.regex(), lines@),
            r.1 == if readable_count(lines@) == lines@.len() {
                Ok::<(), ProcessingError>(())
            } else {
                Err::<(), ProcessingError>(ProcessingError::Unexpected)
            },
    {
        let n = lines.len();
        let mut out = String::new();
        let mut i: usize = 0;
        proof {
            assert(lines@.take(0) =~= Seq::<Line>::empty());
            assert(lines@.skip(0) =~= lines@);
        }
        while i < n
            invariant
                n == lines@.len(),
                0 <= i <= n,
                readable_count(lines@) == i + readable_count(lines@.skip(i as int)),
                out@ == cleaned_text(self.regex(), lines@.take(i as int)),
            decreases n - i,
        {
            proof {
                assert(lines@.skip(i as int)[0] == lines@[i as int]);
                assert(lines@.skip(i as int).skip(1) =~= lines@.skip(i as int + 1));
                assert(lines@.take(i as int + 1).drop_last() =~= lines@.take(i as int));
                assert(lines@.take(i as int + 1).last() == lines@[i as int]);
            }
            match &lines[i] {
                Line::Text(text) => {
                    let cleaned = self.clean_line(text.as_str());
                    out.append(cleaned.as_str());
                },
                Line::Unreadable => {
                    return (out, Err(ProcessingError::Unexpected));
                },
            }
            i = i + 1;
        }
        proof {
            assert(lines@.skip(n as int) =~= Seq::<Line>::empty());
        }
        (out, Ok(()))
    }
}

} // verus!
