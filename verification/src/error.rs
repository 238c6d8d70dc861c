//! The ways in which a formatting pass ends without a result.

use vstd::prelude::*;

verus! {

/// Why a source text was not formatted.
#[derive(Clone, Copy, Debug, PartialEq, Eq, Structural)]
pub enum FormatError {
    /// The parser gave no syntax tree for the source.
    ParseFailed,
    /// What the parser's cursor reported is no well-formed tree.
    MalformedTree,
    /// A node whose text is to be emitted has a span that lies outside the
    /// source or cuts a character in two.
    SpanOutsideSource,
    /// A closing bracket would take the indent level below zero, or an
    /// opening one beyond what the machine can count.
    IndentOutOfRange,
    /// The content fingerprint of the result differs from that of the
    /// source: a token was lost or duplicated.
    ContentMismatch,
}

/// The diagnostic that is shown for an error.
pub open spec fn diagnostic(e: FormatError) -> Seq<char> {
    match e {
        FormatError::ParseFailed => "Unable to parse the file"@,
        FormatError::MalformedTree => "The syntax tree is malformed"@,
        FormatError::SpanOutsideSource => "A node lies outside the source text"@,
        FormatError::IndentOutOfRange => "The brackets are unbalanced"@,
        FormatError::ContentMismatch =>
            "There was an error parsing your code.\nNot applying formatting.\nOpen an issue."@,
    }
}

impl FormatError {
    /// The diagnostic that is shown for this error.
    pub fn message(&self) -> (text: String)
        ensures
            text@ == diagnostic(*self),
    {
        match self {
            FormatError::ParseFailed => "Unable to parse the file".to_owned(),
            FormatError::MalformedTree => "The syntax tree is malformed".to_owned(),
            FormatError::SpanOutsideSource => "A node lies outside the source text".to_owned(),
            FormatError::IndentOutOfRange => "The brackets are unbalanced".to_owned(),
            FormatError::ContentMismatch =>
                "There was an error parsing your code.\nNot applying formatting.\nOpen an issue.".to_owned(),
        }
    }
}

} // verus!
