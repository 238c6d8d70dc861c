//! What becomes of the result of a formatting pass: shown, written back, or
//! dropped with a diagnostic.

use vstd::prelude::*;
use crate::error::{diagnostic, FormatError};

verus! {

/// What the caller is to do with the result of a pass.
#[derive(Debug)]
pub enum Action {
    /// Show this text; the file stays as it is.
    Preview(String),
    /// Replace the contents of the file by this text.
    Commit(String),
    /// Show this diagnostic and end normally; the file stays as it is.
    Skip(String),
    /// Show this diagnostic and abort; the file stays as it is.
    Abort(String),
}

/// The contents of the file after a commit: the text and one newline.
pub open spec fn committed(text: Seq<char>) -> Seq<char> {
    text + seq!['\n']
}

/// The contents that a commit of `text` writes.
pub fn commit_contents(text: String) -> (contents: String)
    ensures
        contents@ == committed(text@),
{
    proof {
        reveal_strlit("\n");
    }
    let contents = text.concat("\n");
    assert(contents@ =~= committed(text@));
    contents
}

/// Decides what is done with the result of a pass. Accepted text is shown in
/// preview mode and written back, with a newline after it, in commit mode. A
/// content mismatch is reported and the run ends normally. Any other error
/// aborts the run. Only a commit touches the file.
pub fn plan_output(result: Result<String, FormatError>, preview: bool) -> (action: Action)
    ensures
        match result {
            Ok(text) => if preview {
                action matches Action::Preview(shown) && shown@ == text@
            } else {
                action matches Action::Commit(contents) && contents@ == committed(text@)
            },
            Err(e) => if e == FormatError::ContentMismatch {
                action matches Action::Skip(message) && message@ == diagnostic(e)
            } else {
                action matches Action::Abort(message) && message@ == diagnostic(e)
            },
        },
{
    match result {
        Ok(text) => {
            if preview {
                Action::Preview(text)
            } else {
                Action::Commit(commit_contents(text))
            }
        },
        Err(e) => {
            let message = e.message();
            if e == FormatError::ContentMismatch {
                Action::Skip(message)
            } else {
                Action::Abort(message)
            }
        },
    }
}

} // verus!
