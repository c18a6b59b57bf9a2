//! The single error of the library.

use vstd::prelude::*;

verus! {

/// The one failure that a conversion reports: it carries no detail.
#[derive(Debug, Clone, Copy, PartialEq)]
pub struct Gemini2HtmlError;

impl Gemini2HtmlError {
    /// The text shown for the error.
    pub open spec fn message_text() -> Seq<char> {
        "😢 Sorry, gemini2html encountered an error."@
    }

    /// The text shown for the error, as a string.
    pub fn message(&self) -> (text: String)
        ensures
            text@ == Self::message_text(),
    {
        "😢 Sorry, gemini2html encountered an error.".to_string()
    }
}

} // verus!
