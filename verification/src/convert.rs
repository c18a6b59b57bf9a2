//! The conversion of one document, from its text to its page.

use vstd::prelude::*;
use crate::error::Gemini2HtmlError;
use crate::page::{format_gemini_to_html, page};
use crate::parser::{parse_gemini, parsed_elements, parsed_title};

verus! {

/// The page of the document `gemtext`: its text is parsed, and the
/// elements are written out with its title.
pub open spec fn convert(gemtext: Seq<char>) -> Seq<char> {
    page(parsed_elements(gemtext), parsed_title(gemtext))
}

/// What is to be saved for a file, given what reading it gave.
pub open spec fn converted(content: Result<String, Gemini2HtmlError>) -> Option<Seq<char>> {
    match content {
        Ok(gemtext) => Some(convert(gemtext@)),
        Err(_) => None,
    }
}

/// The characters of a string that may be absent.
pub open spec fn string_of(text: Option<String>) -> Option<Seq<char>> {
    match text {
        Some(text) => Some(text@),
        None => None,
    }
}

/// Converts one Gemtext file, given what reading it gave.  Where the file
/// was read, the result is the page to save in its place.  Where it was
/// not, there is nothing to save, and that is no failure: the file is
/// passed over.
pub fn convert_gemini_file(gemini_file_content: Result<String, Gemini2HtmlError>) -> (html: Option<
    String,
>)
    ensures
        string_of(html) == converted(gemini_file_content),
{
    match gemini_file_content {
        Ok(gemini_file_content) => {
            let (parsed_gemini, title) = parse_gemini(gemini_file_content.as_str());
            let html_content = format_gemini_to_html(parsed_gemini, title);
            Some(html_content)
        },
        Err(_) => None,
    }
}

} // verus!
