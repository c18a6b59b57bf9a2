//! The elements of a parsed document, and the HTML of each.

use vstd::prelude::*;
use vstd::string::StringExecFns;
use crate::escape::{escape, escaped_preformat_text};
use crate::link::{html_link, link_html};

verus! {

/// One parsed unit of a Gemtext document.
///
/// A list and a preformatted block have no element of their own: two
/// markers stand around their items and their lines.
#[derive(Debug, PartialEq, Eq)]
pub enum ParsedGemini {
    /// A link line: the address, and the description if there is one.
    Link(String),
    /// A heading of the first level.
    Heading1(String),
    /// A heading of the second level.
    Heading2(String),
    /// A heading of the third level.
    Heading3(String),
    /// The start of a list.
    ListStart,
    /// The end of a list.
    ListEnd,
    /// One item of a list.
    ListElement(String),
    /// A quoted line.
    Quote(String),
    /// A line of plain text.
    Text(String),
    /// The start of a preformatted block.
    PreformattedStart,
    /// The end of a preformatted block.
    PreformattedEnd,
    /// One line of a preformatted block, as it was written.
    PreformattedText(String),
}

/// An element as contracts speak of it: a [`ParsedGemini`] whose texts are
/// sequences of characters.
pub enum Element {
    Link(Seq<char>),
    Heading1(Seq<char>),
    Heading2(Seq<char>),
    Heading3(Seq<char>),
    ListStart,
    ListEnd,
    ListElement(Seq<char>),
    Quote(Seq<char>),
    Text(Seq<char>),
    PreformattedStart,
    PreformattedEnd,
    PreformattedText(Seq<char>),
}

impl View for ParsedGemini {
    type V = Element;

    open spec fn view(&self) -> Element {
        match self {
            ParsedGemini::Link(link) => Element::Link(link@),
            ParsedGemini::Heading1(heading) => Element::Heading1(heading@),
            ParsedGemini::Heading2(heading) => Element::Heading2(heading@),
            ParsedGemini::Heading3(heading) => Element::Heading3(heading@),
            ParsedGemini::ListStart => Element::ListStart,
            ParsedGemini::ListEnd => Element::ListEnd,
            ParsedGemini::ListElement(item) => Element::ListElement(item@),
            ParsedGemini::Quote(quote) => Element::Quote(quote@),
            ParsedGemini::Text(text) => Element::Text(text@),
            ParsedGemini::PreformattedStart => Element::PreformattedStart,
            ParsedGemini::PreformattedEnd => Element::PreformattedEnd,
            ParsedGemini::PreformattedText(text) => Element::PreformattedText(text@),
        }
    }
}

/// The elements that `parsed` stands for, in order.
pub open spec fn elements(parsed: Seq<ParsedGemini>) -> Seq<Element> {
    parsed.map_values(|element: ParsedGemini| element@)
}

impl Element {
    /// The HTML of the element.  Only the text of a preformatted line is
    /// escaped: every other text is written as it is.
    pub open spec fn html(self) -> Seq<char> {
        match self {
            Element::Link(link) => link_html(link),
            Element::Heading1(heading) => "<h1>"@ + heading + "</h1>"@,
            Element::Heading2(heading) => "<h2>"@ + heading + "</h2>"@,
            Element::Heading3(heading) => "<h3>"@ + heading + "</h3>"@,
            Element::ListStart => "<ul>"@,
            Element::ListEnd => "</ul>"@,
            Element::ListElement(item) => "<li>"@ + item + "</li>"@,
            Element::Quote(quote) => "TODO QUOTE: "@ + quote + "<br />"@,
            Element::Text(text) => "<p>"@ + text + "</p>"@,
            Element::PreformattedStart => "<pre>"@,
            Element::PreformattedEnd => "</pre>"@,
            Element::PreformattedText(text) => escape(text),
        }
    }
}

/// `text` between the tags `open` and `close`.
fn wrapped(open: &str, text: &str, close: &str) -> (html: String)
    ensures
        html@ == open@ + text@ + close@,
{
    let mut html = String::new();
    html.append(open);
    html.append(text);
    html.append(close);
    assert(html@ == open@ + text@ + close@) by {
        assert(Seq::<char>::empty() + open@ == open@);
    }
    html
}

impl ParsedGemini {
    /// Writes the HTML of the element.
    pub fn to_html(&self) -> (html: String)
        ensures
            html@ == self@.html(),
    {
        match self {
            ParsedGemini::Link(link) => html_link(link.as_str()),
            ParsedGemini::Heading1(heading) => wrapped("<h1>", heading.as_str(), "</h1>"),
            ParsedGemini::Heading2(heading) => wrapped("<h2>", heading.as_str(), "</h2>"),
            ParsedGemini::Heading3(heading) => wrapped("<h3>", heading.as_str(), "</h3>"),
            ParsedGemini::ListStart => "<ul>".to_string(),
            ParsedGemini::ListEnd => "</ul>".to_string(),
            ParsedGemini::ListElement(item) => wrapped("<li>", item.as_str(), "</li>"),
            ParsedGemini::Quote(quote) => wrapped("TODO QUOTE: ", quote.as_str(), "<br />"),
            ParsedGemini::PreformattedStart => "<pre>".to_string(),
            ParsedGemini::PreformattedEnd => "</pre>".to_string(),
            ParsedGemini::PreformattedText(text) => escaped_preformat_text(text.as_str()),
            ParsedGemini::Text(text) => wrapped("<p>", text.as_str(), "</p>"),
        }
    }
}

} // verus!
