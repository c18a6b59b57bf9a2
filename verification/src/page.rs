//! The HTML page around the elements of a document.
//!
//! A page is a header, which holds the style sheet and the title, then the
//! HTML of the elements with a line feed between one and the next, then a
//! footer.

use vstd::prelude::*;
use vstd::string::StringExecFns;
use crate::element::{elements, Element, ParsedGemini};
use crate::text::text_of;

verus! {

/// The style sheet that every page carries.
pub const STYLE_SHEET: &'static str = "html {\n\
\tfont-family: sans-serif;\n\
\tcolor: #080808;\n\
}\n\
\n\
body {\n\
\tmax-width: 920px;\n\
\tmargin: 0 auto;\n\
\tpadding: 1rem 2rem;\n\
}\n\
\n\
blockquote {\n\
\tbackground-color: #eee;\n\
\tborder-left: 3px solid #444;\n\
\tmargin: 1rem -1rem 1rem calc(-1rem - 3px);\n\
\tpadding: 1rem;\n\
}\n\
\n\
ul {\n\
\tmargin-left: 0;\n\
\tpadding: 0;\n\
}\n\
\n\
li {\n\
\tpadding: 0;\n\
}\n\
\n\
li:not(:last-child) {\n\
\tmargin-bottom: 0.5rem;\n\
}\n\
\n\
a {\n\
\tposition: relative;\n\
}\n\
\n\
a:before {\n\
\tcontent: '⇒';\n\
\tcolor: #999;\n\
\ttext-decoration: none;\n\
\tfont-weight: bold;\n\
\tposition: absolute;\n\
\tleft: -1.25rem;\n\
}\n\
\n\
pre {\n\
\tbackground-color: #eee;\n\
\tmargin: 0 -1rem;\n\
\tpadding: 1rem;\n\
\toverflow-x: auto;\n\
}\n\
\n\
details:not([open]) summary,\n\
details:not([open]) summary a {\n\
\tcolor: gray;\n\
}\n\
\n\
details summary a:before {\n\
\tdisplay: none;\n\
}\n\
\n\
dl dt {\n\
\tfont-weight: bold;\n\
}\n\
\n\
dl dt:not(:first-child) {\n\
\tmargin-top: 0.5rem;\n\
}\n\
\n\
@media(prefers-color-scheme:dark) {\n\
\thtml {\n\
\t\tbackground-color: #111;\n\
\t\tcolor: #eee;\n\
\t}\n\
\n\
\tblockquote {\n\
\t\tbackground-color: #000;\n\
\t}\n\
\n\
\tpre {\n\
\t\tbackground-color: #222;\n\
\t}\n\
\n\
\ta {\n\
\t\tcolor: #0087BD;\n\
\t}\n\
\n\
\ta:visited {\n\
\t\tcolor: #333399;\n\
\t}\n\
}\n\
\n\
label {\n\
\tdisplay: block;\n\
\tfont-weight: bold;\n\
\tmargin-bottom: 0.5rem;\n\
}\n\
\n\
input {\n\
\tdisplay: block;\n\
\tborder: 1px solid #888;\n\
\tpadding: .375rem;\n\
\tline-height: 1.25rem;\n\
\ttransition: border-color .15s ease-in-out,box-shadow .15s ease-in-out;\n\
\twidth: 100%;\n\
}\n\
\n\
input:focus {\n\
\toutline: 0;\n\
\tborder-color: #80bdff;\n\
\tbox-shadow: 0 0 0 0.2rem rgba(0,123,255,.25);\n\
}\n";

/// The title of a page whose document has no heading of the first level.
pub const DEFAULT_TITLE: &'static str = "some title";

/// What the footer of every page says.
pub const PAGE_INFOS: &'static str = "some infos";

/// The style sheet inside its `style` tags.
pub open spec fn style_block() -> Seq<char> {
    "<style>\n"@ + STYLE_SHEET@ + "</style>"@
}

/// The start of a page, down to the opening `body` tag: it holds the style
/// sheet and `title`, or the default title where there is none.
pub open spec fn header(title: Option<Seq<char>>) -> Seq<char> {
    "<!doctype html>\n<html>\n<meta charset=\"utf-8\">\n<meta name=\"viewport\" content=\"width=device-width, initial-scale=1\" />\n"@
        + style_block() + "\n<title>"@ + match title {
        Some(title) => title,
        None => DEFAULT_TITLE@,
    } + "</title>\n<body>\n"@
}

/// The end of a page: a paragraph that holds `infos`, and the closing tags.
pub open spec fn footer(infos: Seq<char>) -> Seq<char> {
    "<p>"@ + infos + "</p></body>\n</html>\n"@
}

/// The body of a page: the HTML of each element, in order, with a line
/// feed between one element and the next.  No line feed stands before the
/// first element or after the last.
pub open spec fn body(elements: Seq<Element>) -> Seq<char>
    decreases elements.len(),
{
    if elements.len() == 0 {
        Seq::empty()
    } else if elements.len() == 1 {
        elements[0].html()
    } else {
        body(elements.drop_last()) + seq!['\n'] + elements.last().html()
    }
}

/// The whole page of a document.
pub open spec fn page(elements: Seq<Element>, title: Option<Seq<char>>) -> Seq<char> {
    header(title) + body(elements) + footer(PAGE_INFOS@)
}

/// Writes the style sheet inside its `style` tags.
pub fn html_style() -> (style: String)
    ensures
        style@ == style_block(),
{
    let mut style = String::new();
    style.append("<style>\n");
    style.append(STYLE_SHEET);
    style.append("</style>");
    assert(Seq::<char>::empty() + "<style>\n"@ == "<style>\n"@);
    style
}

/// Writes the start of a page, with the style sheet and the title of the
/// page in it.
pub fn html_headers(title: Option<&str>) -> (headers: String)
    ensures
        headers@ == header(text_of(title)),
{
    let title = match title {
        Some(title) => title,
        None => DEFAULT_TITLE,
    };
    let style = html_style();
    let mut headers = String::new();
    headers.append(
        "<!doctype html>\n<html>\n<meta charset=\"utf-8\">\n<meta name=\"viewport\" content=\"width=device-width, initial-scale=1\" />\n",
    );
    headers.append(style.as_str());
    headers.append("\n<title>");
    headers.append(title);
    headers.append("</title>\n<body>\n");
    assert(Seq::<char>::empty()
        + "<!doctype html>\n<html>\n<meta charset=\"utf-8\">\n<meta name=\"viewport\" content=\"width=device-width, initial-scale=1\" />\n"@
        == "<!doctype html>\n<html>\n<meta charset=\"utf-8\">\n<meta name=\"viewport\" content=\"width=device-width, initial-scale=1\" />\n"@);
    headers
}

/// Writes the end of a page.  `infos` is shown at the foot of the page.
pub fn html_footers(infos: &str) -> (footers: String)
    ensures
        footers@ == footer(infos@),
{
    let mut footers = String::new();
    footers.append("<p>");
    footers.append(infos);
    footers.append("</p></body>\n</html>\n");
    assert(Seq::<char>::empty() + "<p>"@ == "<p>"@);
    footers
}

/// Writes the page of a parsed document: the header with `title`, the
/// elements with a line feed between one and the next, and the footer.
pub fn format_gemini_to_html(parsed_gemini: Vec<ParsedGemini>, title: Option<&str>) -> (html: String)
    ensures
        html@ == page(elements(parsed_gemini@), text_of(title)),
{
    let mut html_content = String::new();
    let headers = html_headers(title);
    let footers = html_footers(PAGE_INFOS);
    html_content.append(headers.as_str());
    assert(html_content@ == header(text_of(title))) by {
        assert(Seq::<char>::empty() + headers@ == headers@);
    }
    let ghost all = elements(parsed_gemini@);
    let mut at: usize = 0;
    while at < parsed_gemini.len()
        invariant
            at <= parsed_gemini@.len(),
            all == elements(parsed_gemini@),
            html_content@ == header(text_of(title)) + body(all.take(at as int)),
        decreases parsed_gemini@.len() - at,
    {
        let line = parsed_gemini[at].to_html();
        if at > 0 {
            html_content.append("\n");
        }
        html_content.append(line.as_str());
        proof {
            reveal_strlit("\n");
            assert("\n"@ == seq!['\n']);
            assert(all.take(at + 1).drop_last() == all.take(at as int));
            assert(all.take(at + 1).last() == parsed_gemini@[at as int]@);
            if at == 0 {
                assert(body(all.take(0)) == Seq::<char>::empty());
                assert(all.take(1)[0] == parsed_gemini@[0]@);
            }
        }
        at += 1;
    }
    assert(all.take(at as int) == all);
    html_content.append(footers.as_str());
    html_content
}

} // verus!
