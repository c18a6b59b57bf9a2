//! Conversion of Gemtext documents to HTML pages.
//!
//! A document is read line by line into a sequence of [`ParsedGemini`]
//! elements, and that sequence is rendered as one complete HTML page.

pub mod error;
pub mod text;
pub mod escape;
pub mod link;
pub mod element;
pub mod page;
pub mod parser;
pub mod laws;
pub mod convert;
pub mod tree;

pub use convert::convert_gemini_file;
pub use element::ParsedGemini;
pub use error::Gemini2HtmlError;
pub use escape::escaped_preformat_text;
pub use link::html_link;
pub use page::{format_gemini_to_html, html_footers, html_headers, html_style};
pub use parser::parse_gemini;
pub use tree::{entry_action, parse_args, replace_ancestor, EntryAction};
