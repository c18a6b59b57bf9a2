//! The parser: from the text of a Gemtext document to its elements.
//!
//! The text is read line by line, from the first line to the last.  Two
//! flags are all that is kept from one line to the next: whether a list is
//! open, and whether a preformatted block is open.

use vstd::prelude::*;
use vstd::slice::slice_subrange;
use vstd::string::StrSliceExecFns;
use crate::element::{elements, Element, ParsedGemini};
use crate::text::{
    before_first, count_before_first, count_leading_whitespace, from_chars, is_literal, text_of,
    to_chars, trim_start,
};

verus! {

/// What the parser keeps from one line to the next.
#[derive(Debug, Clone, Copy, PartialEq, Eq)]
pub struct Flags {
    /// A list is open: its start was written, its end was not.
    pub in_list: bool,
    /// A preformatted block is open.
    pub in_preformat: bool,
}

/// `line` without the carriage return at its end, if it has one.
pub open spec fn without_return(line: Seq<char>) -> Seq<char> {
    if line.len() > 0 && line.last() == '\r' {
        line.drop_last()
    } else {
        line
    }
}

/// The lines of `text`.  A line ends with a line feed, or with a carriage
/// return and a line feed, and neither belongs to the line.  What follows
/// the last line feed is a line too, unless it is empty.
pub open spec fn lines(text: Seq<char>) -> Seq<Seq<char>>
    decreases text.len(),
{
    let end = before_first(text, '\n') as int;
    if text.len() == 0 {
        Seq::empty()
    } else if end < text.len() {
        seq![without_return(text.take(end))] + lines(text.skip(end + 1))
    } else {
        seq![text]
    }
}

/// The mark that a line starts with: what stands before its first space,
/// the whole line where it holds no space.
pub open spec fn prefix_of(line: Seq<char>) -> Seq<char> {
    line.take(before_first(line, ' ') as int)
}

/// What follows the mark of a line and the space after it: nothing where
/// the line holds no space.
pub open spec fn rest_of(line: Seq<char>) -> Seq<char> {
    if before_first(line, ' ') < line.len() {
        line.skip(before_first(line, ' ') as int + 1)
    } else {
        Seq::empty()
    }
}

/// Whether `line` is a fence: three backticks, and nothing else after the
/// white space it starts with.
pub open spec fn is_fence(line: Seq<char>) -> bool {
    trim_start(line) == "```"@
}

/// Whether `line` is an item of a list: its mark is `*`.
pub open spec fn is_item(line: Seq<char>) -> bool {
    prefix_of(trim_start(line)) == "*"@
}

/// The element of a line outside a preformatted block, by its mark.  A
/// line with no known mark is plain text, mark and all.
pub open spec fn marked(line: Seq<char>) -> Element {
    let prefix = prefix_of(line);
    let rest = rest_of(line);
    if prefix == "=>"@ {
        Element::Link(rest)
    } else if prefix == "#"@ {
        Element::Heading1(rest)
    } else if prefix == "##"@ {
        Element::Heading2(rest)
    } else if prefix == "###"@ {
        Element::Heading3(rest)
    } else if prefix == "*"@ {
        Element::ListElement(rest)
    } else if prefix == ">"@ {
        Element::Quote(rest)
    } else {
        Element::Text(line)
    }
}

/// The elements that one line adds to the document, read with `flags`.
pub open spec fn line_elements(flags: Flags, line: Seq<char>) -> Seq<Element> {
    let trimmed = trim_start(line);
    if is_fence(line) {
        if flags.in_preformat {
            seq![Element::PreformattedEnd]
        } else {
            seq![Element::PreformattedStart]
        }
    } else if flags.in_preformat {
        seq![Element::PreformattedText(trimmed)]
    } else if flags.in_list && !is_item(line) {
        seq![Element::ListEnd, marked(trimmed)]
    } else if !flags.in_list && is_item(line) {
        seq![Element::ListStart, marked(trimmed)]
    } else {
        seq![marked(trimmed)]
    }
}

/// The flags after one line read with `flags`.
pub open spec fn line_flags(flags: Flags, line: Seq<char>) -> Flags {
    if is_fence(line) {
        Flags { in_list: flags.in_list, in_preformat: !flags.in_preformat }
    } else if flags.in_preformat {
        flags
    } else {
        Flags { in_list: is_item(line), in_preformat: false }
    }
}

/// The flags at the start of a document: nothing is open.
pub open spec fn start_flags() -> Flags {
    Flags { in_list: false, in_preformat: false }
}

/// The flags after `lines`, read one after the other from `flags` on.
pub open spec fn flags_from(flags: Flags, lines: Seq<Seq<char>>) -> Flags
    decreases lines.len(),
{
    if lines.len() == 0 {
        flags
    } else {
        line_flags(flags_from(flags, lines.drop_last()), lines.last())
    }
}

/// The elements of `lines`, read one after the other from `flags` on.
/// Nothing is closed at the end: a list or a preformatted block that the
/// last line leaves open has no end marker.
pub open spec fn elements_from(flags: Flags, lines: Seq<Seq<char>>) -> Seq<Element>
    decreases lines.len(),
{
    if lines.len() == 0 {
        Seq::empty()
    } else {
        elements_from(flags, lines.drop_last()) + line_elements(
            flags_from(flags, lines.drop_last()),
            lines.last(),
        )
    }
}

/// The text of the first heading of the first level among `elements`.
pub open spec fn first_heading(elements: Seq<Element>) -> Option<Seq<char>>
    decreases elements.len(),
{
    if elements.len() == 0 {
        None
    } else {
        match first_heading(elements.drop_last()) {
            Some(heading) => Some(heading),
            None => match elements.last() {
                Element::Heading1(heading) => Some(heading),
                _ => None,
            },
        }
    }
}

/// The elements of the document `text`.
pub open spec fn parsed_elements(text: Seq<char>) -> Seq<Element> {
    elements_from(start_flags(), lines(text))
}

/// The title of the document `text`: the text of its first heading of the
/// first level.
pub open spec fn parsed_title(text: Seq<char>) -> Option<Seq<char>> {
    first_heading(parsed_elements(text))
}

/// The first heading among the elements of two parts of a document is
/// the first heading of the first part, and that of the second part where
/// the first part has none.
pub proof fn lemma_first_heading_concat(first: Seq<Element>, second: Seq<Element>)
    ensures
        first_heading(first + second) == match first_heading(first) {
            Some(heading) => Some(heading),
            None => first_heading(second),
        },
    decreases second.len(),
{
    if second.len() == 0 {
        assert(first + second == first);
    } else {
        assert((first + second).drop_last() == first + second.drop_last());
        lemma_first_heading_concat(first, second.drop_last());
    }
}

/// The heading that one line brings: the text of its element where that
/// is a heading of the first level.
pub open spec fn line_heading(flags: Flags, line: Seq<char>) -> Option<Seq<char>> {
    if !is_fence(line) && !flags.in_preformat && prefix_of(trim_start(line)) == "#"@ {
        Some(rest_of(trim_start(line)))
    } else {
        None
    }
}

/// The heading that a line brings is the first heading among its elements.
pub proof fn lemma_line_heading(flags: Flags, line: Seq<char>)
    ensures
        first_heading(line_elements(flags, line)) == line_heading(flags, line),
{
    reveal_with_fuel(first_heading, 3);
    reveal_strlit("=>");
    reveal_strlit("#");
    reveal_strlit("##");
    reveal_strlit("###");
    reveal_strlit("*");
    reveal_strlit(">");
    let found = line_elements(flags, line);
    if found.len() == 2 {
        assert(found.drop_last() == seq![found[0]]);
        assert(seq![found[0]].drop_last() == Seq::<Element>::empty());
        assert(first_heading(seq![found[0]]) is None);
    } else {
        assert(found.drop_last() == Seq::<Element>::empty());
    }
    assert(first_heading(found.drop_last()) is None);
    if line_heading(flags, line) is Some {
        let prefix = prefix_of(trim_start(line));
        assert(prefix.len() == 1 && prefix[0] == '#');
        assert(prefix != "=>"@);
        assert(marked(trim_start(line)) == Element::Heading1(rest_of(trim_start(line))));
        assert(!is_item(line));
        assert(found.last() == marked(trim_start(line)));
    }
}

/// Reads one line with `flags`: adds its elements to `parsed` and returns
/// the flags for the next line.  Where the line is a heading of the first
/// level, also returns the place in `line` at which the text of the
/// heading starts: it runs to the end of the line.
pub fn parse_line(line: &[char], flags: Flags, parsed: &mut Vec<ParsedGemini>) -> (next: (
    Flags,
    Option<usize>,
))
    ensures
        next.0 == line_flags(flags, line@),
        elements(final(parsed)@) == elements(old(parsed)@) + line_elements(flags, line@),
        match next.1 {
            Some(at) => at <= line@.len() && line_heading(flags, line@) == Some(
                line@.skip(at as int),
            ),
            None => line_heading(flags, line@) is None,
        },
{
    let ghost before = elements(parsed@);
    let skipped = count_leading_whitespace(line);
    let trimmed = slice_subrange(line, skipped, line.len());
    assert(trimmed@ == trim_start(line@));
    if is_literal(trimmed, "```") {
        if flags.in_preformat {
            parsed.push(ParsedGemini::PreformattedEnd);
        } else {
            parsed.push(ParsedGemini::PreformattedStart);
        }
        assert(elements(parsed@) == before + line_elements(flags, line@));
        (Flags { in_list: flags.in_list, in_preformat: !flags.in_preformat }, None)
    } else if flags.in_preformat {
        parsed.push(ParsedGemini::PreformattedText(from_chars(trimmed)));
        assert(elements(parsed@) == before + line_elements(flags, line@));
        (flags, None)
    } else {
        let prefix_len = count_before_first(trimmed, ' ');
        let prefix = slice_subrange(trimmed, 0, prefix_len);
        let rest_at = if prefix_len < trimmed.len() {
            prefix_len + 1
        } else {
            prefix_len
        };
        let rest = slice_subrange(trimmed, rest_at, trimmed.len());
        assert(prefix@ == prefix_of(trimmed@));
        assert(rest@ == rest_of(trimmed@));
        assert(rest@ == line@.skip(skipped + rest_at));
        let item = is_literal(prefix, "*");
        if flags.in_list && !item {
            parsed.push(ParsedGemini::ListEnd);
        }
        if !flags.in_list && item {
            parsed.push(ParsedGemini::ListStart);
        }
        let heading = is_literal(prefix, "#");
        if is_literal(prefix, "=>") {
            parsed.push(ParsedGemini::Link(from_chars(rest)));
        } else if heading {
            parsed.push(ParsedGemini::Heading1(from_chars(rest)));
        } else if is_literal(prefix, "##") {
            parsed.push(ParsedGemini::Heading2(from_chars(rest)));
        } else if is_literal(prefix, "###") {
            parsed.push(ParsedGemini::Heading3(from_chars(rest)));
        } else if item {
            parsed.push(ParsedGemini::ListElement(from_chars(rest)));
        } else if is_literal(prefix, ">") {
            parsed.push(ParsedGemini::Quote(from_chars(rest)));
        } else {
            parsed.push(ParsedGemini::Text(from_chars(trimmed)));
        }
        proof {
            reveal_strlit("=>");
            reveal_strlit("#");
            reveal_strlit("*");
            assert(elements(parsed@) == before + line_elements(flags, line@));
        }
        (
            Flags { in_list: item, in_preformat: false },
            if heading {
                Some(skipped + rest_at)
            } else {
                None
            },
        )
    }
}

/// Reads a Gemtext document: returns its elements, in the order of its
/// lines, and its title, which is the text of the first heading of the
/// first level, if there is one.
pub fn parse_gemini<'a>(gemini_content: &'a str) -> (parsed: (Vec<ParsedGemini>, Option<&'a str>))
    ensures
        elements(parsed.0@) == parsed_elements(gemini_content@),
        text_of(parsed.1) == parsed_title(gemini_content@),
{
    let chars = to_chars(gemini_content);
    let all = chars.as_slice();
    let ghost text = gemini_content@;
    let mut parsed_gemini: Vec<ParsedGemini> = Vec::new();
    let mut title: Option<(usize, usize)> = None;
    let mut flags = Flags { in_list: false, in_preformat: false };
    let mut start: usize = 0;
    let ghost mut done: Seq<Seq<char>> = Seq::empty();
    assert(text.skip(0) == text);
    assert(elements(parsed_gemini@) == Seq::<Element>::empty());
    while start < all.len()
        invariant
            all@ == text,
            start <= text.len(),
            lines(text) == done + lines(text.skip(start as int)),
            flags == flags_from(start_flags(), done),
            elements(parsed_gemini@) == elements_from(start_flags(), done),
            match title {
                Some((from, to)) => from <= to <= text.len() && first_heading(
                    elements(parsed_gemini@),
                ) == Some(text.subrange(from as int, to as int)),
                None => first_heading(elements(parsed_gemini@)) is None,
            },
        decreases text.len() - start,
    {
        let ghost rest = text.skip(start as int);
        let remaining = slice_subrange(all, start, all.len());
        let length = count_before_first(remaining, '\n');
        let feed = start + length;
        let end = if feed < all.len() && length > 0 && all[feed - 1] == '\r' {
            feed - 1
        } else {
            feed
        };
        let line = slice_subrange(all, start, end);
        let ghost before = elements(parsed_gemini@);
        let (next, heading) = parse_line(line, flags, &mut parsed_gemini);
        proof {
            assert(rest.take(length as int) == text.subrange(start as int, feed as int));
            assert(line@ == lines(rest)[0]);
            if feed < text.len() {
                assert(rest.skip(length + 1) == text.skip(feed + 1));
            } else {
                assert(lines(rest) == seq![line@]);
                assert(lines(text.skip(text.len() as int)) == Seq::<Seq<char>>::empty());
            }
            assert(done.push(line@).drop_last() == done);
            lemma_first_heading_concat(before, line_elements(flags, line@));
            lemma_line_heading(flags, line@);
            if let Some(at) = heading {
                assert(line@.skip(at as int) == text.subrange(start + at, end as int));
            }
            done = done.push(line@);
        }
        if title.is_none() {
            if let Some(at) = heading {
                title = Some((start + at, end));
            }
        }
        flags = next;
        start = if feed < all.len() {
            feed + 1
        } else {
            feed
        };
    }
    assert(lines(text.skip(start as int)) == Seq::<Seq<char>>::empty());
    assert(done + Seq::<Seq<char>>::empty() == done);
    let title = match title {
        Some((from, to)) => Some(gemini_content.substring_char(from, to)),
        None => None,
    };
    (parsed_gemini, title)
}

} // verus!
