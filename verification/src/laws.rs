//! What holds of the parser for every document.
//!
//! Each statement here is proved from the definitions that the contracts of
//! the parser are written in.

use vstd::prelude::*;
use crate::element::Element;
use crate::parser::{
    elements_from, first_heading, flags_from, is_fence, is_item, lemma_first_heading_concat,
    lemma_line_heading, line_elements, line_flags, line_heading, marked, prefix_of, rest_of, Flags,
};
use crate::text::{is_whitespace, lemma_before_first, lemma_trim_start_skips, trim_start};

verus! {

/// Whether `prefix` is one of the six marks that the parser knows.
pub open spec fn is_mark(prefix: Seq<char>) -> bool {
    ||| prefix == "=>"@
    ||| prefix == "#"@
    ||| prefix == "##"@
    ||| prefix == "###"@
    ||| prefix == "*"@
    ||| prefix == ">"@
}

/// Outside a preformatted block, a line that is no fence and starts with
/// none of the six marks is plain text: its one element is the whole line,
/// without the white space it starts with.  Where a list was open, the end
/// of the list comes before it.
pub proof fn lemma_unmarked_line_is_text(flags: Flags, line: Seq<char>)
    requires
        !flags.in_preformat,
        !is_fence(line),
        !is_mark(prefix_of(trim_start(line))),
    ensures
        line_elements(flags, line) == if flags.in_list {
            seq![Element::ListEnd, Element::Text(trim_start(line))]
        } else {
            seq![Element::Text(trim_start(line))]
        },
        line_flags(flags, line) == (Flags { in_list: false, in_preformat: false }),
{
}

/// A fence, and no other line, turns the preformatted flag over.  It adds
/// the start marker where no block was open and the end marker where one
/// was, and nothing else; it leaves the list flag as it is.
pub proof fn lemma_fence_toggles(flags: Flags, line: Seq<char>)
    ensures
        line_flags(flags, line).in_preformat == (flags.in_preformat != is_fence(line)),
        is_fence(line) ==> line_flags(flags, line).in_list == flags.in_list,
        is_fence(line) ==> line_elements(flags, line) == if flags.in_preformat {
            seq![Element::PreformattedEnd]
        } else {
            seq![Element::PreformattedStart]
        },
{
}

/// Inside a preformatted block, a line that is no fence is one line of
/// preformatted text, whatever it starts with: its text is the line without
/// the white space it starts with, not yet escaped.  The flags stay.
pub proof fn lemma_preformatted_line(flags: Flags, line: Seq<char>)
    requires
        flags.in_preformat,
        !is_fence(line),
    ensures
        line_elements(flags, line) == seq![Element::PreformattedText(trim_start(line))],
        line_flags(flags, line) == flags,
{
}

/// The items of a run of lines: one list element for each line.
pub open spec fn items_of(run: Seq<Seq<char>>) -> Seq<Element> {
    run.map_values(|line: Seq<char>| Element::ListElement(rest_of(trim_start(line))))
}

/// Reading two runs of lines one after the other gives the elements of
/// the first, then those of the second read with the flags that the first
/// leaves.
pub proof fn lemma_elements_from_concat(
    flags: Flags,
    first: Seq<Seq<char>>,
    second: Seq<Seq<char>>,
)
    ensures
        flags_from(flags, first + second) == flags_from(flags_from(flags, first), second),
        elements_from(flags, first + second) == elements_from(flags, first) + elements_from(
            flags_from(flags, first),
            second,
        ),
    decreases second.len(),
{
    if second.len() == 0 {
        assert(first + second == first);
    } else {
        assert((first + second).drop_last() == first + second.drop_last());
        lemma_elements_from_concat(flags, first, second.drop_last());
    }
}

/// A run of item lines outside a preformatted block adds one list element
/// for each line, after the start of the list where none was open, and
/// leaves the list open.
pub proof fn lemma_item_run(flags: Flags, run: Seq<Seq<char>>)
    requires
        !flags.in_preformat,
        run.len() > 0,
        forall|i: int| 0 <= i < run.len() ==> is_item(#[trigger] run[i]),
    ensures
        flags_from(flags, run) == (Flags { in_list: true, in_preformat: false }),
        elements_from(flags, run) == if flags.in_list {
            items_of(run)
        } else {
            seq![Element::ListStart] + items_of(run)
        },
    decreases run.len(),
{
    reveal_strlit("*");
    reveal_strlit("```");
    reveal_strlit("=>");
    reveal_strlit("#");
    reveal_strlit("##");
    reveal_strlit("###");
    let last = run.last();
    let init = run.drop_last();
    assert(is_item(run[run.len() - 1]));
    let trimmed = trim_start(last);
    let prefix = prefix_of(trimmed);
    assert(prefix == "*"@);
    assert(prefix.len() == 1 && prefix[0] == '*');
    assert(!is_fence(last)) by {
        if trimmed == "```"@ {
            lemma_before_first(trimmed, ' ', 3);
            assert(prefix.len() == 3);
        }
    }
    assert(marked(trimmed) == Element::ListElement(rest_of(trimmed))) by {
        assert(prefix != "=>"@);
        assert(prefix != "#"@);
        assert(prefix != "##"@);
        assert(prefix != "###"@);
    }
    assert(items_of(run) == items_of(init).push(Element::ListElement(rest_of(trim_start(last)))));
    if init.len() == 0 {
        assert(items_of(init) == Seq::<Element>::empty());
        assert(elements_from(flags, init) == Seq::<Element>::empty());
        assert(flags_from(flags, init) == flags);
    } else {
        assert forall|i: int| 0 <= i < init.len() implies is_item(#[trigger] init[i]) by {
            assert(init[i] == run[i]);
        }
        lemma_item_run(flags, init);
    }
}

/// A run of item lines that starts outside any list and is followed by a
/// line that is neither an item nor a fence stands between exactly one
/// start and one end of list: the start, one element for each item, the
/// end, then the element of the line that follows.
pub proof fn lemma_list_is_bracketed(run: Seq<Seq<char>>, next: Seq<char>)
    requires
        run.len() > 0,
        forall|i: int| 0 <= i < run.len() ==> is_item(#[trigger] run[i]),
        !is_item(next),
        !is_fence(next),
    ensures
        elements_from(Flags { in_list: false, in_preformat: false }, run.push(next)) == seq![
            Element::ListStart,
        ] + items_of(run) + seq![Element::ListEnd, marked(trim_start(next))],
        flags_from(Flags { in_list: false, in_preformat: false }, run.push(next)) == (Flags {
            in_list: false,
            in_preformat: false,
        }),
        !(marked(trim_start(next)) is ListStart),
        !(marked(trim_start(next)) is ListEnd),
        !(marked(trim_start(next)) is ListElement),
{
    let flags = Flags { in_list: false, in_preformat: false };
    lemma_item_run(flags, run);
    assert(run.push(next).drop_last() == run);
}

/// The first line that is a heading of the first level gives the document
/// its title: the text after its mark.  `earlier` holds the lines before
/// it, none of which brought a heading, and `later` the lines after it,
/// which change nothing.
pub proof fn lemma_first_heading_line_is_title(
    flags: Flags,
    earlier: Seq<Seq<char>>,
    line: Seq<char>,
    later: Seq<Seq<char>>,
)
    requires
        first_heading(elements_from(flags, earlier)) is None,
        line_heading(flags_from(flags, earlier), line) is Some,
    ensures
        first_heading(elements_from(flags, earlier.push(line) + later)) == Some(
            rest_of(trim_start(line)),
        ),
{
    let upto = earlier.push(line);
    assert(upto.drop_last() == earlier);
    lemma_line_heading(flags_from(flags, earlier), line);
    lemma_first_heading_concat(
        elements_from(flags, earlier),
        line_elements(flags_from(flags, earlier), line),
    );
    lemma_title_stays(flags, upto, later);
}

/// Once a document has a title, the lines that follow leave it as it is:
/// the title is the text of the first heading of the first level.
pub proof fn lemma_title_stays(flags: Flags, first: Seq<Seq<char>>, second: Seq<Seq<char>>)
    requires
        first_heading(elements_from(flags, first)) is Some,
    ensures
        first_heading(elements_from(flags, first + second)) == first_heading(
            elements_from(flags, first),
        ),
{
    lemma_elements_from_concat(flags, first, second);
    lemma_first_heading_concat(
        elements_from(flags, first),
        elements_from(flags_from(flags, first), second),
    );
}

/// A line reads the same with white space before it as without: the
/// elements and the flags are those of the line itself.
pub proof fn lemma_indented_line(flags: Flags, space: Seq<char>, line: Seq<char>)
    requires
        forall|i: int| 0 <= i < space.len() ==> is_whitespace(#[trigger] space[i]),
    ensures
        line_elements(flags, space + line) == line_elements(flags, line),
        line_flags(flags, space + line) == line_flags(flags, line),
{
    lemma_trim_start_skips(space, line);
}

} // verus!
