//! Text as sequences of characters: the few operations on which the parser
//! and the renderer are built.
//!
//! Every function here is stated over `Seq<char>`, the view of `str` and of
//! `String`.  The executable functions work on slices of characters, so that
//! a line is scanned once from left to right.

use vstd::prelude::*;

verus! {

/// Whether `c` is white space in the sense of Unicode (the property
/// `White_Space`).
pub open spec fn is_whitespace(c: char) -> bool {
    let code = c as u32;
    ||| 0x09 <= code <= 0x0d
    ||| code == 0x20
    ||| code == 0x85
    ||| code == 0xa0
    ||| code == 0x1680
    ||| 0x2000 <= code <= 0x200a
    ||| code == 0x2028
    ||| code == 0x2029
    ||| code == 0x202f
    ||| code == 0x205f
    ||| code == 0x3000
}

/// `text` without the white space it starts with.
pub open spec fn trim_start(text: Seq<char>) -> Seq<char>
    decreases text.len(),
{
    if text.len() > 0 && is_whitespace(text[0]) {
        trim_start(text.drop_first())
    } else {
        text
    }
}

/// The number of characters of `text` that stand before its first `c`: the
/// length of `text` where `c` does not occur in it.
pub open spec fn before_first(text: Seq<char>, c: char) -> nat
    decreases text.len(),
{
    if text.len() == 0 || text[0] == c {
        0
    } else {
        1 + before_first(text.drop_first(), c)
    }
}

/// The number of characters of `text` that stand after its last `c`: the
/// length of `text` where `c` does not occur in it.
pub open spec fn after_last(text: Seq<char>, c: char) -> nat
    decreases text.len(),
{
    if text.len() == 0 || text.last() == c {
        0
    } else {
        1 + after_last(text.drop_last(), c)
    }
}

/// `text` cut at its first `c`: what stands before it and what stands after
/// it.  `None` where `c` does not occur.
pub open spec fn split_once(text: Seq<char>, c: char) -> Option<(Seq<char>, Seq<char>)> {
    let at = before_first(text, c) as int;
    if at < text.len() {
        Some((text.take(at), text.skip(at + 1)))
    } else {
        None
    }
}

/// `text` cut at its last `c`: what stands before it and what stands after
/// it.  `None` where `c` does not occur.
pub open spec fn rsplit_once(text: Seq<char>, c: char) -> Option<(Seq<char>, Seq<char>)> {
    let tail = after_last(text, c) as int;
    if tail < text.len() {
        Some((text.take(text.len() - tail - 1), text.skip(text.len() - tail)))
    } else {
        None
    }
}

/// The characters of a text that may be absent.
pub open spec fn text_of(text: Option<&str>) -> Option<Seq<char>> {
    match text {
        Some(text) => Some(text@),
        None => None,
    }
}

/// White space before a text does not change what is left of the text once
/// the white space it starts with is taken away.
pub proof fn lemma_trim_start_skips(space: Seq<char>, text: Seq<char>)
    requires
        forall|i: int| 0 <= i < space.len() ==> is_whitespace(#[trigger] space[i]),
    ensures
        trim_start(space + text) == trim_start(text),
    decreases space.len(),
{
    if space.len() == 0 {
        assert(space + text == text);
    } else {
        assert((space + text).drop_first() == space.drop_first() + text);
        assert(is_whitespace(space[0]));
        assert forall|i: int| 0 <= i < space.drop_first().len() implies is_whitespace(
            #[trigger] space.drop_first()[i],
        ) by {
            assert(space.drop_first()[i] == space[i + 1]);
        }
        lemma_trim_start_skips(space.drop_first(), text);
    }
}

/// `before_first` is the one position that holds `c` and has no `c` before it.
pub proof fn lemma_before_first(text: Seq<char>, c: char, at: int)
    requires
        0 <= at <= text.len(),
        forall|i: int| 0 <= i < at ==> text[i] != c,
        at < text.len() ==> text[at] == c,
    ensures
        before_first(text, c) == at,
    decreases text.len(),
{
    if at > 0 {
        let rest = text.drop_first();
        assert forall|i: int| 0 <= i < at - 1 implies rest[i] != c by {
            assert(rest[i] == text[i + 1]);
        }
        lemma_before_first(rest, c, at - 1);
    }
}

/// `after_last` is the one count that leaves a `c` just before the tail and
/// no `c` in it.
pub proof fn lemma_after_last(text: Seq<char>, c: char, tail: int)
    requires
        0 <= tail <= text.len(),
        forall|i: int| text.len() - tail <= i < text.len() ==> text[i] != c,
        tail < text.len() ==> text[text.len() - tail - 1] == c,
    ensures
        after_last(text, c) == tail,
    decreases text.len(),
{
    if tail > 0 {
        let rest = text.drop_last();
        assert forall|i: int| rest.len() - (tail - 1) <= i < rest.len() implies rest[i] != c by {
            assert(rest[i] == text[i]);
        }
        lemma_after_last(rest, c, tail - 1);
    }
}

/// `after_last` never exceeds the length of the text, no character of the
/// tail is `c`, and the character before the tail, if there is one, is `c`.
pub proof fn lemma_after_last_holds(text: Seq<char>, c: char)
    ensures
        after_last(text, c) <= text.len(),
        forall|i: int| text.len() - after_last(text, c) <= i < text.len() ==> text[i] != c,
        after_last(text, c) < text.len() ==> text[text.len() - after_last(text, c) - 1] == c,
    decreases text.len(),
{
    if text.len() > 0 && text.last() != c {
        let rest = text.drop_last();
        lemma_after_last_holds(rest, c);
        assert forall|i: int| text.len() - after_last(text, c) <= i < text.len() implies text[i]
            != c by {
            if i < rest.len() {
                assert(text[i] == rest[i]);
            }
        }
    }
}

/// Tells whether `c` is white space.
pub fn char_is_whitespace(c: char) -> (white: bool)
    ensures
        white == is_whitespace(c),
{
    let code: u32 = c as u32;
    (0x09 <= code && code <= 0x0d) || code == 0x20 || code == 0x85 || code == 0xa0 || code == 0x1680
        || (0x2000 <= code && code <= 0x200a) || code == 0x2028 || code == 0x2029 || code == 0x202f
        || code == 0x205f || code == 0x3000
}

/// Counts the white space that `text` starts with.
pub fn count_leading_whitespace(text: &[char]) -> (count: usize)
    ensures
        count <= text@.len(),
        text@.skip(count as int) == trim_start(text@),
{
    let mut count: usize = 0;
    assert(text@.skip(0) == text@);
    while count < text.len() && char_is_whitespace(text[count])
        invariant
            count <= text@.len(),
            trim_start(text@) == trim_start(text@.skip(count as int)),
        decreases text@.len() - count,
    {
        assert(text@.skip(count as int).drop_first() == text@.skip(count + 1));
        count += 1;
    }
    count
}

/// Counts the characters of `text` before its first `c`.
pub fn count_before_first(text: &[char], c: char) -> (count: usize)
    ensures
        count == before_first(text@, c),
        count <= text@.len(),
{
    let mut count: usize = 0;
    while count < text.len() && text[count] != c
        invariant
            count <= text@.len(),
            forall|i: int| 0 <= i < count ==> text@[i] != c,
        decreases text@.len() - count,
    {
        count += 1;
    }
    proof {
        lemma_before_first(text@, c, count as int);
    }
    count
}

/// Counts the characters of `text` after its last `c`.
pub fn count_after_last(text: &[char], c: char) -> (count: usize)
    ensures
        count == after_last(text@, c),
        count <= text@.len(),
{
    let mut count: usize = 0;
    while count < text.len() && text[text.len() - count - 1] != c
        invariant
            count <= text@.len(),
            forall|i: int| text@.len() - count <= i < text@.len() ==> text@[i] != c,
        decreases text@.len() - count,
    {
        count += 1;
    }
    proof {
        lemma_after_last(text@, c, count as int);
    }
    count
}

/// The characters of `text`, in order.
pub fn to_chars(text: &str) -> (chars: Vec<char>)
    ensures
        chars@ == text@,
{
    let mut chars: Vec<char> = Vec::new();
    for c in it: text.chars()
        invariant
            chars@ == it.seq().take(it.index()),
    {
        chars.push(c);
    }
    chars
}

/// Tells whether `text` is, character for character, the string `literal`.
pub fn is_literal(text: &[char], literal: &str) -> (same: bool)
    ensures
        same == (text@ == literal@),
{
    let mut at: usize = 0;
    for c in it: literal.chars()
        invariant
            at == it.index(),
            at <= text@.len(),
            it.seq() == literal@,
            text@.take(at as int) == literal@.take(at as int),
    {
        if at >= text.len() || text[at] != c {
            assert(text@.len() == literal@.len() ==> text@[at as int] != literal@[at as int]);
            return false;
        }
        assert(text@.take(at + 1) == text@.take(at as int).push(text@[at as int]));
        assert(literal@.take(at + 1) == literal@.take(at as int).push(c));
        at += 1;
    }
    assert(literal@.take(at as int) == literal@);
    assert(at == text@.len() ==> text@.take(at as int) == text@);
    at == text.len()
}

/// `String::push`: the character is added at the end of the string, and the
/// characters before it stay as they are.
#[verifier::external_body]
pub(crate) fn push_char(out: &mut String, c: char)
    ensures
        final(out)@ == old(out)@.push(c),
{
    out.push(c);
}

/// Adds the characters of `chars` at the end of `out`.
pub fn append_chars(out: &mut String, chars: &[char])
    ensures
        final(out)@ == old(out)@ + chars@,
{
    let mut at: usize = 0;
    while at < chars.len()
        invariant
            at <= chars@.len(),
            out@ == old(out)@ + chars@.take(at as int),
        decreases chars@.len() - at,
    {
        push_char(out, chars[at]);
        at += 1;
    }
}

/// The string made of the characters of `chars`.
pub fn from_chars(chars: &[char]) -> (text: String)
    ensures
        text@ == chars@,
{
    let mut text = String::new();
    append_chars(&mut text, chars);
    text
}

} // verus!
