//! Escaping of preformatted text.
//!
//! Inside a preformatted block three characters would be read as markup,
//! and are written as entities instead: `&`, `<` and `>`.

use vstd::prelude::*;
use vstd::string::StringExecFns;
use crate::text::push_char;

verus! {

/// `text` with each `c` in it replaced by `with`.
pub open spec fn replace_char(text: Seq<char>, c: char, with: Seq<char>) -> Seq<char>
    decreases text.len(),
{
    if text.len() == 0 {
        text
    } else {
        replace_char(text.drop_last(), c, with) + if text.last() == c {
            with
        } else {
            seq![text.last()]
        }
    }
}

/// `text` as it is written inside a preformatted block: `&` becomes
/// `&amp;`, then `<` becomes `&lt;`, then `>` becomes `&gt;`.
pub open spec fn escape(text: Seq<char>) -> Seq<char> {
    replace_char(replace_char(replace_char(text, '&', "&amp;"@), '<', "&lt;"@), '>', "&gt;"@)
}

/// What one character becomes when it is escaped.
pub open spec fn escape_char(c: char) -> Seq<char> {
    if c == '&' {
        "&amp;"@
    } else if c == '<' {
        "&lt;"@
    } else if c == '>' {
        "&gt;"@
    } else {
        seq![c]
    }
}

/// `text` with each of its characters escaped by itself.
pub open spec fn escape_each(text: Seq<char>) -> Seq<char>
    decreases text.len(),
{
    if text.len() == 0 {
        text
    } else {
        escape_each(text.drop_last()) + escape_char(text.last())
    }
}

/// Whether `c` is one of the three characters that escaping rewrites.
pub open spec fn is_special(c: char) -> bool {
    c == '&' || c == '<' || c == '>'
}

/// Whether some character of `text` is rewritten by escaping.
pub open spec fn has_special(text: Seq<char>) -> bool {
    exists|i: int| 0 <= i < text.len() && is_special(#[trigger] text[i])
}

/// Replacing in a text made of two parts replaces in each part.
pub proof fn lemma_replace_char_concat(a: Seq<char>, b: Seq<char>, c: char, with: Seq<char>)
    ensures
        replace_char(a + b, c, with) == replace_char(a, c, with) + replace_char(b, c, with),
    decreases b.len(),
{
    if b.len() == 0 {
        assert(a + b == a);
    } else {
        assert((a + b).drop_last() == a + b.drop_last());
        lemma_replace_char_concat(a, b.drop_last(), c, with);
    }
}

/// Replacing a character that a text does not hold leaves the text as it is.
pub proof fn lemma_replace_char_absent(text: Seq<char>, c: char, with: Seq<char>)
    requires
        forall|i: int| 0 <= i < text.len() ==> text[i] != c,
    ensures
        replace_char(text, c, with) == text,
    decreases text.len(),
{
    if text.len() > 0 {
        lemma_replace_char_absent(text.drop_last(), c, with);
    }
}

/// Replacing in a text of one character gives `with` or the character.
pub proof fn lemma_replace_char_single(x: char, c: char, with: Seq<char>)
    ensures
        replace_char(seq![x], c, with) == if x == c {
            with
        } else {
            seq![x]
        },
{
    reveal_with_fuel(replace_char, 2);
    assert(seq![x].drop_last() == Seq::<char>::empty());
}

/// The three replacements, made one after the other over the whole text,
/// give what escaping each character by itself gives: an entity written by
/// an earlier replacement is left as it is by the later ones.
pub proof fn lemma_escape_is_escape_each(text: Seq<char>)
    ensures
        escape(text) == escape_each(text),
    decreases text.len(),
{
    reveal_strlit("&amp;");
    reveal_strlit("&lt;");
    reveal_strlit("&gt;");
    if text.len() > 0 {
        let init = text.drop_last();
        let last = text.last();
        lemma_escape_is_escape_each(init);
        let amp = replace_char(init, '&', "&amp;"@);
        let amp_last = if last == '&' {
            "&amp;"@
        } else {
            seq![last]
        };
        let lt = replace_char(amp, '<', "&lt;"@);
        let lt_last = replace_char(amp_last, '<', "&lt;"@);
        lemma_replace_char_concat(amp, amp_last, '<', "&lt;"@);
        lemma_replace_char_concat(lt, lt_last, '>', "&gt;"@);
        if last == '&' {
            lemma_replace_char_absent(amp_last, '<', "&lt;"@);
            lemma_replace_char_absent(lt_last, '>', "&gt;"@);
        } else if last == '<' {
            lemma_replace_char_single(last, '<', "&lt;"@);
            lemma_replace_char_absent(lt_last, '>', "&gt;"@);
        } else {
            lemma_replace_char_single(last, '<', "&lt;"@);
            lemma_replace_char_single(last, '>', "&gt;"@);
        }
        assert(replace_char(lt_last, '>', "&gt;"@) == escape_char(last));
    }
}

/// An escaped text holds neither `<` nor `>`, is never shorter than the
/// text, and has the length of the text only where the text holds none of
/// the three characters.
pub proof fn lemma_escape_each_shape(text: Seq<char>)
    ensures
        forall|i: int|
            0 <= i < escape_each(text).len() ==> escape_each(text)[i] != '<' && escape_each(
                text,
            )[i] != '>',
        escape_each(text).len() >= text.len(),
        escape_each(text).len() == text.len() <==> !has_special(text),
        has_special(text) ==> has_special(escape_each(text)),
        !has_special(text) ==> escape_each(text) == text,
    decreases text.len(),
{
    reveal_strlit("&amp;");
    reveal_strlit("&lt;");
    reveal_strlit("&gt;");
    if text.len() > 0 {
        let init = text.drop_last();
        let last = text.last();
        lemma_escape_each_shape(init);
        let head = escape_each(init);
        let tail = escape_char(last);
        assert(escape_each(text) == head + tail);
        if has_special(init) {
            let i = choose|i: int| 0 <= i < init.len() && is_special(#[trigger] init[i]);
            assert(is_special(text[i]));
            let j = choose|j: int| 0 <= j < head.len() && is_special(#[trigger] head[j]);
            assert(is_special((head + tail)[j]));
        } else if is_special(last) {
            assert(is_special(text[text.len() - 1]));
            assert(tail[0] == '&');
            assert(is_special((head + tail)[head.len() as int]));
        } else {
            assert forall|i: int| 0 <= i < text.len() implies !is_special(#[trigger] text[i]) by {
                if i < init.len() {
                    assert(init[i] == text[i]);
                }
            }
            assert(head + tail == text);
        }
    }
}

/// Escaping is not idempotent: escaping an escaped text gives the escaped
/// text back only where the text held none of the three characters, and
/// then escaping had changed nothing.
pub proof fn lemma_escape_twice(text: Seq<char>)
    ensures
        escape(escape(text)) == escape(text) <==> !has_special(text),
        escape(text) == text <==> !has_special(text),
{
    lemma_escape_is_escape_each(text);
    lemma_escape_is_escape_each(escape(text));
    lemma_escape_each_shape(text);
    lemma_escape_each_shape(escape_each(text));
}

/// Writes `text` as it stands inside a preformatted block of an HTML page.
pub fn escaped_preformat_text(text: &str) -> (escaped: String)
    ensures
        escaped@ == escape(text@),
        escaped@ == escape_each(text@),
{
    let mut escaped = String::new();
    for c in it: text.chars()
        invariant
            it.seq() == text@,
            escaped@ == escape_each(text@.take(it.index())),
    {
        assert(text@.take(it.index() + 1).drop_last() == text@.take(it.index()));
        if c == '&' {
            escaped.append("&amp;");
        } else if c == '<' {
            escaped.append("&lt;");
        } else if c == '>' {
            escaped.append("&gt;");
        } else {
            push_char(&mut escaped, c);
        }
    }
    proof {
        assert(text@.take(text@.len() as int) == text@);
        lemma_escape_is_escape_each(text@);
    }
    escaped
}

} // verus!
