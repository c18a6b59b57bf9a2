//! Link lines: the address, the description, and the HTML written for them.
//!
//! What follows `=>` on a link line is an address, alone or followed by a
//! space and a description.  An address whose extension names an image
//! format is shown as the image itself, inside the anchor.

use vstd::prelude::*;
use vstd::slice::slice_subrange;
use vstd::string::StringExecFns;
use crate::text::{
    after_last, append_chars, count_after_last, count_before_first, count_leading_whitespace,
    is_literal, is_whitespace, lemma_after_last, lemma_after_last_holds, lemma_trim_start_skips,
    rsplit_once, split_once, to_chars, trim_start,
};

verus! {

/// The address of a link: what stands before the first space.
pub open spec fn link_url(link: Seq<char>) -> Seq<char> {
    match split_once(trim_start(link), ' ') {
        Some((url, _)) => url,
        None => trim_start(link),
    }
}

/// The description of a link: what stands after the first space, and the
/// address itself where nothing does.
pub open spec fn link_description(link: Seq<char>) -> Seq<char> {
    match split_once(trim_start(link), ' ') {
        Some((_, description)) => description,
        None => trim_start(link),
    }
}

/// Whether `extension` names an image format.  Upper and lower case differ.
pub open spec fn is_image_extension(extension: Seq<char>) -> bool {
    ||| extension == "jpg"@
    ||| extension == "png"@
    ||| extension == "gif"@
    ||| extension == "webp"@
    ||| extension == "tiff"@
    ||| extension == "bmp"@
    ||| extension == "jpeg"@
    ||| extension == "svg"@
    ||| extension == "avif"@
}

/// Whether `url` points at an image: what stands after its last `.` names
/// an image format.
pub open spec fn is_image_url(url: Seq<char>) -> bool {
    match rsplit_once(url, '.') {
        Some((_, extension)) => is_image_extension(extension),
        None => false,
    }
}

/// The HTML of an anchor that shows `description`.
pub open spec fn anchor_html(url: Seq<char>, description: Seq<char>) -> Seq<char> {
    "<a href=\""@ + url + "\">"@ + description + "</a><br />"@
}

/// The HTML of an anchor that shows the image at `url`, with `description`
/// as its alternative text.
pub open spec fn image_html(url: Seq<char>, description: Seq<char>) -> Seq<char> {
    "<a href=\""@ + url
        + "\"><img loading=\"lazy\" height=\"200\" sizes=\"auto, (max-width: 30em) 100vw, (max-width: 50em) 50vw, calc(33vw - 100px)\" src=\""@
        + url + "\" alt=\""@ + description + "\" /></a><br />"@
}

/// The HTML of a link line.  Neither the address nor the description is
/// escaped.
pub open spec fn link_html(link: Seq<char>) -> Seq<char> {
    if is_image_url(link_url(link)) {
        image_html(link_url(link), link_description(link))
    } else {
        anchor_html(link_url(link), link_description(link))
    }
}

/// `text` ends with a `.` followed by `extension`.
pub open spec fn has_extension(text: Seq<char>, extension: Seq<char>) -> bool {
    (seq!['.'] + extension).is_suffix_of(text)
}

/// For an extension that holds no `.`: a text ends with `.` and the
/// extension just when the extension is what stands after its last `.`.
pub proof fn lemma_has_extension(text: Seq<char>, extension: Seq<char>)
    requires
        forall|i: int| 0 <= i < extension.len() ==> extension[i] != '.',
    ensures
        has_extension(text, extension) <==> (rsplit_once(text, '.') matches Some((_, found))
            && found == extension),
{
    let suffix = seq!['.'] + extension;
    let start = text.len() - suffix.len();
    lemma_after_last_holds(text, '.');
    if has_extension(text, extension) {
        assert(text.subrange(start, text.len() as int) == suffix);
        assert(text[start] == suffix[0]);
        assert forall|i: int| start + 1 <= i < text.len() implies text[i] != '.' by {
            assert(text[i] == suffix[i - start]);
            assert(suffix[i - start] == extension[i - start - 1]);
        }
        lemma_after_last(text, '.', extension.len() as int);
        assert(text.skip(text.len() - extension.len()) == extension) by {
            assert forall|i: int| 0 <= i < extension.len() implies text[text.len()
                - extension.len() + i] == extension[i] by {
                assert(text[start + 1 + i] == suffix[1 + i]);
            }
        }
    }
    if rsplit_once(text, '.') matches Some((_, found)) && found == extension {
        let tail = after_last(text, '.') as int;
        assert(text.skip(text.len() - tail).len() == tail);
        assert(text.subrange(start, text.len() as int) == suffix) by {
            assert forall|i: int| 0 <= i < suffix.len() implies text[start + i] == suffix[i] by {
                if i > 0 {
                    assert(text.skip(text.len() - tail)[i - 1] == extension[i - 1]);
                }
            }
        }
    }
}

/// An address points at an image just when it ends with one of `.jpg`,
/// `.jpeg`, `.png`, `.gif`, `.webp`, `.tiff`, `.bmp`, `.svg` and `.avif`.
pub proof fn lemma_image_url_endings(url: Seq<char>)
    ensures
        is_image_url(url) <==> {
            ||| ".jpg"@.is_suffix_of(url)
            ||| ".jpeg"@.is_suffix_of(url)
            ||| ".png"@.is_suffix_of(url)
            ||| ".gif"@.is_suffix_of(url)
            ||| ".webp"@.is_suffix_of(url)
            ||| ".tiff"@.is_suffix_of(url)
            ||| ".bmp"@.is_suffix_of(url)
            ||| ".svg"@.is_suffix_of(url)
            ||| ".avif"@.is_suffix_of(url)
        },
{
    reveal_strlit("jpg");
    reveal_strlit("jpeg");
    reveal_strlit("png");
    reveal_strlit("gif");
    reveal_strlit("webp");
    reveal_strlit("tiff");
    reveal_strlit("bmp");
    reveal_strlit("svg");
    reveal_strlit("avif");
    reveal_strlit(".jpg");
    reveal_strlit(".jpeg");
    reveal_strlit(".png");
    reveal_strlit(".gif");
    reveal_strlit(".webp");
    reveal_strlit(".tiff");
    reveal_strlit(".bmp");
    reveal_strlit(".svg");
    reveal_strlit(".avif");
    assert(seq!['.'] + "jpg"@ == ".jpg"@);
    assert(seq!['.'] + "jpeg"@ == ".jpeg"@);
    assert(seq!['.'] + "png"@ == ".png"@);
    assert(seq!['.'] + "gif"@ == ".gif"@);
    assert(seq!['.'] + "webp"@ == ".webp"@);
    assert(seq!['.'] + "tiff"@ == ".tiff"@);
    assert(seq!['.'] + "bmp"@ == ".bmp"@);
    assert(seq!['.'] + "svg"@ == ".svg"@);
    assert(seq!['.'] + "avif"@ == ".avif"@);
    lemma_has_extension(url, "jpg"@);
    lemma_has_extension(url, "jpeg"@);
    lemma_has_extension(url, "png"@);
    lemma_has_extension(url, "gif"@);
    lemma_has_extension(url, "webp"@);
    lemma_has_extension(url, "tiff"@);
    lemma_has_extension(url, "bmp"@);
    lemma_has_extension(url, "svg"@);
    lemma_has_extension(url, "avif"@);
}

/// A link reads the same with white space before it as without.
pub proof fn lemma_indented_link(space: Seq<char>, link: Seq<char>)
    requires
        forall|i: int| 0 <= i < space.len() ==> is_whitespace(#[trigger] space[i]),
    ensures
        link_html(space + link) == link_html(link),
{
    lemma_trim_start_skips(space, link);
}

/// Tells whether `url` points at an image.
pub fn points_at_image(url: &[char]) -> (image: bool)
    ensures
        image == is_image_url(url@),
{
    let tail = count_after_last(url, '.');
    if tail < url.len() {
        let extension = slice_subrange(url, url.len() - tail, url.len());
        is_literal(extension, "jpg") || is_literal(extension, "png") || is_literal(extension, "gif")
            || is_literal(extension, "webp") || is_literal(extension, "tiff") || is_literal(
            extension,
            "bmp",
        ) || is_literal(extension, "jpeg") || is_literal(extension, "svg") || is_literal(
            extension,
            "avif",
        )
    } else {
        false
    }
}

/// Writes the HTML of a link line: an anchor on the address that shows the
/// description, or the image where the address points at one, and a line
/// break after it.
pub fn html_link(link: &str) -> (html: String)
    ensures
        html@ == link_html(link@),
{
    let chars = to_chars(link);
    let all = chars.as_slice();
    let skipped = count_leading_whitespace(all);
    let trimmed = slice_subrange(all, skipped, all.len());
    let url_len = count_before_first(trimmed, ' ');
    let url = slice_subrange(trimmed, 0, url_len);
    let description = if url_len < trimmed.len() {
        slice_subrange(trimmed, url_len + 1, trimmed.len())
    } else {
        trimmed
    };
    assert(trimmed@ == trim_start(link@));
    assert(url@ == link_url(link@)) by {
        assert(trimmed@.take(trimmed@.len() as int) == trimmed@);
    }
    assert(description@ == link_description(link@));
    let mut html = String::new();
    html.append("<a href=\"");
    append_chars(&mut html, url);
    if points_at_image(url) {
        html.append(
            "\"><img loading=\"lazy\" height=\"200\" sizes=\"auto, (max-width: 30em) 100vw, (max-width: 50em) 50vw, calc(33vw - 100px)\" src=\"",
        );
        append_chars(&mut html, url);
        html.append("\" alt=\"");
        append_chars(&mut html, description);
        html.append("\" /></a><br />");
    } else {
        html.append("\">");
        append_chars(&mut html, description);
        html.append("</a><br />");
    }
    html
}

} // verus!
