//! The places of the files of a converted tree, and the arguments of the
//! command that converts one.
//!
//! A tree of documents is converted into a second tree of the same shape:
//! a file keeps its place under the new root.  Paths are handled as
//! strings, and read by the rules of the platform.

use std::path::Path;
use vstd::prelude::*;
use crate::error::Gemini2HtmlError;
use crate::text::{is_literal, to_chars};

verus! {

/// What is left of the path `path` once the directory `base` is taken from
/// its start: `None` where `path` does not lie under `base`.  Paths are
/// read by the rules of `std::path` for the platform that the library is
/// built for.
pub uninterp spec fn path_strip_prefix(path: Seq<char>, base: Seq<char>) -> Option<Seq<char>>;

/// The path `path` under the directory `base`, by the same rules.
pub uninterp spec fn path_join(base: Seq<char>, path: Seq<char>) -> Seq<char>;

/// `Path::strip_prefix`, on paths given as strings: the rest of `path`
/// after `base`, or `None` where `base` is not a prefix of `path`.  Whole
/// components are compared, not characters.
#[verifier::external_body]
fn strip_prefix(path: &str, base: &str) -> (rest: Option<String>)
    ensures
        path_strip_prefix(path@, base@) == match rest {
            Some(rest) => Some(rest@),
            None => None,
        },
{
    match Path::new(path).strip_prefix(Path::new(base)) {
        Ok(rest) => Some(rest.to_string_lossy().into_owned()),
        Err(_) => None,
    }
}

/// `Path::join`, on paths given as strings: `path` adjoined to `base`.
#[verifier::external_body]
fn join(base: &str, path: &str) -> (joined: String)
    ensures
        joined@ == path_join(base@, path@),
{
    Path::new(base).join(Path::new(path)).to_string_lossy().into_owned()
}

/// The place of `path` in the new tree, given what was left of it once the
/// old root was taken away.
pub open spec fn replaced(target_ancestor: Seq<char>, rest: Option<Seq<char>>) -> Option<
    Seq<char>,
> {
    match rest {
        Some(rest) => Some(path_join(target_ancestor, rest)),
        None => None,
    }
}

/// The characters of a path that may have failed.
pub open spec fn path_of(path: Result<String, Gemini2HtmlError>) -> Option<Seq<char>> {
    match path {
        Ok(path) => Some(path@),
        Err(_) => None,
    }
}

/// Puts what is left of a path under `target_ancestor`.  `rest` is what
/// taking the old root from the path gave: where that failed, so does this.
pub fn place_under(target_ancestor: &str, rest: Option<String>) -> (replaced_path: Result<
    String,
    Gemini2HtmlError,
>)
    ensures
        path_of(replaced_path) == replaced(
            target_ancestor@,
            match rest {
                Some(rest) => Some(rest@),
                None => None,
            },
        ),
{
    match rest {
        Some(rest) => Ok(join(target_ancestor, rest.as_str())),
        None => Err(Gemini2HtmlError),
    }
}

/// Replaces the root of a path: `path`, which lies under
/// `source_ancestor`, is moved to the same place under `target_ancestor`.
/// The error comes back just when `path` does not lie under
/// `source_ancestor`.
pub fn replace_ancestor(source_ancestor: &str, target_ancestor: &str, path: &str) -> (replaced_path:
    Result<String, Gemini2HtmlError>)
    ensures
        path_of(replaced_path) == replaced(
            target_ancestor@,
            path_strip_prefix(path@, source_ancestor@),
        ),
{
    let target_without_ancestor = strip_prefix(path, source_ancestor);
    place_under(target_ancestor, target_without_ancestor)
}

/// The extension of the path `path`, by the same rules: what follows the
/// last `.` of its file name, `None` where the file name has none.
pub uninterp spec fn path_extension(path: Seq<char>) -> Option<Seq<char>>;

/// The path `path` with `extension` in place of its own, by the same
/// rules.
pub uninterp spec fn path_with_extension(path: Seq<char>, extension: Seq<char>) -> Seq<char>;

/// `Path::extension`, on a path given as a string: the extension of the
/// file name, without the `.`, or `None` where there is none.
#[verifier::external_body]
fn extension(path: &str) -> (found: Option<String>)
    ensures
        path_extension(path@) == match found {
            Some(found) => Some(found@),
            None => None,
        },
{
    match Path::new(path).extension() {
        Some(found) => Some(found.to_string_lossy().into_owned()),
        None => None,
    }
}

/// `Path::with_extension`, on a path given as a string: the same path
/// with `extension` as the extension of its file name.  The call panics
/// on an extension that holds a path separator, so none is taken.
#[verifier::external_body]
fn with_extension(path: &str, extension: &str) -> (changed: String)
    requires
        forall|i: int|
            0 <= i < extension@.len() ==> extension@[i] != '/' && extension@[i] != '\\',
    ensures
        changed@ == path_with_extension(path@, extension@),
{
    Path::new(path).with_extension(extension).to_string_lossy().into_owned()
}

/// What is to be done with one entry of the source tree.  Each action
/// carries the place in the target tree that it fills.
#[derive(Debug, PartialEq, Eq)]
pub enum EntryAction {
    /// The entry is a directory: the same directory is wanted in the
    /// target tree.
    Directory(String),
    /// The entry is a Gemtext file: its page is saved at the place given.
    Convert(String),
    /// The entry is any other file: it is copied to the place given.
    Copy(String),
}

impl EntryAction {
    /// The place in the target tree that the action fills.
    pub open spec fn target(self) -> Seq<char> {
        match self {
            EntryAction::Directory(target) => target@,
            EntryAction::Convert(target) => target@,
            EntryAction::Copy(target) => target@,
        }
    }
}

/// Whether an extension is that of a Gemtext file: `gmi`, in lower case.
pub open spec fn is_gemini_extension(extension: Option<Seq<char>>) -> bool {
    extension == Some("gmi"@)
}

/// Whether the entry `entry` is a file to convert.
pub open spec fn is_gemini_file(entry: Seq<char>, is_dir: bool) -> bool {
    !is_dir && is_gemini_extension(path_extension(entry))
}

/// The entry as it is named in the target tree: a Gemtext file takes the
/// extension `html`, every other entry keeps its name.
pub open spec fn routed(entry: Seq<char>, is_dir: bool) -> Seq<char> {
    if is_gemini_file(entry, is_dir) {
        path_with_extension(entry, "html"@)
    } else {
        entry
    }
}

/// Tells whether `extension` is that of a Gemtext file.
pub fn has_gemini_extension(extension: &Option<String>) -> (gemini: bool)
    ensures
        gemini == is_gemini_extension(
            match extension {
                Some(extension) => Some(extension@),
                None => None,
            },
        ),
{
    match extension {
        Some(extension) => {
            let chars = to_chars(extension.as_str());
            is_literal(chars.as_slice(), "gmi")
        },
        None => false,
    }
}

/// Decides what is to be done with one entry of the source tree.
/// `ancestor` is the root of the source tree, `target_root` the root of the
/// target tree, and `is_dir` tells whether the entry is a directory.  A
/// directory is made again, a file with the extension `gmi` is converted
/// and takes the extension `html`, and any other file is copied, each at
/// the place of the entry under the new root.  The error comes back just
/// when the entry does not lie under `ancestor`.
pub fn entry_action(ancestor: &str, target_root: &str, entry: &str, is_dir: bool) -> (action:
    Result<EntryAction, Gemini2HtmlError>)
    ensures
        action is Err <==> path_strip_prefix(routed(entry@, is_dir), ancestor@) is None,
        action matches Ok(action) ==> {
            &&& action is Directory <==> is_dir
            &&& action is Convert <==> is_gemini_file(entry@, is_dir)
            &&& Some(action.target()) == replaced(
                target_root@,
                path_strip_prefix(routed(entry@, is_dir), ancestor@),
            )
        },
{
    if is_dir {
        match replace_ancestor(ancestor, target_root, entry) {
            Ok(target) => Ok(EntryAction::Directory(target)),
            Err(e) => Err(e),
        }
    } else if has_gemini_extension(&extension(entry)) {
        proof {
            reveal_strlit("html");
        }
        let page = with_extension(entry, "html");
        match replace_ancestor(ancestor, target_root, page.as_str()) {
            Ok(target) => Ok(EntryAction::Convert(target)),
            Err(e) => Err(e),
        }
    } else {
        match replace_ancestor(ancestor, target_root, entry) {
            Ok(target) => Ok(EntryAction::Copy(target)),
            Err(e) => Err(e),
        }
    }
}

/// The source and the target directory among the arguments of the command.
pub open spec fn directories(args: Seq<String>) -> Option<(Seq<char>, Seq<char>)> {
    if args.len() < 3 {
        None
    } else {
        Some((args[1]@, args[2]@))
    }
}

/// The characters of two directories that may have failed.
pub open spec fn pair_of(pair: Result<(&str, &str), Gemini2HtmlError>) -> Option<
    (Seq<char>, Seq<char>),
> {
    match pair {
        Ok((source, target)) => Some((source@, target@)),
        Err(_) => None,
    }
}

/// Reads the arguments of the command: the name it was called by, the
/// source directory, the target directory, and whatever follows, which is
/// not looked at.  The error comes back just when fewer than three
/// arguments are given.
pub fn parse_args(args: &[String]) -> (parsed: Result<(&str, &str), Gemini2HtmlError>)
    ensures
        pair_of(parsed) == directories(args@),
{
    if args.len() < 3 {
        return Err(Gemini2HtmlError);
    }
    let source = args[1].as_str();
    let target = args[2].as_str();
    Ok((source, target))
}

} // verus!
