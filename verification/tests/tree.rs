//! The places of files in the new tree, the arguments, and the error.

use gemini2html::tree::{has_gemini_extension, place_under};
use gemini2html::{entry_action, parse_args, replace_ancestor, EntryAction, Gemini2HtmlError};
use std::path::Path;

#[test]
fn path_outside_the_source_is_refused() {
    assert_eq!(
        replace_ancestor("./origin", "./target", "./elsewhere/some_entry"),
        Err(Gemini2HtmlError)
    );
    assert_eq!(
        replace_ancestor("./origin", "./target", "./origin_but_longer/some_entry"),
        Err(Gemini2HtmlError)
    );
}

#[test]
fn path_keeps_its_place_under_the_target() {
    assert_eq!(
        replace_ancestor("src", "out", "src/sub/dir/file.html"),
        Ok("out/sub/dir/file.html".to_string())
    );
    let replaced = replace_ancestor("./tests", "./output_tests", "./tests/subdir/subfile.html");
    assert_eq!(
        Path::new(&replaced.unwrap()),
        Path::new("./output_tests/subdir/subfile.html")
    );
}

#[test]
fn source_itself_is_the_target() {
    let replaced = replace_ancestor("src", "out", "src").unwrap();
    assert_eq!(Path::new(&replaced), Path::new("out").join(""));
}

#[test]
fn rest_is_put_under_the_target() {
    assert_eq!(
        place_under("out", Some("a/b".to_string())),
        Ok(Path::new("out").join("a/b").to_string_lossy().into_owned())
    );
    assert_eq!(place_under("out", None), Err(Gemini2HtmlError));
}

#[test]
fn fewer_than_three_arguments_are_refused() {
    assert_eq!(parse_args(&[]), Err(Gemini2HtmlError));
    assert_eq!(parse_args(&["gemini2html".to_string()]), Err(Gemini2HtmlError));
    assert_eq!(
        parse_args(&["gemini2html".to_string(), "source".to_string()]),
        Err(Gemini2HtmlError)
    );
}

#[test]
fn arguments_after_the_third_are_not_read() {
    let args = vec![
        "gemini2html".to_string(),
        "source".to_string(),
        "target".to_string(),
        "more".to_string(),
    ];
    assert_eq!(parse_args(&args), Ok(("source", "target")));
}

#[test]
fn error_has_its_message() {
    assert_eq!(
        Gemini2HtmlError.message(),
        "😢 Sorry, gemini2html encountered an error."
    );
    assert_eq!(Gemini2HtmlError, Gemini2HtmlError.clone());
}

#[test]
fn directory_is_made_again() {
    assert_eq!(
        entry_action("./tests", "./output_tests", "./tests/subdir", true),
        Ok(EntryAction::Directory("./output_tests/subdir".to_string()))
    );
    assert_eq!(
        entry_action("src", "out", "src/named.gmi", true),
        Ok(EntryAction::Directory("out/named.gmi".to_string()))
    );
}

#[test]
fn gemtext_file_becomes_an_html_file() {
    assert_eq!(
        entry_action("./tests", "./output_tests", "./tests/gemini_file.gmi", false),
        Ok(EntryAction::Convert("./output_tests/gemini_file.html".to_string()))
    );
    assert_eq!(
        entry_action("./tests", "./output_tests", "./tests/subdir/subsubdir/sub.file.gmi", false),
        Ok(EntryAction::Convert("./output_tests/subdir/subsubdir/sub.file.html".to_string()))
    );
}

#[test]
fn other_file_is_copied_under_its_name() {
    for name in ["non_gemini_file.txt", "picture.GMI", "page.gmi.bak", "gmi", ".gmi", "noextension", "a.gmix"] {
        assert_eq!(
            entry_action("./tests", "./output_tests", &format!("./tests/{}", name), false),
            Ok(EntryAction::Copy(format!("./output_tests/{}", name)))
        );
    }
}

#[test]
fn entry_outside_the_source_has_no_action() {
    for is_dir in [true, false] {
        assert_eq!(
            entry_action("./tests", "./output_tests", "./elsewhere/file.gmi", is_dir),
            Err(Gemini2HtmlError)
        );
    }
    assert_eq!(
        entry_action("./tests", "./output_tests", "./elsewhere/file.txt", false),
        Err(Gemini2HtmlError)
    );
}

#[test]
fn only_gmi_is_the_extension_of_gemtext() {
    assert!(has_gemini_extension(&Some("gmi".to_string())));
    assert!(!has_gemini_extension(&Some("GMI".to_string())));
    assert!(!has_gemini_extension(&Some("gm".to_string())));
    assert!(!has_gemini_extension(&Some("gmix".to_string())));
    assert!(!has_gemini_extension(&Some("".to_string())));
    assert!(!has_gemini_extension(&Some("html".to_string())));
    assert!(!has_gemini_extension(&None));
}
