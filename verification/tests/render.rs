//! The HTML of elements, links and whole pages.

use gemini2html::page::{DEFAULT_TITLE, PAGE_INFOS, STYLE_SHEET};
use gemini2html::{
    convert_gemini_file, escaped_preformat_text, format_gemini_to_html, html_footers,
    html_headers, html_link, html_style, parse_gemini, Gemini2HtmlError, ParsedGemini,
};

const IMAGE_OPTIONS: &str = "loading=\"lazy\" height=\"200\" sizes=\"auto, (max-width: 30em) 100vw, (max-width: 50em) 50vw, calc(33vw - 100px)\"";

fn image(url: &str, description: &str) -> String {
    format!(
        "<a href=\"{}\"><img {} src=\"{}\" alt=\"{}\" /></a><br />",
        url, IMAGE_OPTIONS, url, description
    )
}

fn anchor(url: &str, description: &str) -> String {
    format!("<a href=\"{}\">{}</a><br />", url, description)
}

#[test]
fn each_element_has_its_html() {
    let t = |s: &str| s.to_string();
    assert_eq!(ParsedGemini::Heading1(t("a <b>")).to_html(), "<h1>a <b></h1>");
    assert_eq!(ParsedGemini::Heading2(t("b & c")).to_html(), "<h2>b & c</h2>");
    assert_eq!(ParsedGemini::Heading3(t("")).to_html(), "<h3></h3>");
    assert_eq!(ParsedGemini::ListStart.to_html(), "<ul>");
    assert_eq!(ParsedGemini::ListEnd.to_html(), "</ul>");
    assert_eq!(ParsedGemini::ListElement(t("i > j")).to_html(), "<li>i > j</li>");
    assert_eq!(ParsedGemini::Quote(t("said")).to_html(), "TODO QUOTE: said<br />");
    assert_eq!(ParsedGemini::Text(t("1 < 2")).to_html(), "<p>1 < 2</p>");
    assert_eq!(ParsedGemini::PreformattedStart.to_html(), "<pre>");
    assert_eq!(ParsedGemini::PreformattedEnd.to_html(), "</pre>");
    assert_eq!(
        ParsedGemini::PreformattedText(t("if a < b && b > c")).to_html(),
        "if a &lt; b &amp;&amp; b &gt; c"
    );
    assert_eq!(
        ParsedGemini::Link(t("gemini://h/ the host")).to_html(),
        anchor("gemini://h/", "the host")
    );
}

#[test]
fn escaping_rewrites_three_characters() {
    assert_eq!(escaped_preformat_text("&"), "&amp;");
    assert_eq!(escaped_preformat_text("<"), "&lt;");
    assert_eq!(escaped_preformat_text(">"), "&gt;");
    assert_eq!(escaped_preformat_text(""), "");
    assert_eq!(escaped_preformat_text("plain \"text\" 'here' é🌳"), "plain \"text\" 'here' é🌳");
    assert_eq!(escaped_preformat_text("<a href=\"x\">&</a>"), "&lt;a href=\"x\"&gt;&amp;&lt;/a&gt;");
}

#[test]
fn escaping_is_the_three_replacements_in_order() {
    for text in ["", "&", "<>", "&lt;", "a&b<c>d", "&&<<>>", "&amp;amp;", "x > y & y < z", "🌳<🌳"] {
        let staged = text.replace('&', "&amp;").replace('<', "&lt;").replace('>', "&gt;");
        assert_eq!(escaped_preformat_text(text), staged);
    }
}

#[test]
fn escaping_twice_escapes_the_entities() {
    let once = escaped_preformat_text("<&>");
    assert_eq!(once, "&lt;&amp;&gt;");
    let twice = escaped_preformat_text(&once);
    assert_eq!(twice, "&amp;lt;&amp;amp;&amp;gt;");
    assert_ne!(once, twice);
    let plain = escaped_preformat_text("nothing to do");
    assert_eq!(escaped_preformat_text(&plain), plain);
}

#[test]
fn image_extensions_give_an_image() {
    for extension in ["jpg", "jpeg", "png", "gif", "webp", "tiff", "bmp", "svg", "avif"] {
        let url = format!("protocol://fqdn/some.path/picture.{}", extension);
        assert_eq!(html_link(&url), image(&url, &url));
        let link = format!("{} a picture", url);
        assert_eq!(html_link(&link), image(&url, "a picture"));
    }
}

#[test]
fn other_extensions_give_an_anchor() {
    for url in [
        "protocol://fqdn/path",
        "protocol://fqdn/page.html",
        "protocol://fqdn/picture.PNG",
        "protocol://fqdn/picture.Jpg",
        "protocol://fqdn/picture.png/",
        "protocol://fqdn/picture.png.gz",
        "protocol://fqdn/picture.pngx",
        "protocol://fqdn/picture.pn",
        "protocol://fqdn/picture.",
        "png",
        "nodot/jpeg",
        "picture.tif",
        "",
    ] {
        assert_eq!(html_link(url), anchor(url, url));
    }
}

#[test]
fn extension_is_what_follows_the_last_dot() {
    assert_eq!(html_link(".png"), image(".png", ".png"));
    assert_eq!(html_link("a.b.c.svg x"), image("a.b.c.svg", "x"));
    assert_eq!(html_link("a.svg.b x"), anchor("a.svg.b", "x"));
    assert_eq!(html_link("a.png b.txt"), image("a.png", "b.txt"));
    assert_eq!(html_link("a.txt b.png"), anchor("a.txt", "b.png"));
}

#[test]
fn link_description_is_what_follows_the_first_space() {
    assert_eq!(html_link("u  two"), anchor("u", " two"));
    assert_eq!(html_link("u "), anchor("u", ""));
    assert_eq!(html_link("u a b c"), anchor("u", "a b c"));
    assert_eq!(html_link("u\tno space"), anchor("u\tno", "space"));
}

#[test]
fn link_is_not_escaped() {
    assert_eq!(html_link("u?a=1&b=2 <b>bold</b>"), anchor("u?a=1&b=2", "<b>bold</b>"));
}

#[test]
fn link_reads_the_same_after_white_space() {
    for link in ["protocol://fqdn/path", "a.png the image", "u d", ""] {
        let indented = format!("\u{2003}\n \t{}", link);
        assert_eq!(html_link(&indented), html_link(link));
    }
}

#[test]
fn style_is_the_sheet_in_its_tags() {
    assert_eq!(html_style(), format!("<style>\n{}</style>", STYLE_SHEET));
    assert!(STYLE_SHEET.starts_with("html {\n\tfont-family: sans-serif;\n"));
    assert!(STYLE_SHEET.contains("\tcontent: '⇒';\n"));
    assert!(STYLE_SHEET.ends_with("rgba(0,123,255,.25);\n}\n"));
    assert_eq!(STYLE_SHEET.len(), 1393);
    assert_eq!(STYLE_SHEET.chars().count(), 1391);
}

#[test]
fn header_holds_the_title_or_the_default() {
    let start = "<!doctype html>\n<html>\n<meta charset=\"utf-8\">\n<meta name=\"viewport\" content=\"width=device-width, initial-scale=1\" />\n";
    assert_eq!(
        html_headers(Some("t <i>")),
        format!("{}{}\n<title>t <i></title>\n<body>\n", start, html_style())
    );
    assert_eq!(
        html_headers(None),
        format!("{}{}\n<title>some title</title>\n<body>\n", start, html_style())
    );
    assert_eq!(DEFAULT_TITLE, "some title");
    assert_eq!(html_headers(Some("")), format!("{}{}\n<title></title>\n<body>\n", start, html_style()));
}

#[test]
fn footer_holds_the_infos() {
    assert_eq!(html_footers(""), "<p></p></body>\n</html>\n");
    assert_eq!(PAGE_INFOS, "some infos");
}

#[test]
fn page_has_a_line_feed_between_elements() {
    let parsed = vec![
        ParsedGemini::Heading1("t".to_string()),
        ParsedGemini::Text("p".to_string()),
        ParsedGemini::Text("q".to_string()),
    ];
    assert_eq!(
        format_gemini_to_html(parsed, Some("t")),
        format!(
            "{}<h1>t</h1>\n<p>p</p>\n<p>q</p>{}",
            html_headers(Some("t")),
            html_footers("some infos")
        )
    );
    assert_eq!(
        format_gemini_to_html(vec![ParsedGemini::ListStart], None),
        format!("{}<ul>{}", html_headers(None), html_footers("some infos"))
    );
    assert_eq!(
        format_gemini_to_html(vec![], None),
        format!("{}{}", html_headers(None), html_footers("some infos"))
    );
}

#[test]
fn elements_of_the_scenario_are_joined() {
    let t = |s: &str| s.to_string();
    let parsed = vec![
        ParsedGemini::Heading2(t("heading2")),
        ParsedGemini::ListStart,
        ParsedGemini::ListElement(t("tiny list")),
        ParsedGemini::ListEnd,
        ParsedGemini::PreformattedStart,
        ParsedGemini::PreformattedText(t("preformatted &text")),
        ParsedGemini::PreformattedEnd,
    ];
    assert_eq!(
        format_gemini_to_html(parsed, None),
        format!(
            "{}<h2>heading2</h2>\n<ul>\n<li>tiny list</li>\n</ul>\n<pre>\npreformatted &amp;text\n</pre>{}",
            html_headers(None),
            html_footers("some infos")
        )
    );
}

#[test]
fn read_file_becomes_its_page() {
    let gemtext = "# Title\nsome text\n=> a.png an image\n";
    let html = convert_gemini_file(Ok(gemtext.to_string()));
    let (parsed, title) = parse_gemini(gemtext);
    assert_eq!(title, Some("Title"));
    assert_eq!(html, Some(format_gemini_to_html(parsed, title)));
    let html = html.unwrap();
    assert!(html.contains("<title>Title</title>\n<body>\n<h1>Title</h1>\n<p>some text</p>\n<a href=\"a.png\"><img "));
    assert!(html.ends_with(" alt=\"an image\" /></a><br /><p>some infos</p></body>\n</html>\n"));
}

#[test]
fn unread_file_has_no_page() {
    assert_eq!(convert_gemini_file(Err(Gemini2HtmlError)), None);
}

#[test]
fn empty_file_has_an_empty_page() {
    assert_eq!(
        convert_gemini_file(Ok(String::new())),
        Some(format!("{}{}", html_headers(None), html_footers("some infos")))
    );
}
