use katwebx::mime::{
    ascii_of, guess_mime, mime_from_content, mime_from_name, needs_sniffing, with_charset,
};

#[test]
fn types_are_guessed_from_the_extension() {
    assert_eq!(guess_mime("html/index.html"), "text/html");
    assert_eq!(guess_mime("html/logo.png"), "image/png");
    assert_eq!(guess_mime("html/data.json"), "application/json");
    assert_eq!(guess_mime("html/unknown.zzzzzz"), "application/octet-stream");
    assert_eq!(guess_mime("html/noextension"), "application/octet-stream");
}

#[test]
fn text_types_get_a_character_set() {
    assert_eq!(with_charset("text/html"), "text/html; charset=utf-8");
    assert_eq!(with_charset("text/plain; charset=latin1"), "text/plain; charset=latin1");
    assert_eq!(with_charset("image/png"), "image/png");
    assert_eq!(with_charset("application/text/x"), "application/text/x");
    assert_eq!(with_charset(""), "");
}

#[test]
fn known_names_need_no_sniffing() {
    assert_eq!(mime_from_name("html/index.html"), Some("text/html; charset=utf-8".to_owned()));
    assert_eq!(mime_from_name("html/logo.png"), Some("image/png".to_owned()));
    assert_eq!(mime_from_name("html/blob"), None);
    assert!(needs_sniffing("application/octet-stream"));
    assert!(!needs_sniffing("application/octet-stream; x"));
    assert!(!needs_sniffing("text/html"));
}

#[test]
fn content_is_sniffed_for_unknown_names() {
    let pdf = b"%PDF-1.5 and so on".to_vec();
    assert_eq!(mime_from_content("/blob", &pdf), "application/pdf");
    let page = b"<!DOCTYPE html><html><body>hello</body></html>".to_vec();
    assert_eq!(mime_from_content("/blob", &page), "text/html; charset=utf-8");
    assert_eq!(mime_from_content("/blob", &Vec::new()), "");
}

#[test]
fn paths_that_are_not_ascii_are_sniffed_too() {
    let pdf = b"%PDF-1.5".to_vec();
    assert_eq!(mime_from_content("/bl\u{f6}b", &pdf), "application/pdf");
    let office = b"\xD0\xCF\x11\xE0\xA1\xB1\x1A\xE1 and so on".to_vec();
    assert_eq!(mime_from_content("/n\u{f6}tes.ppt", &office), "application/vnd.ms-powerpoint");
    assert_eq!(mime_from_content("/notes.\u{f6}pt", &office), "");
}

#[test]
fn urls_are_made_ascii() {
    assert_eq!(ascii_of("/plain/path.doc"), "/plain/path.doc");
    assert_eq!(ascii_of("/bl\u{f6}b/\u{4e2d}\u{6587}.doc"), "/bl_b/__.doc");
    assert_eq!(ascii_of(""), "");
    assert_eq!(ascii_of("\u{7f}\u{80}"), "\u{7f}_");
}
