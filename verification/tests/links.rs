use gator::links::detect_url_at;

#[test]
fn detects_plain_https_url() {
    let row = "see https://example.com/docs for details";
    let url = detect_url_at(row, 10).unwrap();
    assert_eq!(url, "https://example.com/docs");
}

#[test]
fn trims_trailing_punctuation() {
    let row = "(see https://example.com.)";
    // Click somewhere inside the URL.
    let url = detect_url_at(row, 8).unwrap();
    assert_eq!(url, "https://example.com");
}

#[test]
fn returns_none_outside_url() {
    let row = "no urls here";
    assert!(detect_url_at(row, 3).is_none());
}

#[test]
fn picks_the_url_under_the_column() {
    let row = "http://a.b, ftp://c.d! <https://e.f>";
    assert_eq!(detect_url_at(row, 0).unwrap(), "http://a.b");
    assert_eq!(detect_url_at(row, 9).unwrap(), "http://a.b");
    // The comma was trimmed off.
    assert!(detect_url_at(row, 10).is_none());
    assert_eq!(detect_url_at(row, 15).unwrap(), "ftp://c.d");
    assert_eq!(detect_url_at(row, 30).unwrap(), "https://e.f");
    assert!(detect_url_at(row, 400).is_none());
}

#[test]
fn columns_are_characters_and_urls_may_hold_any() {
    let row = "\u{e9}\u{e9} https://x.y/\u{e9} z";
    assert!(detect_url_at(row, 1).is_none());
    assert_eq!(detect_url_at(row, 3).unwrap(), "https://x.y/\u{e9}");
    assert_eq!(detect_url_at(row, 15).unwrap(), "https://x.y/\u{e9}");
    assert!(detect_url_at(row, 16).is_none());
}

#[test]
fn a_bare_scheme_is_kept() {
    assert_eq!(detect_url_at("https://", 2).unwrap(), "https://");
    assert_eq!(detect_url_at("https://...", 2).unwrap(), "https://");
}
