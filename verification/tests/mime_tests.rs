use routerway::mime::{get_mime_type, mime_for_extension};

#[test]
fn known_extensions_have_their_type() {
    assert_eq!(get_mime_type("index.html"), "text/html; charset=utf-8");
    assert_eq!(get_mime_type("old/page.htm"), "text/html; charset=utf-8");
    assert_eq!(get_mime_type("site.css"), "text/css");
    assert_eq!(get_mime_type("app.js"), "application/javascript");
    assert_eq!(get_mime_type("data.json"), "application/json");
    assert_eq!(get_mime_type("logo.png"), "image/png");
    assert_eq!(get_mime_type("photo.jpg"), "image/jpeg");
    assert_eq!(get_mime_type("photo.jpeg"), "image/jpeg");
    assert_eq!(get_mime_type("anim.gif"), "image/gif");
    assert_eq!(get_mime_type("icon.svg"), "image/svg+xml");
    assert_eq!(get_mime_type("favicon.ico"), "image/x-icon");
    assert_eq!(get_mime_type("notes.txt"), "text/plain");
    assert_eq!(get_mime_type("paper.pdf"), "application/pdf");
    assert_eq!(get_mime_type("bundle.zip"), "application/zip");
    assert_eq!(get_mime_type("feed.xml"), "application/xml");
}

#[test]
fn unknown_or_missing_extensions_are_byte_streams() {
    assert_eq!(get_mime_type("archive.tar"), "application/octet-stream");
    assert_eq!(get_mime_type("README"), "application/octet-stream");
    assert_eq!(get_mime_type(""), "application/octet-stream");
    assert_eq!(get_mime_type(".html"), "application/octet-stream");
    assert_eq!(get_mime_type("dir.html/file"), "application/octet-stream");
    assert_eq!(get_mime_type("file."), "application/octet-stream");
}

#[test]
fn the_match_is_case_sensitive() {
    assert_eq!(get_mime_type("INDEX.HTML"), "application/octet-stream");
    assert_eq!(get_mime_type("photo.JPG"), "application/octet-stream");
    assert_eq!(get_mime_type("a.Css"), "application/octet-stream");
}

#[test]
fn only_the_last_extension_counts() {
    assert_eq!(get_mime_type("bundle.min.js"), "application/javascript");
    assert_eq!(get_mime_type("a.html.bak"), "application/octet-stream");
    assert_eq!(get_mime_type("/var/www/site.v2/index.html"), "text/html; charset=utf-8");
    assert_eq!(get_mime_type(".hidden.txt"), "text/plain");
}

#[test]
fn the_table_by_extension() {
    assert_eq!(mime_for_extension(Some("html")), "text/html; charset=utf-8");
    assert_eq!(mime_for_extension(Some("htm")), "text/html; charset=utf-8");
    assert_eq!(mime_for_extension(Some("svg")), "image/svg+xml");
    assert_eq!(mime_for_extension(Some("")), "application/octet-stream");
    assert_eq!(mime_for_extension(Some("htmlx")), "application/octet-stream");
    assert_eq!(mime_for_extension(Some("a.html")), "application/octet-stream");
    assert_eq!(mime_for_extension(None), "application/octet-stream");
}
