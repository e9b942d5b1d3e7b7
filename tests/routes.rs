use mdview::routes::{
    check_request_path, get_mime_type, join_root, resolve_file, resolve_linked_markdown,
    RouteError, CACHE_CONTROL_VALUE,
};

#[test]
fn passwd_request_is_bad() {
    assert_eq!(resolve_file("docs", "../../etc/passwd"), Err(RouteError::BadRequest));
    assert_eq!(resolve_linked_markdown("docs", "../../etc/passwd"), Err(RouteError::BadRequest));
}

#[test]
fn traversal_and_doubled_separators_are_bad() {
    for p in ["..", "a/../b.md", "a/..", "a//b.md", "/etc/passwd", "x/../../y.png"] {
        assert_eq!(check_request_path(p), Err(RouteError::BadRequest), "{}", p);
        assert_eq!(resolve_file("root", p), Err(RouteError::BadRequest));
    }
}

#[test]
fn dots_inside_names_are_fine() {
    assert_eq!(check_request_path("a..b.md"), Ok(()));
    assert_eq!(check_request_path("./img/x.png"), Ok(()));
    assert_eq!(check_request_path(""), Ok(()));
}

#[test]
fn linked_markdown_needs_markdown_extension() {
    assert_eq!(resolve_linked_markdown("docs", "pic.png"), Err(RouteError::NotFound));
    assert_eq!(resolve_linked_markdown("docs", "notes/b.md"), Ok("docs/notes/b.md".to_string()));
    assert_eq!(resolve_linked_markdown("", "b.markdown"), Ok("b.markdown".to_string()));
}

#[test]
fn files_resolve_under_root() {
    assert_eq!(resolve_file("/srv/docs/", "img/pic.png"), Ok("/srv/docs/img/pic.png".to_string()));
    assert_eq!(join_root("/srv", "a"), "/srv/a");
}

#[test]
fn mime_table() {
    let cases = [
        ("a.png", "image/png"),
        ("a.jpg", "image/jpeg"),
        ("a.jpeg", "image/jpeg"),
        ("a.gif", "image/gif"),
        ("a.svg", "image/svg+xml"),
        ("a.webp", "image/webp"),
        ("a.ico", "image/x-icon"),
        ("a.pdf", "application/pdf"),
        ("a.txt", "text/plain"),
        ("a.css", "text/css"),
        ("a.js", "application/javascript"),
        ("a.json", "application/json"),
        ("a.xml", "application/xml"),
        ("a.mp4", "video/mp4"),
        ("a.webm", "video/webm"),
        ("a.mp3", "audio/mpeg"),
        ("a.wav", "audio/wav"),
        ("a.bin", "application/octet-stream"),
        ("noext", "application/octet-stream"),
        ("PIC.PNG", "application/octet-stream"),
    ];
    for (p, m) in cases {
        assert_eq!(get_mime_type(p), m, "{}", p);
    }
    assert_eq!(CACHE_CONTROL_VALUE, "public, max-age=3600");
}
