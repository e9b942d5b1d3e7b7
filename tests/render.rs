use mdview::render::{
    decimal_text, markdown_to_html, page_from_body, rewrite_targets, ReloadMode, PAGE_TAIL, PUSH_SCRIPT,
};

#[test]
fn links_and_images_are_rewritten() {
    let page = markdown_to_html("[b](b.md)\n\n![x](img/pic.png)\n", ReloadMode::Push);
    assert!(page.contains("<a href=\"/md/b.md\">b</a>"), "{}", page);
    assert!(page.contains("<img src=\"/files/img/pic.png\" alt=\"x\""), "{}", page);
}

#[test]
fn absolute_links_survive_rendering() {
    let page = markdown_to_html("[w](https://example.com/x.md) [r](/top.md)", ReloadMode::Push);
    assert!(page.contains("href=\"https://example.com/x.md\""));
    assert!(page.contains("href=\"/top.md\""));
}

#[test]
fn reference_links_are_rewritten() {
    let page = markdown_to_html("[c][ref]\n\n[ref]: docs/c.markdown\n", ReloadMode::Push);
    assert!(page.contains("href=\"/md/docs/c.markdown\""), "{}", page);
}

#[test]
fn timer_page_has_no_push_script() {
    let page = markdown_to_html("# T", ReloadMode::Timer(5));
    assert!(page.contains("setInterval"));
    assert!(page.contains("}, 5000);"));
    assert!(!page.contains("WebSocket"));
}

#[test]
fn push_page_reconnects_and_reloads() {
    let page = markdown_to_html("# T", ReloadMode::Push);
    assert!(page.contains("new WebSocket"));
    assert!(page.contains("ws.onclose"));
    assert!(page.contains("location.reload()"));
    assert!(!page.contains("setInterval"));
    assert!(page.contains("<h1>T</h1>"));
}

#[test]
fn malformed_markdown_still_renders() {
    let page = markdown_to_html("[unclosed](\n*** ` <div", ReloadMode::Push);
    assert!(page.starts_with("<!DOCTYPE html>"));
    assert!(page.ends_with("</html>"));
}

#[test]
fn page_wraps_body() {
    let page = page_from_body("<p>x</p>", ReloadMode::Push);
    assert!(page.contains("<body>\n<p>x</p>\n"));
    assert!(page.ends_with(&format!("{}\n</body>\n</html>", PUSH_SCRIPT)));
}

#[test]
fn decimal_digits() {
    assert_eq!(decimal_text(0), "0");
    assert_eq!(decimal_text(7), "7");
    assert_eq!(decimal_text(30), "30");
    assert_eq!(decimal_text(u64::MAX), "18446744073709551615");
}

#[test]
fn targets_rewritten_in_order() {
    let ts = vec![
        ("a.md".to_string(), false),
        ("b.png".to_string(), false),
        ("http://c".to_string(), false),
        ("d@e.f".to_string(), true),
    ];
    assert_eq!(rewrite_targets(&ts), vec!["/md/a.md", "/files/b.png", "http://c", "d@e.f"]);
}

#[test]
fn email_autolink_keeps_address() {
    let page = markdown_to_html("<a@b.co> and [m](mailto:c@d.ef)", ReloadMode::Push);
    assert!(page.contains("href=\"mailto:a@b.co\""), "{}", page);
    assert!(page.contains("href=\"mailto:c@d.ef\""), "{}", page);
}

#[test]
fn read_only_page_has_no_reload_script() {
    let page = markdown_to_html("[b](b.md)", ReloadMode::Off);
    assert!(page.contains("href=\"/md/b.md\""));
    assert!(!page.contains("WebSocket"));
    assert!(!page.contains("setInterval"));
    assert!(!page.contains("location.reload"));
    assert!(page.ends_with(&format!("<a href=\"/md/b.md\">b</a></p>\n\n{}", PAGE_TAIL)), "{}", page);
}
