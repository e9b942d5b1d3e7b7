use mdview::links::{extension_of, has_prefix, is_markdown_file, starts_with_scheme, transform_relative_path};

#[test]
fn markdown_target_goes_to_md_route() {
    assert_eq!(transform_relative_path("b.md"), "/md/b.md");
    assert_eq!(transform_relative_path("notes/c.markdown"), "/md/notes/c.markdown");
}

#[test]
fn other_target_goes_to_files_route() {
    assert_eq!(transform_relative_path("img/pic.png"), "/files/img/pic.png");
    assert_eq!(transform_relative_path("README"), "/files/README");
    assert_eq!(transform_relative_path(".md"), "/files/.md");
    assert_eq!(transform_relative_path("b.md#part"), "/files/b.md#part");
}

#[test]
fn absolute_targets_are_kept() {
    for t in ["http://example.com/x.md", "https://example.com/", "//cdn.example.com/a.png", "/already/rooted.md"] {
        assert_eq!(transform_relative_path(t), t);
    }
}

#[test]
fn scheme_qualified_targets_are_kept() {
    for t in ["mailto:a@b.co", "ftp://h/f.md", "tel:123", "svn+ssh://h/r.md", "x-y.z:1"] {
        assert_eq!(transform_relative_path(t), t);
    }
    assert!(starts_with_scheme("Data:text"));
    assert!(!starts_with_scheme("1ab:c"));
    assert!(!starts_with_scheme(":x"));
    assert!(!starts_with_scheme("a b:c.md"));
    assert!(!starts_with_scheme("notes.md"));
    assert_eq!(transform_relative_path("a b:c.md"), "/md/a b:c.md");
}

#[test]
fn rewriting_twice_changes_nothing_more() {
    for t in ["b.md", "img/pic.png", "https://x.org/y", "/files/z", "mailto:q@r.s"] {
        let once = transform_relative_path(t);
        assert_eq!(transform_relative_path(&once), once);
    }
}

#[test]
fn extensions_follow_the_last_segment() {
    assert_eq!(extension_of("dir.v2/file"), None);
    assert_eq!(extension_of("dir/file.tar.gz"), Some("gz"));
    assert_eq!(extension_of(".profile"), None);
    assert_eq!(extension_of("a."), Some(""));
    assert!(is_markdown_file("x/y/readme.md"));
    assert!(!is_markdown_file("x/y/readme.mdx"));
    assert!(has_prefix("https://a", "https://"));
    assert!(!has_prefix("http", "https://"));
}
