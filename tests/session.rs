use mdview::render::ReloadMode;
use mdview::session::Session;

#[test]
fn session_root_is_containing_directory() {
    let s = Session::new("/home/u/docs/a.md".to_string(), None);
    assert_eq!(s.file_path(), "/home/u/docs/a.md");
    assert_eq!(s.root_dir(), "/home/u/docs");
    assert_eq!(s.refresh_interval(), None);
}

#[test]
fn session_edge_directories() {
    assert_eq!(Session::new("/a.md".to_string(), Some(3)).root_dir(), "/");
    assert_eq!(Session::new("a.md".to_string(), Some(3)).root_dir(), "");
    assert_eq!(Session::new("x/a.md".to_string(), Some(3)).refresh_interval(), Some(3));
}

#[test]
fn session_reload_mode_follows_interval() {
    assert_eq!(Session::new("/d/a.md".to_string(), Some(4)).reload_mode(), ReloadMode::Timer(4));
    assert_eq!(Session::new("/d/a.md".to_string(), None).reload_mode(), ReloadMode::Push);
}
