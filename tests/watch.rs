use mdview::hub::Hub;
use mdview::watch::{should_reload, Coalescer, COALESCE_WINDOW_MS};

#[test]
fn root_file_change_reaches_every_subscriber_once() {
    let mut hub = Hub::new();
    let a = hub.subscribe().unwrap();
    let b = hub.subscribe().unwrap();
    let paths = vec!["/w/notes.txt".to_string()];
    if should_reload(&paths, "/w/notes.txt") {
        hub.publish();
    }
    assert_eq!(hub.take(a), Some(0));
    assert_eq!(hub.take(a), None);
    assert_eq!(hub.take(b), Some(0));
    assert_eq!(hub.take(b), None);
}

#[test]
fn unrelated_change_is_ignored() {
    let paths = vec!["/w/data.bin".to_string(), "/w/pic.png".to_string()];
    assert!(!should_reload(&paths, "/w/a.md"));
    assert!(!should_reload(&Vec::new(), "/w/a.md"));
}

#[test]
fn any_markdown_change_reloads() {
    let paths = vec!["/w/data.bin".to_string(), "/w/other.markdown".to_string()];
    assert!(should_reload(&paths, "/w/a.md"));
}

#[test]
fn burst_coalesces_into_one_publish() {
    let mut c = Coalescer::new();
    assert_eq!(c.deadline(), None);
    c.on_change(1000);
    c.on_change(1100);
    c.on_change(1200);
    assert_eq!(c.deadline(), Some(1000 + COALESCE_WINDOW_MS));
    assert!(!c.on_tick(1100));
    assert!(c.on_tick(1000 + COALESCE_WINDOW_MS));
    assert!(!c.on_tick(5000));
    c.on_change(u64::MAX - 1);
    assert_eq!(c.deadline(), Some(u64::MAX));
}
