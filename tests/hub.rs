use mdview::connection::{ConnAction, ConnEvent, Connection};
use mdview::hub::Hub;

#[test]
fn late_subscription_misses_earlier_event() {
    let mut hub = Hub::new();
    let early = hub.subscribe().unwrap();
    assert!(hub.publish());
    let late = hub.subscribe().unwrap();
    assert_eq!(hub.take(late), None);
    assert_eq!(hub.take(early), Some(0));
    assert!(hub.publish());
    assert!(hub.publish());
    assert_eq!(hub.take(late), Some(1));
    assert_eq!(hub.take(late), Some(2));
    assert_eq!(hub.take(late), None);
    assert_eq!(hub.take(early), Some(1));
}

#[test]
fn publish_without_subscribers_is_dropped() {
    let mut hub = Hub::new();
    assert!(hub.publish());
    let s = hub.subscribe().unwrap();
    assert_eq!(hub.take(s), None);
}

#[test]
fn unsubscribe_leaves_others() {
    let mut hub = Hub::new();
    let a = hub.subscribe().unwrap();
    let b = hub.subscribe().unwrap();
    assert_ne!(a, b);
    hub.publish();
    hub.unsubscribe(a);
    assert_eq!(hub.take(a), None);
    assert_eq!(hub.take(b), Some(0));
}

#[test]
fn connection_relays_and_probes() {
    let mut hub = Hub::new();
    let mut c = Connection::open(&mut hub).unwrap();
    assert!(c.is_open());
    assert_eq!(c.on_event(&mut hub, ConnEvent::Changed), ConnAction::Discard);
    hub.publish();
    assert_eq!(c.on_event(&mut hub, ConnEvent::Changed), ConnAction::SendReload);
    assert_eq!(c.on_event(&mut hub, ConnEvent::Changed), ConnAction::Discard);
    assert_eq!(c.on_event(&mut hub, ConnEvent::ProbeDue), ConnAction::SendProbe);
    assert_eq!(c.on_event(&mut hub, ConnEvent::ClientMessage), ConnAction::Discard);
}

#[test]
fn disconnect_releases_subscription() {
    let mut hub = Hub::new();
    let mut a = Connection::open(&mut hub).unwrap();
    let mut b = Connection::open(&mut hub).unwrap();
    hub.publish();
    assert_eq!(a.on_event(&mut hub, ConnEvent::ReceiveEnded), ConnAction::Close);
    assert!(!a.is_open());
    assert_eq!(hub.take(a.subscription()), None);
    assert_eq!(a.on_event(&mut hub, ConnEvent::Changed), ConnAction::Close);
    assert_eq!(b.on_event(&mut hub, ConnEvent::Changed), ConnAction::SendReload);
    assert_eq!(b.on_event(&mut hub, ConnEvent::SendFailed), ConnAction::Close);
}
