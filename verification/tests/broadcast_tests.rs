use room_relay::broadcast::{broadcast_to_room, prepare, Delivery};
use room_relay::envelope::Envelope;
use room_relay::registry::RoomRegistry;
use tokio::sync::mpsc::{unbounded_channel, UnboundedReceiver};

fn drain(rx: &mut UnboundedReceiver<String>) -> Vec<String> {
    let mut frames = Vec::new();
    while let Ok(frame) = rx.try_recv() {
        frames.push(frame);
    }
    frames
}

const HELLO: &str = "{\"message\":\"hello\",\"type\":\"presenceUpdate\"}";

fn hello() -> Envelope {
    Envelope::PresenceUpdate { text: "hello".to_string() }
}

#[test]
fn broadcast_reaches_every_member_once() {
    let mut registry = RoomRegistry::new();
    let (tx_a, mut rx_a) = unbounded_channel::<String>();
    let (tx_b, mut rx_b) = unbounded_channel::<String>();
    let a = registry.join("lobby", tx_a);
    let b = registry.join("lobby", tx_b);
    let report = broadcast_to_room(&registry, "lobby", &hello());
    assert_eq!(report.frame, HELLO);
    assert_eq!(
        report.deliveries,
        vec![Delivery { recipient: a, accepted: true }, Delivery { recipient: b, accepted: true }]
    );
    assert_eq!(drain(&mut rx_a), vec![HELLO.to_string()]);
    assert_eq!(drain(&mut rx_b), vec![HELLO.to_string()]);
}

#[test]
fn broadcast_reaches_nobody_outside_the_room() {
    let mut registry = RoomRegistry::new();
    let (tx_a, mut rx_a) = unbounded_channel::<String>();
    let (tx_c, mut rx_c) = unbounded_channel::<String>();
    registry.join("lobby", tx_a);
    registry.join("other", tx_c);
    let report = broadcast_to_room(&registry, "lobby", &hello());
    assert_eq!(report.deliveries.len(), 1);
    assert_eq!(drain(&mut rx_a).len(), 1);
    assert!(drain(&mut rx_c).is_empty());
}

#[test]
fn broadcast_to_an_unknown_room_reaches_nobody() {
    let mut registry = RoomRegistry::new();
    let (tx_a, mut rx_a) = unbounded_channel::<String>();
    registry.join("lobby", tx_a);
    let report = broadcast_to_room(&registry, "nowhere", &hello());
    assert!(report.deliveries.is_empty());
    assert_eq!(report.frame, HELLO);
    assert!(drain(&mut rx_a).is_empty());
    assert!(!registry.contains_room("nowhere"));
}

#[test]
fn a_failed_delivery_does_not_stop_the_others() {
    let mut registry = RoomRegistry::new();
    let (tx_a, mut rx_a) = unbounded_channel::<String>();
    let (tx_b, rx_b) = unbounded_channel::<String>();
    let (tx_c, mut rx_c) = unbounded_channel::<String>();
    let a = registry.join("lobby", tx_a);
    let b = registry.join("lobby", tx_b);
    let c = registry.join("lobby", tx_c);
    drop(rx_b);
    let report = broadcast_to_room(&registry, "lobby", &hello());
    assert_eq!(
        report.deliveries,
        vec![
            Delivery { recipient: a, accepted: true },
            Delivery { recipient: b, accepted: false },
            Delivery { recipient: c, accepted: true },
        ]
    );
    assert_eq!(drain(&mut rx_a), vec![HELLO.to_string()]);
    assert_eq!(drain(&mut rx_c), vec![HELLO.to_string()]);
}

#[test]
fn a_prepared_broadcast_goes_to_the_members_of_its_moment() {
    let mut registry = RoomRegistry::new();
    let (tx_a, mut rx_a) = unbounded_channel::<String>();
    let (tx_b, mut rx_b) = unbounded_channel::<String>();
    let (tx_c, mut rx_c) = unbounded_channel::<String>();
    let a = registry.join("lobby", tx_a);
    let b = registry.join("lobby", tx_b);
    let outbound = prepare(&registry, "lobby", &hello());
    // Changes made after the snapshot do not reach into it.
    registry.join("lobby", tx_c);
    registry.leave("lobby", a);
    let report = outbound.deliver();
    let recipients: Vec<u64> = report.deliveries.iter().map(|d| d.recipient).collect();
    assert_eq!(recipients, vec![a, b]);
    assert_eq!(drain(&mut rx_a), vec![HELLO.to_string()]);
    assert_eq!(drain(&mut rx_b), vec![HELLO.to_string()]);
    assert!(drain(&mut rx_c).is_empty());
}

#[test]
fn a_member_that_left_receives_nothing_more() {
    let mut registry = RoomRegistry::new();
    let (tx_a, mut rx_a) = unbounded_channel::<String>();
    let (tx_b, mut rx_b) = unbounded_channel::<String>();
    let a = registry.join("lobby", tx_a);
    registry.join("lobby", tx_b);
    registry.leave("lobby", a);
    broadcast_to_room(&registry, "lobby", &hello());
    assert!(drain(&mut rx_a).is_empty());
    assert_eq!(drain(&mut rx_b), vec![HELLO.to_string()]);
}

#[test]
fn successive_broadcasts_arrive_in_order() {
    let mut registry = RoomRegistry::new();
    let (tx_a, mut rx_a) = unbounded_channel::<String>();
    registry.join("lobby", tx_a);
    broadcast_to_room(&registry, "lobby", &Envelope::PresenceUpdate { text: "1".to_string() });
    broadcast_to_room(&registry, "lobby", &Envelope::PresenceUpdate { text: "2".to_string() });
    assert_eq!(
        drain(&mut rx_a),
        vec![
            "{\"message\":\"1\",\"type\":\"presenceUpdate\"}".to_string(),
            "{\"message\":\"2\",\"type\":\"presenceUpdate\"}".to_string(),
        ]
    );
}
