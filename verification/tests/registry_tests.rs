use room_relay::handle::ConnectionHandle;
use room_relay::registry::RoomRegistry;
use std::collections::BTreeSet;
use tokio::sync::mpsc::{unbounded_channel, UnboundedReceiver, UnboundedSender};

fn channel() -> (UnboundedSender<String>, UnboundedReceiver<String>) {
    unbounded_channel::<String>()
}

fn ids(handles: &[ConnectionHandle]) -> Vec<u64> {
    handles.iter().map(|h| h.id()).collect()
}

#[test]
fn new_registry_knows_no_room() {
    let registry = RoomRegistry::new();
    assert!(!registry.contains_room("lobby"));
    assert!(registry.members("lobby").is_empty());
    assert!(registry.has_capacity());
}

#[test]
fn join_hands_out_successive_identities() {
    let mut registry = RoomRegistry::new();
    let (tx_a, _rx_a) = channel();
    let (tx_b, _rx_b) = channel();
    let (tx_c, _rx_c) = channel();
    assert_eq!(registry.join("lobby", tx_a), 0);
    assert_eq!(registry.join("other", tx_b), 1);
    assert_eq!(registry.join("lobby", tx_c), 2);
    assert_eq!(ids(&registry.members("lobby")), vec![0, 2]);
    assert_eq!(ids(&registry.members("other")), vec![1]);
}

#[test]
fn join_creates_a_new_room() {
    let mut registry = RoomRegistry::new();
    let (tx, _rx) = channel();
    assert!(!registry.contains_room("lobby"));
    registry.join("lobby", tx);
    assert!(registry.contains_room("lobby"));
    assert!(!registry.contains_room("Lobby"));
}

#[test]
fn joining_the_same_channel_twice_adds_two_entries() {
    let mut registry = RoomRegistry::new();
    let (tx, _rx) = channel();
    let first = registry.join("lobby", tx.clone());
    let second = registry.join("lobby", tx);
    assert_ne!(first, second);
    assert_eq!(ids(&registry.members("lobby")), vec![first, second]);
}

#[test]
fn leave_removes_exactly_that_member() {
    let mut registry = RoomRegistry::new();
    let (tx_a, _rx_a) = channel();
    let (tx_b, _rx_b) = channel();
    let (tx_c, _rx_c) = channel();
    let a = registry.join("lobby", tx_a);
    let b = registry.join("lobby", tx_b);
    let c = registry.join("lobby", tx_c);
    registry.leave("lobby", b);
    assert_eq!(ids(&registry.members("lobby")), vec![a, c]);
}

#[test]
fn leave_from_an_unknown_room_does_nothing() {
    let mut registry = RoomRegistry::new();
    let (tx, _rx) = channel();
    let a = registry.join("lobby", tx);
    registry.leave("nowhere", a);
    assert!(!registry.contains_room("nowhere"));
    assert_eq!(ids(&registry.members("lobby")), vec![a]);
}

#[test]
fn leave_of_an_absent_member_does_nothing() {
    let mut registry = RoomRegistry::new();
    let (tx, _rx) = channel();
    let a = registry.join("lobby", tx);
    registry.leave("lobby", a + 17);
    assert_eq!(ids(&registry.members("lobby")), vec![a]);
}

#[test]
fn leave_from_another_room_does_not_remove() {
    let mut registry = RoomRegistry::new();
    let (tx_a, _rx_a) = channel();
    let (tx_b, _rx_b) = channel();
    let a = registry.join("lobby", tx_a);
    let b = registry.join("other", tx_b);
    registry.leave("other", a);
    assert_eq!(ids(&registry.members("lobby")), vec![a]);
    assert_eq!(ids(&registry.members("other")), vec![b]);
}

#[test]
fn leaving_twice_is_harmless() {
    let mut registry = RoomRegistry::new();
    let (tx_a, _rx_a) = channel();
    let (tx_b, _rx_b) = channel();
    let a = registry.join("lobby", tx_a);
    let b = registry.join("lobby", tx_b);
    registry.leave("lobby", a);
    registry.leave("lobby", a);
    assert_eq!(ids(&registry.members("lobby")), vec![b]);
}

#[test]
fn an_emptied_room_stays_known() {
    let mut registry = RoomRegistry::new();
    let (tx, _rx) = channel();
    let a = registry.join("lobby", tx);
    registry.leave("lobby", a);
    assert!(registry.contains_room("lobby"));
    assert!(registry.members("lobby").is_empty());
}

#[test]
fn identities_are_not_reused_after_a_leave() {
    let mut registry = RoomRegistry::new();
    let (tx_a, _rx_a) = channel();
    let (tx_b, _rx_b) = channel();
    let a = registry.join("lobby", tx_a);
    registry.leave("lobby", a);
    let b = registry.join("lobby", tx_b);
    assert_ne!(a, b);
    assert_eq!(ids(&registry.members("lobby")), vec![b]);
}

#[test]
fn room_names_are_taken_as_they_are() {
    let mut registry = RoomRegistry::new();
    let (tx_a, _rx_a) = channel();
    let (tx_b, _rx_b) = channel();
    let (tx_c, _rx_c) = channel();
    let a = registry.join("", tx_a);
    let b = registry.join(" lobby ", tx_b);
    let c = registry.join("l\u{f6}bby/\u{1f600}", tx_c);
    assert_eq!(ids(&registry.members("")), vec![a]);
    assert_eq!(ids(&registry.members(" lobby ")), vec![b]);
    assert_eq!(ids(&registry.members("l\u{f6}bby/\u{1f600}")), vec![c]);
    assert!(registry.members("lobby").is_empty());
}

#[test]
fn members_are_the_joined_minus_the_left() {
    // Five callers, their joins and leaves interleaved in two different ways.
    let mut one = RoomRegistry::new();
    let mut joined_one: Vec<u64> = Vec::new();
    for _ in 0..5 {
        let (tx, _rx) = channel();
        joined_one.push(one.join("lobby", tx));
    }
    one.leave("lobby", joined_one[3]);
    one.leave("lobby", joined_one[0]);

    let mut two = RoomRegistry::new();
    let mut joined_two: Vec<u64> = Vec::new();
    let (tx, _rx) = channel();
    joined_two.push(two.join("lobby", tx));
    two.leave("lobby", joined_two[0]);
    for _ in 0..3 {
        let (tx, _rx) = channel();
        joined_two.push(two.join("lobby", tx));
    }
    two.leave("lobby", joined_two[3]);
    let (tx, _rx) = channel();
    joined_two.push(two.join("lobby", tx));

    let expected: BTreeSet<u64> = [1u64, 2, 4].into_iter().collect();
    let members_one: BTreeSet<u64> = ids(&one.members("lobby")).into_iter().collect();
    let members_two: BTreeSet<u64> = ids(&two.members("lobby")).into_iter().collect();
    assert_eq!(joined_one, vec![0, 1, 2, 3, 4]);
    assert_eq!(joined_two, vec![0, 1, 2, 3, 4]);
    assert_eq!(members_one, expected);
    assert_eq!(members_two, expected);
}

#[test]
fn a_snapshot_does_not_follow_later_changes() {
    let mut registry = RoomRegistry::new();
    let (tx_a, _rx_a) = channel();
    let (tx_b, _rx_b) = channel();
    let a = registry.join("lobby", tx_a);
    let snapshot = registry.members("lobby");
    let b = registry.join("lobby", tx_b);
    registry.leave("lobby", a);
    assert_eq!(ids(&snapshot), vec![a]);
    assert_eq!(ids(&registry.members("lobby")), vec![b]);
}

#[test]
fn a_duplicate_handle_keeps_the_identity() {
    let mut registry = RoomRegistry::new();
    let (tx_a, _rx_a) = channel();
    let (tx_b, _rx_b) = channel();
    registry.join("lobby", tx_a);
    registry.join("lobby", tx_b);
    let members = registry.members("lobby");
    assert_eq!(members[0].duplicate().id(), 0);
    assert_eq!(members[1].duplicate().id(), 1);
}
