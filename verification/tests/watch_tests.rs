use makerpnp::watch::WatchSlot;

#[test]
fn slot_starts_empty() {
    let mut slot: WatchSlot<u32> = WatchSlot::new();
    assert!(slot.is_empty());
    assert_eq!(slot.try_recv(), None);
}

#[test]
fn latest_value_wins() {
    let mut slot = WatchSlot::new();
    slot.send(1u32);
    slot.send(2u32);
    assert!(!slot.is_empty());
    assert_eq!(slot.try_recv(), Some(2));
}

#[test]
fn value_is_received_once() {
    let mut slot = WatchSlot::new();
    slot.send(String::from("frame"));
    assert_eq!(slot.try_recv(), Some(String::from("frame")));
    assert!(slot.is_empty());
    assert_eq!(slot.try_recv(), None);
}
