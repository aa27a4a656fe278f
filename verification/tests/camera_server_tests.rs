use makerpnp::camera_server::{ClientRegistry, StreamAddress};

fn address(node_id: u8) -> StreamAddress {
    StreamAddress { network_id: 1, node_id, port_id: 3 }
}

#[test]
fn start_and_stop_clients() {
    let mut registry: ClientRegistry<&str> = ClientRegistry::new();
    assert_eq!(registry.len(), 0);
    assert_eq!(registry.start(address(1), "first"), None);
    assert_eq!(registry.start(address(2), "second"), None);
    assert_eq!(registry.len(), 2);
    assert_eq!(registry.stop(address(1)), Some("first"));
    assert_eq!(registry.stop(address(1)), None);
    assert_eq!(registry.len(), 1);
}

#[test]
fn restarting_an_address_replaces_its_client() {
    let mut registry = ClientRegistry::new();
    registry.start(address(4), 10u32);
    assert_eq!(registry.start(address(4), 11u32), Some(10));
    assert_eq!(registry.len(), 1);
    assert_eq!(registry.stop(address(4)), Some(11));
}

#[test]
fn stopping_an_unknown_address_changes_nothing() {
    let mut registry = ClientRegistry::new();
    registry.start(address(5), 'a');
    assert_eq!(registry.stop(address(6)), None);
    assert_eq!(registry.len(), 1);
}

#[test]
fn drain_hands_out_every_client() {
    let mut registry = ClientRegistry::new();
    registry.start(address(1), 1u8);
    registry.start(address(2), 2u8);
    registry.start(address(3), 3u8);
    registry.stop(address(2));
    let mut all = registry.drain();
    all.sort_by_key(|(a, _)| a.node_id);
    assert_eq!(all, vec![(address(1), 1u8), (address(3), 3u8)]);
    assert_eq!(registry.len(), 0);
}
