use aerolink_simple::clients::{ClientAddr, ClientInfo, UdpClientManager, CLIENT_TIMEOUT_MS};

fn a(port: u16) -> ClientAddr {
    ClientAddr::V4 { ip4: 0x7F00_0001, port }
}

#[test]
fn sending_clients_are_counted() {
    let mut m = UdpClientManager::new();
    m.update_tx_client(a(1), 100);
    m.update_tx_client(a(1), 250);
    m.update_tx_client(a(2), 300);
    assert_eq!(m.get_stats(), (2, 0));
    assert_eq!(
        m.tx_client_info(a(1)),
        Some(ClientInfo { last_seen_ms: 250, packet_count: 2, byte_count: 0 })
    );
    assert_eq!(m.tx_client_info(a(3)), None);
}

#[test]
fn registration_is_reported_once() {
    let mut m = UdpClientManager::new();
    assert!(m.register_rx_client(a(7), 10));
    assert!(!m.register_rx_client(a(7), 20));
    assert!(m.register_rx_client(a(8), 30));
    assert_eq!(m.get_rx_clients(), vec![a(7), a(8)]);
    assert_eq!(
        m.rx_client_info(a(7)),
        Some(ClientInfo { last_seen_ms: 20, packet_count: 0, byte_count: 0 })
    );
}

#[test]
fn rx_stats_only_for_registered_clients() {
    let mut m = UdpClientManager::new();
    m.register_rx_client(a(7), 0);
    m.update_rx_stats(a(7), 40);
    m.update_rx_stats(a(7), 2);
    m.update_rx_stats(a(9), 5);
    assert_eq!(
        m.rx_client_info(a(7)),
        Some(ClientInfo { last_seen_ms: 0, packet_count: 2, byte_count: 42 })
    );
    assert_eq!(m.rx_client_info(a(9)), None);
}

#[test]
fn silent_clients_are_dropped() {
    let mut m = UdpClientManager::new();
    m.update_tx_client(a(1), 0);
    m.register_rx_client(a(2), 5_000);
    m.register_rx_client(a(3), 40_000);
    let (tx_removed, rx_removed) = m.cleanup_inactive_clients(CLIENT_TIMEOUT_MS + 4_999);
    assert_eq!(tx_removed.len(), 1);
    assert_eq!(tx_removed[0].addr, a(1));
    assert!(rx_removed.is_empty());
    assert_eq!(m.get_stats(), (0, 2));
    let (_, rx_removed) = m.cleanup_inactive_clients(CLIENT_TIMEOUT_MS + 5_000);
    assert_eq!(rx_removed.len(), 1);
    assert_eq!(rx_removed[0].addr, a(2));
    assert_eq!(m.get_rx_clients(), vec![a(3)]);
}

#[test]
fn v6_addresses_are_distinct_from_v4() {
    let mut m = UdpClientManager::new();
    m.register_rx_client(ClientAddr::V6 { ip6: 1, port: 1, flowinfo: 0, scope_id: 0 }, 0);
    m.register_rx_client(ClientAddr::V4 { ip4: 1, port: 1 }, 0);
    assert_eq!(m.get_stats(), (0, 2));
}
