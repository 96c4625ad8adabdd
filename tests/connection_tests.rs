use open_station::connection::{backoff_delay_ms, ConnectionManager, ConnectionState};

fn dotted(ip: [u8; 4]) -> String {
    format!("{}.{}.{}.{}", ip[0], ip[1], ip[2], ip[3])
}

fn packet(seq: u16, status: u8) -> Vec<u8> {
    vec![(seq >> 8) as u8, seq as u8, 0x01, status, 0x00, 0x0C, 0x80, 0x00]
}

#[test]
fn test_team_to_ip() {
    assert_eq!(dotted(ConnectionManager::team_to_ip(1234)), "10.12.34.2");
    assert_eq!(dotted(ConnectionManager::team_to_ip(254)), "10.2.54.2");
    assert_eq!(dotted(ConnectionManager::team_to_ip(1)), "10.0.1.2");
    assert_eq!(dotted(ConnectionManager::team_to_ip(9999)), "10.99.99.2");
}

#[test]
fn team_ip_keeps_low_byte() {
    assert_eq!(dotted(ConnectionManager::team_to_ip(25_612)), "10.0.12.2");
}

#[test]
fn dropped_tags_are_counted() {
    let mut cm = ConnectionManager::new(1);
    cm.begin_session(0);
    let mut data = packet(1, 0);
    data.extend_from_slice(&[0x00, 0x00, 0x00]);
    assert_eq!(cm.on_datagram(&data, 5).unwrap().dropped_tags, 2);
    assert!(cm.on_datagram(&data, 6).is_ok());
    assert_eq!(cm.dropped_tags(), 4);
    assert_eq!(cm.decode_errors(), 0);
}

#[test]
fn connection_test_initial_state() {
    let cm = ConnectionManager::new(1234);
    assert_eq!(cm.state(), ConnectionState::Disconnected);
    assert_eq!(cm.trip_time_ms(), 0);
    assert_eq!(cm.lost_packets(), 0);
}

#[test]
fn connection_test_set_team() {
    let mut cm = ConnectionManager::new(1234);
    cm.set_team(5678);
    assert_eq!(cm.state(), ConnectionState::Disconnected);
}

#[test]
fn test_backoff_capping() {
    let backoff = backoff_delay_ms;
    assert_eq!(backoff(0), 100);
    assert_eq!(backoff(1), 200);
    assert_eq!(backoff(2), 400);
    assert_eq!(backoff(3), 800);
    assert_eq!(backoff(4), 1600);
    assert_eq!(backoff(5), 2000); // capped
    assert_eq!(backoff(10), 2000); // still capped
}

#[test]
fn backoff_for_all_early_attempts() {
    for k in 0u32..=12 {
        let expected = std::cmp::min(100 * 2u64.pow(k), 2000);
        assert_eq!(backoff_delay_ms(k), expected);
    }
    assert_eq!(backoff_delay_ms(u32::MAX), 2000);
}

#[test]
fn resolution_usb_mdns_and_static() {
    let mut cm = ConnectionManager::new(1234);
    assert_eq!(cm.begin_resolve(), None);
    assert_eq!(cm.state(), ConnectionState::Resolving);
    let addr = cm.finish_resolve(None);
    assert_eq!(dotted(addr.ip), "10.12.34.2");
    assert_eq!(addr.port, 1110);
    let addr = cm.finish_resolve(Some([192, 168, 1, 20]));
    assert_eq!(addr.ip, [192, 168, 1, 20]);
    assert_eq!(cm.target(), Some(addr));

    cm.set_usb_mode(true);
    let usb = cm.begin_resolve().unwrap();
    assert_eq!(dotted(usb.ip), "172.22.11.2");
    assert_eq!(usb.port, 1110);

    cm.set_team(99);
    assert_eq!(cm.target(), None);
    assert_eq!(dotted(ConnectionManager::team_to_ip(99)), "10.0.99.2");
}

#[test]
fn sequence_wraps() {
    let mut cm = ConnectionManager::new(1);
    cm.begin_session(0);
    for expected in 0u32..70_000 {
        assert_eq!(cm.take_sequence(0), (expected % 65536) as u16);
    }
}

#[test]
fn silent_link_disconnects_within_timeout() {
    let mut cm = ConnectionManager::new(1234);
    cm.begin_session(0);
    assert!(cm.on_datagram(&packet(1, 0x00), 100).is_ok());
    assert_eq!(cm.state(), ConnectionState::CodeRunning);
    let mut now = 100;
    let mut lost_at = None;
    while now <= 1_300 {
        now += 20;
        if let Some(delay) = cm.poll_liveness(now) {
            lost_at = Some(now);
            assert_eq!(delay, 100);
            break;
        }
    }
    let lost_at = lost_at.expect("link should be lost");
    assert!(lost_at - 100 >= 1_000 && lost_at - 100 <= 1_200);
    assert_eq!(cm.state(), ConnectionState::Disconnected);
    assert_eq!(cm.reconnect_attempts(), 1);
    assert_eq!(cm.connection_lost(), 200);
}

#[test]
fn received_packet_resets_attempts_and_counts_gaps() {
    let mut cm = ConnectionManager::new(1234);
    cm.connection_lost();
    cm.connection_lost();
    assert_eq!(cm.reconnect_attempts(), 2);
    cm.begin_session(0);
    let sent = cm.take_sequence(10);
    assert!(cm.on_datagram(&packet(sent, 0x10), 25).is_ok());
    assert_eq!(cm.state(), ConnectionState::Connected);
    assert_eq!(cm.reconnect_attempts(), 0);
    assert_eq!(cm.trip_time_ms(), 15);
    assert!(cm.on_datagram(&packet(4, 0x00), 30).is_ok());
    assert_eq!(cm.lost_packets(), 3);
    assert!(cm.on_datagram(&[1, 2, 3], 40).is_err());
    assert_eq!(cm.decode_errors(), 1);
    assert_eq!(cm.lost_packets(), 3);
    assert_eq!(cm.poll_liveness(1_029), None);
}
