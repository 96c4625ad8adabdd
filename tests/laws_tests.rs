use open_station::connection::{decimal_digits, service_matches_team};
use open_station::tcp::{encode_tcp_frame, TcpFrameReader};

#[test]
fn team_number_in_service_name() {
    assert!(service_matches_team("roboRIO-1234-FRC._ni._tcp.local.", 1234));
    assert!(!service_matches_team("roboRIO-1235-FRC._ni._tcp.local.", 1234));
    assert!(service_matches_team("x0", 0));
    assert!(!service_matches_team("", 7));
    assert_eq!(decimal_digits(0), b"0".to_vec());
    assert_eq!(decimal_digits(4294967295), b"4294967295".to_vec());
}

#[test]
fn frame_round_trip_largest_payload() {
    let payload = vec![0x5Au8; 65534];
    let frame = encode_tcp_frame(0x0b, &payload);
    assert_eq!(&frame[..3], &[0xFF, 0xFF, 0x0b]);
    let mut reader = TcpFrameReader::new();
    reader.feed(&frame[..40_000]);
    assert!(reader.next_frame().is_none());
    reader.feed(&frame[40_000..]);
    reader.feed(&[0x00]);
    assert_eq!(reader.next_frame(), Some((0x0b, payload)));
    assert!(reader.next_frame().is_none());
}
