use open_station::tcp::{
    build_game_data_frame, build_joystick_descriptor_frame, build_match_info_frame,
    encode_tcp_frame, parse_tcp_message, TcpAttach, TcpConnectOutcome, TcpFrameReader,
};
use open_station::types::TcpMessage;

#[test]
fn test_encode_decode_frame() {
    let frame = encode_tcp_frame(0x0c, b"Hello Robot");
    // size = 1 (tag) + 11 (payload) = 12 = 0x000C
    assert_eq!(frame[0], 0x00);
    assert_eq!(frame[1], 0x0C);
    assert_eq!(frame[2], 0x0c); // tag
    assert_eq!(&frame[3..], b"Hello Robot");
}

#[test]
fn test_frame_reader_complete() {
    let mut reader = TcpFrameReader::new();
    let frame = encode_tcp_frame(0x0c, b"test");
    reader.feed(&frame);
    let (tag, payload) = reader.next_frame().unwrap();
    assert_eq!(tag, 0x0c);
    assert_eq!(payload, b"test");
    assert!(reader.next_frame().is_none());
}

#[test]
fn test_frame_reader_partial() {
    let mut reader = TcpFrameReader::new();
    let frame = encode_tcp_frame(0x0c, b"test");
    for &byte in &frame {
        reader.feed(&[byte]);
    }
    let (tag, payload) = reader.next_frame().unwrap();
    assert_eq!(tag, 0x0c);
    assert_eq!(payload, b"test");
}

#[test]
fn test_frame_reader_multiple() {
    let mut reader = TcpFrameReader::new();
    let frame1 = encode_tcp_frame(0x0c, b"first");
    let frame2 = encode_tcp_frame(0x00, b"second");
    let mut combined = frame1;
    combined.extend_from_slice(&frame2);
    reader.feed(&combined);

    let (tag1, p1) = reader.next_frame().unwrap();
    assert_eq!(tag1, 0x0c);
    assert_eq!(p1, b"first");

    let (tag2, p2) = reader.next_frame().unwrap();
    assert_eq!(tag2, 0x00);
    assert_eq!(p2, b"second");
}

#[test]
fn test_parse_stdout() {
    let msg = parse_tcp_message(0x0c, b"Robot output").unwrap();
    match msg {
        TcpMessage::Stdout(s) => assert_eq!(s, "Robot output"),
        _ => panic!("expected Stdout"),
    }
}

#[test]
fn test_parse_message() {
    let msg = parse_tcp_message(0x00, b"DS message").unwrap();
    match msg {
        TcpMessage::Message(s) => assert_eq!(s, "DS message"),
        _ => panic!("expected Message"),
    }
}

#[test]
fn test_game_data_frame() {
    let frame = build_game_data_frame("LRL");
    assert_eq!(frame[2], 0x0e); // tag
    assert_eq!(&frame[3..], b"LRL");
}

#[test]
fn test_joystick_descriptor_frame() {
    let frame = build_joystick_descriptor_frame(0, "Gamepad", 6, 12, 1);
    assert_eq!(frame[2], 0x02); // tag
    assert_eq!(frame[3], 0); // slot
}

#[test]
fn partial_framing_yields_only_at_last_byte() {
    let mut reader = TcpFrameReader::new();
    let frame = encode_tcp_frame(0x0c, b"test");
    for (i, &byte) in frame.iter().enumerate() {
        reader.feed(&[byte]);
        let got = reader.next_frame();
        if i + 1 < frame.len() {
            assert!(got.is_none());
        } else {
            assert_eq!(got, Some((0x0c, b"test".to_vec())));
        }
    }
    assert!(reader.next_frame().is_none());
}

#[test]
fn zero_size_header_is_dropped() {
    let mut reader = TcpFrameReader::default();
    reader.feed(&[0x00, 0x00]);
    reader.feed(&encode_tcp_frame(0x00, b"x"));
    assert_eq!(reader.next_frame(), Some((0x00, b"x".to_vec())));
    assert!(reader.next_frame().is_none());
}

#[test]
fn empty_payload_frame() {
    let frame = encode_tcp_frame(0x07, b"");
    assert_eq!(frame, vec![0x00, 0x01, 0x07]);
    let mut reader = TcpFrameReader::new();
    reader.feed(&frame);
    assert_eq!(reader.next_frame(), Some((0x07, Vec::new())));
}

#[test]
fn descriptor_and_match_info_bytes() {
    let frame = build_joystick_descriptor_frame(2, "Pad", 6, 10, 1);
    assert_eq!(
        frame,
        vec![0x00, 11, 0x02, 2, 0, 0, 3, b'P', b'a', b'd', 6, 10, 1]
    );
    let frame = build_match_info_frame("Q1", 2);
    assert_eq!(frame, vec![0x00, 5, 0x07, 2, b'Q', b'1', 2]);
}

#[test]
fn parse_version_info() {
    let payload = [3, 7, 2, b'r', b'x', 3, b'1', b'.', b'0'];
    match parse_tcp_message(0x0a, &payload).unwrap() {
        TcpMessage::VersionInfo { device_type, device_id, name, version } => {
            assert_eq!(device_type, 3);
            assert_eq!(device_id, 7);
            assert_eq!(name, "rx");
            assert_eq!(version, "1.0");
        }
        _ => panic!("expected VersionInfo"),
    }
    assert!(parse_tcp_message(0x0a, &[3, 7, 2, b'r']).is_none());
}

#[test]
fn parse_error_report() {
    let mut p = Vec::new();
    p.extend_from_slice(&1.5f64.to_be_bytes());
    p.extend_from_slice(&[0x00, 0x09]);
    p.extend_from_slice(&(-44i32).to_be_bytes());
    p.extend_from_slice(&[0x00, 0x01]);
    p.extend_from_slice(&[0x00, 0x03]);
    p.extend_from_slice(b"bad");
    p.extend_from_slice(&[0x00, 0x02]);
    p.extend_from_slice(b"at");
    p.extend_from_slice(&[0x00, 0x00]);
    match parse_tcp_message(0x0b, &p).unwrap() {
        TcpMessage::ErrorReport {
            timestamp_bits,
            sequence,
            error_code,
            is_error,
            details,
            location,
            call_stack,
        } => {
            assert_eq!(f64::from_bits(timestamp_bits), 1.5);
            assert_eq!(sequence, 9);
            assert_eq!(error_code, -44);
            assert!(is_error);
            assert_eq!(details, "bad");
            assert_eq!(location, "at");
            assert_eq!(call_stack, "");
        }
        _ => panic!("expected ErrorReport"),
    }
    assert!(parse_tcp_message(0x0b, &p[..p.len() - 1]).is_none());
}

#[test]
fn invalid_utf8_and_unknown_tags_are_dropped() {
    assert!(parse_tcp_message(0x0c, &[0xFF, 0xFE]).is_none());
    assert!(parse_tcp_message(0x33, b"hello").is_none());
    match parse_tcp_message(0x0c, "h\u{e9}".as_bytes()).unwrap() {
        TcpMessage::Stdout(s) => assert_eq!(s, "h\u{e9}"),
        _ => panic!("expected Stdout"),
    }
}

#[test]
fn attach_decisions_and_draining() {
    let mut attach = TcpAttach::new();
    assert!(!attach.is_attached());
    assert_eq!(attach.connect_result(TcpConnectOutcome::Refused), Some(2000));
    assert_eq!(attach.connect_result(TcpConnectOutcome::TimedOut), Some(0));
    assert_eq!(attach.connect_result(TcpConnectOutcome::Connected), None);
    assert!(attach.is_attached());

    let mut stream = encode_tcp_frame(0x0c, b"out");
    stream.extend_from_slice(&encode_tcp_frame(0x33, b"skip"));
    stream.extend_from_slice(&encode_tcp_frame(0x00, b"msg"));
    let tail = encode_tcp_frame(0x0c, b"later");
    stream.extend_from_slice(&tail[..4]);
    let msgs = attach.receive(&stream);
    assert_eq!(msgs.len(), 2);
    assert!(matches!(&msgs[0], TcpMessage::Stdout(s) if s == "out"));
    assert!(matches!(&msgs[1], TcpMessage::Message(s) if s == "msg"));
    let msgs = attach.receive(&tail[4..]);
    assert_eq!(msgs.len(), 1);
    assert!(matches!(&msgs[0], TcpMessage::Stdout(s) if s == "later"));

    attach.receive(&tail[..4]);
    attach.stream_lost();
    assert!(!attach.is_attached());
    assert!(attach.receive(&tail[4..]).is_empty());
}

#[test]
fn chunked_feed_matches_whole() {
    let mut whole = encode_tcp_frame(0x0c, b"alpha");
    whole.extend_from_slice(&encode_tcp_frame(0x00, b"beta"));
    for size in 1..whole.len() {
        let mut reader = TcpFrameReader::new();
        for chunk in whole.chunks(size) {
            reader.feed(chunk);
        }
        assert_eq!(reader.next_frame(), Some((0x0c, b"alpha".to_vec())));
        assert_eq!(reader.next_frame(), Some((0x00, b"beta".to_vec())));
        assert!(reader.next_frame().is_none());
    }
}
