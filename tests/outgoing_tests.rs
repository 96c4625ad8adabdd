use open_station::outgoing::{
    append_datetime_tag, append_datetime_tag_at, append_joystick_tag, append_timezone_tag,
    build_ds_packet, joystick_fits_tag, UtcTime,
};
use open_station::types::{Alliance, AllianceColor, ControlFlags, JoystickData, Mode, RequestFlags};

#[test]
fn test_header_encoding() {
    let packet = build_ds_packet(
        0x1234,
        &ControlFlags::default(),
        &RequestFlags::default(),
        &Alliance::new(AllianceColor::Red, 1),
        &[],
    );
    assert_eq!(packet[0], 0x12); // seq hi
    assert_eq!(packet[1], 0x34); // seq lo
    assert_eq!(packet[2], 0x01); // comm version
    assert_eq!(packet[3], 0x00); // control: teleop, disabled, no estop
    assert_eq!(packet[4], 0x00); // request: nothing
    assert_eq!(packet[5], 0x00); // alliance: Red1
}

#[test]
fn test_joystick_tag_empty() {
    let mut buf = Vec::new();
    let js = JoystickData::default();
    append_joystick_tag(&mut buf, &js);
    // size byte + 0x0c + axis_count(0) + button_count(0) + pov_count(0)
    assert_eq!(buf.len(), 5);
    assert_eq!(buf[1], 0x0c); // tag
}

#[test]
fn test_joystick_tag_full() {
    let js = JoystickData {
        axes: vec![0, 127, -128, 64, -64, 0],
        buttons: vec![
            true, false, true, false, false, false, false, false, true, false, false, true,
        ],
        povs: vec![90],
    };
    let mut buf = Vec::new();
    append_joystick_tag(&mut buf, &js);
    assert_eq!(buf[1], 0x0c);
    assert_eq!(buf[2], 6); // 6 axes
    assert_eq!(buf[3], 0i8 as u8);
    assert_eq!(buf[4], 127i8 as u8);
    assert_eq!(buf[5], (-128i8) as u8);
    assert_eq!(buf[9], 12); // 12 buttons
    assert_eq!(buf[10], 0x05);
    assert_eq!(buf[11], 0x09);
    assert_eq!(buf[12], 1); // 1 POV
    assert_eq!(buf[13], 0x00);
    assert_eq!(buf[14], 0x5A);
}

#[test]
fn test_button_packing() {
    let js = JoystickData {
        axes: vec![],
        buttons: vec![true, false, true],
        povs: vec![],
    };
    let mut buf = Vec::new();
    append_joystick_tag(&mut buf, &js);
    assert_eq!(buf[2], 0); // 0 axes
    assert_eq!(buf[3], 3); // 3 buttons
    assert_eq!(buf[4], 0b00000101); // buttons 0 and 2 set
}

#[test]
fn test_timezone_tag() {
    let mut buf = Vec::new();
    append_timezone_tag(&mut buf, "America/New_York");
    assert_eq!(buf[0], 17); // size: 1 + 16
    assert_eq!(buf[1], 0x10); // tag
    assert_eq!(&buf[2..], b"America/New_York");
}

#[test]
fn joystick_tag_exact_bytes() {
    let js = JoystickData {
        axes: vec![0, 127, -128, 64, -64, 0],
        buttons: vec![
            true, false, true, false, false, false, false, false, true, false, false, true,
        ],
        povs: vec![90],
    };
    let mut buf = Vec::new();
    append_joystick_tag(&mut buf, &js);
    assert_eq!(
        &buf[2..],
        &[0x06, 0x00, 0x7F, 0x80, 0x40, 0xC0, 0x00, 0x0C, 0x05, 0x09, 0x01, 0x00, 0x5A]
    );
    // size counts the tag id and the body, not itself
    assert_eq!(buf[0] as usize, buf.len() - 1);
}

#[test]
fn centered_pov_is_ffff() {
    let js = JoystickData { axes: vec![], buttons: vec![], povs: vec![-1, 315] };
    let mut buf = vec![0xAA];
    append_joystick_tag(&mut buf, &js);
    assert_eq!(buf, vec![0xAA, 8, 0x0c, 0, 0, 2, 0xFF, 0xFF, 0x01, 0x3B]);
}

#[test]
fn packet_carries_at_most_six_joysticks() {
    let js = JoystickData::default();
    let all = vec![js; 8];
    let packet = build_ds_packet(
        7,
        &ControlFlags { estop: false, fms_connected: true, enabled: true, mode: Mode::Test },
        &RequestFlags { reboot_roborio: true, restart_code: false },
        &Alliance::new(AllianceColor::Blue, 3),
        &all,
    );
    assert_eq!(packet.len(), 6 + 6 * 5);
    assert_eq!(&packet[..6], &[0x00, 0x07, 0x01, 0x0D, 0x08, 0x05]);
}

#[test]
fn joystick_fit_check() {
    assert!(joystick_fits_tag(&JoystickData::default()));
    let big = JoystickData { axes: vec![0; 252], buttons: vec![], povs: vec![] };
    assert!(!joystick_fits_tag(&big));
    let many_buttons = JoystickData { axes: vec![], buttons: vec![false; 256], povs: vec![] };
    assert!(!joystick_fits_tag(&many_buttons));
}

#[test]
fn datetime_tag_layout() {
    let t = UtcTime {
        nanos: 123_456_000,
        second: 5,
        minute: 6,
        hour: 7,
        day: 31,
        month0: 11,
        year: 2024,
    };
    let mut buf = Vec::new();
    append_datetime_tag_at(&mut buf, &t);
    assert_eq!(buf, vec![0x0b, 0x0f, 0x00, 0x01, 0xE2, 0x40, 5, 6, 7, 31, 11, 124]);
}

#[test]
fn datetime_year_wraps_to_a_byte() {
    let t = UtcTime { nanos: 0, second: 0, minute: 0, hour: 0, day: 1, month0: 0, year: 1899 };
    let mut buf = Vec::new();
    append_datetime_tag_at(&mut buf, &t);
    assert_eq!(buf[11], 0xFF);
}

#[test]
fn negative_axes_are_twos_complement() {
    let js = JoystickData { axes: vec![-1, -128, -64], buttons: vec![], povs: vec![-1] };
    let mut buf = Vec::new();
    append_joystick_tag(&mut buf, &js);
    assert_eq!(buf, vec![9, 0x0c, 3, 0xFF, 0x80, 0xC0, 0, 1, 0xFF, 0xFF]);
}

#[test]
fn datetime_tag_now() {
    let mut buf = vec![1, 2];
    append_datetime_tag(&mut buf);
    assert_eq!(buf.len(), 14);
    assert_eq!(&buf[..4], &[1, 2, 0x0b, 0x0f]);
    assert!(buf[8] < 60 && buf[9] < 60 && buf[10] < 24);
    assert!(buf[11] >= 1 && buf[11] <= 31 && buf[12] < 12);
    assert!(buf[13] >= 120);
}
