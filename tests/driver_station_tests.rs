use open_station::connection::ConnectionState;
use open_station::driver_station::{route_message, DriverStation, Routed};
use open_station::incoming::PacketError;
use open_station::types::{Alliance, AllianceColor, JoystickData, Mode, TcpMessage};

fn new_ds() -> DriverStation {
    DriverStation::new(1234, Alliance::new(AllianceColor::Red, 1))
}

#[test]
fn driver_station_test_enable_disable() {
    let mut ds = new_ds();
    ds.enable();
    assert!(ds.control().enabled);
    ds.disable();
    assert!(!ds.control().enabled);
}

#[test]
fn test_estop_persists() {
    let mut ds = new_ds();
    ds.enable();
    ds.estop();
    assert!(ds.is_estopped());
    assert!(!ds.control().enabled);
    ds.enable();
    assert!(!ds.control().enabled);
}

#[test]
fn test_clear_estop() {
    let mut ds = new_ds();
    ds.estop();
    assert!(ds.is_estopped());
    ds.clear_estop();
    assert!(!ds.is_estopped());
    ds.enable();
    assert!(ds.control().enabled);
}

#[test]
fn driver_station_test_mode_switching() {
    let mut ds = new_ds();
    ds.set_mode(Mode::Autonomous);
    assert_eq!(ds.control().mode, Mode::Autonomous);
    ds.set_mode(Mode::Test);
    assert_eq!(ds.control().mode, Mode::Test);
    ds.set_mode(Mode::Teleop);
    assert_eq!(ds.control().mode, Mode::Teleop);
}

#[test]
fn test_joystick_data() {
    let mut ds = new_ds();
    let js = vec![JoystickData {
        axes: vec![0, 127, -128],
        buttons: vec![true, false, true],
        povs: vec![90],
    }];
    ds.set_joysticks(js.clone());
    assert_eq!(ds.joysticks().len(), 1);
    assert_eq!(ds.joysticks()[0].axes.len(), 3);
}

#[test]
fn test_game_data() {
    let mut ds = new_ds();
    let frame = ds.set_game_data("LRL".to_string());
    assert_eq!(ds.game_data(), "LRL");
    assert_eq!(frame, Some(vec![0x00, 0x04, 0x0e, b'L', b'R', b'L']));
}

#[test]
fn estop_latch_survives_commands() {
    let mut ds = new_ds();
    ds.estop();
    ds.enable();
    ds.set_mode(Mode::Autonomous);
    ds.disable();
    ds.enable();
    let p = ds.next_packet(0);
    assert!(!ds.control().enabled);
    assert_eq!(p[3], 0x82);
    ds.clear_estop();
    assert!(!ds.control().enabled);
    ds.enable();
    assert_eq!(ds.next_packet(20)[3], 0x06);
}

#[test]
fn reboot_pulse_is_one_shot() {
    let mut ds = new_ds();
    ds.reboot_roborio();
    let first = ds.next_packet(0);
    let second = ds.next_packet(20);
    assert_eq!(first[4] & 0x08, 0x08);
    assert_eq!(second[4] & 0x08, 0);
    ds.restart_code();
    assert_eq!(ds.next_packet(40)[4], 0x04);
    assert_eq!(ds.next_packet(60)[4], 0x00);
}

#[test]
fn sequence_increments_per_packet() {
    let mut ds = new_ds();
    ds.begin_session(0);
    let mut prev: Option<u16> = None;
    for i in 0..5u64 {
        let p = ds.next_packet(i * 20);
        let seq = u16::from_be_bytes([p[0], p[1]]);
        if let Some(q) = prev {
            assert_eq!(seq, q.wrapping_add(1));
        }
        ds.set_mode(Mode::Test);
        prev = Some(seq);
    }
}

#[test]
fn received_packet_updates_snapshot() {
    let mut ds = new_ds();
    ds.begin_session(0);
    let mut data = vec![0x00, 0x05, 0x01, 0x0C, 0x00, 0x0C, 0x80, 0x00];
    data.extend_from_slice(&[0x05, 0x06, 0x00, 0x20, 0x00, 0x00]);
    data.extend_from_slice(&[0x05, 0x06, 0x00, 0x30, 0x00, 0x00]);
    data.extend_from_slice(&[0x04, 0x05, 0x01, 0x32, 0x00]);
    assert!(ds.receive_datagram(&data, 10).is_ok());
    let s = ds.robot_state();
    assert!(s.connected);
    assert!(s.code_running);
    assert!(s.status.brownout && s.status.enabled);
    assert_eq!(s.sequence, 5);
    assert_eq!(s.voltage.raw, 12 * 256 + 128);
    assert_eq!(s.telemetry.ram_usage, 0x0030_0000);
    assert_eq!(s.telemetry.cpu_usage, vec![0x3200]);
    assert_eq!(ds.connection().state(), ConnectionState::CodeRunning);

    assert_eq!(
        ds.receive_datagram(&[0, 1, 2], 20),
        Err(PacketError::TooShort { expected: 8, actual: 3 })
    );
    assert_eq!(ds.robot_state().sequence, 5);
    assert_eq!(ds.connection().decode_errors(), 1);

    assert_eq!(ds.poll_liveness(1_010), Some(100));
    assert!(!ds.robot_state().connected);
}

#[test]
fn stdout_is_routed_apart() {
    match route_message(TcpMessage::Stdout("hi".to_string())) {
        Routed::Stdout(s) => assert_eq!(s, "hi"),
        Routed::Message(_) => panic!("expected stdout"),
    }
    match route_message(TcpMessage::Message("m".to_string())) {
        Routed::Message(TcpMessage::Message(s)) => assert_eq!(s, "m"),
        _ => panic!("expected message"),
    }
}
