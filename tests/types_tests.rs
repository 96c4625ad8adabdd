use open_station::types::{
    Alliance, AllianceColor, BatteryVoltage, ControlFlags, Mode, RequestFlags, StatusFlags,
};

#[test]
fn test_mode_round_trip() {
    for mode in [Mode::Teleop, Mode::Test, Mode::Autonomous] {
        let bits = mode.to_bits();
        let decoded = Mode::from_bits(bits).expect("valid bits should decode");
        assert_eq!(mode, decoded, "round-trip failed for {}", mode.name());
    }
    // Invalid bit pattern 0b11 must return None
    assert_eq!(Mode::from_bits(0b11), None);
}

#[test]
fn test_alliance_round_trip() {
    let combinations = [
        (AllianceColor::Red, 1, 0u8),
        (AllianceColor::Red, 2, 1),
        (AllianceColor::Red, 3, 2),
        (AllianceColor::Blue, 1, 3),
        (AllianceColor::Blue, 2, 4),
        (AllianceColor::Blue, 3, 5),
    ];

    for (color, station, expected_byte) in combinations {
        let alliance = Alliance::new(color, station);
        let byte = alliance.to_byte();
        assert_eq!(byte, expected_byte, "encode failed for {color:?} {station}");

        let decoded = Alliance::from_byte(byte).expect("valid byte should decode");
        assert_eq!(decoded, alliance, "round-trip failed for byte {byte}");
    }
}

#[test]
fn test_control_flags_encoding() {
    let flags = ControlFlags {
        estop: true,
        fms_connected: false,
        enabled: true,
        mode: Mode::Autonomous,
    };

    // bit 7 = estop (1), bit 3 = fms (0), bit 2 = enabled (1), bits 0-1 = autonomous (10)
    let byte = flags.to_byte();
    assert_eq!(byte, 0b1000_0110);

    let decoded = ControlFlags::from_byte(byte);
    assert_eq!(decoded, flags);
}

#[test]
fn test_battery_voltage_encoding() {
    // 12.5 V in 256ths of a volt
    let voltage = BatteryVoltage { raw: 12 * 256 + 128 };
    let (high, low) = voltage.to_bytes();
    let decoded = BatteryVoltage::from_bytes(high, low);
    let volts = decoded.raw as f64 / 256.0;

    assert!((volts - 12.5).abs() < 0.01, "expected ~12.5, got {}", volts);
}

#[test]
fn test_status_flags_brownout() {
    // 0b0000_1000 => brownout=true, everything else false/Teleop
    let flags = StatusFlags::from_byte(0b0000_1000);
    assert!(!flags.estop);
    assert!(!flags.code_initializing);
    assert!(flags.brownout);
    assert!(!flags.enabled);
    assert_eq!(flags.mode, Mode::Teleop);
}

#[test]
fn test_request_flags_encoding() {
    let flags = RequestFlags {
        reboot_roborio: true,
        restart_code: true,
    };
    // bit 3 = reboot (1), bit 2 = restart (1) => 0b0000_1100 = 12
    assert_eq!(flags.to_byte(), 0b0000_1100);
}

#[test]
fn test_alliance_invalid_byte() {
    assert_eq!(Alliance::from_byte(6), None);
    assert_eq!(Alliance::from_byte(255), None);
}

#[test]
fn mode_from_bits_ignores_high_bits() {
    assert_eq!(Mode::from_bits(0b1111_0010), Some(Mode::Autonomous));
    assert_eq!(Mode::from_bits(0b0000_0111), None);
    assert_eq!(Mode::Test.to_bits(), 1);
}

#[test]
fn control_flags_round_trip_all_combinations() {
    for estop in [false, true] {
        for fms_connected in [false, true] {
            for enabled in [false, true] {
                for mode in [Mode::Teleop, Mode::Test, Mode::Autonomous] {
                    let flags = ControlFlags { estop, fms_connected, enabled, mode };
                    assert_eq!(ControlFlags::from_byte(flags.to_byte()), flags);
                }
            }
        }
    }
    assert_eq!(ControlFlags::default().to_byte(), 0);
}

#[test]
fn control_flags_decode_ignores_other_bits() {
    let flags = ControlFlags::from_byte(0b0111_0011);
    assert!(!flags.estop);
    assert!(!flags.fms_connected);
    assert!(!flags.enabled);
    assert_eq!(flags.mode, Mode::Teleop);
}

#[test]
fn battery_voltage_bytes_round_trip() {
    for raw in [0u16, 1, 255, 256, 3200, 4095, 65535] {
        let v = BatteryVoltage { raw };
        let (h, l) = v.to_bytes();
        assert_eq!(BatteryVoltage::from_bytes(h, l), v);
    }
    assert_eq!(BatteryVoltage::from_bytes(0x0D, 0x40).raw, 13 * 256 + 64);
}

#[test]
fn mode_names() {
    assert_eq!(Mode::Teleop.name(), "Teleoperated");
    assert_eq!(Mode::Autonomous.name(), "Autonomous");
    assert_eq!(Mode::Test.name(), "Test");
    assert_eq!(Mode::default(), Mode::Teleop);
}
