use open_station::config::{Config, PracticeTiming, WindowConfig};
use open_station::hotkeys::{HotKey, HotkeyAction, HotkeyState};

#[test]
fn test_default_config() {
    let config = Config::default();
    assert_eq!(config.team_number, 0);
    assert_eq!(config.practice_timing.auto_secs, 15);
    assert_eq!(config.practice_timing.teleop_secs, 135);
    assert_eq!(config.practice_timing.countdown_secs, 3);
    assert_eq!(config.practice_timing.delay_secs, 1);
    assert!(config.practice_audio);
    assert!(!config.use_usb);
    assert_eq!(config.window.width, 1000);
}

#[test]
fn default_parts() {
    assert_eq!(WindowConfig::default().height, 400);
    assert_eq!(WindowConfig::default().x, None);
    let t = PracticeTiming::default();
    assert_eq!((t.countdown_secs, t.auto_secs, t.delay_secs, t.teleop_secs), (3, 15, 1, 135));
    assert!(Config::default().joystick_locks.is_empty());
}

#[test]
fn test_hotkey_action_eq() {
    assert_eq!(HotkeyAction::EStop, HotkeyAction::EStop);
    assert_ne!(HotkeyAction::EStop, HotkeyAction::Disable);
}

#[test]
fn enable_chord_needs_all_three_keys() {
    let mut keys = HotkeyState::new();
    assert_eq!(keys.key_pressed(HotKey::LeftBracket), HotkeyAction::Disable);
    assert_eq!(keys.key_pressed(HotKey::RightBracket), HotkeyAction::Disable);
    assert_eq!(keys.key_pressed(HotKey::BackSlash), HotkeyAction::Enable);
    keys.key_released(HotKey::RightBracket);
    assert_eq!(keys.key_pressed(HotKey::BackSlash), HotkeyAction::Disable);
    assert_eq!(keys.key_pressed(HotKey::Space), HotkeyAction::EStop);
    assert_eq!(keys.key_pressed(HotKey::Other), HotkeyAction::Disable);
}
