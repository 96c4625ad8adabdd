use vstd::prelude::*;

use std::collections::HashMap;

verus! {

/// Persisted settings of the station.
#[derive(Debug, Clone)]
pub struct Config {
    pub team_number: u32,
    pub use_usb: bool,
    pub dashboard_command: Option<String>,
    pub game_data: String,
    pub practice_timing: PracticeTiming,
    pub practice_audio: bool,
    /// Controller id to the slot it is locked to.
    pub joystick_locks: HashMap<String, u8>,
    pub window: WindowConfig,
}

/// Durations of the practice match phases, in seconds.
#[derive(Debug, Clone, Copy, PartialEq, Eq, Structural)]
pub struct PracticeTiming {
    pub countdown_secs: u32,
    pub auto_secs: u32,
    pub delay_secs: u32,
    pub teleop_secs: u32,
}

/// Position and size of the main window.
#[derive(Debug, Clone, Copy, PartialEq, Eq, Structural)]
pub struct WindowConfig {
    pub x: Option<i32>,
    pub y: Option<i32>,
    pub width: u32,
    pub height: u32,
}

impl Default for PracticeTiming {
    /// A standard match: 3 s countdown, 15 s autonomous, 1 s delay, 135 s teleop.
    fn default() -> (r: PracticeTiming)
        ensures
            r == (PracticeTiming { countdown_secs: 3, auto_secs: 15, delay_secs: 1, teleop_secs: 135 }),
    {
        PracticeTiming { countdown_secs: 3, auto_secs: 15, delay_secs: 1, teleop_secs: 135 }
    }
}

impl Default for WindowConfig {
    fn default() -> (r: WindowConfig)
        ensures
            r == (WindowConfig { x: None, y: None, width: 1000, height: 400 }),
    {
        WindowConfig { x: None, y: None, width: 1000, height: 400 }
    }
}

impl Default for Config {
    fn default() -> (r: Config)
        ensures
            r.team_number == 0,
            !r.use_usb,
            r.dashboard_command is None,
            r.game_data@ == Seq::<char>::empty(),
            r.practice_timing == (PracticeTiming {
                countdown_secs: 3,
                auto_secs: 15,
                delay_secs: 1,
                teleop_secs: 135,
            }),
            r.practice_audio,
            r.joystick_locks@ == Map::<String, u8>::empty(),
            r.window == (WindowConfig { x: None, y: None, width: 1000, height: 400 }),
    {
        Config {
            team_number: 0,
            use_usb: false,
            dashboard_command: None,
            game_data: String::new(),
            practice_timing: PracticeTiming::default(),
            practice_audio: true,
            joystick_locks: HashMap::new(),
            window: WindowConfig::default(),
        }
    }
}

} // verus!
