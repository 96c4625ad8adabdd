use vstd::prelude::*;

verus! {

/// True when the bit of `byte` whose value is `weight` (a power of two) is set.
pub open spec fn bit_set(byte: u8, weight: int) -> bool {
    (byte as int / weight) % 2 == 1
}

/// The three operating modes of the robot.
#[derive(Debug, Clone, Copy, PartialEq, Eq, Structural)]
pub enum Mode {
    Teleop,
    Test,
    Autonomous,
}

impl Mode {
    /// Two-bit wire value: Teleop 00, Test 01, Autonomous 10.
    pub open spec fn spec_bits(self) -> u8 {
        match self {
            Mode::Teleop => 0,
            Mode::Test => 1,
            Mode::Autonomous => 2,
        }
    }

    /// Mode held in the two low bits of `bits`; the pattern 11 is no mode.
    pub open spec fn spec_from_bits(bits: u8) -> Option<Mode> {
        let low = bits % 4;
        if low == 0 {
            Some(Mode::Teleop)
        } else if low == 1 {
            Some(Mode::Test)
        } else if low == 2 {
            Some(Mode::Autonomous)
        } else {
            None
        }
    }

    /// Encode the mode into bits 1..0.
    pub fn to_bits(self) -> (r: u8)
        ensures
            r == self.spec_bits(),
            r < 3,
    {
        match self {
            Mode::Teleop => 0,
            Mode::Test => 1,
            Mode::Autonomous => 2,
        }
    }

    /// Decode the two low bits of `bits`; `None` for the invalid pattern 11.
    pub fn from_bits(bits: u8) -> (r: Option<Mode>)
        ensures
            r == Mode::spec_from_bits(bits),
    {
        let low = bits % 4;
        if low == 0 {
            Some(Mode::Teleop)
        } else if low == 1 {
            Some(Mode::Test)
        } else if low == 2 {
            Some(Mode::Autonomous)
        } else {
            None
        }
    }

    /// Display name of the mode.
    pub fn name(self) -> (r: &'static str)
        ensures
            r@ == self.spec_name(),
    {
        match self {
            Mode::Teleop => "Teleoperated",
            Mode::Test => "Test",
            Mode::Autonomous => "Autonomous",
        }
    }

    pub open spec fn spec_name(self) -> Seq<char> {
        match self {
            Mode::Teleop => "Teleoperated"@,
            Mode::Test => "Test"@,
            Mode::Autonomous => "Autonomous"@,
        }
    }
}

impl Default for Mode {
    fn default() -> (r: Mode)
        ensures
            r == Mode::Teleop,
    {
        Mode::Teleop
    }
}


/// Red or Blue alliance.
#[derive(Debug, Clone, Copy, PartialEq, Eq, Structural)]
pub enum AllianceColor {
    Red,
    Blue,
}

/// An alliance position: color and station number.
#[derive(Debug, Clone, Copy, PartialEq, Eq, Structural)]
pub struct Alliance {
    pub color: AllianceColor,
    pub station: u8,
}

impl Alliance {
    /// The station is 1, 2 or 3.
    pub open spec fn wf(self) -> bool {
        1 <= self.station <= 3
    }

    /// Wire byte: Red1..Red3 are 0..2, Blue1..Blue3 are 3..5.
    pub open spec fn spec_byte(self) -> u8 {
        match self.color {
            AllianceColor::Red => (self.station - 1) as u8,
            AllianceColor::Blue => (self.station + 2) as u8,
        }
    }

    /// The alliance that a wire byte names; none for 6 and above.
    pub open spec fn spec_from_byte(byte: u8) -> Option<Alliance> {
        if byte < 3 {
            Some(Alliance { color: AllianceColor::Red, station: (byte + 1) as u8 })
        } else if byte < 6 {
            Some(Alliance { color: AllianceColor::Blue, station: (byte - 2) as u8 })
        } else {
            None
        }
    }

    /// Create an alliance position.
    pub fn new(color: AllianceColor, station: u8) -> (r: Alliance)
        requires
            1 <= station <= 3,
        ensures
            r == (Alliance { color, station }),
            r.wf(),
    {
        Alliance { color, station }
    }

    /// Encode as a single byte.
    pub fn to_byte(self) -> (r: u8)
        requires
            self.wf(),
        ensures
            r == self.spec_byte(),
            r < 6,
    {
        match self.color {
            AllianceColor::Red => self.station - 1,
            AllianceColor::Blue => self.station + 2,
        }
    }

    /// Decode from a byte; `None` for values of 6 and above.
    pub fn from_byte(byte: u8) -> (r: Option<Alliance>)
        ensures
            r == Alliance::spec_from_byte(byte),
            r is Some <==> byte < 6,
            r is Some ==> r->0.wf(),
    {
        if byte < 3 {
            Some(Alliance::new(AllianceColor::Red, byte + 1))
        } else if byte < 6 {
            Some(Alliance::new(AllianceColor::Blue, byte - 2))
        } else {
            None
        }
    }
}

/// Flags sent to the robot in each control packet.
#[derive(Debug, Clone, Copy, PartialEq, Eq, Structural)]
pub struct ControlFlags {
    /// Emergency stop, bit 7.
    pub estop: bool,
    /// Field management system connected, bit 3.
    pub fms_connected: bool,
    /// Robot enabled, bit 2.
    pub enabled: bool,
    /// Operating mode, bits 1..0.
    pub mode: Mode,
}

impl ControlFlags {
    /// Wire byte: bit 7 estop, bit 3 fms, bit 2 enabled, bits 1..0 mode, the rest zero.
    pub open spec fn spec_byte(self) -> u8 {
        ((if self.estop { 128int } else { 0 }) + (if self.fms_connected { 8int } else { 0 }) + (
        if self.enabled { 4int } else { 0 }) + self.mode.spec_bits()) as u8
    }

    /// Flags read from a byte; the bits outside the layout are ignored, and
    /// the invalid mode pattern reads as Teleop.
    pub open spec fn spec_from_byte(byte: u8) -> ControlFlags {
        ControlFlags {
            estop: bit_set(byte, 128),
            fms_connected: bit_set(byte, 8),
            enabled: bit_set(byte, 4),
            mode: match Mode::spec_from_bits(byte) {
                Some(m) => m,
                None => Mode::Teleop,
            },
        }
    }

    /// Encode to a single byte.
    pub fn to_byte(self) -> (r: u8)
        ensures
            r == self.spec_byte(),
    {
        let mut byte: u8 = self.mode.to_bits();
        if self.enabled {
            byte = byte + 4;
        }
        if self.fms_connected {
            byte = byte + 8;
        }
        if self.estop {
            byte = byte + 128;
        }
        byte
    }

    /// Decode from a single byte.
    pub fn from_byte(byte: u8) -> (r: ControlFlags)
        ensures
            r == ControlFlags::spec_from_byte(byte),
    {
        let mode = match Mode::from_bits(byte) {
            Some(m) => m,
            None => Mode::Teleop,
        };
        ControlFlags {
            estop: (byte / 128) % 2 == 1,
            fms_connected: (byte / 8) % 2 == 1,
            enabled: (byte / 4) % 2 == 1,
            mode,
        }
    }
}

impl Default for ControlFlags {
    fn default() -> (r: ControlFlags)
        ensures
            r == (ControlFlags {
                estop: false,
                fms_connected: false,
                enabled: false,
                mode: Mode::Teleop,
            }),
    {
        ControlFlags { estop: false, fms_connected: false, enabled: false, mode: Mode::Teleop }
    }
}

/// One-shot requests sent to the robot.
#[derive(Debug, Clone, Copy, PartialEq, Eq, Structural)]
pub struct RequestFlags {
    /// Reboot the controller, bit 3.
    pub reboot_roborio: bool,
    /// Restart the robot code, bit 2.
    pub restart_code: bool,
}

impl RequestFlags {
    /// Wire byte: bit 3 reboot, bit 2 restart, the rest zero.
    pub open spec fn spec_byte(self) -> u8 {
        ((if self.reboot_roborio { 8int } else { 0 }) + (if self.restart_code { 4int } else { 0 })) as u8
    }

    /// Encode to a single byte.
    pub fn to_byte(self) -> (r: u8)
        ensures
            r == self.spec_byte(),
    {
        let mut byte: u8 = 0;
        if self.reboot_roborio {
            byte = byte + 8;
        }
        if self.restart_code {
            byte = byte + 4;
        }
        byte
    }
}

impl Default for RequestFlags {
    fn default() -> (r: RequestFlags)
        ensures
            r == (RequestFlags { reboot_roborio: false, restart_code: false }),
    {
        RequestFlags { reboot_roborio: false, restart_code: false }
    }
}

/// Status flags reported by the robot.
#[derive(Debug, Clone, Copy, PartialEq, Eq, Structural)]
pub struct StatusFlags {
    /// Emergency stop active, bit 7.
    pub estop: bool,
    /// Robot code still initializing, bit 4.
    pub code_initializing: bool,
    /// Brownout detected, bit 3.
    pub brownout: bool,
    /// Robot enabled, bit 2.
    pub enabled: bool,
    /// Operating mode, bits 1..0.
    pub mode: Mode,
}

impl StatusFlags {
    /// Flags read from a status byte; the invalid mode pattern reads as Teleop.
    pub open spec fn spec_from_byte(byte: u8) -> StatusFlags {
        StatusFlags {
            estop: bit_set(byte, 128),
            code_initializing: bit_set(byte, 16),
            brownout: bit_set(byte, 8),
            enabled: bit_set(byte, 4),
            mode: match Mode::spec_from_bits(byte) {
                Some(m) => m,
                None => Mode::Teleop,
            },
        }
    }

    /// All flags clear, Teleop.
    pub open spec fn spec_cleared() -> StatusFlags {
        StatusFlags {
            estop: false,
            code_initializing: false,
            brownout: false,
            enabled: false,
            mode: Mode::Teleop,
        }
    }

    /// Decode from a single byte.
    pub fn from_byte(byte: u8) -> (r: StatusFlags)
        ensures
            r == StatusFlags::spec_from_byte(byte),
    {
        let mode = match Mode::from_bits(byte) {
            Some(m) => m,
            None => Mode::Teleop,
        };
        StatusFlags {
            estop: (byte / 128) % 2 == 1,
            code_initializing: (byte / 16) % 2 == 1,
            brownout: (byte / 8) % 2 == 1,
            enabled: (byte / 4) % 2 == 1,
            mode,
        }
    }

    /// All flags clear, Teleop.
    pub fn cleared() -> (r: StatusFlags)
        ensures
            r == StatusFlags::spec_cleared(),
    {
        StatusFlags {
            estop: false,
            code_initializing: false,
            brownout: false,
            enabled: false,
            mode: Mode::Teleop,
        }
    }
}

/// Battery voltage in fixed point: `raw / 256` volts.
///
/// On the wire the high byte is the whole volts and the low byte the
/// fraction in 256ths.
#[derive(Debug, Clone, Copy, PartialEq, Eq, Structural)]
pub struct BatteryVoltage {
    pub raw: u16,
}

impl BatteryVoltage {
    /// The voltage that the wire bytes `(high, low)` stand for.
    pub open spec fn spec_from_bytes(high: u8, low: u8) -> BatteryVoltage {
        BatteryVoltage { raw: (high as int * 256 + low as int) as u16 }
    }

    /// Wire bytes: whole volts, then the fraction in 256ths.
    pub open spec fn spec_to_bytes(self) -> (u8, u8) {
        ((self.raw / 256) as u8, (self.raw % 256) as u8)
    }

    /// Decode from the two-byte wire format.
    pub fn from_bytes(high: u8, low: u8) -> (r: BatteryVoltage)
        ensures
            r == BatteryVoltage::spec_from_bytes(high, low),
            r.raw == high as int * 256 + low as int,
    {
        BatteryVoltage { raw: high as u16 * 256 + low as u16 }
    }

    /// Encode to the two-byte wire format.
    pub fn to_bytes(self) -> (r: (u8, u8))
        ensures
            r == self.spec_to_bytes(),
    {
        ((self.raw / 256) as u8, (self.raw % 256) as u8)
    }
}

/// Input state of one controller.
#[derive(Debug, Clone, Default)]
pub struct JoystickData {
    /// Axis values, -128..127.
    pub axes: Vec<i8>,
    /// Button states.
    pub buttons: Vec<bool>,
    /// Hat angles in degrees, -1 when centered.
    pub povs: Vec<i16>,
}

/// Rumble levels that the robot asks a controller for, as on the wire.
#[derive(Debug, Clone, Copy, PartialEq, Eq, Structural)]
pub struct RumbleOutput {
    pub left: u16,
    pub right: u16,
}

/// CAN bus health reported by the robot.
#[derive(Debug, Clone, Copy, PartialEq, Eq, Structural)]
pub struct CanMetrics {
    /// Bus utilization in percent.
    pub utilization: u8,
    pub bus_off_count: u32,
    pub tx_full_count: u32,
    pub rx_error_count: u8,
    pub tx_error_count: u8,
}

impl CanMetrics {
    pub open spec fn spec_zero() -> CanMetrics {
        CanMetrics {
            utilization: 0,
            bus_off_count: 0,
            tx_full_count: 0,
            rx_error_count: 0,
            tx_error_count: 0,
        }
    }
}

impl Default for CanMetrics {
    fn default() -> (r: CanMetrics)
        ensures
            r == CanMetrics::spec_zero(),
    {
        CanMetrics {
            utilization: 0,
            bus_off_count: 0,
            tx_full_count: 0,
            rx_error_count: 0,
            tx_error_count: 0,
        }
    }
}


/// A message received from the robot over TCP.
#[derive(Debug, Clone)]
pub enum TcpMessage {
    /// Standard output of the robot code.
    Stdout(String),
    /// An error or warning report. `timestamp_bits` holds the IEEE-754 bits
    /// of the timestamp in seconds, as sent.
    ErrorReport {
        timestamp_bits: u64,
        sequence: u16,
        error_code: i32,
        is_error: bool,
        details: String,
        location: String,
        call_stack: String,
    },
    /// Version of a device.
    VersionInfo { device_type: u8, device_id: u8, name: String, version: String },
    /// Any other message text.
    Message(String),
}

/// Mathematical form of a [`TcpMessage`].
pub enum TcpMessageView {
    Stdout(Seq<char>),
    ErrorReport {
        timestamp_bits: u64,
        sequence: u16,
        error_code: i32,
        is_error: bool,
        details: Seq<char>,
        location: Seq<char>,
        call_stack: Seq<char>,
    },
    VersionInfo { device_type: u8, device_id: u8, name: Seq<char>, version: Seq<char> },
    Message(Seq<char>),
}

impl View for TcpMessage {
    type V = TcpMessageView;

    open spec fn view(&self) -> TcpMessageView {
        match self {
            TcpMessage::Stdout(s) => TcpMessageView::Stdout(s@),
            TcpMessage::ErrorReport {
                timestamp_bits,
                sequence,
                error_code,
                is_error,
                details,
                location,
                call_stack,
            } => TcpMessageView::ErrorReport {
                timestamp_bits: *timestamp_bits,
                sequence: *sequence,
                error_code: *error_code,
                is_error: *is_error,
                details: details@,
                location: location@,
                call_stack: call_stack@,
            },
            TcpMessage::VersionInfo { device_type, device_id, name, version } =>
                TcpMessageView::VersionInfo {
                device_type: *device_type,
                device_id: *device_id,
                name: name@,
                version: version@,
            },
            TcpMessage::Message(s) => TcpMessageView::Message(s@),
        }
    }
}


/// Latest telemetry received from the robot.
///
/// PDP currents are in eighths of an ampere; CPU usage in 256ths of a percent.
#[derive(Debug, Clone, Default)]
pub struct TelemetryData {
    pub can: CanMetrics,
    pub pdp_currents: Vec<u16>,
    pub cpu_usage: Vec<u16>,
    pub ram_usage: u32,
    pub disk_free: u32,
}

/// Mathematical form of [`TelemetryData`].
pub struct TelemetryView {
    pub can: CanMetrics,
    pub pdp_currents: Seq<u16>,
    pub cpu_usage: Seq<u16>,
    pub ram_usage: u32,
    pub disk_free: u32,
}

impl View for TelemetryData {
    type V = TelemetryView;

    open spec fn view(&self) -> TelemetryView {
        TelemetryView {
            can: self.can,
            pdp_currents: self.pdp_currents@,
            cpu_usage: self.cpu_usage@,
            ram_usage: self.ram_usage,
            disk_free: self.disk_free,
        }
    }
}

impl TelemetryData {
    /// No telemetry yet.
    pub fn empty() -> (r: TelemetryData)
        ensures
            r@ == (TelemetryView {
                can: CanMetrics::spec_zero(),
                pdp_currents: Seq::empty(),
                cpu_usage: Seq::empty(),
                ram_usage: 0,
                disk_free: 0,
            }),
    {
        TelemetryData {
            can: CanMetrics::default(),
            pdp_currents: Vec::new(),
            cpu_usage: Vec::new(),
            ram_usage: 0,
            disk_free: 0,
        }
    }
}

/// Snapshot of the robot as the station sees it.
#[derive(Debug, Clone)]
pub struct RobotState {
    pub connected: bool,
    pub code_running: bool,
    pub voltage: BatteryVoltage,
    pub status: StatusFlags,
    pub telemetry: TelemetryData,
    /// Sequence number of the last packet received.
    pub sequence: u16,
    pub trip_time_ms: u64,
    pub lost_packets: u32,
}

/// Mathematical form of a [`RobotState`].
pub struct RobotStateView {
    pub connected: bool,
    pub code_running: bool,
    pub voltage: BatteryVoltage,
    pub status: StatusFlags,
    pub telemetry: TelemetryView,
    pub sequence: u16,
    pub trip_time_ms: u64,
    pub lost_packets: u32,
}

impl View for RobotState {
    type V = RobotStateView;

    open spec fn view(&self) -> RobotStateView {
        RobotStateView {
            connected: self.connected,
            code_running: self.code_running,
            voltage: self.voltage,
            status: self.status,
            telemetry: self.telemetry@,
            sequence: self.sequence,
            trip_time_ms: self.trip_time_ms,
            lost_packets: self.lost_packets,
        }
    }
}

impl RobotState {
    /// The snapshot before anything is received.
    pub open spec fn spec_initial() -> RobotStateView {
        RobotStateView {
            connected: false,
            code_running: false,
            voltage: BatteryVoltage { raw: 0 },
            status: StatusFlags::spec_cleared(),
            telemetry: TelemetryView {
                can: CanMetrics::spec_zero(),
                pdp_currents: Seq::empty(),
                cpu_usage: Seq::empty(),
                ram_usage: 0,
                disk_free: 0,
            },
            sequence: 0,
            trip_time_ms: 0,
            lost_packets: 0,
        }
    }

    /// The snapshot before anything is received.
    pub fn initial() -> (r: RobotState)
        ensures
            r@ == RobotState::spec_initial(),
    {
        RobotState {
            connected: false,
            code_running: false,
            voltage: BatteryVoltage { raw: 0 },
            status: StatusFlags::cleared(),
            telemetry: TelemetryData::empty(),
            sequence: 0,
            trip_time_ms: 0,
            lost_packets: 0,
        }
    }
}

} // verus!
