use vstd::prelude::*;
use vstd::slice::slice_to_vec;
use vstd::utf8::encode_utf8;

use crate::connection::{
    spec_backoff_ms, spec_initial_connection, spec_lost, spec_received, spec_rejected, spec_take_sequence,
    spec_team_ip, spec_timed_out, spec_usb_address, ConnectionManager, ConnectionState,
    ConnectionView, RobotAddress, ROBOT_UDP_PORT,
};
use crate::incoming::{
    spec_parse_rio_packet, PacketError, RioPacket, RioPacketView, RioTag, RioTagView,
};
use crate::outgoing::{build_ds_packet, joysticks_fit, spec_ds_packet};
use crate::tcp::{build_game_data_frame, spec_encode_frame, MAX_FRAME_PAYLOAD};
use crate::types::{
    Alliance, ControlFlags, JoystickData, Mode, RequestFlags, RobotState, RobotStateView,
    TcpMessage, TcpMessageView, TelemetryView,
};

verus! {

/// Telemetry after one tag: the latest value of each kind replaces the one before.
pub open spec fn spec_apply_tag(t: TelemetryView, tag: RioTagView) -> TelemetryView {
    match tag {
        RioTagView::CanMetrics(c) => TelemetryView { can: c, ..t },
        RioTagView::PdpData(v) => TelemetryView { pdp_currents: v, ..t },
        RioTagView::CpuUsage(v) => TelemetryView { cpu_usage: v, ..t },
        RioTagView::RamUsage(r) => TelemetryView { ram_usage: r, ..t },
        RioTagView::DiskUsage(d) => TelemetryView { disk_free: d, ..t },
        _ => t,
    }
}

/// Telemetry after the tags of a packet, in order.
pub open spec fn spec_ingest(t: TelemetryView, tags: Seq<RioTagView>) -> TelemetryView
    decreases tags.len(),
{
    if tags.len() == 0 {
        t
    } else {
        spec_apply_tag(spec_ingest(t, tags.drop_last()), tags.last())
    }
}

/// The snapshot after a packet arrives while the link is in state `conn`.
pub open spec fn spec_update_robot_state(
    s: RobotStateView,
    p: RioPacketView,
    conn: ConnectionState,
) -> RobotStateView {
    RobotStateView {
        connected: conn != ConnectionState::Disconnected,
        code_running: !p.status.code_initializing,
        voltage: p.voltage,
        status: p.status,
        sequence: p.sequence,
        telemetry: spec_ingest(s.telemetry, p.tags),
        ..s
    }
}

/// Update the snapshot from a received packet.
pub fn update_robot_state(state: &mut RobotState, packet: &RioPacket, conn_state: ConnectionState)
    ensures
        final(state)@ == spec_update_robot_state(old(state)@, packet@, conn_state),
{
    state.connected = conn_state != ConnectionState::Disconnected;
    state.code_running = !packet.status.code_initializing;
    state.voltage = packet.voltage;
    state.status = packet.status;
    state.sequence = packet.sequence;
    let ghost t0 = old(state)@.telemetry;
    let mut i: usize = 0;
    while i < packet.tags.len()
        invariant
            i <= packet.tags@.len(),
            state.telemetry@ == spec_ingest(t0, packet@.tags.take(i as int)),
            state.connected == (conn_state != ConnectionState::Disconnected),
            state.code_running == !packet.status.code_initializing,
            state.voltage == packet.voltage,
            state.status == packet.status,
            state.sequence == packet.sequence,
            state.trip_time_ms == old(state).trip_time_ms,
            state.lost_packets == old(state).lost_packets,
        decreases packet.tags@.len() - i,
    {
        match &packet.tags[i] {
            RioTag::CanMetrics(c) => state.telemetry.can = *c,
            RioTag::PdpData(v) => state.telemetry.pdp_currents = slice_to_vec(v.as_slice()),
            RioTag::CpuUsage(v) => state.telemetry.cpu_usage = slice_to_vec(v.as_slice()),
            RioTag::RamUsage(r) => state.telemetry.ram_usage = *r,
            RioTag::DiskUsage(d) => state.telemetry.disk_free = *d,
            _ => {},
        }
        proof {
            let tags = packet@.tags;
            assert(tags.take(i + 1).drop_last() =~= tags.take(i as int));
            assert(tags.take(i + 1).last() == packet.tags@[i as int]@);
        }
        i = i + 1;
    }
    proof {
        assert(packet@.tags.take(packet.tags@.len() as int) =~= packet@.tags);
    }
}

/// Where a TCP message goes: standard output to its own stream, the rest to
/// the message stream.
pub enum Routed {
    Stdout(String),
    Message(TcpMessage),
}

/// Sort a message to the stdout stream or the message stream.
pub fn route_message(msg: TcpMessage) -> (r: Routed)
    ensures
        match (msg@, r) {
            (TcpMessageView::Stdout(t), Routed::Stdout(s)) => s@ == t,
            (TcpMessageView::Stdout(_), Routed::Message(_)) => false,
            (_, Routed::Message(m)) => m@ == msg@,
            _ => false,
        },
{
    match msg {
        TcpMessage::Stdout(text) => Routed::Stdout(text),
        other => Routed::Message(other),
    }
}

/// Mathematical state of a [`DriverStation`].
pub struct DsView {
    pub alliance: Alliance,
    pub control: ControlFlags,
    /// Requests carried by the next control packet only.
    pub pending: RequestFlags,
    pub joysticks: Seq<JoystickData>,
    pub game_data: Seq<char>,
    pub estopped: bool,
    pub connection: ConnectionView,
    pub robot: RobotStateView,
}

/// What every driver station holds to: the e-stop latch and the control
/// byte agree, an e-stopped robot is never enabled, the alliance is valid
/// and each joystick fits in its tag.
pub open spec fn ds_wf(v: DsView) -> bool {
    &&& v.estopped == v.control.estop
    &&& v.control.estop ==> !v.control.enabled
    &&& v.alliance.wf()
    &&& joysticks_fit(v.joysticks)
}

pub open spec fn spec_enable(v: DsView) -> DsView {
    if v.estopped {
        v
    } else {
        DsView { control: ControlFlags { enabled: true, ..v.control }, ..v }
    }
}

pub open spec fn spec_disable(v: DsView) -> DsView {
    DsView { control: ControlFlags { enabled: false, ..v.control }, ..v }
}

pub open spec fn spec_estop(v: DsView) -> DsView {
    DsView {
        estopped: true,
        control: ControlFlags { estop: true, enabled: false, ..v.control },
        ..v
    }
}

pub open spec fn spec_clear_estop(v: DsView) -> DsView {
    DsView { estopped: false, control: ControlFlags { estop: false, ..v.control }, ..v }
}

pub open spec fn spec_set_mode(v: DsView, mode: Mode) -> DsView {
    DsView { control: ControlFlags { mode, ..v.control }, ..v }
}

pub open spec fn spec_set_alliance(v: DsView, alliance: Alliance) -> DsView {
    DsView { alliance, ..v }
}

pub open spec fn spec_reboot_roborio(v: DsView) -> DsView {
    DsView { pending: RequestFlags { reboot_roborio: true, ..v.pending }, ..v }
}

pub open spec fn spec_restart_code(v: DsView) -> DsView {
    DsView { pending: RequestFlags { restart_code: true, ..v.pending }, ..v }
}

/// The next control packet, from the current control state.
pub open spec fn spec_packet(v: DsView) -> Seq<u8> {
    spec_ds_packet(v.connection.sequence, v.control, v.pending, v.alliance, v.joysticks)
}

/// The state after sending a control packet at `now`: the requests are
/// spent and the sequence moves on.
pub open spec fn spec_after_transmit(v: DsView, now: u64) -> DsView {
    DsView {
        pending: RequestFlags { reboot_roborio: false, restart_code: false },
        connection: spec_take_sequence(v.connection, now),
        ..v
    }
}

/// The command surface of the station and the state that it composes into
/// control packets, with the link supervisor and the robot snapshot.
pub struct DriverStation {
    alliance: Alliance,
    control: ControlFlags,
    pending: RequestFlags,
    joysticks: Vec<JoystickData>,
    game_data: String,
    estopped: bool,
    connection: ConnectionManager,
    robot: RobotState,
}

impl View for DriverStation {
    type V = DsView;

    closed spec fn view(&self) -> DsView {
        DsView {
            alliance: self.alliance,
            control: self.control,
            pending: self.pending,
            joysticks: self.joysticks@,
            game_data: self.game_data@,
            estopped: self.estopped,
            connection: self.connection@,
            robot: self.robot@,
        }
    }
}

impl DriverStation {
    /// The station's invariant, [`ds_wf`], on its view.
    pub open spec fn wf(&self) -> bool {
        ds_wf(self@)
    }

    /// A station for `team` at `alliance`: disabled, Teleop, not e-stopped,
    /// no joysticks, link down.
    pub fn new(team: u32, alliance: Alliance) -> (r: DriverStation)
        requires
            alliance.wf(),
        ensures
            r.wf(),
            r@ == (DsView {
                alliance,
                control: ControlFlags {
                    estop: false,
                    fms_connected: false,
                    enabled: false,
                    mode: Mode::Teleop,
                },
                pending: RequestFlags { reboot_roborio: false, restart_code: false },
                joysticks: Seq::empty(),
                game_data: Seq::empty(),
                estopped: false,
                connection: spec_initial_connection(team),
                robot: RobotState::spec_initial(),
            }),
    {
        let connection = ConnectionManager::new(team);
        DriverStation {
            alliance,
            control: ControlFlags::default(),
            pending: RequestFlags::default(),
            joysticks: Vec::new(),
            game_data: String::new(),
            estopped: false,
            connection,
            robot: RobotState::initial(),
        }
    }

    /// Enable the robot, unless it is e-stopped.
    pub fn enable(&mut self)
        requires
            old(self).wf(),
        ensures
            final(self).wf(),
            final(self)@ == spec_enable(old(self)@),
    {
        if !self.estopped {
            self.control.enabled = true;
        }
    }

    /// Disable the robot.
    pub fn disable(&mut self)
        requires
            old(self).wf(),
        ensures
            final(self).wf(),
            final(self)@ == spec_disable(old(self)@),
    {
        self.control.enabled = false;
    }

    /// Emergency stop: disable and latch until [`DriverStation::clear_estop`].
    pub fn estop(&mut self)
        requires
            old(self).wf(),
        ensures
            final(self).wf(),
            final(self)@ == spec_estop(old(self)@),
    {
        self.estopped = true;
        self.control.estop = true;
        self.control.enabled = false;
    }

    /// Release the e-stop latch. The robot stays disabled.
    pub fn clear_estop(&mut self)
        requires
            old(self).wf(),
        ensures
            final(self).wf(),
            final(self)@ == spec_clear_estop(old(self)@),
    {
        self.estopped = false;
        self.control.estop = false;
    }

    pub fn is_estopped(&self) -> (r: bool)
        ensures
            r == self@.estopped,
    {
        self.estopped
    }

    pub fn set_mode(&mut self, mode: Mode)
        requires
            old(self).wf(),
        ensures
            final(self).wf(),
            final(self)@ == spec_set_mode(old(self)@, mode),
    {
        self.control.mode = mode;
    }

    pub fn set_alliance(&mut self, alliance: Alliance)
        requires
            old(self).wf(),
            alliance.wf(),
        ensures
            final(self).wf(),
            final(self)@ == spec_set_alliance(old(self)@, alliance),
    {
        self.alliance = alliance;
    }

    /// Change the team; a new team makes the link resolve again.
    pub fn set_team(&mut self, team: u32)
        requires
            old(self).wf(),
        ensures
            final(self).wf(),
            final(self)@ == (DsView {
                connection: if team == old(self)@.connection.team {
                    old(self)@.connection
                } else {
                    ConnectionView {
                        team,
                        state: ConnectionState::Disconnected,
                        target: None,
                        ..old(self)@.connection
                    }
                },
                ..old(self)@
            }),
    {
        self.connection.set_team(team);
    }

    /// Use the USB address from the next resolution on.
    pub fn set_usb_mode(&mut self, usb: bool)
        requires
            old(self).wf(),
        ensures
            final(self).wf(),
            final(self)@ == (DsView {
                connection: ConnectionView { use_usb: usb, ..old(self)@.connection },
                ..old(self)@
            }),
    {
        self.connection.set_usb_mode(usb);
    }

    /// Replace the joystick inputs.
    pub fn set_joysticks(&mut self, joysticks: Vec<JoystickData>)
        requires
            old(self).wf(),
            joysticks_fit(joysticks@),
        ensures
            final(self).wf(),
            final(self)@ == (DsView { joysticks: joysticks@, ..old(self)@ }),
    {
        self.joysticks = joysticks;
    }

    /// Store the game data and return the TCP frame that carries it, when
    /// its bytes fit in one frame.
    pub fn set_game_data(&mut self, data: String) -> (r: Option<Vec<u8>>)
        requires
            old(self).wf(),
        ensures
            final(self).wf(),
            final(self)@ == (DsView { game_data: data@, ..old(self)@ }),
            r is Some <==> encode_utf8(data@).len() <= MAX_FRAME_PAYLOAD,
            r is Some ==> r->0@ == spec_encode_frame(0x0e, encode_utf8(data@)),
    {
        let text = data.as_str();
        let frame = if text.as_bytes().len() <= MAX_FRAME_PAYLOAD {
            Some(build_game_data_frame(text))
        } else {
            None
        };
        self.game_data = data;
        frame
    }

    /// Ask for a controller reboot in the next control packet only.
    pub fn reboot_roborio(&mut self)
        requires
            old(self).wf(),
        ensures
            final(self).wf(),
            final(self)@ == spec_reboot_roborio(old(self)@),
    {
        self.pending.reboot_roborio = true;
    }

    /// Ask for a robot code restart in the next control packet only.
    pub fn restart_code(&mut self)
        requires
            old(self).wf(),
        ensures
            final(self).wf(),
            final(self)@ == spec_restart_code(old(self)@),
    {
        self.pending.restart_code = true;
    }

    pub fn control(&self) -> (r: ControlFlags)
        ensures
            r == self@.control,
    {
        self.control
    }

    pub fn alliance(&self) -> (r: Alliance)
        ensures
            r == self@.alliance,
    {
        self.alliance
    }

    pub fn joysticks(&self) -> (r: &Vec<JoystickData>)
        ensures
            r@ == self@.joysticks,
    {
        &self.joysticks
    }

    pub fn game_data(&self) -> (r: &String)
        ensures
            r@ == self@.game_data,
    {
        &self.game_data
    }

    pub fn robot_state(&self) -> (r: &RobotState)
        ensures
            r@ == self@.robot,
    {
        &self.robot
    }

    pub fn connection(&self) -> (r: &ConnectionManager)
        ensures
            r@ == self@.connection,
    {
        &self.connection
    }

    /// Build the control packet to send at clock reading `now`. Pending
    /// requests go out in this packet and are then cleared.
    pub fn next_packet(&mut self, now: u64) -> (r: Vec<u8>)
        requires
            old(self).wf(),
        ensures
            final(self).wf(),
            r@ == spec_packet(old(self)@),
            final(self)@ == spec_after_transmit(old(self)@, now),
    {
        let seq = self.connection.take_sequence(now);
        let packet = build_ds_packet(
            seq,
            &self.control,
            &self.pending,
            &self.alliance,
            self.joysticks.as_slice(),
        );
        self.pending = RequestFlags::default();
        packet
    }

    /// Take a datagram received at `now`. A valid packet updates the link
    /// and the snapshot; an invalid one is counted by the link, leaves the
    /// snapshot as it was, and its error is returned.
    pub fn receive_datagram(&mut self, data: &[u8], now: u64) -> (r: Result<(), PacketError>)
        requires
            old(self).wf(),
        ensures
            final(self).wf(),
            match spec_parse_rio_packet(data@) {
                Ok(q) => {
                    let c = spec_received(old(self)@.connection, q, now);
                    &&& r is Ok
                    &&& final(self)@ == (DsView {
                        connection: c,
                        robot: RobotStateView {
                            trip_time_ms: c.trip_time_ms,
                            lost_packets: c.lost_packets,
                            ..spec_update_robot_state(old(self)@.robot, q, c.state)
                        },
                        ..old(self)@
                    })
                },
                Err(e) => r == Err::<(), PacketError>(e) && final(self)@ == (DsView {
                    connection: spec_rejected(old(self)@.connection),
                    ..old(self)@
                }),
            },
    {
        match self.connection.on_datagram(data, now) {
            Ok(packet) => {
                let state = self.connection.state();
                update_robot_state(&mut self.robot, &packet, state);
                self.robot.trip_time_ms = self.connection.trip_time_ms();
                self.robot.lost_packets = self.connection.lost_packets();
                Ok(())
            },
            Err(e) => Err(e),
        }
    }

    /// Start resolving the robot's address; see [`ConnectionManager::begin_resolve`].
    pub fn begin_resolve(&mut self) -> (r: Option<RobotAddress>)
        requires
            old(self).wf(),
        ensures
            final(self).wf(),
            r == (if old(self)@.connection.use_usb {
                Some(spec_usb_address())
            } else {
                None
            }),
            final(self)@ == (DsView {
                connection: ConnectionView {
                    state: ConnectionState::Resolving,
                    target: if old(self)@.connection.use_usb {
                        Some(spec_usb_address())
                    } else {
                        old(self)@.connection.target
                    },
                    ..old(self)@.connection
                },
                ..old(self)@
            }),
    {
        self.connection.begin_resolve()
    }

    /// Settle the robot's address; see [`ConnectionManager::finish_resolve`].
    pub fn finish_resolve(&mut self, found: Option<[u8; 4]>) -> (r: RobotAddress)
        requires
            old(self).wf(),
        ensures
            final(self).wf(),
            r == (RobotAddress {
                ip: match found {
                    Some(ip) => ip,
                    None => spec_team_ip(old(self)@.connection.team),
                },
                port: ROBOT_UDP_PORT,
            }),
            final(self)@ == (DsView {
                connection: ConnectionView { target: Some(r), ..old(self)@.connection },
                ..old(self)@
            }),
    {
        self.connection.finish_resolve(found)
    }

    /// Sockets are up at `now`; see [`ConnectionManager::begin_session`].
    pub fn begin_session(&mut self, now: u64)
        requires
            old(self).wf(),
        ensures
            final(self).wf(),
            final(self)@ == (DsView {
                connection: ConnectionView {
                    sequence: 0,
                    last_received: Some(now),
                    last_rx_sequence: None,
                    last_sent: None,
                    ..old(self)@.connection
                },
                ..old(self)@
            }),
    {
        self.connection.begin_session(now);
    }

    /// Drop the link and return the reconnect delay in milliseconds; the
    /// snapshot shows the robot disconnected.
    pub fn connection_lost(&mut self) -> (r: u64)
        requires
            old(self).wf(),
        ensures
            final(self).wf(),
            r == spec_backoff_ms(old(self)@.connection.reconnect_attempts),
            final(self)@ == (DsView {
                connection: spec_lost(old(self)@.connection),
                robot: RobotStateView { connected: false, ..old(self)@.robot },
                ..old(self)@
            }),
    {
        self.robot.connected = false;
        self.connection.connection_lost()
    }

    /// Check the liveness window at `now`; when it has run out the link is
    /// dropped as by [`DriverStation::connection_lost`] and the delay returned.
    pub fn poll_liveness(&mut self, now: u64) -> (r: Option<u64>)
        requires
            old(self).wf(),
        ensures
            final(self).wf(),
            spec_timed_out(old(self)@.connection, now) ==> r == Some(
                spec_backoff_ms(old(self)@.connection.reconnect_attempts),
            ) && final(self)@ == (DsView {
                connection: spec_lost(old(self)@.connection),
                robot: RobotStateView { connected: false, ..old(self)@.robot },
                ..old(self)@
            }),
            !spec_timed_out(old(self)@.connection, now) ==> r is None
                && final(self)@ == old(self)@,
    {
        let timed_out = self.connection.poll_liveness(now);
        if timed_out.is_some() {
            self.robot.connected = false;
        }
        timed_out
    }
}

} // verus!
