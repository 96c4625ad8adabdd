use vstd::arithmetic::power2::{
    lemma2_to64, lemma_pow2_strictly_increases, lemma_pow2_unfold, pow2,
};
use vstd::prelude::*;
use vstd::string::StringSliceAdditionalSpecFns;

use crate::incoming::{parse_rio_packet, spec_parse_rio_packet, PacketError, RioPacket, RioPacketView};

verus! {

/// Port of the robot that control packets go to.
pub const ROBOT_UDP_PORT: u16 = 1110;

/// Port that the station listens on for the robot's packets.
pub const STATION_UDP_PORT: u16 = 1150;

/// Port of the robot's TCP message service.
pub const ROBOT_TCP_PORT: u16 = 1740;

/// Milliseconds between control packets.
pub const SEND_PERIOD_MS: u64 = 20;

/// Milliseconds of silence after which the link counts as lost.
pub const LIVENESS_TIMEOUT_MS: u64 = 1000;

/// Milliseconds that an mDNS lookup may take before the static address is used.
pub const MDNS_TIMEOUT_MS: u64 = 2000;

/// First reconnect delay, in milliseconds.
pub const BACKOFF_BASE_MS: u64 = 100;

/// Longest reconnect delay, in milliseconds.
pub const BACKOFF_CAP_MS: u64 = 2000;

/// Service type that robots announce over mDNS.
pub const MDNS_SERVICE_TYPE: &'static str = "_ni._tcp.local.";

/// State of the link to the robot.
#[derive(Debug, Clone, Copy, PartialEq, Eq, Structural)]
pub enum ConnectionState {
    Disconnected,
    Resolving,
    Connected,
    CodeRunning,
}

/// An IPv4 address and port of the robot.
#[derive(Debug, Clone, Copy, PartialEq, Eq)]
pub struct RobotAddress {
    pub ip: [u8; 4],
    pub port: u16,
}

/// The fixed address of a robot reached over USB.
pub open spec fn spec_usb_address() -> RobotAddress {
    RobotAddress { ip: [172, 22, 11, 2], port: ROBOT_UDP_PORT }
}

/// Static address of a team's robot: `10.TE.AM.2` with TE = team / 100 and
/// AM = team % 100, each kept to its low byte.
pub open spec fn spec_team_ip(team: u32) -> [u8; 4] {
    [10, ((team / 100) % 256) as u8, (team % 100) as u8, 2]
}

/// Reconnect delay after `attempt` failed attempts: `min(100 * 2^attempt, 2000)` ms.
pub open spec fn spec_backoff_ms(attempt: u32) -> u64 {
    if BACKOFF_BASE_MS * pow2(attempt as nat) < BACKOFF_CAP_MS {
        (BACKOFF_BASE_MS * pow2(attempt as nat)) as u64
    } else {
        BACKOFF_CAP_MS
    }
}

/// Packets lost between the robot sequence numbers `prev` and `next`: the
/// gap, when `next` is ahead of `prev` by less than half the sequence space.
pub open spec fn spec_sequence_gap(prev: u16, next: u16) -> u32 {
    let ahead = (next as int - prev as int + 65536) % 65536;
    if 1 <= ahead < 32768 {
        (ahead - 1) as u32
    } else {
        0
    }
}

/// Mathematical state of a [`ConnectionManager`].
pub struct ConnectionView {
    pub team: u32,
    pub use_usb: bool,
    pub state: ConnectionState,
    pub target: Option<RobotAddress>,
    /// Sequence number of the next control packet.
    pub sequence: u16,
    pub reconnect_attempts: u32,
    /// Clock reading of the last packet received, or of the session start.
    pub last_received: Option<u64>,
    /// Sequence number of the last packet received in this session.
    pub last_rx_sequence: Option<u16>,
    pub lost_packets: u32,
    /// Datagrams dropped because they did not parse.
    pub decode_errors: u32,
    /// Malformed tags dropped from packets that did parse.
    pub dropped_tags: u32,
    /// Sequence number and clock reading of the last control packet sent.
    pub last_sent: Option<(u16, u64)>,
    pub trip_time_ms: u64,
}

/// Decisions of the link supervisor: address resolution, packet sequence,
/// liveness and reconnect backoff. The sockets live with the caller, which
/// reports what happened and carries out what is returned.
pub struct ConnectionManager {
    team: u32,
    use_usb: bool,
    state: ConnectionState,
    target: Option<RobotAddress>,
    sequence: u16,
    reconnect_attempts: u32,
    last_received: Option<u64>,
    last_rx_sequence: Option<u16>,
    lost_packets: u32,
    decode_errors: u32,
    dropped_tags: u32,
    last_sent: Option<(u16, u64)>,
    trip_time_ms: u64,
}

impl View for ConnectionManager {
    type V = ConnectionView;

    closed spec fn view(&self) -> ConnectionView {
        ConnectionView {
            team: self.team,
            use_usb: self.use_usb,
            state: self.state,
            target: self.target,
            sequence: self.sequence,
            reconnect_attempts: self.reconnect_attempts,
            last_received: self.last_received,
            last_rx_sequence: self.last_rx_sequence,
            lost_packets: self.lost_packets,
            decode_errors: self.decode_errors,
            dropped_tags: self.dropped_tags,
            last_sent: self.last_sent,
            trip_time_ms: self.trip_time_ms,
        }
    }
}

/// A manager for `team` that has not connected yet.
pub open spec fn spec_initial_connection(team: u32) -> ConnectionView {
    ConnectionView {
        team,
        use_usb: false,
        state: ConnectionState::Disconnected,
        target: None,
        sequence: 0,
        reconnect_attempts: 0,
        last_received: None,
        last_rx_sequence: None,
        lost_packets: 0,
        decode_errors: 0,
        dropped_tags: 0,
        last_sent: None,
        trip_time_ms: 0,
    }
}

/// The link counts as lost at `now`: nothing received for the timeout.
pub open spec fn spec_timed_out(v: ConnectionView, now: u64) -> bool {
    match v.last_received {
        Some(t) => now >= t && now - t >= LIVENESS_TIMEOUT_MS,
        None => false,
    }
}

/// The state once the link is dropped: disconnected, one more attempt counted.
pub open spec fn spec_lost(v: ConnectionView) -> ConnectionView {
    ConnectionView {
        state: ConnectionState::Disconnected,
        last_received: None,
        last_rx_sequence: None,
        reconnect_attempts: if v.reconnect_attempts < u32::MAX {
            (v.reconnect_attempts + 1) as u32
        } else {
            u32::MAX
        },
        ..v
    }
}

/// The state after a datagram that did not parse: one more decode error.
pub open spec fn spec_rejected(v: ConnectionView) -> ConnectionView {
    ConnectionView {
        decode_errors: if v.decode_errors < u32::MAX {
            (v.decode_errors + 1) as u32
        } else {
            u32::MAX
        },
        ..v
    }
}

/// The state after taking the sequence number for a packet sent at `now`.
pub open spec fn spec_take_sequence(v: ConnectionView, now: u64) -> ConnectionView {
    ConnectionView {
        sequence: ((v.sequence + 1) % 65536) as u16,
        last_sent: Some((v.sequence, now)),
        ..v
    }
}

/// The state after the valid packet `q` arrives at `now`.
pub open spec fn spec_received(v: ConnectionView, q: RioPacketView, now: u64) -> ConnectionView {
    let seq = q.sequence;
    ConnectionView {
        state: if q.status.code_initializing {
            ConnectionState::Connected
        } else {
            ConnectionState::CodeRunning
        },
        reconnect_attempts: 0,
        last_received: Some(now),
        last_rx_sequence: Some(seq),
        lost_packets: match v.last_rx_sequence {
            Some(p) => if v.lost_packets + spec_sequence_gap(p, seq) <= u32::MAX {
                (v.lost_packets + spec_sequence_gap(p, seq)) as u32
            } else {
                u32::MAX
            },
            None => v.lost_packets,
        },
        trip_time_ms: match v.last_sent {
            Some((s, t)) => if s == seq && now >= t {
                (now - t) as u64
            } else {
                v.trip_time_ms
            },
            None => v.trip_time_ms,
        },
        dropped_tags: if v.dropped_tags + q.dropped_tags <= u32::MAX {
            (v.dropped_tags + q.dropped_tags) as u32
        } else {
            u32::MAX
        },
        ..v
    }
}

proof fn lemma_backoff_capped(attempt: u32)
    ensures
        attempt >= 5 ==> BACKOFF_BASE_MS * pow2(attempt as nat) >= BACKOFF_CAP_MS,
        attempt < 5 ==> BACKOFF_BASE_MS * pow2(attempt as nat) < BACKOFF_CAP_MS,
{
    lemma2_to64();
    if attempt > 5 {
        lemma_pow2_strictly_increases(5, attempt as nat);
    }
}

/// Reconnect delay after `attempt` failed attempts, in milliseconds.
pub fn backoff_delay_ms(attempt: u32) -> (r: u64)
    ensures
        r == spec_backoff_ms(attempt),
        r <= BACKOFF_CAP_MS,
{
    proof {
        lemma_backoff_capped(attempt);
        lemma2_to64();
    }
    if attempt >= 5 {
        return BACKOFF_CAP_MS;
    }
    let mut delay: u64 = BACKOFF_BASE_MS;
    let mut i: u32 = 0;
    while i < attempt
        invariant
            i <= attempt < 5,
            delay == BACKOFF_BASE_MS * pow2(i as nat),
            BACKOFF_BASE_MS * pow2(attempt as nat) < BACKOFF_CAP_MS,
        decreases attempt - i,
    {
        proof {
            lemma_pow2_unfold((i + 1) as nat);
            if i + 1 < attempt {
                lemma_pow2_strictly_increases((i + 1) as nat, attempt as nat);
            }
        }
        delay = delay * 2;
        i = i + 1;
    }
    delay
}

impl ConnectionManager {
    /// A disconnected manager for `team`.
    pub fn new(team: u32) -> (r: ConnectionManager)
        ensures
            r@ == spec_initial_connection(team),
    {
        ConnectionManager {
            team,
            use_usb: false,
            state: ConnectionState::Disconnected,
            target: None,
            sequence: 0,
            reconnect_attempts: 0,
            last_received: None,
            last_rx_sequence: None,
            lost_packets: 0,
            decode_errors: 0,
            dropped_tags: 0,
            last_sent: None,
            trip_time_ms: 0,
        }
    }

    /// Change the team. A new team drops the link and forgets the target.
    pub fn set_team(&mut self, team: u32)
        ensures
            final(self)@ == (if team == old(self)@.team {
                old(self)@
            } else {
                ConnectionView {
                    team,
                    state: ConnectionState::Disconnected,
                    target: None,
                    ..old(self)@
                }
            }),
    {
        if self.team != team {
            self.team = team;
            self.state = ConnectionState::Disconnected;
            self.target = None;
        }
    }

    /// Use the USB address from the next resolution on.
    pub fn set_usb_mode(&mut self, usb: bool)
        ensures
            final(self)@ == (ConnectionView { use_usb: usb, ..old(self)@ }),
    {
        self.use_usb = usb;
    }

    pub fn team(&self) -> (r: u32)
        ensures
            r == self@.team,
    {
        self.team
    }

    pub fn use_usb(&self) -> (r: bool)
        ensures
            r == self@.use_usb,
    {
        self.use_usb
    }

    pub fn state(&self) -> (r: ConnectionState)
        ensures
            r == self@.state,
    {
        self.state
    }

    /// The resolved robot address, if any.
    pub fn target(&self) -> (r: Option<RobotAddress>)
        ensures
            r == self@.target,
    {
        self.target
    }

    /// Time from sending a control packet to receiving the reply that
    /// carries its sequence number, in milliseconds, for the last such pair.
    pub fn trip_time_ms(&self) -> (r: u64)
        ensures
            r == self@.trip_time_ms,
    {
        self.trip_time_ms
    }

    /// Packets missing from the robot's sequence since the manager began.
    pub fn lost_packets(&self) -> (r: u32)
        ensures
            r == self@.lost_packets,
    {
        self.lost_packets
    }

    /// Malformed tags dropped from packets that did parse.
    pub fn dropped_tags(&self) -> (r: u32)
        ensures
            r == self@.dropped_tags,
    {
        self.dropped_tags
    }

    /// Datagrams dropped because they did not parse.
    pub fn decode_errors(&self) -> (r: u32)
        ensures
            r == self@.decode_errors,
    {
        self.decode_errors
    }

    pub fn reconnect_attempts(&self) -> (r: u32)
        ensures
            r == self@.reconnect_attempts,
    {
        self.reconnect_attempts
    }

    /// Static address of a team's robot: `10.TE.AM.2`.
    pub fn team_to_ip(team: u32) -> (r: [u8; 4])
        ensures
            r == spec_team_ip(team),
    {
        [10, ((team / 100) % 256) as u8, (team % 100) as u8, 2]
    }

    /// Start resolving the robot's address. In USB mode the address is known
    /// and returned; otherwise the caller looks the robot up over mDNS and
    /// hands the answer to [`ConnectionManager::finish_resolve`].
    pub fn begin_resolve(&mut self) -> (r: Option<RobotAddress>)
        ensures
            final(self)@ == (ConnectionView {
                state: ConnectionState::Resolving,
                target: if old(self)@.use_usb {
                    Some(spec_usb_address())
                } else {
                    old(self)@.target
                },
                ..old(self)@
            }),
            r == (if old(self)@.use_usb {
                Some(spec_usb_address())
            } else {
                None
            }),
    {
        self.state = ConnectionState::Resolving;
        if self.use_usb {
            let usb = RobotAddress { ip: [172, 22, 11, 2], port: ROBOT_UDP_PORT };
            self.target = Some(usb);
            Some(usb)
        } else {
            None
        }
    }

    /// Settle the address: the one that mDNS found, else the team's static address.
    pub fn finish_resolve(&mut self, found: Option<[u8; 4]>) -> (r: RobotAddress)
        ensures
            r == (RobotAddress {
                ip: match found {
                    Some(ip) => ip,
                    None => spec_team_ip(old(self)@.team),
                },
                port: ROBOT_UDP_PORT,
            }),
            final(self)@ == (ConnectionView { target: Some(r), ..old(self)@ }),
    {
        let ip = match found {
            Some(ip) => ip,
            None => ConnectionManager::team_to_ip(self.team),
        };
        let addr = RobotAddress { ip, port: ROBOT_UDP_PORT };
        self.target = Some(addr);
        addr
    }

    /// Sockets are up at clock reading `now`: the sequence starts at zero
    /// and the liveness window opens.
    pub fn begin_session(&mut self, now: u64)
        ensures
            final(self)@ == (ConnectionView {
                sequence: 0,
                last_received: Some(now),
                last_rx_sequence: None,
                last_sent: None,
                ..old(self)@
            }),
    {
        self.sequence = 0;
        self.last_received = Some(now);
        self.last_rx_sequence = None;
        self.last_sent = None;
    }

    /// Sequence number for a control packet sent at `now`; the next one is
    /// one more, modulo 2^16.
    pub fn take_sequence(&mut self, now: u64) -> (r: u16)
        ensures
            r == old(self)@.sequence,
            final(self)@ == spec_take_sequence(old(self)@, now),
    {
        let seq = self.sequence;
        self.sequence = self.sequence.wrapping_add(1);
        self.last_sent = Some((seq, now));
        seq
    }

    /// A datagram arrived at `now`. A valid packet refreshes the liveness
    /// window, sets the link state from its status, resets the reconnect
    /// attempts, and updates the loss and trip-time counts; an invalid one
    /// is dropped and counted.
    pub fn on_datagram(&mut self, data: &[u8], now: u64) -> (r: Result<RioPacket, PacketError>)
        ensures
            match (r, spec_parse_rio_packet(data@)) {
                (Ok(p), Ok(q)) => p@ == q && final(self)@ == spec_received(old(self)@, q, now),
                (Err(e), Err(f)) => e == f && final(self)@ == spec_rejected(old(self)@),
                _ => false,
            },
    {
        let r = parse_rio_packet(data);
        if let Ok(packet) = &r {
            let seq = packet.sequence;
            self.state = if packet.status.code_initializing {
                ConnectionState::Connected
            } else {
                ConnectionState::CodeRunning
            };
            self.reconnect_attempts = 0;
            self.last_received = Some(now);
            if let Some(prev) = self.last_rx_sequence {
                let gap = sequence_gap(prev, seq);
                self.lost_packets = self.lost_packets.saturating_add(gap);
            }
            self.last_rx_sequence = Some(seq);
            let dropped: u32 = if packet.dropped_tags > u32::MAX as usize {
                u32::MAX
            } else {
                packet.dropped_tags as u32
            };
            self.dropped_tags = self.dropped_tags.saturating_add(dropped);
            if let Some((sent, at)) = self.last_sent {
                if sent == seq && now >= at {
                    self.trip_time_ms = now - at;
                }
            }
        } else {
            self.decode_errors = self.decode_errors.saturating_add(1);
        }
        r
    }

    /// Drop the link: disconnected, and the delay before the next attempt,
    /// in milliseconds.
    pub fn connection_lost(&mut self) -> (r: u64)
        ensures
            r == spec_backoff_ms(old(self)@.reconnect_attempts),
            final(self)@ == spec_lost(old(self)@),
    {
        let delay = backoff_delay_ms(self.reconnect_attempts);
        self.state = ConnectionState::Disconnected;
        self.last_received = None;
        self.last_rx_sequence = None;
        self.reconnect_attempts = self.reconnect_attempts.saturating_add(1);
        delay
    }

    /// Check the liveness window at `now`. When nothing has arrived for the
    /// timeout the link is dropped and the reconnect delay returned.
    pub fn poll_liveness(&mut self, now: u64) -> (r: Option<u64>)
        ensures
            spec_timed_out(old(self)@, now) ==> r == Some(spec_backoff_ms(old(self)@.reconnect_attempts))
                && final(self)@ == spec_lost(old(self)@),
            !spec_timed_out(old(self)@, now) ==> r is None && final(self)@ == old(self)@,
    {
        let timed_out = match self.last_received {
            Some(t) => now >= t && now - t >= LIVENESS_TIMEOUT_MS,
            None => false,
        };
        if timed_out {
            Some(self.connection_lost())
        } else {
            None
        }
    }
}

/// ASCII decimal digits of `n`, without leading zeros.
pub open spec fn spec_decimal(n: nat) -> Seq<u8>
    decreases n,
{
    if n < 10 {
        seq![(48 + n) as u8]
    } else {
        spec_decimal(n / 10).push((48 + n % 10) as u8)
    }
}

/// `needle` occurs in `hay` at `i`.
pub open spec fn occurs_at(hay: Seq<u8>, needle: Seq<u8>, i: int) -> bool {
    0 <= i && i + needle.len() <= hay.len() && hay.subrange(i, i + needle.len()) == needle
}

/// `needle` occurs somewhere in `hay`.
pub open spec fn occurs_in(hay: Seq<u8>, needle: Seq<u8>) -> bool {
    exists|i: int| occurs_at(hay, needle, i)
}

/// Decimal digits of `n`.
pub fn decimal_digits(n: u32) -> (r: Vec<u8>)
    ensures
        r@ == spec_decimal(n as nat),
{
    let mut digits: Vec<u8> = Vec::new();
    let mut m: u32 = n;
    let mut started = false;
    while !started || m > 0
        invariant
            !started ==> m == n && digits@.len() == 0,
            started && m > 0 ==> spec_decimal(n as nat) == spec_decimal(m as nat) + digits@,
            started && m == 0 ==> spec_decimal(n as nat) == digits@,
        decreases m, if started { 0int } else { 1int },
    {
        let d = (48 + m % 10) as u8;
        let ghost before = digits@;
        digits.insert(0, d);
        proof {
            assert(digits@ =~= seq![d] + before);
            if m >= 10 {
                assert(spec_decimal(m as nat) == spec_decimal((m / 10) as nat).push(d));
                assert(spec_decimal(m as nat) + before =~= spec_decimal((m / 10) as nat) + digits@);
            } else {
                assert(spec_decimal(m as nat) =~= seq![d]);
                if started {
                    assert(spec_decimal(m as nat) + before =~= digits@);
                }
            }
        }
        m = m / 10;
        started = true;
    }
    digits
}

/// Whether an mDNS service's full name belongs to the team: it contains
/// the team number in decimal.
pub fn service_matches_team(fullname: &str, team: u32) -> (r: bool)
    ensures
        r == occurs_in(fullname.spec_bytes(), spec_decimal(team as nat)),
{
    let hay = fullname.as_bytes();
    let needle = decimal_digits(team);
    if needle.len() > hay.len() {
        proof {
            assert forall|i: int| !occurs_at(hay@, needle@, i) by {}
        }
        return false;
    }
    let hay_len = hay.len();
    let last = hay_len - needle.len();
    let mut i: usize = 0;
    while i <= last
        invariant
            hay_len == hay@.len(),
            needle@ == spec_decimal(team as nat),
            hay@ == fullname.spec_bytes(),
            last == hay@.len() - needle@.len(),
            i <= last + 1,
            forall|k: int| 0 <= k < i ==> !occurs_at(hay@, needle@, k),
        decreases last + 1 - i,
    {
        let mut j: usize = 0;
        while j < needle.len() && hay[i + j] == needle[j]
            invariant
                hay_len == hay@.len(),
                needle@ == spec_decimal(team as nat),
                hay@ == fullname.spec_bytes(),
                i <= last,
                last == hay@.len() - needle@.len(),
                j <= needle@.len(),
                forall|q: int| 0 <= q < j ==> hay@[i + q] == needle@[q],
            decreases needle@.len() - j,
        {
            j = j + 1;
        }
        if j == needle.len() {
            proof {
                assert(hay@.subrange(i as int, i + needle@.len()) =~= needle@);
                assert(occurs_at(hay@, needle@, i as int));
            }
            return true;
        }
        proof {
            assert(hay@.subrange(i as int, i + needle@.len())[j as int] != needle@[j as int]);
        }
        i = i + 1;
    }
    proof {
        assert forall|k: int| !occurs_at(hay@, needle@, k) by {
            if 0 <= k && k + needle@.len() <= hay@.len() {
                assert(k < i);
            }
        }
    }
    false
}

fn sequence_gap(prev: u16, next: u16) -> (r: u32)
    ensures
        r == spec_sequence_gap(prev, next),
{
    let ahead: u32 = ((next as u32 + 65536) - prev as u32) % 65536;
    if 1 <= ahead && ahead < 32768 {
        ahead - 1
    } else {
        0
    }
}

} // verus!
