use vstd::prelude::*;
use vstd::slice::slice_to_vec;

use crate::types::{BatteryVoltage, CanMetrics, StatusFlags};

verus! {

/// Big-endian value of the two bytes of `p` at `i`.
pub open spec fn be16(p: Seq<u8>, i: int) -> int {
    p[i] as int * 256 + p[i + 1] as int
}

/// Big-endian value of the four bytes of `p` at `i`.
pub open spec fn be32(p: Seq<u8>, i: int) -> int {
    be16(p, i) * 65536 + be16(p, i + 2)
}

/// Why an inbound packet was rejected.
#[derive(Debug, Clone, Copy, PartialEq, Eq, Structural)]
pub enum PacketError {
    /// Fewer bytes than the fixed header.
    TooShort { expected: usize, actual: usize },
    /// The version byte is not 1.
    InvalidVersion(u8),
    /// A tag that could not be read.
    UnknownTag(u8),
}

impl PacketError {
    /// What went wrong, in words.
    pub fn message(&self) -> (r: &'static str)
        ensures
            r@ == (match self {
                PacketError::TooShort { .. } => "packet too short"@,
                PacketError::InvalidVersion(_) => "invalid comm version"@,
                PacketError::UnknownTag(_) => "unknown tag"@,
            }),
    {
        match self {
            PacketError::TooShort { .. } => "packet too short",
            PacketError::InvalidVersion(_) => "invalid comm version",
            PacketError::UnknownTag(_) => "unknown tag",
        }
    }
}

/// A parsed telemetry tag.
///
/// CPU usage values are in 256ths of a percent; PDP currents are raw
/// 10-bit channel readings in eighths of an ampere.
#[derive(Debug, Clone)]
pub enum RioTag {
    JoystickOutput { outputs: u32, left_rumble: u16, right_rumble: u16 },
    DiskUsage(u32),
    CpuUsage(Vec<u16>),
    RamUsage(u32),
    PdpData(Vec<u16>),
    CanMetrics(CanMetrics),
    Unknown(u8, Vec<u8>),
}

/// Mathematical form of a [`RioTag`].
pub enum RioTagView {
    JoystickOutput { outputs: u32, left_rumble: u16, right_rumble: u16 },
    DiskUsage(u32),
    CpuUsage(Seq<u16>),
    RamUsage(u32),
    PdpData(Seq<u16>),
    CanMetrics(CanMetrics),
    Unknown(u8, Seq<u8>),
}

impl View for RioTag {
    type V = RioTagView;

    open spec fn view(&self) -> RioTagView {
        match self {
            RioTag::JoystickOutput { outputs, left_rumble, right_rumble } => RioTagView::JoystickOutput {
                outputs: *outputs,
                left_rumble: *left_rumble,
                right_rumble: *right_rumble,
            },
            RioTag::DiskUsage(v) => RioTagView::DiskUsage(*v),
            RioTag::CpuUsage(v) => RioTagView::CpuUsage(v@),
            RioTag::RamUsage(v) => RioTagView::RamUsage(*v),
            RioTag::PdpData(v) => RioTagView::PdpData(v@),
            RioTag::CanMetrics(c) => RioTagView::CanMetrics(*c),
            RioTag::Unknown(id, p) => RioTagView::Unknown(*id, p@),
        }
    }
}

/// A parsed robot-to-station UDP packet.
#[derive(Debug, Clone)]
pub struct RioPacket {
    pub sequence: u16,
    pub status: StatusFlags,
    pub trace: u8,
    pub voltage: BatteryVoltage,
    pub request_date: bool,
    pub tags: Vec<RioTag>,
    /// Malformed tags (of size zero) that were dropped.
    pub dropped_tags: usize,
}

/// Mathematical form of a [`RioPacket`].
pub struct RioPacketView {
    pub sequence: u16,
    pub status: StatusFlags,
    pub trace: u8,
    pub voltage: BatteryVoltage,
    pub request_date: bool,
    pub tags: Seq<RioTagView>,
    pub dropped_tags: usize,
}

pub open spec fn tags_view(tags: Seq<RioTag>) -> Seq<RioTagView> {
    tags.map_values(|t: RioTag| t@)
}

impl View for RioPacket {
    type V = RioPacketView;

    open spec fn view(&self) -> RioPacketView {
        RioPacketView {
            sequence: self.sequence,
            status: self.status,
            trace: self.trace,
            voltage: self.voltage,
            request_date: self.request_date,
            tags: tags_view(self.tags@),
            dropped_tags: self.dropped_tags,
        }
    }
}

/// CPU usage values: a count byte, then that many big-endian pairs, as many
/// as the payload holds in full.
pub open spec fn spec_cpu_values(p: Seq<u8>) -> Seq<u16> {
    if p.len() == 0 {
        Seq::empty()
    } else {
        let n = if (p[0] as int) < (p.len() - 1) / 2 {
            p[0] as int
        } else {
            (p.len() - 1) / 2
        };
        Seq::new(n as nat, |i: int| be16(p, 1 + 2 * i) as u16)
    }
}

/// Channel `c` (0..3) of the five-byte PDP group that starts at `o`.
pub open spec fn spec_pdp_channel(p: Seq<u8>, o: int, c: int) -> u16 {
    (if c == 0 {
        p[o] as int * 4 + p[o + 1] as int / 64
    } else if c == 1 {
        (p[o + 1] as int % 64) * 16 + p[o + 2] as int / 16
    } else if c == 2 {
        (p[o + 2] as int % 16) * 64 + p[o + 3] as int / 4
    } else {
        (p[o + 3] as int % 4) * 256 + p[o + 4] as int
    }) as u16
}

/// Number of complete five-byte PDP groups, at most four.
pub open spec fn spec_pdp_groups(p: Seq<u8>) -> int {
    if p.len() as int / 5 < 4 {
        p.len() as int / 5
    } else {
        4
    }
}

/// PDP channels: four 10-bit channels from each complete group.
pub open spec fn spec_pdp_values(p: Seq<u8>) -> Seq<u16> {
    Seq::new((4 * spec_pdp_groups(p)) as nat, |i: int| spec_pdp_channel(p, 5 * (i / 4), i % 4))
}

/// The tag that `id` and `payload` stand for. A payload too short for its
/// fields reads as zeros.
pub open spec fn spec_tag(id: u8, p: Seq<u8>) -> RioTagView {
    if id == 0x01 {
        if p.len() < 8 {
            RioTagView::JoystickOutput { outputs: 0, left_rumble: 0, right_rumble: 0 }
        } else {
            RioTagView::JoystickOutput {
                outputs: be32(p, 0) as u32,
                left_rumble: be16(p, 4) as u16,
                right_rumble: be16(p, 6) as u16,
            }
        }
    } else if id == 0x04 {
        RioTagView::DiskUsage(if p.len() < 4 { 0 } else { be32(p, 0) as u32 })
    } else if id == 0x05 {
        RioTagView::CpuUsage(spec_cpu_values(p))
    } else if id == 0x06 {
        RioTagView::RamUsage(if p.len() < 4 { 0 } else { be32(p, 0) as u32 })
    } else if id == 0x08 {
        RioTagView::PdpData(spec_pdp_values(p))
    } else if id == 0x0e {
        RioTagView::CanMetrics(
            if p.len() < 7 {
                CanMetrics::spec_zero()
            } else {
                CanMetrics {
                    utilization: p[0],
                    bus_off_count: be16(p, 1) as u32,
                    tx_full_count: be16(p, 3) as u32,
                    rx_error_count: p[5],
                    tx_error_count: p[6],
                }
            },
        )
    } else {
        RioTagView::Unknown(id, p)
    }
}

/// The tags in `data` from `pos` on. Each is `[size][id][size - 1 bytes]`.
/// A tag of size zero is skipped; a truncated tag ends the list.
pub open spec fn spec_tags_from(data: Seq<u8>, pos: int) -> Seq<RioTagView>
    decreases data.len() - pos,
{
    if pos < 0 || data.len() - pos < 2 {
        Seq::empty()
    } else {
        let size = data[pos] as int;
        if data.len() - pos < 1 + size {
            Seq::empty()
        } else if size == 0 {
            spec_tags_from(data, pos + 1)
        } else {
            seq![spec_tag(data[pos + 1], data.subrange(pos + 2, pos + 1 + size))]
                + spec_tags_from(data, pos + 1 + size)
        }
    }
}

/// Number of tags of size zero dropped from `pos` on, before the list ends.
pub open spec fn spec_dropped_from(data: Seq<u8>, pos: int) -> nat
    decreases data.len() - pos,
{
    if pos < 0 || data.len() - pos < 2 {
        0
    } else {
        let size = data[pos] as int;
        if data.len() - pos < 1 + size {
            0
        } else if size == 0 {
            1 + spec_dropped_from(data, pos + 1)
        } else {
            spec_dropped_from(data, pos + 1 + size)
        }
    }
}

proof fn lemma_dropped_bound(data: Seq<u8>, pos: int)
    requires
        0 <= pos <= data.len(),
    ensures
        spec_dropped_from(data, pos) <= data.len() - pos,
    decreases data.len() - pos,
{
    if data.len() - pos >= 2 {
        let size = data[pos] as int;
        if data.len() - pos >= 1 + size {
            if size == 0 {
                lemma_dropped_bound(data, pos + 1);
            } else {
                lemma_dropped_bound(data, pos + 1 + size);
            }
        }
    }
}

/// The packet that `data` encodes:
/// `[seq:u16][ver=1][status][trace][volt_hi][volt_lo][request_date][tags]`.
pub open spec fn spec_parse_rio_packet(data: Seq<u8>) -> Result<RioPacketView, PacketError> {
    if data.len() < 8 {
        Err(PacketError::TooShort { expected: 8, actual: data.len() as usize })
    } else if data[2] != 1 {
        Err(PacketError::InvalidVersion(data[2]))
    } else {
        Ok(
            RioPacketView {
                sequence: be16(data, 0) as u16,
                status: StatusFlags::spec_from_byte(data[3]),
                trace: data[4],
                voltage: BatteryVoltage::spec_from_bytes(data[5], data[6]),
                request_date: data[7] != 0,
                tags: spec_tags_from(data, 8),
                dropped_tags: spec_dropped_from(data, 8) as usize,
            },
        )
    }
}

pub(crate) fn read_be16(p: &[u8], i: usize) -> (r: u16)
    requires
        i + 2 <= p@.len(),
    ensures
        r == be16(p@, i as int),
{
    p[i] as u16 * 256 + p[i + 1] as u16
}

pub(crate) fn read_be32(p: &[u8], i: usize) -> (r: u32)
    requires
        i + 4 <= p@.len(),
    ensures
        r == be32(p@, i as int),
{
    let n = p.len();
    assert(i + 4 <= n);
    read_be16(p, i) as u32 * 65536 + read_be16(p, i + 2) as u32
}

/// Parse a complete robot-to-station UDP packet.
pub fn parse_rio_packet(data: &[u8]) -> (r: Result<RioPacket, PacketError>)
    ensures
        match (r, spec_parse_rio_packet(data@)) {
            (Ok(p), Ok(q)) => p@ == q,
            (Err(e), Err(f)) => e == f,
            _ => false,
        },
{
    if data.len() < 8 {
        return Err(PacketError::TooShort { expected: 8, actual: data.len() });
    }
    let sequence = read_be16(data, 0);
    let comm_version = data[2];
    if comm_version != 1 {
        return Err(PacketError::InvalidVersion(comm_version));
    }
    let status = StatusFlags::from_byte(data[3]);
    let trace = data[4];
    let voltage = BatteryVoltage::from_bytes(data[5], data[6]);
    let request_date = data[7] != 0;
    let (tags, dropped_tags) = parse_tags(data, 8);
    Ok(RioPacket { sequence, status, trace, voltage, request_date, tags, dropped_tags })
}

/// Parse the tags of `data` from `start` on; also the number of tags dropped.
fn parse_tags(data: &[u8], start: usize) -> (r: (Vec<RioTag>, usize))
    requires
        start <= data@.len(),
    ensures
        tags_view(r.0@) == spec_tags_from(data@, start as int),
        r.1 == spec_dropped_from(data@, start as int),
{
    let mut tags: Vec<RioTag> = Vec::new();
    let mut dropped: usize = 0;
    let mut pos: usize = start;
    proof {
        lemma_dropped_bound(data@, start as int);
    }
    while data.len() - pos >= 2
        invariant
            start <= pos <= data@.len(),
            tags_view(tags@) + spec_tags_from(data@, pos as int) == spec_tags_from(
                data@,
                start as int,
            ),
            dropped + spec_dropped_from(data@, pos as int) == spec_dropped_from(
                data@,
                start as int,
            ),
            spec_dropped_from(data@, start as int) <= data@.len(),
        ensures
            start <= pos <= data@.len(),
            tags_view(tags@) == spec_tags_from(data@, start as int),
            dropped == spec_dropped_from(data@, start as int),
        decreases data@.len() - pos,
    {
        let size = data[pos] as usize;
        if data.len() - pos < 1 + size {
            proof {
                assert(tags_view(tags@) + Seq::<RioTagView>::empty() == tags_view(tags@));
            }
            break;
        }
        if size == 0 {
            dropped = dropped + 1;
            pos = pos + 1;
        } else {
            let payload = &data[pos + 2..pos + 1 + size];
            let tag = parse_tag(data[pos + 1], payload);
            let ghost before = tags@;
            tags.push(tag);
            proof {
                assert(tags_view(tags@) == tags_view(before) + seq![tag@]);
            }
            pos = pos + 1 + size;
        }
    }
    (tags, dropped)
}

/// Parse one tag from its id and payload.
fn parse_tag(id: u8, payload: &[u8]) -> (r: RioTag)
    ensures
        r@ == spec_tag(id, payload@),
{
    if id == 0x01 {
        parse_joystick_output(payload)
    } else if id == 0x04 {
        RioTag::DiskUsage(
            if payload.len() < 4 {
                0
            } else {
                read_be32(payload, 0)
            },
        )
    } else if id == 0x05 {
        RioTag::CpuUsage(parse_cpu_usage(payload))
    } else if id == 0x06 {
        RioTag::RamUsage(
            if payload.len() < 4 {
                0
            } else {
                read_be32(payload, 0)
            },
        )
    } else if id == 0x08 {
        RioTag::PdpData(parse_pdp_data(payload))
    } else if id == 0x0e {
        RioTag::CanMetrics(parse_can_metrics(payload))
    } else {
        RioTag::Unknown(id, slice_to_vec(payload))
    }
}

/// Joystick output tag: `[outputs:u32][left_rumble:u16][right_rumble:u16]`.
fn parse_joystick_output(p: &[u8]) -> (r: RioTag)
    ensures
        r@ == spec_tag(0x01, p@),
{
    if p.len() < 8 {
        RioTag::JoystickOutput { outputs: 0, left_rumble: 0, right_rumble: 0 }
    } else {
        RioTag::JoystickOutput {
            outputs: read_be32(p, 0),
            left_rumble: read_be16(p, 4),
            right_rumble: read_be16(p, 6),
        }
    }
}

/// CPU usage tag: `[count][hi, lo] x count`.
fn parse_cpu_usage(p: &[u8]) -> (r: Vec<u16>)
    ensures
        r@ == spec_cpu_values(p@),
{
    let mut values: Vec<u16> = Vec::new();
    if p.len() == 0 {
        return values;
    }
    let count = p[0] as usize;
    let mut i: usize = 0;
    while i < count && 2 * i + 2 < p.len()
        invariant
            p@.len() >= 1,
            count == p@[0],
            i <= count,
            2 * i + 1 <= p@.len(),
            values@.len() == i,
            forall|k: int| 0 <= k < i ==> values@[k] == be16(p@, 1 + 2 * k) as u16,
        decreases count - i,
    {
        values.push(read_be16(p, 1 + 2 * i));
        i = i + 1;
    }
    assert(values@ =~= spec_cpu_values(p@));
    values
}

/// PDP tag: 16 channels of 10 bits, four to each five-byte group.
fn parse_pdp_data(p: &[u8]) -> (r: Vec<u16>)
    ensures
        r@ == spec_pdp_values(p@),
{
    let mut currents: Vec<u16> = Vec::new();
    let mut group: usize = 0;
    while group < 4 && 5 * group + 4 < p.len()
        invariant
            group <= 4,
            group <= spec_pdp_groups(p@),
            currents@.len() == 4 * group,
            forall|k: int|
                0 <= k < 4 * group ==> currents@[k] == spec_pdp_channel(p@, 5 * (k / 4), k % 4),
        decreases 4 - group,
    {
        let o = 5 * group;
        let b0 = p[o] as u16;
        let b1 = p[o + 1] as u16;
        let b2 = p[o + 2] as u16;
        let b3 = p[o + 3] as u16;
        let b4 = p[o + 4] as u16;
        currents.push(b0 * 4 + b1 / 64);
        currents.push((b1 % 64) * 16 + b2 / 16);
        currents.push((b2 % 16) * 64 + b3 / 4);
        currents.push((b3 % 4) * 256 + b4);
        proof {
            let g = group as int;
            assert((4 * g) / 4 == g && (4 * g) % 4 == 0);
            assert((4 * g + 1) / 4 == g && (4 * g + 1) % 4 == 1);
            assert((4 * g + 2) / 4 == g && (4 * g + 2) % 4 == 2);
            assert((4 * g + 3) / 4 == g && (4 * g + 3) % 4 == 3);
        }
        group = group + 1;
    }
    assert(currents@ =~= spec_pdp_values(p@));
    currents
}

/// CAN metrics tag: `[util][bus_off:u16][tx_full:u16][rx_err][tx_err]`.
fn parse_can_metrics(p: &[u8]) -> (r: CanMetrics)
    ensures
        RioTagView::CanMetrics(r) == spec_tag(0x0e, p@),
{
    if p.len() < 7 {
        CanMetrics::default()
    } else {
        CanMetrics {
            utilization: p[0],
            bus_off_count: read_be16(p, 1) as u32,
            tx_full_count: read_be16(p, 3) as u32,
            rx_error_count: p[5],
            tx_error_count: p[6],
        }
    }
}

} // verus!
