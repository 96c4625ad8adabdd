use vstd::arithmetic::power2::{lemma2_to64, lemma_pow2_strictly_increases, lemma_pow2_unfold, pow2};
use vstd::prelude::*;
use vstd::slice::slice_to_vec;
use vstd::string::StringSliceAdditionalSpecFns;

use chrono::{Datelike, Timelike};

use crate::types::{Alliance, ControlFlags, JoystickData, RequestFlags};

verus! {

/// Most joystick tags carried by one packet.
pub const MAX_JOYSTICKS: usize = 6;

/// 1 if button `i` exists and is pressed, else 0.
pub open spec fn button_value(b: Seq<bool>, i: int) -> int {
    if 0 <= i < b.len() && b[i] {
        1
    } else {
        0
    }
}

/// The `k` buttons from `start` on, packed least significant bit first.
pub open spec fn spec_button_bits(b: Seq<bool>, start: int, k: nat) -> int
    decreases k,
{
    if k == 0 {
        0
    } else {
        button_value(b, start) + 2 * spec_button_bits(b, start + 1, (k - 1) as nat)
    }
}

/// Buttons packed eight to a byte, least significant bit first.
pub open spec fn spec_button_bytes(b: Seq<bool>) -> Seq<u8> {
    Seq::new(((b.len() + 7) / 8) as nat, |j: int| spec_button_bits(b, 8 * j, 8) as u8)
}

/// The 16-bit two's complement of `v`.
pub open spec fn twos_complement16(v: i16) -> int {
    (v + 65536) % 65536
}

/// The 8-bit two's complement of `v`.
pub open spec fn twos_complement8(v: i8) -> int {
    (v + 256) % 256
}

/// Hat angles as big-endian 16-bit two's complement.
pub open spec fn spec_pov_bytes(p: Seq<i16>) -> Seq<u8> {
    Seq::new(
        2 * p.len(),
        |i: int|
            if i % 2 == 0 {
                (twos_complement16(p[i / 2]) / 256) as u8
            } else {
                (twos_complement16(p[i / 2]) % 256) as u8
            },
    )
}

/// Axis values as their two's complement bytes.
pub open spec fn spec_axis_bytes(a: Seq<i8>) -> Seq<u8> {
    Seq::new(a.len(), |i: int| twos_complement8(a[i]) as u8)
}

/// Joystick tag after its size byte:
/// `[0x0c][axis_count][axes][button_count][button_bytes][pov_count][povs]`.
pub open spec fn spec_joystick_body(js: JoystickData) -> Seq<u8> {
    seq![0x0cu8, js.axes@.len() as u8] + spec_axis_bytes(js.axes@) + seq![
        js.buttons@.len() as u8,
    ] + spec_button_bytes(js.buttons@) + seq![js.povs@.len() as u8] + spec_pov_bytes(js.povs@)
}

/// The whole joystick tag: its size (the body's length) and the body.
pub open spec fn spec_joystick_tag(js: JoystickData) -> Seq<u8> {
    seq![spec_joystick_body(js).len() as u8] + spec_joystick_body(js)
}

/// The tag's size and each count fit in their byte.
pub open spec fn joystick_fits(js: JoystickData) -> bool {
    &&& js.buttons@.len() <= 255
    &&& 4 + js.axes@.len() + (js.buttons@.len() + 7) / 8 + 2 * js.povs@.len() <= 255
}

/// The joystick tags of `js`, in order.
pub open spec fn spec_joystick_tags(js: Seq<JoystickData>) -> Seq<u8>
    decreases js.len(),
{
    if js.len() == 0 {
        Seq::empty()
    } else {
        spec_joystick_tags(js.drop_last()) + spec_joystick_tag(js.last())
    }
}

/// The first `MAX_JOYSTICKS` of `js` (all of them if fewer).
pub open spec fn sent_joysticks(js: Seq<JoystickData>) -> Seq<JoystickData> {
    if js.len() <= MAX_JOYSTICKS {
        js
    } else {
        js.take(MAX_JOYSTICKS as int)
    }
}

/// Each joystick that a packet carries fits in its tag.
pub open spec fn joysticks_fit(js: Seq<JoystickData>) -> bool {
    forall|i: int| 0 <= i < sent_joysticks(js).len() ==> joystick_fits(#[trigger] js[i])
}

/// Whether a joystick fits in a tag; the station only sends those that do.
pub fn joystick_fits_tag(js: &JoystickData) -> (r: bool)
    ensures
        r == joystick_fits(*js),
{
    let axes = js.axes.len();
    let buttons = js.buttons.len();
    let povs = js.povs.len();
    buttons <= 255 && axes <= 255 && povs <= 255 && 4 + axes + (buttons + 7) / 8 + 2 * povs <= 255
}

/// The station-to-robot packet:
/// `[seq:u16][ver=1][control][request][alliance][joystick tags]`.
pub open spec fn spec_ds_packet(
    sequence: u16,
    control: ControlFlags,
    request: RequestFlags,
    alliance: Alliance,
    js: Seq<JoystickData>,
) -> Seq<u8> {
    seq![
        (sequence / 256) as u8,
        (sequence % 256) as u8,
        1u8,
        control.spec_byte(),
        request.spec_byte(),
        alliance.spec_byte(),
    ] + spec_joystick_tags(sent_joysticks(js))
}

proof fn lemma_button_bits_bound(b: Seq<bool>, start: int, k: nat)
    ensures
        0 <= spec_button_bits(b, start, k) < pow2(k),
    decreases k,
{
    if k > 0 {
        lemma_button_bits_bound(b, start + 1, (k - 1) as nat);
        lemma_pow2_unfold(k);
    } else {
        lemma2_to64();
    }
}

/// Build a complete station-to-robot UDP packet.
pub fn build_ds_packet(
    sequence: u16,
    control: &ControlFlags,
    request: &RequestFlags,
    alliance: &Alliance,
    joysticks: &[JoystickData],
) -> (r: Vec<u8>)
    requires
        alliance.wf(),
        joysticks_fit(joysticks@),
    ensures
        r@ == spec_ds_packet(sequence, *control, *request, *alliance, joysticks@),
{
    let mut buf: Vec<u8> = Vec::new();
    buf.push((sequence / 256) as u8);
    buf.push((sequence % 256) as u8);
    buf.push(1);
    buf.push(control.to_byte());
    buf.push(request.to_byte());
    buf.push(alliance.to_byte());
    let ghost header = buf@;
    let n = if joysticks.len() < MAX_JOYSTICKS {
        joysticks.len()
    } else {
        MAX_JOYSTICKS
    };
    let mut i: usize = 0;
    while i < n
        invariant
            n == sent_joysticks(joysticks@).len(),
            i <= n,
            joysticks_fit(joysticks@),
            buf@ == header + spec_joystick_tags(joysticks@.take(i as int)),
        decreases n - i,
    {
        append_joystick_tag(&mut buf, &joysticks[i]);
        proof {
            let t = joysticks@.take(i + 1);
            assert(t.drop_last() =~= joysticks@.take(i as int));
            assert(t.last() == joysticks@[i as int]);
        }
        i = i + 1;
    }
    proof {
        assert(joysticks@.take(n as int) =~= sent_joysticks(joysticks@));
    }
    buf
}

/// Append a joystick tag (0x0c) to `buf`.
pub fn append_joystick_tag(buf: &mut Vec<u8>, joystick: &JoystickData)
    requires
        joystick_fits(*joystick),
    ensures
        final(buf)@ == old(buf)@ + spec_joystick_tag(*joystick),
{
    let ghost start = buf@;
    let axis_count = joystick.axes.len();
    let button_count = joystick.buttons.len();
    let button_byte_count = (button_count + 7) / 8;
    let pov_count = joystick.povs.len();
    let size = (4 + axis_count + button_byte_count + 2 * pov_count) as u8;
    buf.push(size);
    buf.push(0x0c);
    buf.push(axis_count as u8);
    let mut i: usize = 0;
    while i < axis_count
        invariant
            axis_count == joystick.axes@.len(),
            i <= axis_count,
            buf@ == start + seq![size, 0x0cu8, axis_count as u8] + spec_axis_bytes(
                joystick.axes@,
            ).take(i as int),
        decreases axis_count - i,
    {
        let byte = axis_byte(joystick.axes[i]);
        buf.push(byte);
        proof {
            assert(spec_axis_bytes(joystick.axes@).take(i + 1) =~= spec_axis_bytes(
                joystick.axes@,
            ).take(i as int).push(byte));
        }
        i = i + 1;
    }
    let ghost after_axes = buf@;
    buf.push(button_count as u8);
    let mut j: usize = 0;
    while j < button_byte_count
        invariant
            button_count == joystick.buttons@.len(),
            button_count <= 255,
            button_byte_count == (button_count + 7) / 8,
            j <= button_byte_count,
            buf@ == after_axes + seq![button_count as u8] + spec_button_bytes(
                joystick.buttons@,
            ).take(j as int),
        decreases button_byte_count - j,
    {
        let byte = pack_button_byte(&joystick.buttons, 8 * j);
        buf.push(byte);
        proof {
            assert(spec_button_bytes(joystick.buttons@).take(j + 1) =~= spec_button_bytes(
                joystick.buttons@,
            ).take(j as int).push(byte));
        }
        j = j + 1;
    }
    let ghost after_buttons = buf@;
    buf.push(pov_count as u8);
    let mut k: usize = 0;
    while k < pov_count
        invariant
            pov_count == joystick.povs@.len(),
            2 * pov_count <= 255,
            k <= pov_count,
            buf@ == after_buttons + seq![pov_count as u8] + spec_pov_bytes(joystick.povs@).take(
                2 * k,
            ),
        decreases pov_count - k,
    {
        let pov = pov_word(joystick.povs[k]);
        buf.push((pov / 256) as u8);
        buf.push((pov % 256) as u8);
        proof {
            let s = spec_pov_bytes(joystick.povs@);
            assert((2 * k) / 2 == k && (2 * k + 1) / 2 == k);
            assert(s.take(2 * k + 2) =~= s.take(2 * k).push((pov / 256) as u8).push(
                (pov % 256) as u8,
            ));
        }
        k = k + 1;
    }
    proof {
        let js = *joystick;
        assert(spec_axis_bytes(js.axes@).take(axis_count as int) =~= spec_axis_bytes(js.axes@));
        assert(spec_button_bytes(js.buttons@).take(button_byte_count as int) =~= spec_button_bytes(
            js.buttons@,
        ));
        assert(spec_pov_bytes(js.povs@).take(2 * pov_count) =~= spec_pov_bytes(js.povs@));
        assert(spec_joystick_body(js).len() == 4 + axis_count + button_byte_count + 2 * pov_count);
        assert(buf@ =~= start + spec_joystick_tag(js));
    }
}

/// The two's complement byte of an axis value.
fn axis_byte(a: i8) -> (r: u8)
    ensures
        r == twos_complement8(a),
{
    if a < 0 {
        (a as i16 + 256) as u8
    } else {
        a as u8
    }
}

/// The two's complement word of a hat angle.
fn pov_word(p: i16) -> (r: u16)
    ensures
        r == twos_complement16(p),
{
    if p < 0 {
        (p as i32 + 65536) as u16
    } else {
        p as u16
    }
}

/// The byte holding buttons `base .. base + 8`, least significant bit first.
fn pack_button_byte(buttons: &Vec<bool>, base: usize) -> (r: u8)
    requires
        base <= 255 + 8,
    ensures
        r == spec_button_bits(buttons@, base as int, 8) as u8,
        r == spec_button_bits(buttons@, base as int, 8),
{
    let mut byte: u8 = 0;
    let mut bit: usize = 8;
    while bit > 0
        invariant
            bit <= 8,
            base <= 255 + 8,
            byte as int == spec_button_bits(buttons@, base + bit, (8 - bit) as nat),
        decreases bit,
    {
        bit = bit - 1;
        proof {
            lemma_button_bits_bound(buttons@, base + bit + 1, (7 - bit) as nat);
            lemma2_to64();
            if 7 - bit < 7 {
                lemma_pow2_strictly_increases((7 - bit) as nat, 7);
            }
        }
        let idx = base + bit;
        let v: u8 = if idx < buttons.len() && buttons[idx] {
            1
        } else {
            0
        };
        byte = v + 2 * byte;
    }
    byte
}

/// Calendar time in UTC as the datetime tag carries it.
#[derive(Debug, Clone, Copy, PartialEq, Eq, Structural)]
pub struct UtcTime {
    /// Nanoseconds within the second; 1,000,000,000 and above mark a leap second.
    pub nanos: u32,
    pub second: u8,
    pub minute: u8,
    pub hour: u8,
    /// Day of the month, 1..31.
    pub day: u8,
    /// Month, 0..11 (January is 0).
    pub month0: u8,
    pub year: i32,
}

impl UtcTime {
    pub open spec fn wf(self) -> bool {
        &&& self.nanos < 2_000_000_000
        &&& self.second < 60
        &&& self.minute < 60
        &&& self.hour < 24
        &&& 1 <= self.day <= 31
        &&& self.month0 < 12
    }
}

/// Datetime tag (0x0f):
/// `[0x0b][0x0f][micros:u32][sec][min][hr][day][month0][year - 1900 mod 256]`,
/// with micros the whole microseconds of `nanos`.
pub open spec fn spec_datetime_tag(t: UtcTime) -> Seq<u8> {
    let micros = t.nanos / 1000;
    seq![
        0x0bu8,
        0x0fu8,
        (micros / 0x1000000) as u8,
        ((micros / 0x10000) % 256) as u8,
        ((micros / 256) % 256) as u8,
        (micros % 256) as u8,
        t.second,
        t.minute,
        t.hour,
        t.day,
        t.month0,
        ((t.year - 1900) % 256) as u8,
    ]
}

/// Relies on chrono::Utc::now for the current instant, and on chrono's
/// Timelike and Datelike accessors for its fields in the ranges they document.
#[verifier::external_body]
fn utc_now() -> (r: UtcTime)
    ensures
        r.wf(),
{
    let now = chrono::Utc::now();
    UtcTime {
        nanos: now.nanosecond(),
        second: now.second() as u8,
        minute: now.minute() as u8,
        hour: now.hour() as u8,
        day: now.day() as u8,
        month0: now.month0() as u8,
        year: now.year(),
    }
}

/// Append a datetime tag (0x0f) for the instant `t`.
pub fn append_datetime_tag_at(buf: &mut Vec<u8>, t: &UtcTime)
    ensures
        final(buf)@ == old(buf)@ + spec_datetime_tag(*t),
{
    let ghost start = buf@;
    let micros = t.nanos / 1000;
    buf.push(0x0b);
    buf.push(0x0f);
    buf.push((micros / 0x1000000) as u8);
    buf.push(((micros / 0x10000) % 256) as u8);
    buf.push(((micros / 256) % 256) as u8);
    buf.push((micros % 256) as u8);
    buf.push(t.second);
    buf.push(t.minute);
    buf.push(t.hour);
    buf.push(t.day);
    buf.push(t.month0);
    buf.push(((t.year as i64 - 1900 + 0x1_0000_0000) % 256) as u8);
    proof {
        assert(buf@ =~= start + spec_datetime_tag(*t));
    }
}

/// Append a datetime tag (0x0f) with the current UTC time.
pub fn append_datetime_tag(buf: &mut Vec<u8>)
    ensures
        exists|t: UtcTime| t.wf() && final(buf)@ == old(buf)@ + spec_datetime_tag(t),
{
    let now = utc_now();
    append_datetime_tag_at(buf, &now);
}

/// Timezone tag (0x10): `[size][0x10][name bytes]`, size counting the id and the name.
pub open spec fn spec_timezone_tag(tz: Seq<u8>) -> Seq<u8> {
    seq![(1 + tz.len()) as u8, 0x10u8] + tz
}

/// Append a timezone tag (0x10) naming `tz`.
pub fn append_timezone_tag(buf: &mut Vec<u8>, tz: &str)
    requires
        tz.spec_bytes().len() <= 254,
    ensures
        final(buf)@ == old(buf)@ + spec_timezone_tag(tz.spec_bytes()),
{
    let ghost start = buf@;
    let bytes = tz.as_bytes();
    buf.push((1 + bytes.len()) as u8);
    buf.push(0x10);
    let mut tail = slice_to_vec(bytes);
    buf.append(&mut tail);
    proof {
        assert(buf@ =~= start + spec_timezone_tag(tz.spec_bytes()));
    }
}

} // verus!
