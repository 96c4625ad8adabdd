//! Laws that relate the library's operations to one another.
use vstd::prelude::*;

use crate::connection::{
    spec_lost, spec_timed_out, ConnectionState, ConnectionView, LIVENESS_TIMEOUT_MS, SEND_PERIOD_MS,
};
use crate::practice::{spec_tick, PracticeView};
use crate::config::PracticeTiming;
use crate::driver_station::{
    ds_wf, spec_after_transmit, spec_clear_estop, spec_disable, spec_enable, spec_estop,
    spec_packet, spec_reboot_roborio, spec_restart_code, spec_set_alliance, spec_set_mode, DsView,
};
use crate::incoming::be16;
use crate::outgoing::spec_ds_packet;
use crate::tcp::{
    lemma_next_frame_shrinks, spec_drain, spec_encode_frame, spec_next_frame, MAX_FRAME_PAYLOAD,
};
use crate::types::{bit_set, Alliance, BatteryVoltage, ControlFlags, Mode};

verus! {

/// Every mode survives encoding and decoding, and the bit pattern 11 is no mode.
pub proof fn lemma_mode_round_trip(m: Mode)
    ensures
        Mode::spec_from_bits(m.spec_bits()) == Some(m),
        Mode::spec_from_bits(3) is None,
{
}

/// Every valid alliance survives its wire byte; bytes 0..5 survive decoding
/// and encoding; bytes of 6 and above name no alliance.
pub proof fn lemma_alliance_round_trip(a: Alliance, byte: u8)
    requires
        a.wf(),
    ensures
        Alliance::spec_from_byte(a.spec_byte()) == Some(a),
        byte < 6 ==> (Alliance::spec_from_byte(byte) matches Some(b) && b.wf() && b.spec_byte() == byte),
        byte >= 6 ==> Alliance::spec_from_byte(byte) is None,
{
}

/// Control flags survive their wire byte, for each of the sixteen combinations.
pub proof fn lemma_control_flags_round_trip(f: ControlFlags)
    ensures
        ControlFlags::spec_from_byte(f.spec_byte()) == f,
{
}

/// The fixed-point voltage survives its two wire bytes exactly, and so do the bytes.
pub proof fn lemma_voltage_round_trip(v: BatteryVoltage, high: u8, low: u8)
    ensures
        ({
            let (h, l) = v.spec_to_bytes();
            BatteryVoltage::spec_from_bytes(h, l) == v
        }),
        BatteryVoltage::spec_from_bytes(high, low).spec_to_bytes() == (high, low),
{
}

/// A frame read back from the stream gives its tag and payload, and leaves
/// whatever followed it.
pub proof fn lemma_frame_round_trip(tag: u8, payload: Seq<u8>, rest: Seq<u8>)
    requires
        payload.len() <= MAX_FRAME_PAYLOAD,
    ensures
        spec_next_frame(spec_encode_frame(tag, payload) + rest) == (
            Some((tag, payload)),
            rest,
        ),
{
    let f = spec_encode_frame(tag, payload);
    let buf = f + rest;
    let size = 1 + payload.len() as int;
    assert(be16(buf, 0) == size);
    assert(buf.subrange(3, 2 + size) =~= payload);
    assert(buf.subrange(2 + size, buf.len() as int) =~= rest);
}

/// Fed a frame byte by byte, the reader has no frame until the last byte
/// arrives, and then the whole frame.
pub proof fn lemma_frame_byte_by_byte(tag: u8, payload: Seq<u8>, k: int)
    requires
        payload.len() <= MAX_FRAME_PAYLOAD,
        0 <= k <= spec_encode_frame(tag, payload).len(),
    ensures
        k < spec_encode_frame(tag, payload).len() ==> spec_next_frame(
            spec_encode_frame(tag, payload).take(k),
        ) == (None::<(u8, Seq<u8>)>, spec_encode_frame(tag, payload).take(k)),
        k == spec_encode_frame(tag, payload).len() ==> spec_next_frame(
            spec_encode_frame(tag, payload).take(k),
        ) == (Some((tag, payload)), Seq::<u8>::empty()),
{
    let f = spec_encode_frame(tag, payload);
    if k >= 3 {
        assert(be16(f.take(k), 0) == 1 + payload.len());
    }
    if k == f.len() {
        assert(f.take(k) =~= f + Seq::<u8>::empty());
        lemma_frame_round_trip(tag, payload, Seq::empty());
    }
}

/// Commands of the driver station, for stating laws over sequences of them.
pub enum DsCommand {
    Enable,
    Disable,
    Estop,
    ClearEstop,
    SetMode(Mode),
    SetAlliance(Alliance),
    RebootRoborio,
    RestartCode,
    /// Send a control packet at the given clock reading.
    Transmit(u64),
}

/// The state after one command.
pub open spec fn spec_apply(v: DsView, c: DsCommand) -> DsView {
    match c {
        DsCommand::Enable => spec_enable(v),
        DsCommand::Disable => spec_disable(v),
        DsCommand::Estop => spec_estop(v),
        DsCommand::ClearEstop => spec_clear_estop(v),
        DsCommand::SetMode(m) => spec_set_mode(v, m),
        DsCommand::SetAlliance(a) => spec_set_alliance(v, a),
        DsCommand::RebootRoborio => spec_reboot_roborio(v),
        DsCommand::RestartCode => spec_restart_code(v),
        DsCommand::Transmit(now) => spec_after_transmit(v, now),
    }
}

/// The state after the commands, in order.
pub open spec fn spec_apply_all(v: DsView, cs: Seq<DsCommand>) -> DsView
    decreases cs.len(),
{
    if cs.len() == 0 {
        v
    } else {
        spec_apply(spec_apply_all(v, cs.drop_last()), cs.last())
    }
}

/// After an e-stop, no command short of clearing it enables the robot,
/// and the latch holds.
pub proof fn lemma_estop_latch(v: DsView, cs: Seq<DsCommand>)
    requires
        forall|i: int| 0 <= i < cs.len() ==> !(#[trigger] cs[i] is ClearEstop),
    ensures
        spec_apply_all(spec_estop(v), cs).estopped,
        spec_apply_all(spec_estop(v), cs).control.estop,
        !spec_apply_all(spec_estop(v), cs).control.enabled,
    decreases cs.len(),
{
    if cs.len() > 0 {
        let init = cs.drop_last();
        assert forall|i: int| 0 <= i < init.len() implies !(#[trigger] init[i] is ClearEstop) by {
            assert(init[i] == cs[i]);
        }
        lemma_estop_latch(v, init);
        assert(!(cs[cs.len() - 1] is ClearEstop));
    }
}

/// Every control packet carries the current e-stop, enable and mode bits,
/// and never shows the robot enabled while e-stopped.
pub proof fn lemma_control_byte(v: DsView)
    requires
        ds_wf(v),
    ensures
        spec_packet(v)[3] == v.control.spec_byte(),
        bit_set(spec_packet(v)[3], 128) == v.estopped,
        bit_set(spec_packet(v)[3], 4) == v.control.enabled,
        !(bit_set(spec_packet(v)[3], 128) && bit_set(spec_packet(v)[3], 4)),
        ControlFlags::spec_from_byte(spec_packet(v)[3]).mode == v.control.mode,
{
    lemma_control_flags_round_trip(v.control);
}

/// A reboot or restart request is carried by the next control packet and
/// not by the one after.
pub proof fn lemma_pulse_one_shot(v: DsView, t1: u64, t2: u64)
    requires
        ds_wf(v),
    ensures
        bit_set(spec_packet(spec_reboot_roborio(v))[4], 8),
        !bit_set(spec_packet(spec_after_transmit(spec_reboot_roborio(v), t1))[4], 8),
        bit_set(spec_packet(spec_restart_code(v))[4], 4),
        !bit_set(spec_packet(spec_after_transmit(spec_restart_code(v), t1))[4], 4),
{
}

/// Between two transmissions, no command but a transmission changes the sequence.
proof fn lemma_sequence_kept(v: DsView, cs: Seq<DsCommand>)
    requires
        forall|i: int| 0 <= i < cs.len() ==> !(#[trigger] cs[i] is Transmit),
    ensures
        spec_apply_all(v, cs).connection.sequence == v.connection.sequence,
    decreases cs.len(),
{
    if cs.len() > 0 {
        let init = cs.drop_last();
        assert forall|i: int| 0 <= i < init.len() implies !(#[trigger] init[i] is Transmit) by {
            assert(init[i] == cs[i]);
        }
        lemma_sequence_kept(v, init);
        assert(!(cs[cs.len() - 1] is Transmit));
    }
}

/// Two consecutive control packets carry consecutive sequence numbers,
/// modulo 2^16, whatever commands come between them.
pub proof fn lemma_sequence_consecutive(v: DsView, t1: u64, cs: Seq<DsCommand>)
    requires
        forall|i: int| 0 <= i < cs.len() ==> !(#[trigger] cs[i] is Transmit),
    ensures
        be16(spec_packet(spec_apply_all(spec_after_transmit(v, t1), cs)), 0) == (be16(
            spec_packet(v),
            0,
        ) + 1) % 65536,
{
    lemma_sequence_kept(spec_after_transmit(v, t1), cs);
    let s = v.connection.sequence;
    let s2 = spec_apply_all(spec_after_transmit(v, t1), cs).connection.sequence;
    assert(s2 == (s + 1) % 65536);
    assert(be16(spec_packet(v), 0) == (s / 256) * 256 + s % 256);
    assert(be16(spec_packet(spec_apply_all(spec_after_transmit(v, t1), cs)), 0) == (s2 / 256)
        * 256 + s2 % 256);
}

/// A link silent for the liveness timeout is dropped at the first check,
/// and one that heard from the robot within it is kept.
pub proof fn lemma_liveness(v: ConnectionView, t: u64, now: u64)
    requires
        v.last_received == Some(t),
    ensures
        now >= t + LIVENESS_TIMEOUT_MS ==> spec_timed_out(v, now) && spec_lost(v).state
            == ConnectionState::Disconnected,
        t <= now < t + LIVENESS_TIMEOUT_MS ==> !spec_timed_out(v, now),
{
}


/// The link after one liveness check at `now`.
pub open spec fn spec_poll(v: ConnectionView, now: u64) -> ConnectionView {
    if spec_timed_out(v, now) {
        spec_lost(v)
    } else {
        v
    }
}

/// The link after liveness checks at the clock readings `polls`, in order,
/// with nothing received between them.
pub open spec fn spec_poll_all(v: ConnectionView, polls: Seq<u64>) -> ConnectionView
    decreases polls.len(),
{
    if polls.len() == 0 {
        v
    } else {
        spec_poll(spec_poll_all(v, polls.drop_last()), polls.last())
    }
}

proof fn lemma_poll_all_shape(v: ConnectionView, t: u64, polls: Seq<u64>)
    requires
        v.last_received == Some(t),
    ensures
        spec_poll_all(v, polls) == v || (spec_poll_all(v, polls).state
            == ConnectionState::Disconnected && spec_poll_all(v, polls).last_received is None),
        (exists|i: int| 0 <= i < polls.len() && polls[i] >= t + LIVENESS_TIMEOUT_MS) ==> (
        spec_poll_all(v, polls).state == ConnectionState::Disconnected),
    decreases polls.len(),
{
    if polls.len() > 0 {
        let init = polls.drop_last();
        lemma_poll_all_shape(v, t, init);
        if exists|i: int| 0 <= i < polls.len() && polls[i] >= t + LIVENESS_TIMEOUT_MS {
            let i = choose|i: int| 0 <= i < polls.len() && polls[i] >= t + LIVENESS_TIMEOUT_MS;
            if i < init.len() {
                assert(init[i] == polls[i]);
            }
        }
    }
}

/// A silent link is dropped by the first liveness check at least the
/// timeout after the last datagram, and stays dropped through later checks.
/// With checks at most one send period apart, starting no later than the
/// timeout and running past it, such a check comes within the timeout plus
/// one send period (1.02 s), well inside 1.2 s.
pub proof fn lemma_liveness_polled(v: ConnectionView, t: u64, polls: Seq<u64>)
    requires
        v.last_received == Some(t),
        polls.len() > 0,
        polls[0] <= t + LIVENESS_TIMEOUT_MS,
        polls.last() >= t + LIVENESS_TIMEOUT_MS,
        forall|i: int| 0 <= i < polls.len() - 1 ==> #[trigger] polls[i + 1] <= polls[i] + SEND_PERIOD_MS,
    ensures
        spec_poll_all(v, polls).state == ConnectionState::Disconnected,
        exists|i: int|
            0 <= i < polls.len() && t + LIVENESS_TIMEOUT_MS <= #[trigger] polls[i] <= t
                + LIVENESS_TIMEOUT_MS + SEND_PERIOD_MS,
{
    lemma_poll_all_shape(v, t, polls);
    lemma_first_late_poll(polls, (t + LIVENESS_TIMEOUT_MS) as int, 0);
}

proof fn lemma_first_late_poll(polls: Seq<u64>, deadline: int, k: int)
    requires
        0 <= k < polls.len(),
        polls[k] <= deadline,
        polls.last() >= deadline,
        forall|i: int| 0 <= i < polls.len() - 1 ==> #[trigger] polls[i + 1] <= polls[i] + SEND_PERIOD_MS,
    ensures
        exists|i: int| 0 <= i < polls.len() && deadline <= #[trigger] polls[i] <= deadline + SEND_PERIOD_MS,
    decreases polls.len() - k,
{
    if polls[k] == deadline {
        assert(deadline <= polls[k] <= deadline + SEND_PERIOD_MS);
    } else if k == polls.len() - 1 {
        assert(polls[k] >= deadline);
    } else if polls[k + 1] >= deadline {
        assert(deadline <= polls[k + 1] <= deadline + SEND_PERIOD_MS);
    } else {
        lemma_first_late_poll(polls, deadline, k + 1);
    }
}

/// The buffer after feeding `chunks` in order.
pub open spec fn spec_fed(buf: Seq<u8>, chunks: Seq<Seq<u8>>) -> Seq<u8>
    decreases chunks.len(),
{
    if chunks.len() == 0 {
        buf
    } else {
        spec_fed(buf + chunks.first(), chunks.drop_first())
    }
}

/// Feeding a stream in chunks leaves the reader as feeding it at once, so
/// it yields the same frames whatever the chunk boundaries.
pub proof fn lemma_chunks_as_whole(buf: Seq<u8>, chunks: Seq<Seq<u8>>)
    ensures
        spec_fed(buf, chunks) == buf + chunks.flatten(),
        spec_next_frame(spec_fed(buf, chunks)) == spec_next_frame(buf + chunks.flatten()),
    decreases chunks.len(),
{
    if chunks.len() > 0 {
        lemma_chunks_as_whole(buf + chunks.first(), chunks.drop_first());
        assert(buf + chunks.first() + chunks.drop_first().flatten() =~= buf + chunks.flatten());
    }
}

/// A match keeps the timing it started with: changing the configured
/// timing while it runs changes no tick.
pub proof fn lemma_timing_captured(v: PracticeView, timing: PracticeTiming, now: u64)
    ensures
        spec_tick(PracticeView { timing, ..v }, now).1 == spec_tick(v, now).1,
        spec_tick(PracticeView { timing, ..v }, now).0 == (PracticeView {
            timing,
            ..spec_tick(v, now).0
        }),
{
}


proof fn lemma_next_frame_extend(a: Seq<u8>, b: Seq<u8>)
    ensures
        spec_next_frame(a).0 is Some ==> spec_next_frame(a + b) == (
            spec_next_frame(a).0,
            spec_next_frame(a).1 + b,
        ),
    decreases a.len(),
{
    if a.len() >= 3 {
        assert((a + b)[0] == a[0] && (a + b)[1] == a[1] && (a + b)[2] == a[2]);
        if be16(a, 0) == 0 {
            let a2 = a.subrange(2, a.len() as int);
            assert((a + b).subrange(2, (a + b).len() as int) =~= a2 + b);
            lemma_next_frame_extend(a2, b);
        } else if a.len() >= 2 + be16(a, 0) {
            let size = be16(a, 0);
            assert((a + b).subrange(3, 2 + size) =~= a.subrange(3, 2 + size));
            assert((a + b).subrange(2 + size, (a + b).len() as int) =~= a.subrange(
                2 + size,
                a.len() as int,
            ) + b);
        }
    }
}

proof fn lemma_drain_same_front(x: Seq<u8>, y: Seq<u8>)
    requires
        spec_next_frame(x) == spec_next_frame(y),
    ensures
        spec_drain(x) == spec_drain(y),
{
    lemma_next_frame_shrinks(x);
    lemma_next_frame_shrinks(y);
}

proof fn lemma_drain_after_incomplete(a: Seq<u8>, b: Seq<u8>)
    requires
        spec_next_frame(a).0 is None,
    ensures
        spec_drain(a + b) == spec_drain(spec_next_frame(a).1 + b),
    decreases a.len(),
{
    if a.len() >= 3 && be16(a, 0) == 0 {
        let a2 = a.subrange(2, a.len() as int);
        assert((a + b)[0] == a[0] && (a + b)[1] == a[1]);
        assert((a + b).subrange(2, (a + b).len() as int) =~= a2 + b);
        lemma_drain_same_front(a + b, a2 + b);
        lemma_drain_after_incomplete(a2, b);
    }
}

/// Taking frames after each chunk arrives gives the same frames, in the
/// same order, and leaves the same bytes, as taking them once after all
/// the chunks: the frames of `a + b` are those of `a`, then those of what
/// `a` left followed by `b`.
pub proof fn lemma_drain_between_feeds(a: Seq<u8>, b: Seq<u8>)
    ensures
        spec_drain(a + b) == (
            spec_drain(a).0 + spec_drain(spec_drain(a).1 + b).0,
            spec_drain(spec_drain(a).1 + b).1,
        ),
    decreases a.len(),
{
    lemma_next_frame_shrinks(a);
    let (f, r) = spec_next_frame(a);
    match f {
        Some(frame) => {
            lemma_next_frame_extend(a, b);
            lemma_next_frame_shrinks(a + b);
            lemma_drain_between_feeds(r, b);
            assert(seq![frame] + spec_drain(r).0 + spec_drain(spec_drain(r).1 + b).0 =~= seq![frame]
                + (spec_drain(r).0 + spec_drain(spec_drain(r).1 + b).0));
        },
        None => {
            lemma_drain_after_incomplete(a, b);
            assert(Seq::<(u8, Seq<u8>)>::empty() + spec_drain(r + b).0 =~= spec_drain(r + b).0);
        },
    }
}

} // verus!
