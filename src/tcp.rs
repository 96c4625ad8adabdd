use vstd::prelude::*;
use vstd::slice::slice_to_vec;
use vstd::string::StringSliceAdditionalSpecFns;
use vstd::utf8::{decode_utf8, valid_utf8};

use crate::incoming::{be16, be32, read_be16, read_be32};
use crate::types::{TcpMessage, TcpMessageView};

verus! {

/// Largest payload that a frame's 16-bit size can describe.
pub const MAX_FRAME_PAYLOAD: usize = 65534;

/// Accumulates bytes of the TCP stream and yields complete frames.
pub struct TcpFrameReader {
    buffer: Vec<u8>,
}

impl View for TcpFrameReader {
    type V = Seq<u8>;

    /// The bytes received and not yet taken as frames.
    closed spec fn view(&self) -> Seq<u8> {
        self.buffer@
    }
}

/// The first frame in `buf` and the bytes left after it.
///
/// A frame is `[size:u16][tag][size - 1 bytes]`. A header of size zero holds
/// no tag and is dropped. With the first frame incomplete there is none, and
/// nothing is taken.
pub open spec fn spec_next_frame(buf: Seq<u8>) -> (Option<(u8, Seq<u8>)>, Seq<u8>)
    decreases buf.len(),
{
    if buf.len() < 3 {
        (None, buf)
    } else if be16(buf, 0) == 0 {
        spec_next_frame(buf.subrange(2, buf.len() as int))
    } else if buf.len() < 2 + be16(buf, 0) {
        (None, buf)
    } else {
        (
            Some((buf[2], buf.subrange(3, 2 + be16(buf, 0)))),
            buf.subrange(2 + be16(buf, 0), buf.len() as int),
        )
    }
}

/// The frame carrying `tag` and `payload`: `[size:u16][tag][payload]`, size = 1 + payload length.
pub open spec fn spec_encode_frame(tag: u8, payload: Seq<u8>) -> Seq<u8> {
    seq![((1 + payload.len()) / 256) as u8, ((1 + payload.len()) % 256) as u8, tag] + payload
}

impl TcpFrameReader {
    /// An empty reader.
    pub fn new() -> (r: TcpFrameReader)
        ensures
            r@ == Seq::<u8>::empty(),
    {
        TcpFrameReader { buffer: Vec::new() }
    }

    /// Append bytes received from the stream.
    pub fn feed(&mut self, data: &[u8])
        ensures
            final(self)@ == old(self)@ + data@,
    {
        let mut tail = slice_to_vec(data);
        self.buffer.append(&mut tail);
    }

    /// Take the next complete frame, if one is buffered.
    pub fn next_frame(&mut self) -> (r: Option<(u8, Vec<u8>)>)
        ensures
            ({
                let (f, rest) = spec_next_frame(old(self)@);
                &&& final(self)@ == rest
                &&& match (r, f) {
                    (Some(got), Some(want)) => got.0 == want.0 && got.1@ == want.1,
                    (None, None) => true,
                    _ => false,
                }
            }),
    {
        while self.buffer.len() >= 3 && self.buffer[0] == 0 && self.buffer[1] == 0
            invariant
                spec_next_frame(self.buffer@) == spec_next_frame(old(self)@),
            decreases self.buffer@.len(),
        {
            let rest = self.buffer.split_off(2);
            self.buffer = rest;
        }
        if self.buffer.len() < 3 {
            return None;
        }
        let size = self.buffer[0] as usize * 256 + self.buffer[1] as usize;
        if self.buffer.len() < 2 + size {
            return None;
        }
        let tag = self.buffer[2];
        let payload = slice_to_vec(&self.buffer.as_slice()[3..2 + size]);
        let rest = self.buffer.split_off(2 + size);
        self.buffer = rest;
        Some((tag, payload))
    }
}

impl Default for TcpFrameReader {
    fn default() -> (r: TcpFrameReader)
        ensures
            r@ == Seq::<u8>::empty(),
    {
        TcpFrameReader::new()
    }
}

/// Encode a frame: `[size_hi][size_lo][tag][payload]`.
pub fn encode_tcp_frame(tag: u8, payload: &[u8]) -> (r: Vec<u8>)
    requires
        payload@.len() <= MAX_FRAME_PAYLOAD,
    ensures
        r@ == spec_encode_frame(tag, payload@),
{
    let size = 1 + payload.len();
    let mut frame: Vec<u8> = Vec::new();
    frame.push((size / 256) as u8);
    frame.push((size % 256) as u8);
    frame.push(tag);
    let mut tail = slice_to_vec(payload);
    frame.append(&mut tail);
    proof {
        assert(frame@ =~= spec_encode_frame(tag, payload@));
    }
    frame
}

/// Game data frame (tag 0x0e): the text's bytes.
pub fn build_game_data_frame(data: &str) -> (r: Vec<u8>)
    requires
        data.spec_bytes().len() <= MAX_FRAME_PAYLOAD,
    ensures
        r@ == spec_encode_frame(0x0e, data.spec_bytes()),
{
    encode_tcp_frame(0x0e, data.as_bytes())
}

/// Payload of a joystick descriptor frame:
/// `[slot][is_xbox=0][type=0][name_len][name][axis_count][button_count][pov_count]`.
pub open spec fn spec_joystick_descriptor(
    slot: u8,
    name: Seq<u8>,
    axis_count: u8,
    button_count: u8,
    pov_count: u8,
) -> Seq<u8> {
    seq![slot, 0u8, 0u8, name.len() as u8] + name + seq![axis_count, button_count, pov_count]
}

/// Joystick descriptor frame (tag 0x02).
pub fn build_joystick_descriptor_frame(
    slot: u8,
    name: &str,
    axis_count: u8,
    button_count: u8,
    pov_count: u8,
) -> (r: Vec<u8>)
    requires
        name.spec_bytes().len() <= 255,
    ensures
        r@ == spec_encode_frame(
            0x02,
            spec_joystick_descriptor(slot, name.spec_bytes(), axis_count, button_count, pov_count),
        ),
{
    let bytes = name.as_bytes();
    let mut payload: Vec<u8> = Vec::new();
    payload.push(slot);
    payload.push(0);
    payload.push(0);
    payload.push(bytes.len() as u8);
    let mut tail = slice_to_vec(bytes);
    payload.append(&mut tail);
    payload.push(axis_count);
    payload.push(button_count);
    payload.push(pov_count);
    proof {
        assert(payload@ =~= spec_joystick_descriptor(
            slot,
            name.spec_bytes(),
            axis_count,
            button_count,
            pov_count,
        ));
    }
    encode_tcp_frame(0x02, payload.as_slice())
}

/// Payload of a match info frame: `[name_len][name][match_type]`.
pub open spec fn spec_match_info(name: Seq<u8>, match_type: u8) -> Seq<u8> {
    seq![name.len() as u8] + name + seq![match_type]
}

/// Match info frame (tag 0x07).
pub fn build_match_info_frame(match_name: &str, match_type: u8) -> (r: Vec<u8>)
    requires
        match_name.spec_bytes().len() <= 255,
    ensures
        r@ == spec_encode_frame(0x07, spec_match_info(match_name.spec_bytes(), match_type)),
{
    let bytes = match_name.as_bytes();
    let mut payload: Vec<u8> = Vec::new();
    payload.push(bytes.len() as u8);
    let mut tail = slice_to_vec(bytes);
    payload.append(&mut tail);
    payload.push(match_type);
    proof {
        assert(payload@ =~= spec_match_info(match_name.spec_bytes(), match_type));
    }
    encode_tcp_frame(0x07, payload.as_slice())
}


/// The text that `b` encodes in UTF-8, if it is valid.
pub open spec fn spec_text(b: Seq<u8>) -> Option<Seq<char>> {
    if valid_utf8(b) {
        Some(decode_utf8(b))
    } else {
        None
    }
}

/// Relies on String::from_utf8: it succeeds exactly on valid UTF-8, and the
/// string holds the characters that the bytes encode.
#[verifier::external_body]
fn text_from_utf8(bytes: &[u8]) -> (r: Option<String>)
    ensures
        match (r, spec_text(bytes@)) {
            (Some(s), Some(t)) => s@ == t,
            (None, None) => true,
            _ => false,
        },
{
    String::from_utf8(bytes.to_vec()).ok()
}

/// The signed value of the 32-bit two's complement word `w`.
pub open spec fn signed32(w: int) -> int {
    if w >= 0x8000_0000 {
        w - 0x1_0000_0000
    } else {
        w
    }
}

/// Big-endian value of the eight bytes of `p` at `i`.
pub open spec fn be64(p: Seq<u8>, i: int) -> int {
    be32(p, i) * 0x1_0000_0000 + be32(p, i + 4)
}

/// Version info payload:
/// `[dev_type][dev_id][name_len][name][ver_len][ver]`.
pub open spec fn spec_version_info(p: Seq<u8>) -> Option<TcpMessageView> {
    if p.len() < 4 {
        None
    } else {
        let nl = p[2] as int;
        if p.len() < 4 + nl {
            None
        } else {
            let vl = p[3 + nl] as int;
            if p.len() < 4 + nl + vl {
                None
            } else {
                match (spec_text(p.subrange(3, 3 + nl)), spec_text(p.subrange(4 + nl, 4 + nl + vl))) {
                    (Some(name), Some(version)) => Some(
                        TcpMessageView::VersionInfo {
                            device_type: p[0],
                            device_id: p[1],
                            name,
                            version,
                        },
                    ),
                    _ => None,
                }
            }
        }
    }
}

/// Error report payload: `[ts:f64][seq:u16][code:i32][flags:u16]` and then
/// details, location and call stack, each as `[len:u16][text]`.
pub open spec fn spec_error_report(p: Seq<u8>) -> Option<TcpMessageView> {
    if p.len() < 18 {
        None
    } else {
        let dl = be16(p, 16);
        let lo = 18 + dl;
        if p.len() < lo + 2 {
            None
        } else {
            let ll = be16(p, lo);
            let co = lo + 2 + ll;
            if p.len() < co + 2 {
                None
            } else {
                let cl = be16(p, co);
                if p.len() < co + 2 + cl {
                    None
                } else {
                    match (
                        spec_text(p.subrange(18, lo)),
                        spec_text(p.subrange(lo + 2, co)),
                        spec_text(p.subrange(co + 2, co + 2 + cl)),
                    ) {
                        (Some(details), Some(location), Some(call_stack)) => Some(
                            TcpMessageView::ErrorReport {
                                timestamp_bits: be64(p, 0) as u64,
                                sequence: be16(p, 8) as u16,
                                error_code: signed32(be32(p, 10)) as i32,
                                is_error: be16(p, 14) % 2 == 1,
                                details,
                                location,
                                call_stack,
                            },
                        ),
                        _ => None,
                    }
                }
            }
        }
    }
}

/// The message that a frame's tag and payload carry; none for an unknown
/// tag, a short payload or text that is not UTF-8.
pub open spec fn spec_parse_tcp_message(tag: u8, p: Seq<u8>) -> Option<TcpMessageView> {
    if tag == 0x00 {
        match spec_text(p) {
            Some(t) => Some(TcpMessageView::Message(t)),
            None => None,
        }
    } else if tag == 0x0a {
        spec_version_info(p)
    } else if tag == 0x0b {
        spec_error_report(p)
    } else if tag == 0x0c {
        match spec_text(p) {
            Some(t) => Some(TcpMessageView::Stdout(t)),
            None => None,
        }
    } else {
        None
    }
}

/// Parse a frame's tag and payload into a message.
pub fn parse_tcp_message(tag: u8, payload: &[u8]) -> (r: Option<TcpMessage>)
    ensures
        match (r, spec_parse_tcp_message(tag, payload@)) {
            (Some(m), Some(v)) => m@ == v,
            (None, None) => true,
            _ => false,
        },
{
    if tag == 0x00 {
        match text_from_utf8(payload) {
            Some(t) => Some(TcpMessage::Message(t)),
            None => None,
        }
    } else if tag == 0x0a {
        parse_version_info(payload)
    } else if tag == 0x0b {
        parse_error_report(payload)
    } else if tag == 0x0c {
        match text_from_utf8(payload) {
            Some(t) => Some(TcpMessage::Stdout(t)),
            None => None,
        }
    } else {
        None
    }
}

fn parse_version_info(p: &[u8]) -> (r: Option<TcpMessage>)
    ensures
        match (r, spec_version_info(p@)) {
            (Some(m), Some(v)) => m@ == v,
            (None, None) => true,
            _ => false,
        },
{
    if p.len() < 4 {
        return None;
    }
    let name_len = p[2] as usize;
    if p.len() < 4 + name_len {
        return None;
    }
    let version_len = p[3 + name_len] as usize;
    if p.len() < 4 + name_len + version_len {
        return None;
    }
    let name = text_from_utf8(&p[3..3 + name_len]);
    let version = text_from_utf8(&p[4 + name_len..4 + name_len + version_len]);
    match (name, version) {
        (Some(name), Some(version)) => Some(
            TcpMessage::VersionInfo { device_type: p[0], device_id: p[1], name, version },
        ),
        _ => None,
    }
}

fn parse_error_report(p: &[u8]) -> (r: Option<TcpMessage>)
    ensures
        match (r, spec_error_report(p@)) {
            (Some(m), Some(v)) => m@ == v,
            (None, None) => true,
            _ => false,
        },
{
    let n = p.len();
    if n < 18 {
        return None;
    }
    let details_len = read_be16(p, 16) as usize;
    let lo = 18 + details_len;
    if n < lo + 2 {
        return None;
    }
    let location_len = read_be16(p, lo) as usize;
    let co = lo + 2 + location_len;
    if n < co + 2 {
        return None;
    }
    let stack_len = read_be16(p, co) as usize;
    if n < co + 2 + stack_len {
        return None;
    }
    let timestamp_bits = read_be32(p, 0) as u64 * 0x1_0000_0000 + read_be32(p, 4) as u64;
    let sequence = read_be16(p, 8);
    let code = read_be32(p, 10);
    let error_code: i32 = if code >= 0x8000_0000 {
        (code as i64 - 0x1_0000_0000) as i32
    } else {
        code as i32
    };
    let is_error = read_be16(p, 14) % 2 == 1;
    let details = text_from_utf8(&p[18..lo]);
    let location = text_from_utf8(&p[lo + 2..co]);
    let call_stack = text_from_utf8(&p[co + 2..co + 2 + stack_len]);
    match (details, location, call_stack) {
        (Some(details), Some(location), Some(call_stack)) => Some(
            TcpMessage::ErrorReport {
                timestamp_bits,
                sequence,
                error_code,
                is_error,
                details,
                location,
                call_stack,
            },
        ),
        _ => None,
    }
}


/// Milliseconds to wait before trying again after a refused TCP connection.
pub const TCP_RETRY_DELAY_MS: u64 = 2000;

/// Milliseconds that a TCP connection attempt may take.
pub const TCP_CONNECT_TIMEOUT_MS: u64 = 3000;

pub(crate) proof fn lemma_next_frame_shrinks(buf: Seq<u8>)
    ensures
        spec_next_frame(buf).1.len() <= buf.len(),
        spec_next_frame(buf).0 is Some ==> spec_next_frame(buf).1.len() < buf.len(),
    decreases buf.len(),
{
    if buf.len() >= 3 && be16(buf, 0) == 0 {
        lemma_next_frame_shrinks(buf.subrange(2, buf.len() as int));
    }
}

/// All complete frames at the front of `buf`, in order, and the bytes left.
pub open spec fn spec_drain(buf: Seq<u8>) -> (Seq<(u8, Seq<u8>)>, Seq<u8>)
    decreases buf.len(),
{
    let (f, rest) = spec_next_frame(buf);
    match f {
        Some(frame) => if rest.len() < buf.len() {
            let (more, left) = spec_drain(rest);
            (seq![frame] + more, left)
        } else {
            (seq![frame], rest)
        },
        None => (Seq::empty(), rest),
    }
}

/// The messages that `frames` carry, in order; frames that carry none are skipped.
pub open spec fn spec_messages(frames: Seq<(u8, Seq<u8>)>) -> Seq<TcpMessageView>
    decreases frames.len(),
{
    if frames.len() == 0 {
        Seq::empty()
    } else {
        let before = spec_messages(frames.drop_last());
        match spec_parse_tcp_message(frames.last().0, frames.last().1) {
            Some(m) => before.push(m),
            None => before,
        }
    }
}

pub open spec fn messages_view(msgs: Seq<TcpMessage>) -> Seq<TcpMessageView> {
    msgs.map_values(|m: TcpMessage| m@)
}

/// How a TCP connection attempt ended.
#[derive(Debug, Clone, Copy, PartialEq, Eq, Structural)]
pub enum TcpConnectOutcome {
    Connected,
    Refused,
    TimedOut,
}

/// Mathematical state of a [`TcpAttach`].
pub struct TcpAttachView {
    pub attached: bool,
    /// Bytes received and not yet taken as frames.
    pub buffer: Seq<u8>,
}

/// The advisory TCP channel: whether it is attached, and the reassembly of
/// what it has received. The socket lives with the caller.
pub struct TcpAttach {
    attached: bool,
    reader: TcpFrameReader,
}

impl View for TcpAttach {
    type V = TcpAttachView;

    closed spec fn view(&self) -> TcpAttachView {
        TcpAttachView { attached: self.attached, buffer: self.reader@ }
    }
}

impl TcpAttach {
    /// Detached, nothing buffered.
    pub fn new() -> (r: TcpAttach)
        ensures
            r@ == (TcpAttachView { attached: false, buffer: Seq::empty() }),
    {
        TcpAttach { attached: false, reader: TcpFrameReader::new() }
    }

    pub fn is_attached(&self) -> (r: bool)
        ensures
            r == self@.attached,
    {
        self.attached
    }

    /// A connection attempt ended. On success the channel is attached and
    /// nothing is returned; otherwise the delay before the next attempt, in
    /// milliseconds: the retry delay after a refusal, none after a timeout.
    pub fn connect_result(&mut self, outcome: TcpConnectOutcome) -> (r: Option<u64>)
        ensures
            final(self)@ == (TcpAttachView {
                attached: outcome == TcpConnectOutcome::Connected,
                ..old(self)@
            }),
            r == match outcome {
                TcpConnectOutcome::Connected => None,
                TcpConnectOutcome::Refused => Some(TCP_RETRY_DELAY_MS),
                TcpConnectOutcome::TimedOut => Some(0u64),
            },
    {
        match outcome {
            TcpConnectOutcome::Connected => {
                self.attached = true;
                None
            },
            TcpConnectOutcome::Refused => {
                self.attached = false;
                Some(TCP_RETRY_DELAY_MS)
            },
            TcpConnectOutcome::TimedOut => {
                self.attached = false;
                Some(0)
            },
        }
    }

    /// The stream closed or failed: detach and drop what was buffered. The
    /// caller connects again at once.
    pub fn stream_lost(&mut self)
        ensures
            final(self)@ == (TcpAttachView { attached: false, buffer: Seq::empty() }),
    {
        self.attached = false;
        self.reader = TcpFrameReader::new();
    }

    /// Bytes arrived: take every complete frame and return the messages
    /// they carry, in order; an incomplete frame stays buffered.
    pub fn receive(&mut self, data: &[u8]) -> (r: Vec<TcpMessage>)
        ensures
            final(self)@ == (TcpAttachView {
                buffer: spec_drain(old(self)@.buffer + data@).1,
                ..old(self)@
            }),
            messages_view(r@) == spec_messages(spec_drain(old(self)@.buffer + data@).0),
    {
        self.reader.feed(data);
        let ghost start = self.reader@;
        let ghost mut frames: Seq<(u8, Seq<u8>)> = Seq::empty();
        let mut msgs: Vec<TcpMessage> = Vec::new();
        loop
            invariant_except_break
                spec_drain(start) == (frames + spec_drain(self.reader@).0, spec_drain(self.reader@).1),
            invariant
                messages_view(msgs@) == spec_messages(frames),
                self.attached == old(self).attached,
            ensures
                spec_drain(start) == (frames, self.reader@),
                messages_view(msgs@) == spec_messages(frames),
                self.attached == old(self).attached,
            decreases self.reader@.len(),
        {
            let ghost before = self.reader@;
            proof {
                lemma_next_frame_shrinks(before);
            }
            match self.reader.next_frame() {
                Some((tag, payload)) => {
                    let ghost frame = (tag, payload@);
                    proof {
                        assert(spec_drain(before).0 == seq![frame] + spec_drain(self.reader@).0);
                        assert(frames + (seq![frame] + spec_drain(self.reader@).0) =~= frames.push(
                            frame,
                        ) + spec_drain(self.reader@).0);
                        assert(frames.push(frame).drop_last() =~= frames);
                        frames = frames.push(frame);
                    }
                    let ghost before_msgs = msgs@;
                    match parse_tcp_message(tag, payload.as_slice()) {
                        Some(m) => {
                            msgs.push(m);
                            proof {
                                assert(messages_view(msgs@) =~= messages_view(before_msgs).push(m@));
                            }
                        },
                        None => {},
                    }
                },
                None => {
                    proof {
                        assert(spec_drain(before) == (Seq::<(u8, Seq<u8>)>::empty(), self.reader@));
                        assert(frames + Seq::<(u8, Seq<u8>)>::empty() =~= frames);
                    }
                    break;
                },
            }
        }
        msgs
    }
}

} // verus!
