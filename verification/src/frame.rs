//! The daemon's binary frame protocol: a 4-byte big-endian length (type byte
//! plus payload), one type byte, then the payload. Session frames carry a
//! one-byte session ID length, the ID's UTF-8 bytes, then the data.

use vstd::prelude::*;
use vstd::string::*;
use vstd::utf8::*;
use crate::codec::{string_from_chars, utf8_to_chars};

verus! {

/// A JSON control request or response.
pub const MSG_CONTROL: u8 = 0x01;
/// PTY output for a session.
pub const MSG_PTY_OUTPUT: u8 = 0x02;
/// Key input for a session.
pub const MSG_KEY_INPUT: u8 = 0x03;
/// A serialized terminal snapshot for a session.
pub const MSG_SNAPSHOT: u8 = 0x04;
/// The largest length a frame header may announce (16 MiB).
pub const MAX_FRAME_SIZE: u32 = 0x100_0000;

/// A single binary frame on the wire.
pub struct Frame {
    pub msg_type: u8,
    pub payload: Vec<u8>,
}

/// The payload of a session frame: the ID's length byte (the length cut to
/// eight bits), the ID bytes, the data.
pub open spec fn session_payload(sid: Seq<u8>, data: Seq<u8>) -> Seq<u8> {
    seq![(sid.len() % 256) as u8] + sid + data
}

/// What a session payload parses to: the session ID's characters and the
/// data, or `None` when the payload is empty, shorter than its ID length
/// says, or the ID is not UTF-8.
pub open spec fn parsed_session(p: Seq<u8>) -> Option<(Seq<char>, Seq<u8>)> {
    if p.len() == 0 {
        None
    } else {
        let n = p[0] as int;
        if p.len() < 1 + n {
            None
        } else if !valid_utf8(p.subrange(1, 1 + n)) {
            None
        } else {
            Some((decode_utf8(p.subrange(1, 1 + n)), p.subrange(1 + n, p.len() as int)))
        }
    }
}

/// The four big-endian bytes of `n`.
pub open spec fn be32(n: u32) -> Seq<u8> {
    seq![(n >> 24u32) as u8, ((n >> 16u32) & 0xff) as u8, ((n >> 8u32) & 0xff) as u8, (n & 0xff) as u8]
}

/// The number four big-endian bytes stand for.
pub open spec fn be32_value(b0: u8, b1: u8, b2: u8, b3: u8) -> u32 {
    ((b0 as u32) << 24u32) | ((b1 as u32) << 16u32) | ((b2 as u32) << 8u32) | (b3 as u32)
}

/// The length field of a frame with payload length `n`: one for the type
/// byte plus the length cut to 32 bits.
pub open spec fn length_field(n: nat) -> int {
    1 + (n as u32) as int
}

/// Whether a payload of `n` bytes has a length field that fits in 32 bits
/// (the length cut to 32 bits is not `u32::MAX`).
pub fn length_field_fits(n: usize) -> (r: bool)
    ensures
        r == (length_field(n as nat) <= u32::MAX),
{
    (#[verifier::truncate] (n as u32)) < u32::MAX
}

/// The payload length a frame header announces, or `None` when the length
/// field is zero or over `MAX_FRAME_SIZE`.
pub open spec fn announced_payload(len: u32) -> Option<usize> {
    if len == 0 || len > MAX_FRAME_SIZE {
        None
    } else {
        Some((len - 1) as usize)
    }
}

/// Why a frame could not be read from a buffer.
#[derive(Debug, Clone, Copy, PartialEq, Eq, Structural)]
pub enum FrameError {
    /// The length field is zero or over `MAX_FRAME_SIZE`.
    InvalidLength,
    /// The buffer ends before the frame does.
    Incomplete,
}

/// The bytes of a frame on the wire: header, type byte, payload.
pub open spec fn frame_bytes(msg_type: u8, payload: Seq<u8>) -> Seq<u8> {
    be32(length_field(payload.len()) as u32).push(msg_type) + payload
}

/// What reading one frame from the start of `buf` gives: its type, its
/// payload and the number of bytes it takes; an invalid length is refused
/// as soon as the four length bytes are there.
pub open spec fn read_frame_spec(buf: Seq<u8>) -> Result<(u8, Seq<u8>, int), FrameError> {
    if buf.len() < 4 {
        Err(FrameError::Incomplete)
    } else {
        match announced_payload(be32_value(buf[0], buf[1], buf[2], buf[3])) {
            None => Err(FrameError::InvalidLength),
            Some(n) => if buf.len() < 5 + n {
                Err(FrameError::Incomplete)
            } else {
                Ok((buf[4], buf.subrange(5, 5 + n), 5 + n))
            },
        }
    }
}

/// Append `data` to `v`.
fn append_bytes(v: &mut Vec<u8>, data: &[u8])
    ensures
        final(v)@ == old(v)@ + data@,
{
    let mut i: usize = 0;
    while i < data.len()
        invariant
            i <= data@.len(),
            v@ == old(v)@ + data@.take(i as int),
        decreases data@.len() - i,
    {
        v.push(data[i]);
        i += 1;
        assert(data@.take(i as int) =~= data@.take(i - 1).push(data@[i - 1]));
    }
    assert(data@.take(data@.len() as int) =~= data@);
}

/// The payload of a session frame for `session_id` and `data`.
fn session_bytes(session_id: &str, data: &[u8]) -> (p: Vec<u8>)
    ensures
        p@ == session_payload(session_id.spec_bytes(), data@),
{
    let sid = session_id.as_bytes();
    let mut payload: Vec<u8> = Vec::new();
    payload.push((sid.len() % 256) as u8);
    append_bytes(&mut payload, sid);
    append_bytes(&mut payload, data);
    payload
}

impl Frame {
    /// A PTY output frame for `session_id`.
    pub fn pty_output(session_id: &str, data: &[u8]) -> (f: Frame)
        ensures
            f.msg_type == MSG_PTY_OUTPUT,
            f.payload@ == session_payload(session_id.spec_bytes(), data@),
    {
        Frame { msg_type: MSG_PTY_OUTPUT, payload: session_bytes(session_id, data) }
    }

    /// A snapshot frame for `session_id`.
    pub fn snapshot(session_id: &str, data: &[u8]) -> (f: Frame)
        ensures
            f.msg_type == MSG_SNAPSHOT,
            f.payload@ == session_payload(session_id.spec_bytes(), data@),
    {
        Frame { msg_type: MSG_SNAPSHOT, payload: session_bytes(session_id, data) }
    }

    /// A control frame carrying `payload` (serialized JSON).
    pub fn control(payload: Vec<u8>) -> (f: Frame)
        ensures
            f.msg_type == MSG_CONTROL,
            f.payload@ == payload@,
    {
        Frame { msg_type: MSG_CONTROL, payload }
    }

    /// The session ID and data of a session frame (see `parsed_session`).
    pub fn parse_session_payload(&self) -> (r: Option<(String, &[u8])>)
        ensures
            match parsed_session(self.payload@) {
                None => r is None,
                Some((sid, data)) => r is Some && (r->0).0@ == sid && (r->0).1@ == data,
            },
    {
        if self.payload.len() == 0 {
            return None;
        }
        let n = self.payload[0] as usize;
        if self.payload.len() < 1 + n {
            return None;
        }
        let all = self.payload.as_slice();
        let sid_bytes = vstd::slice::slice_subrange(all, 1, 1 + n);
        match utf8_to_chars(sid_bytes) {
            None => None,
            Some(chars) => {
                let sid = string_from_chars(&chars);
                let data = vstd::slice::slice_subrange(all, 1 + n, all.len());
                Some((sid, data))
            },
        }
    }

    /// The five header bytes that go before the payload on the wire: the
    /// length field, big-endian, then the type byte.
    pub fn header(&self) -> (h: Vec<u8>)
        requires
            length_field(self.payload@.len()) <= u32::MAX,
        ensures
            h@ == be32(length_field(self.payload@.len()) as u32).push(self.msg_type),
    {
        let len: u32 = 1u32 + #[verifier::truncate] (self.payload.len() as u32);
        let mut h: Vec<u8> = Vec::new();
        h.push((len >> 24u32) as u8);
        h.push(((len >> 16u32) & 0xff) as u8);
        h.push(((len >> 8u32) & 0xff) as u8);
        h.push((len & 0xff) as u8);
        h.push(self.msg_type);
        assert(h@ =~= be32(len).push(self.msg_type));
        h
    }

    /// The frame as written on the wire: header, type byte, payload.
    pub fn encode(&self) -> (b: Vec<u8>)
        requires
            length_field(self.payload@.len()) <= u32::MAX,
        ensures
            b@ == frame_bytes(self.msg_type, self.payload@),
    {
        let mut b = self.header();
        append_bytes(&mut b, self.payload.as_slice());
        b
    }
}

/// Read one frame from the start of `buf` (see `read_frame_spec`): the
/// frame and the number of bytes it took.
pub fn read_frame(buf: &[u8]) -> (r: Result<(Frame, usize), FrameError>)
    ensures
        match read_frame_spec(buf@) {
            Ok((t, p, n)) => r matches Ok((f, m)) && f.msg_type == t && f.payload@ == p && m == n,
            Err(e) => r matches Err(e2) && e2 == e,
        },
{
    if buf.len() < 4 {
        return Err(FrameError::Incomplete);
    }
    let header: [u8; 4] = [buf[0], buf[1], buf[2], buf[3]];
    assert(header@[0] == buf@[0] && header@[1] == buf@[1] && header@[2] == buf@[2] && header@[3] == buf@[3]);
    let n = match frame_payload_len(&header) {
        None => return Err(FrameError::InvalidLength),
        Some(n) => n,
    };
    if buf.len() < 5 || buf.len() - 5 < n {
        return Err(FrameError::Incomplete);
    }
    let msg_type = buf[4];
    let mut payload: Vec<u8> = Vec::new();
    append_bytes(&mut payload, vstd::slice::slice_subrange(buf, 5, 5 + n));
    Ok((Frame { msg_type, payload }, 5 + n))
}

/// The payload length announced by the four length bytes of a frame
/// header, or `None` for an invalid length.
pub fn frame_payload_len(header: &[u8; 4]) -> (r: Option<usize>)
    ensures
        r == announced_payload(be32_value(header@[0], header@[1], header@[2], header@[3])),
{
    let b0 = header[0];
    let b1 = header[1];
    let b2 = header[2];
    let b3 = header[3];
    let len: u32 = ((b0 as u32) << 24u32) | ((b1 as u32) << 16u32) | ((b2 as u32) << 8u32) | (b3 as u32);
    if len == 0 || len > MAX_FRAME_SIZE {
        None
    } else {
        Some((len - 1) as usize)
    }
}

/// Reading back a header: the four big-endian bytes of a number give the
/// number again.
pub proof fn lemma_be32_roundtrip(n: u32)
    ensures
        be32_value(be32(n)[0], be32(n)[1], be32(n)[2], be32(n)[3]) == n,
{
    let b0 = (n >> 24u32) as u8;
    let b1 = ((n >> 16u32) & 0xff) as u8;
    let b2 = ((n >> 8u32) & 0xff) as u8;
    let b3 = (n & 0xff) as u8;
    assert(((b0 as u32) << 24u32) | ((b1 as u32) << 16u32) | ((b2 as u32) << 8u32) | (b3 as u32) == n)
        by (bit_vector)
        requires
            b0 == (n >> 24u32) as u8,
            b1 == ((n >> 16u32) & 0xff) as u8,
            b2 == ((n >> 8u32) & 0xff) as u8,
            b3 == (n & 0xff) as u8,
    ;
}

/// What a reader gets back of a written frame: for a payload no longer than
/// the protocol allows, the header announces exactly the payload's length
/// and carries the frame's type.
pub proof fn frame_header_roundtrip(msg_type: u8, payload: Seq<u8>)
    requires
        payload.len() < MAX_FRAME_SIZE,
    ensures
        ({
            let h = be32(length_field(payload.len()) as u32).push(msg_type);
            &&& announced_payload(be32_value(h[0], h[1], h[2], h[3])) == Some(payload.len() as usize)
            &&& h[4] == msg_type
            &&& h.len() == 5
        }),
{
    let n = length_field(payload.len()) as u32;
    assert(payload.len() as u32 == payload.len());
    lemma_be32_roundtrip(n);
    let h = be32(n).push(msg_type);
    assert(h[0] == be32(n)[0] && h[1] == be32(n)[1] && h[2] == be32(n)[2] && h[3] == be32(n)[3]);
}

/// What a reader gets back of a written session frame: an ID of at most 255
/// UTF-8 bytes and the data come back unchanged.
pub proof fn session_payload_roundtrip(sid: Seq<char>, data: Seq<u8>)
    requires
        encode_utf8(sid).len() <= 255,
    ensures
        parsed_session(session_payload(encode_utf8(sid), data)) == Some((sid, data)),
{
    let b = encode_utf8(sid);
    let p = session_payload(b, data);
    encode_utf8_valid_utf8(sid);
    encode_utf8_decode_utf8(sid);
    assert(p[0] as int == b.len());
    assert(p.subrange(1, 1 + b.len() as int) =~= b);
    assert(p.subrange(1 + b.len() as int, p.len() as int) =~= data);
}

/// What reading gives back of a written frame: for a payload no longer than
/// the protocol allows, the same type and payload, taking exactly the bytes
/// written, whatever follows them.
pub proof fn law_frame_roundtrip(msg_type: u8, payload: Seq<u8>, rest: Seq<u8>)
    requires
        payload.len() < MAX_FRAME_SIZE,
    ensures
        read_frame_spec(frame_bytes(msg_type, payload) + rest) == Ok::<(u8, Seq<u8>, int), FrameError>(
            (msg_type, payload, 5 + payload.len() as int),
        ),
{
    frame_header_roundtrip(msg_type, payload);
    let h = be32(length_field(payload.len()) as u32).push(msg_type);
    let buf = frame_bytes(msg_type, payload) + rest;
    assert(buf[0] == h[0] && buf[1] == h[1] && buf[2] == h[2] && buf[3] == h[3] && buf[4] == msg_type);
    assert(buf.subrange(5, 5 + payload.len() as int) =~= payload);
}

} // verus!
