use vstd::prelude::*;

use crate::opcode::{error_byte, opcode_byte, opcode_of, opcode_wf, ErrorCode, Opcode};

verus! {

/// The most payload bytes that one frame carries: its length is one byte.
pub const MAX_PAYLOAD: usize = 255;

/// A frame: `[opcode][payload length][payload]`.
pub open spec fn frame(op: Opcode, payload: Seq<u8>) -> Seq<u8> {
    seq![opcode_byte(op), payload.len() as u8] + payload
}

/// How many bytes the frame that starts at the front of `bytes` takes in all.
pub open spec fn frame_size(bytes: Seq<u8>) -> int
    recommends
        bytes.len() >= 2,
{
    2 + bytes[1] as int
}

/// What the front of `bytes` decodes to, if it holds a whole frame.
pub open spec fn parse_frame(bytes: Seq<u8>) -> Option<(Opcode, Seq<u8>)> {
    if bytes.len() >= 2 && bytes.len() >= frame_size(bytes) {
        Some((opcode_of(bytes[0]), bytes.subrange(2, frame_size(bytes))))
    } else {
        None
    }
}

/// The longest prefix of `s` that fits in one frame.
pub open spec fn fit(s: Seq<u8>) -> Seq<u8> {
    if s.len() <= MAX_PAYLOAD {
        s
    } else {
        s.take(MAX_PAYLOAD as int)
    }
}

/// Why a byte sequence does not decode to a message.
#[derive(Clone, Copy, Debug, PartialEq, Eq, Structural)]
pub enum ProtocolError {
    /// The bytes stop before the frame ends; the frame needs this many bytes
    /// in all (2 while the header itself is short).
    Incomplete(usize),
}

/// One protocol message: an operation and its payload.
#[derive(Clone, Debug)]
pub struct Packet {
    pub op: Opcode,
    pub payload: Vec<u8>,
}

impl Packet {
    /// A message that fits in one frame.
    pub open spec fn wf(&self) -> bool {
        self.payload.len() <= MAX_PAYLOAD && opcode_wf(self.op)
    }

    pub open spec fn spec_encoded(&self) -> Seq<u8> {
        frame(self.op, self.payload@)
    }

    pub fn new(op: Opcode, payload: Vec<u8>) -> (r: Packet)
        requires
            payload.len() <= MAX_PAYLOAD,
        ensures
            r.op == op,
            r.payload@ == payload@,
    {
        Packet { op, payload }
    }

    /// A message whose payload is `text` cut to the frame's limit.
    pub fn text(op: Opcode, text: &[u8]) -> (r: Packet)
        ensures
            r.op == op,
            r.payload@ == fit(text@),
            r.payload.len() <= MAX_PAYLOAD,
    {
        let n: usize = if text.len() <= MAX_PAYLOAD {
            text.len()
        } else {
            MAX_PAYLOAD
        };
        let mut payload: Vec<u8> = Vec::new();
        let mut i: usize = 0;
        while i < n
            invariant
                n <= text.len(),
                n == fit(text@).len(),
                i <= n,
                payload@ == text@.take(i as int),
            decreases n - i,
        {
            payload.push(text[i]);
            i = i + 1;
            assert(payload@ =~= text@.take(i as int));
        }
        assert(payload@ =~= fit(text@));
        Packet { op, payload }
    }

    /// An `Error` message carrying one error code.
    pub fn error(code: ErrorCode) -> (r: Packet)
        ensures
            r.op == Opcode::Error,
            r.payload@ == seq![error_byte(code)],
            r.wf(),
    {
        let mut payload: Vec<u8> = Vec::new();
        payload.push(code.to_byte());
        Packet { op: Opcode::Error, payload }
    }

    pub fn op(&self) -> (r: Opcode)
        ensures
            r == self.op,
    {
        self.op
    }

    pub fn payload(&self) -> (r: Vec<u8>)
        ensures
            r@ == self.payload@,
    {
        self.payload.clone()
    }

    /// The bytes of this message's frame.
    pub fn encode(&self) -> (r: Vec<u8>)
        requires
            self.payload.len() <= MAX_PAYLOAD,
        ensures
            r@ == self.spec_encoded(),
    {
        let mut r: Vec<u8> = Vec::new();
        r.push(self.op.to_byte());
        r.push(self.payload.len() as u8);
        let mut i: usize = 0;
        while i < self.payload.len()
            invariant
                r@ == seq![opcode_byte(self.op), self.payload.len() as u8] + self.payload@.take(
                    i as int,
                ),
                i <= self.payload.len(),
            decreases self.payload.len() - i,
        {
            r.push(self.payload[i]);
            i = i + 1;
            assert(r@ =~= seq![opcode_byte(self.op), self.payload.len() as u8]
                + self.payload@.take(i as int));
        }
        assert(self.payload@.take(i as int) =~= self.payload@);
        r
    }

    /// The message in the frame at the front of `bytes`; bytes after the
    /// frame are left alone. A short read gives `Incomplete` with the number
    /// of bytes that the frame needs.
    pub fn decode(bytes: &[u8]) -> (r: Result<Packet, ProtocolError>)
        ensures
            match parse_frame(bytes@) {
                Some((op, payload)) => r matches Ok(p) && p.op == op && p.payload@ == payload
                    && p.wf(),
                None => r matches Err(ProtocolError::Incomplete(n)) && n > bytes.len() && n as int
                    == (if bytes.len() < 2 {
                    2
                } else {
                    frame_size(bytes@)
                }),
            },
    {
        if bytes.len() < 2 {
            return Err(ProtocolError::Incomplete(2));
        }
        let size: usize = 2 + bytes[1] as usize;
        if bytes.len() < size {
            return Err(ProtocolError::Incomplete(size));
        }
        let mut payload: Vec<u8> = Vec::new();
        let mut i: usize = 2;
        while i < size
            invariant
                2 <= i <= size <= bytes.len(),
                size == frame_size(bytes@),
                payload@ == bytes@.subrange(2, i as int),
            decreases size - i,
        {
            payload.push(bytes[i]);
            i = i + 1;
            assert(payload@ =~= bytes@.subrange(2, i as int));
        }
        Ok(Packet { op: Opcode::from_byte(bytes[0]), payload })
    }
}

/// Decoding an encoded message gives the same operation and payload back,
/// for every well-formed operation and every payload of at most 255 bytes.
pub proof fn lemma_decode_encode(op: Opcode, payload: Seq<u8>)
    requires
        opcode_wf(op),
        payload.len() <= MAX_PAYLOAD,
    ensures
        parse_frame(frame(op, payload)) == Some((op, payload)),
{
    let f = frame(op, payload);
    assert(f[1] == payload.len() as u8);
    assert(f.subrange(2, frame_size(f)) =~= payload);
}

/// A decoded frame, encoded again, gives back the bytes it was read from.
pub proof fn lemma_encode_decode(bytes: Seq<u8>)
    requires
        parse_frame(bytes) is Some,
    ensures
        parse_frame(bytes) matches Some((op, payload)) ==> frame(op, payload) == bytes.take(
            frame_size(bytes),
        ),
{
    if let Some((op, payload)) = parse_frame(bytes) {
        assert(frame(op, payload) =~= bytes.take(frame_size(bytes)));
    }
}

} // verus!
