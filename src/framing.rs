//! Framing of the control channel.
//!
//! Each message travels as one frame: a four-byte big-endian length followed
//! by that many payload bytes. The payload is arbitrary, so the framing is
//! lossless for any message content.
use vstd::prelude::*;

verus! {

/// Number of bytes in a frame header.
pub const HEADER_LEN: usize = 4;

/// Largest payload a frame can carry.
pub const MAX_PAYLOAD_LEN: u64 = 0xffff_ffff;

/// The header that announces a payload of `n` bytes, most significant byte first.
pub open spec fn header_of(n: nat) -> Seq<u8> {
    seq![
        (n / 256 / 256 / 256 % 256) as u8,
        (n / 256 / 256 % 256) as u8,
        (n / 256 % 256) as u8,
        (n % 256) as u8,
    ]
}

/// The payload length that a four-byte header announces.
pub open spec fn header_value(h: Seq<u8>) -> nat {
    (((h[0] as nat) * 256 + h[1] as nat) * 256 + h[2] as nat) * 256 + h[3] as nat
}

/// The frame that carries `payload`.
pub open spec fn frame_of(payload: Seq<u8>) -> Seq<u8> {
    header_of(payload.len()) + payload
}

/// The first complete frame at the start of `buf`: its payload and the bytes
/// after it, or `None` while the frame is still incomplete.
pub open spec fn decode_frame(buf: Seq<u8>) -> Option<(Seq<u8>, Seq<u8>)> {
    if buf.len() < HEADER_LEN {
        None
    } else {
        let end = HEADER_LEN + header_value(buf.take(HEADER_LEN as int));
        if buf.len() < end {
            None
        } else {
            Some((buf.subrange(HEADER_LEN as int, end as int), buf.skip(end as int)))
        }
    }
}

/// Reading a header back gives the length it was made from.
pub proof fn lemma_header_round_trip(n: nat)
    requires
        n <= MAX_PAYLOAD_LEN,
    ensures
        header_of(n).len() == HEADER_LEN,
        header_value(header_of(n)) == n,
{
    let q1 = n / 256;
    let q2 = q1 / 256;
    let q3 = q2 / 256;
    assert(n == q1 * 256 + n % 256);
    assert(q1 == q2 * 256 + q1 % 256);
    assert(q2 == q3 * 256 + q2 % 256);
    assert(q3 < 256);
}

/// Framing is lossless: the decoder gives back exactly the payload that was
/// framed, and leaves whatever followed the frame untouched.
pub proof fn lemma_frame_round_trip(payload: Seq<u8>, rest: Seq<u8>)
    requires
        payload.len() <= MAX_PAYLOAD_LEN,
    ensures
        decode_frame(frame_of(payload) + rest) == Some((payload, rest)),
{
    lemma_header_round_trip(payload.len());
    let buf = frame_of(payload) + rest;
    assert(buf.take(HEADER_LEN as int) =~= header_of(payload.len()));
    let end = HEADER_LEN + payload.len();
    assert(buf.subrange(HEADER_LEN as int, end as int) =~= payload);
    assert(buf.skip(end as int) =~= rest);
}

/// A frame is never delivered before its last byte has arrived.
pub proof fn lemma_incomplete_frame(payload: Seq<u8>, k: int)
    requires
        payload.len() <= MAX_PAYLOAD_LEN,
        0 <= k < frame_of(payload).len(),
    ensures
        decode_frame(frame_of(payload).take(k)) is None,
{
    lemma_header_round_trip(payload.len());
    let buf = frame_of(payload).take(k);
    if buf.len() >= HEADER_LEN {
        assert(buf.take(HEADER_LEN as int) =~= header_of(payload.len()));
    }
}

/// Frames `payload`; `None` when it is longer than a header can announce.
pub fn encode_frame(payload: &[u8]) -> (r: Option<Vec<u8>>)
    ensures
        r matches Some(f) ==> f@ == frame_of(payload@),
        r is None <==> payload@.len() > MAX_PAYLOAD_LEN,
{
    let len = payload.len();
    if len as u64 > MAX_PAYLOAD_LEN {
        return None;
    }
    let n = len as u64;
    let mut out: Vec<u8> = Vec::new();
    out.push((n / 256 / 256 / 256 % 256) as u8);
    out.push((n / 256 / 256 % 256) as u8);
    out.push((n / 256 % 256) as u8);
    out.push((n % 256) as u8);
    assert(out@ =~= header_of(len as nat));
    let mut i: usize = 0;
    while i < len
        invariant
            i <= len,
            len == payload@.len(),
            out@ =~= header_of(len as nat) + payload@.take(i as int),
        decreases len - i,
    {
        out.push(payload[i]);
        i += 1;
        assert(out@ =~= header_of(len as nat) + payload@.take(i as int));
    }
    assert(payload@.take(len as int) =~= payload@);
    Some(out)
}

/// Collects the bytes read from the control channel and cuts them into frames.
pub struct FrameDecoder {
    buf: Vec<u8>,
}

impl View for FrameDecoder {
    type V = Seq<u8>;

    /// The bytes received and not yet handed out as part of a frame.
    closed spec fn view(&self) -> Seq<u8> {
        self.buf@
    }
}

impl FrameDecoder {
    pub fn new() -> (r: FrameDecoder)
        ensures
            r@ == Seq::<u8>::empty(),
    {
        FrameDecoder { buf: Vec::new() }
    }

    /// Appends bytes that arrived on the channel.
    pub fn feed(&mut self, bytes: &[u8])
        ensures
            final(self)@ == old(self)@ + bytes@,
    {
        let mut i: usize = 0;
        while i < bytes.len()
            invariant
                i <= bytes@.len(),
                self@ == old(self)@ + bytes@.take(i as int),
            decreases bytes@.len() - i,
        {
            self.buf.push(bytes[i]);
            i += 1;
            assert(self@ =~= old(self)@ + bytes@.take(i as int));
        }
        assert(bytes@.take(bytes@.len() as int) =~= bytes@);
    }

    /// Whether bytes of an unfinished frame are waiting in the buffer.
    pub fn has_partial(&self) -> (r: bool)
        ensures
            r == (self@.len() > 0),
    {
        self.buf.len() > 0
    }

    /// Takes the first complete frame's payload out of the buffer, if one
    /// has fully arrived.
    pub fn next_frame(&mut self) -> (r: Option<Vec<u8>>)
        ensures
            match decode_frame(old(self)@) {
                None => r is None && final(self)@ == old(self)@,
                Some((payload, rest)) => r matches Some(p) && p@ == payload && final(self)@ == rest,
            },
    {
        let len = self.buf.len();
        if len < HEADER_LEN {
            return None;
        }
        let n: u64 = ((self.buf[0] as u64 * 256 + self.buf[1] as u64) * 256 + self.buf[2] as u64)
            * 256 + self.buf[3] as u64;
        assert(n == header_value(self@.take(HEADER_LEN as int)));
        if n > (len - HEADER_LEN) as u64 {
            return None;
        }
        let end = HEADER_LEN + n as usize;
        let rest = self.buf.split_off(end);
        let payload = self.buf.split_off(HEADER_LEN);
        self.buf = rest;
        Some(payload)
    }
}

} // verus!
