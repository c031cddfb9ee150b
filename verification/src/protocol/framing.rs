//! Length-prefixed message framing: a frame is the payload's length as four
//! big-endian bytes, followed by the payload.
use vstd::prelude::*;

use crate::text::{joined, decimal, decimal_string};

verus! {

/// The largest payload a frame may carry (16 MiB).
pub const MAX_MESSAGE_SIZE: usize = 16777216;

/// A frame that cannot be written or read.
#[derive(Debug, Clone, Copy, PartialEq, Eq, Structural)]
pub enum FrameError {
    /// The length prefix is zero.
    ZeroLength,
    /// The payload, of the given length, exceeds `MAX_MESSAGE_SIZE`.
    TooLarge(usize),
}

/// The displayed message of a framing error.
pub open spec fn frame_error_text(e: FrameError) -> Seq<char> {
    match e {
        FrameError::ZeroLength => "Message length cannot be zero"@,
        FrameError::TooLarge(n) => "Message too large: "@ + decimal(n as nat) + " bytes (max: "@
            + decimal(MAX_MESSAGE_SIZE as nat) + ")"@,
    }
}

impl FrameError {
    /// The message of the error, as it is displayed.
    pub fn to_string(&self) -> (s: String)
        ensures
            s@ == frame_error_text(*self),
    {
        match self {
            FrameError::ZeroLength => String::from_str("Message length cannot be zero"),
            FrameError::TooLarge(n) => {
                let size = decimal_string(*n as u64);
                let max = decimal_string(MAX_MESSAGE_SIZE as u64);
                let a = joined("Message too large: ", size.as_str());
                let b = joined(a.as_str(), " bytes (max: ");
                let c = joined(b.as_str(), max.as_str());
                joined(c.as_str(), ")")
            },
        }
    }
}

/// The four big-endian bytes of `n` (taken modulo 2^32).
pub open spec fn be_bytes(n: nat) -> Seq<u8> {
    seq![
        (n / 16777216 % 256) as u8,
        (n / 65536 % 256) as u8,
        (n / 256 % 256) as u8,
        (n % 256) as u8,
    ]
}

/// The number whose big-endian bytes are the first four of `b`.
pub open spec fn be_value(b: Seq<u8>) -> nat {
    (b[0] as nat) * 16777216 + (b[1] as nat) * 65536 + (b[2] as nat) * 256 + (b[3] as nat)
}

/// The frame that carries `payload`.
pub open spec fn frame(payload: Seq<u8>) -> Seq<u8> {
    be_bytes(payload.len()) + payload
}

/// What reading a frame from the start of `buf` gives: an error if its length
/// prefix is zero or too large; `None` if `buf` does not yet hold the whole
/// frame; otherwise the payload and the number of bytes the frame takes.
pub open spec fn read_frame(buf: Seq<u8>) -> Result<Option<(Seq<u8>, nat)>, FrameError> {
    if buf.len() < 4 {
        Ok(None)
    } else {
        let n = be_value(buf);
        if n == 0 {
            Err(FrameError::ZeroLength)
        } else if n > MAX_MESSAGE_SIZE {
            Err(FrameError::TooLarge(n as usize))
        } else if buf.len() < 4 + n {
            Ok(None)
        } else {
            Ok(Some((buf.subrange(4, 4 + n as int), (4 + n) as nat)))
        }
    }
}

/// Four big-endian bytes give back the number they encode.
pub proof fn lemma_be_roundtrip(n: nat)
    requires
        n < 4294967296,
    ensures
        be_value(be_bytes(n)) == n,
{
    let b = be_bytes(n);
    assert(b[0] as nat == n / 16777216 % 256);
    assert(b[1] as nat == n / 65536 % 256);
    assert(b[2] as nat == n / 256 % 256);
    assert(b[3] as nat == n % 256);
    assert((n / 16777216 % 256) * 16777216 + (n / 65536 % 256) * 65536 + (n / 256 % 256) * 256 + n
        % 256 == n) by (nonlinear_arith)
        requires
            n < 4294967296,
    ;
}

/// The length prefix, the first four bytes of `buf`.
pub fn length_prefix(buf: &[u8]) -> (n: u32)
    requires
        buf@.len() >= 4,
    ensures
        n as nat == be_value(buf@),
{
    let b0 = buf[0] as u32;
    let b1 = buf[1] as u32;
    let b2 = buf[2] as u32;
    let b3 = buf[3] as u32;
    b0 * 16777216 + b1 * 65536 + b2 * 256 + b3
}

/// Checks a length prefix: it must be neither zero nor above `MAX_MESSAGE_SIZE`.
pub fn check_length(length: u32) -> (r: Result<usize, FrameError>)
    ensures
        length == 0 ==> r == Err::<usize, FrameError>(FrameError::ZeroLength),
        length > MAX_MESSAGE_SIZE ==> r == Err::<usize, FrameError>(
            FrameError::TooLarge(length as usize),
        ),
        0 < length <= MAX_MESSAGE_SIZE ==> r == Ok::<usize, FrameError>(length as usize),
{
    if length == 0 {
        Err(FrameError::ZeroLength)
    } else if length as usize > MAX_MESSAGE_SIZE {
        Err(FrameError::TooLarge(length as usize))
    } else {
        Ok(length as usize)
    }
}

/// The frame that carries `payload`; a payload above `MAX_MESSAGE_SIZE` is refused.
pub fn encode_frame(payload: &[u8]) -> (r: Result<Vec<u8>, FrameError>)
    ensures
        payload@.len() > MAX_MESSAGE_SIZE ==> r == Err::<Vec<u8>, FrameError>(
            FrameError::TooLarge(payload@.len() as usize),
        ),
        payload@.len() <= MAX_MESSAGE_SIZE ==> (r matches Ok(f) && f@ == frame(payload@)),
{
    let n = payload.len();
    if n > MAX_MESSAGE_SIZE {
        return Err(FrameError::TooLarge(n));
    }
    let mut out: Vec<u8> = Vec::new();
    out.push((n / 16777216 % 256) as u8);
    out.push((n / 65536 % 256) as u8);
    out.push((n / 256 % 256) as u8);
    out.push((n % 256) as u8);
    assert(out@ == be_bytes(n as nat));
    let mut i: usize = 0;
    while i < n
        invariant
            i <= n,
            n == payload@.len(),
            out@ == be_bytes(n as nat) + payload@.take(i as int),
        decreases n - i,
    {
        out.push(payload[i]);
        assert(payload@.take(i + 1) == payload@.take(i as int).push(payload@[i as int]));
        i = i + 1;
    }
    assert(payload@.take(n as int) == payload@);
    Ok(out)
}

/// Reads the frame at the start of `buf`: an error if its length prefix is zero or
/// too large, `None` while `buf` does not hold the whole frame, and otherwise the
/// payload with the number of bytes the frame takes.
pub fn decode_frame(buf: &[u8]) -> (r: Result<Option<(Vec<u8>, usize)>, FrameError>)
    ensures
        match read_frame(buf@) {
            Err(e) => r == Err::<Option<(Vec<u8>, usize)>, FrameError>(e),
            Ok(None) => r matches Ok(None),
            Ok(Some((p, used))) => r matches Ok(Some((q, u))) && q@ == p && u == used,
        },
{
    if buf.len() < 4 {
        return Ok(None);
    }
    let length = length_prefix(buf);
    let n = match check_length(length) {
        Err(e) => {
            return Err(e);
        },
        Ok(n) => n,
    };
    if buf.len() - 4 < n {
        return Ok(None);
    }
    let blen = buf.len();
    let mut payload: Vec<u8> = Vec::new();
    let mut i: usize = 0;
    while i < n
        invariant
            i <= n,
            blen == buf@.len(),
            4 + n <= blen,
            payload@ == buf@.subrange(4, 4 + i),
        decreases n - i,
    {
        payload.push(buf[4 + i]);
        assert(buf@.subrange(4, 4 + i + 1) == buf@.subrange(4, 4 + i).push(buf@[4 + i]));
        i = i + 1;
    }
    Ok(Some((payload, 4 + n)))
}

/// Reading gives back what writing framed: a payload of 1 to `MAX_MESSAGE_SIZE`
/// bytes, framed and followed by any further bytes, is read back whole, and the
/// frame's size is reported so that reading can go on from the next frame.
pub proof fn law_frame_roundtrip(payload: Seq<u8>, rest: Seq<u8>)
    requires
        1 <= payload.len() <= MAX_MESSAGE_SIZE,
    ensures
        read_frame(frame(payload) + rest) == Ok::<Option<(Seq<u8>, nat)>, FrameError>(
            Some((payload, (4 + payload.len()) as nat)),
        ),
{
    let buf = frame(payload) + rest;
    lemma_be_roundtrip(payload.len());
    assert(buf.subrange(0, 4) == be_bytes(payload.len()));
    assert(be_value(buf) == be_value(be_bytes(payload.len())));
    assert(buf.subrange(4, 4 + payload.len() as int) == payload);
}

/// An empty payload can be written but not read back: its frame announces a zero length.
pub proof fn law_empty_frame_is_refused(rest: Seq<u8>)
    ensures
        read_frame(frame(Seq::empty()) + rest) == Err::<Option<(Seq<u8>, nat)>, FrameError>(
            FrameError::ZeroLength,
        ),
{
    let buf = frame(Seq::<u8>::empty()) + rest;
    lemma_be_roundtrip(0);
    assert(be_value(buf) == be_value(be_bytes(0)));
}

/// A frame that has only partly arrived is waited for, not misread.
pub proof fn law_partial_frame_waits(payload: Seq<u8>, k: int)
    requires
        1 <= payload.len() <= MAX_MESSAGE_SIZE,
        0 <= k < 4 + payload.len(),
    ensures
        read_frame(frame(payload).take(k)) == Ok::<Option<(Seq<u8>, nat)>, FrameError>(None),
{
    let buf = frame(payload).take(k);
    if k >= 4 {
        lemma_be_roundtrip(payload.len());
        assert(be_value(buf) == be_value(be_bytes(payload.len())));
    }
}

} // verus!
