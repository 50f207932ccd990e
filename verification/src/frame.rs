//! Frames: a payload behind the four bytes of its length.

use crate::error::Error;
use crate::protocol::MAX_MESSAGE_SIZE;
use vstd::prelude::*;

verus! {

/// The number of bytes that hold the length of a frame.
pub const FRAME_HEADER_LEN: usize = 4;

/// The four bytes of `n`, most significant first.
pub open spec fn be32(n: nat) -> Seq<u8> {
    seq![
        (n / 16777216 % 256) as u8,
        (n / 65536 % 256) as u8,
        (n / 256 % 256) as u8,
        (n % 256) as u8,
    ]
}

/// The number that the first four bytes of `b` hold, most significant first.
pub open spec fn be32_value(b: Seq<u8>) -> nat
    recommends
        b.len() >= 4,
{
    (b[0] * 16777216 + b[1] * 65536 + b[2] * 256 + b[3]) as nat
}

/// A payload as a frame: its length in four bytes, then the payload.
pub open spec fn frame_bytes(payload: Seq<u8>) -> Seq<u8> {
    be32(payload.len()) + payload
}

/// What the bytes received so far come to.
pub enum FrameStep {
    /// A whole frame stands at the start: its payload, and the number of
    /// bytes that the frame takes.
    Frame(Seq<u8>, nat),
    /// More bytes are needed, and the peer may still send them.
    Incomplete,
    /// The frame declares a payload above the maximum message size.
    TooLarge,
    /// The peer closed the connection before the frame was whole.
    Truncated,
}

/// Reads one frame from the start of `s`. `closed` says that the peer will
/// send no more. The declared length is judged as soon as its four bytes
/// are there, whatever follows them.
pub open spec fn frame_at(s: Seq<u8>, closed: bool) -> FrameStep {
    if s.len() >= 4 && be32_value(s) > MAX_MESSAGE_SIZE {
        FrameStep::TooLarge
    } else if s.len() >= 4 && s.len() >= 4 + be32_value(s) {
        FrameStep::Frame(s.subrange(4, 4 + be32_value(s) as int), 4 + be32_value(s))
    } else if closed {
        FrameStep::Truncated
    } else {
        FrameStep::Incomplete
    }
}

/// What a result of `decode_frame` says, as a `FrameStep`.
pub open spec fn step_of(r: Result<Option<(Vec<u8>, usize)>, Error>) -> FrameStep {
    match r {
        Ok(Some((payload, used))) => FrameStep::Frame(payload@, used as nat),
        Ok(None) => FrameStep::Incomplete,
        Err(Error::Protocol(_)) => FrameStep::TooLarge,
        Err(_) => FrameStep::Truncated,
    }
}

/// The four bytes of a length hold that length.
pub proof fn lemma_be32_round_trip(n: nat)
    requires
        n < 4294967296,
    ensures
        be32(n).len() == 4,
        be32_value(be32(n)) == n,
{
}

/// Puts `payload` in a frame. A payload above the maximum message size is
/// refused with a protocol error.
pub fn encode_frame(payload: &[u8]) -> (r: Result<Vec<u8>, Error>)
    ensures
        payload.len() <= MAX_MESSAGE_SIZE ==> (r matches Ok(frame) && frame@ == frame_bytes(
            payload@,
        )),
        payload.len() > MAX_MESSAGE_SIZE ==> (r matches Err(Error::Protocol(why)) && why@
            == "Message too large"@),
{
    if payload.len() > MAX_MESSAGE_SIZE as usize {
        return Err(Error::Protocol(String::from_str("Message too large")));
    }
    let n: u32 = payload.len() as u32;
    let mut frame: Vec<u8> = Vec::new();
    frame.push((n / 16777216) as u8);
    frame.push((n / 65536 % 256) as u8);
    frame.push((n / 256 % 256) as u8);
    frame.push((n % 256) as u8);
    let mut i: usize = 0;
    while i < payload.len()
        invariant
            i <= payload.len(),
            frame@ == be32(payload@.len()) + payload@.take(i as int),
        decreases payload.len() - i,
    {
        frame.push(payload[i]);
        i += 1;
        assert(frame@ =~= be32(payload@.len()) + payload@.take(i as int));
    }
    assert(payload@.take(i as int) =~= payload@);
    Ok(frame)
}

/// Reads the length that the header of a frame declares. A length above
/// the maximum message size is a protocol error: the caller learns so from
/// the header alone, before it reads or makes room for any payload.
pub fn frame_length(header: [u8; 4]) -> (r: Result<u32, Error>)
    ensures
        be32_value(header@) <= MAX_MESSAGE_SIZE ==> r == Ok::<u32, Error>(
            be32_value(header@) as u32,
        ),
        be32_value(header@) > MAX_MESSAGE_SIZE ==> (r matches Err(Error::Protocol(why)) && why@
            == "Message too large"@),
{
    let declared: u32 = (header[0] as u32) * 16777216 + (header[1] as u32) * 65536 + (
    header[2] as u32) * 256 + (header[3] as u32);
    if declared > MAX_MESSAGE_SIZE {
        Err(Error::Protocol(String::from_str("Message too large")))
    } else {
        Ok(declared)
    }
}

/// Reads one frame from the start of the bytes received so far.
///
/// `Ok(Some(..))` holds the payload and the number of bytes that the frame
/// took. `Ok(None)` asks for more bytes. A declared length above the
/// maximum message size is a protocol error, given as soon as the header
/// is there. Where `closed` says that the peer has hung up, a frame that is
/// not whole is a connection error.
pub fn decode_frame(input: &[u8], closed: bool) -> (r: Result<Option<(Vec<u8>, usize)>, Error>)
    ensures
        step_of(r) == frame_at(input@, closed),
        r matches Err(e) ==> (e matches Error::Protocol(why) && why@ == "Message too large"@) || (
        e matches Error::Connection(why) && why@ == "Connection closed"@),
{
    if input.len() >= FRAME_HEADER_LEN {
        let header: [u8; 4] = [input[0], input[1], input[2], input[3]];
        let declared = match frame_length(header) {
            Ok(declared) => declared as usize,
            Err(e) => {
                return Err(e);
            },
        };
        if input.len() - 4 >= declared {
            let mut payload: Vec<u8> = Vec::new();
            let mut i: usize = 0;
            while i < declared
                invariant
                    i <= declared,
                    4 + declared <= input.len(),
                    payload@ == input@.subrange(4, 4 + i),
                decreases declared - i,
            {
                payload.push(input[4 + i]);
                i += 1;
                assert(payload@ =~= input@.subrange(4, 4 + i));
            }
            return Ok(Some((payload, 4 + declared)));
        }
    }
    if closed {
        Err(Error::Connection(String::from_str("Connection closed")))
    } else {
        Ok(None)
    }
}

/// The frames of `payloads`, one after the other, as they stand on the wire
/// when each is written whole.
pub open spec fn frames_bytes(payloads: Seq<Seq<u8>>) -> Seq<u8>
    decreases payloads.len(),
{
    if payloads.len() == 0 {
        Seq::empty()
    } else {
        frame_bytes(payloads.first()) + frames_bytes(payloads.drop_first())
    }
}

/// The payloads of the whole frames that stand at the start of `s`, in order.
pub open spec fn frames_of(s: Seq<u8>) -> Seq<Seq<u8>>
    decreases s.len(),
{
    match frame_at(s, false) {
        FrameStep::Frame(payload, used) => seq![payload] + frames_of(s.skip(used as int)),
        _ => Seq::empty(),
    }
}

/// A frame that declares more than the maximum message size is refused on
/// its header alone: whatever bytes follow the header, and whether or not
/// the peer has hung up, the answer is the same.
pub proof fn lemma_oversized_frame_rejected(header: Seq<u8>, rest: Seq<u8>, closed: bool)
    requires
        header.len() == 4,
        be32_value(header) > MAX_MESSAGE_SIZE,
    ensures
        frame_at(header + rest, closed) == FrameStep::TooLarge,
        frame_at(header, closed) == FrameStep::TooLarge,
{
    assert(be32_value(header + rest) == be32_value(header));
}

/// A frame is read back as the payload that was put in it, whatever
/// follows the frame.
pub proof fn lemma_frame_round_trip(payload: Seq<u8>, rest: Seq<u8>, closed: bool)
    requires
        payload.len() <= MAX_MESSAGE_SIZE,
    ensures
        frame_at(frame_bytes(payload) + rest, closed) == FrameStep::Frame(
            payload,
            4 + payload.len(),
        ),
{
    let s = frame_bytes(payload) + rest;
    lemma_be32_round_trip(payload.len());
    assert(be32_value(s) == be32_value(be32(payload.len())));
    assert(s.subrange(4, 4 + payload.len() as int) =~= payload);
}

/// Frames written whole, one after the other, are read back as the same
/// payloads in the same order: the boundaries between them are kept.
pub proof fn lemma_frames_in_order(payloads: Seq<Seq<u8>>)
    requires
        forall|i: int| 0 <= i < payloads.len() ==> (#[trigger] payloads[i]).len() <= MAX_MESSAGE_SIZE,
    ensures
        frames_of(frames_bytes(payloads)) == payloads,
    decreases payloads.len(),
{
    if payloads.len() == 0 {
        assert(frames_bytes(payloads) =~= Seq::<u8>::empty());
        assert(frames_of(frames_bytes(payloads)) =~= payloads);
    } else {
        let first = payloads.first();
        let rest = frames_bytes(payloads.drop_first());
        let s = frames_bytes(payloads);
        lemma_frame_round_trip(first, rest, false);
        lemma_be32_round_trip(first.len());
        assert(s.skip(4 + first.len() as int) =~= rest);
        lemma_frames_in_order(payloads.drop_first());
        assert(seq![first] + payloads.drop_first() =~= payloads);
    }
}

} // verus!
