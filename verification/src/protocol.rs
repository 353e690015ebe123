//! The messages that two devices exchange, and how they are framed.

use vstd::prelude::*;
use vstd::slice::slice_subrange;
use vstd::string::*;

use crate::bytes::{copy_bytes, push_bytes};
use crate::crypto;

verus! {

/// The version of the protocol.
pub const PROTO: u32 = 1;

/// The largest message, in bytes.
pub const MAX_MSG: usize = 12_582_912;

/// The port on which devices exchange clips.
pub const DEFAULT_PORT: u16 = 27419;

/// The port on which devices are paired.
pub const PAIR_PORT: u16 = 27420;

/// A message.
#[derive(Debug)]
pub enum Msg {
    Hello { device_id: String, name: String, proto: u32 },
    PairConfirm,
    PairAbort,
    Clip { origin: String, mime: String, hash: String, data_b64: String },
    Ping,
    Pong,
}

/// What a message says.
pub enum MsgView {
    Hello { device_id: Seq<char>, name: Seq<char>, proto: u32 },
    PairConfirm,
    PairAbort,
    Clip { origin: Seq<char>, mime: Seq<char>, hash: Seq<char>, data_b64: Seq<char> },
    Ping,
    Pong,
}

impl Msg {
    pub open spec fn view(&self) -> MsgView {
        match *self {
            Msg::Hello { device_id, name, proto } => MsgView::Hello {
                device_id: device_id@,
                name: name@,
                proto,
            },
            Msg::PairConfirm => MsgView::PairConfirm,
            Msg::PairAbort => MsgView::PairAbort,
            Msg::Clip { origin, mime, hash, data_b64 } => MsgView::Clip {
                origin: origin@,
                mime: mime@,
                hash: hash@,
                data_b64: data_b64@,
            },
            Msg::Ping => MsgView::Ping,
            Msg::Pong => MsgView::Pong,
        }
    }
}

impl Clone for Msg {
    fn clone(&self) -> (r: Self)
        ensures
            r == *self,
    {
        match self {
            Msg::Hello { device_id, name, proto } => Msg::Hello {
                device_id: device_id.clone(),
                name: name.clone(),
                proto: *proto,
            },
            Msg::PairConfirm => Msg::PairConfirm,
            Msg::PairAbort => Msg::PairAbort,
            Msg::Clip { origin, mime, hash, data_b64 } => Msg::Clip {
                origin: origin.clone(),
                mime: mime.clone(),
                hash: hash.clone(),
                data_b64: data_b64.clone(),
            },
            Msg::Ping => Msg::Ping,
            Msg::Pong => Msg::Pong,
        }
    }
}

// ---- frames ----

/// Why a frame was not written or read.
#[derive(Debug, Clone, Copy, PartialEq, Eq, Structural)]
pub enum FrameProblem {
    /// The message has this many bytes, which is more than allowed.
    TooLarge(usize),
    /// The stream ended before the length was complete.
    Closed,
    /// The stream ended before the message was complete.
    Truncated,
}

/// The four bytes of a number, the highest first.
pub open spec fn be_bytes(n: int) -> Seq<u8> {
    seq![
        (n / 0x1000000) as u8,
        (n / 0x10000 % 0x100) as u8,
        (n / 0x100 % 0x100) as u8,
        (n % 0x100) as u8,
    ]
}

/// A message as it is sent: its length, then its bytes.
pub open spec fn frame(payload: Seq<u8>) -> Seq<u8> {
    be_bytes(payload.len() as int) + payload
}

/// Frames the bytes of a message.
pub fn write_msg(payload: &[u8]) -> (r: Result<Vec<u8>, FrameProblem>)
    ensures
        r is Ok <==> payload@.len() <= MAX_MSG,
        r matches Ok(bytes) ==> bytes@ == frame(payload@),
        r matches Err(e) ==> e == FrameProblem::TooLarge(payload@.len() as usize),
{
    let n: usize = payload.len();
    if n > MAX_MSG {
        return Err(FrameProblem::TooLarge(n));
    }
    let mut out: Vec<u8> = Vec::new();
    out.push((n / 0x1000000) as u8);
    out.push((n / 0x10000 % 0x100) as u8);
    out.push((n / 0x100 % 0x100) as u8);
    out.push((n % 0x100) as u8);
    assert(out@ =~= be_bytes(n as int));
    push_bytes(&mut out, payload);
    Ok(out)
}

/// The length that the first four bytes of a frame announce.
pub fn payload_length(header: &[u8; 4]) -> (r: Result<usize, FrameProblem>)
    ensures
        r is Ok <==> crypto::be_u32(header@) <= MAX_MSG,
        r matches Ok(n) ==> n == crypto::be_u32(header@),
        r matches Err(e) ==> e == FrameProblem::TooLarge(crypto::be_u32(header@) as usize),
{
    let n: u32 = (header[0] as u32) * 0x1000000 + (header[1] as u32) * 0x10000 + (header[2] as u32)
        * 0x100 + (header[3] as u32);
    let len: usize = n as usize;
    if len > MAX_MSG {
        return Err(FrameProblem::TooLarge(len));
    }
    Ok(len)
}

/// What the first frame of a stream holds.
pub open spec fn first_payload(stream: Seq<u8>) -> Result<Seq<u8>, FrameProblem> {
    if stream.len() < 4 {
        Err(FrameProblem::Closed)
    } else {
        let n = crypto::be_u32(stream.take(4));
        if n > MAX_MSG {
            Err(FrameProblem::TooLarge(n as usize))
        } else if stream.len() < 4 + n {
            Err(FrameProblem::Truncated)
        } else {
            Ok(stream.subrange(4, 4 + n))
        }
    }
}

/// Reads the bytes of the message at the start of a stream. The frame has
/// four bytes more than the message.
pub fn read_msg(stream: &[u8]) -> (r: Result<Vec<u8>, FrameProblem>)
    ensures
        r matches Ok(payload) ==> first_payload(stream@) == Ok::<Seq<u8>, FrameProblem>(payload@),
        r matches Err(e) ==> first_payload(stream@) == Err::<Seq<u8>, FrameProblem>(e),
{
    if stream.len() < 4 {
        return Err(FrameProblem::Closed);
    }
    let header: [u8; 4] = [stream[0], stream[1], stream[2], stream[3]];
    assert(header@ =~= stream@.take(4));
    let n: usize = payload_length(&header)?;
    if stream.len() - 4 < n {
        return Err(FrameProblem::Truncated);
    }
    Ok(copy_bytes(slice_subrange(stream, 4, 4 + n)))
}

/// What was written is read back, whatever follows it in the stream.
pub proof fn written_message_is_read_back(payload: Seq<u8>, rest: Seq<u8>)
    requires
        payload.len() <= MAX_MSG,
    ensures
        first_payload(frame(payload) + rest) == Ok::<Seq<u8>, FrameProblem>(payload),
        (frame(payload) + rest).skip(4 + payload.len() as int) == rest,
{
    let n = payload.len() as int;
    let stream = frame(payload) + rest;
    assert(stream.take(4) =~= be_bytes(n));
    assert(stream.subrange(4, 4 + n) =~= payload);
    assert((frame(payload) + rest).skip(4 + n) =~= rest);
}

/// A frame is four bytes longer than its message, and these four bytes are the
/// length of the message, its highest byte first. So different messages have
/// different frames.
pub proof fn frames_start_with_the_length(payload: Seq<u8>, other: Seq<u8>)
    requires
        payload.len() <= MAX_MSG,
        other.len() <= MAX_MSG,
    ensures
        ({
            let f = frame(payload);
            &&& f.len() == payload.len() + 4
            &&& f.skip(4) == payload
            &&& ((f[0] * 256 + f[1]) * 256 + f[2]) * 256 + f[3] == payload.len()
        }),
        frame(payload) == frame(other) ==> payload == other,
{
    let f = frame(payload);
    let n = payload.len() as int;
    assert(f.skip(4) =~= payload);
    assert(frame(other).skip(4) =~= other);
    assert(f[0] == n / 0x1000000 && f[1] == n / 0x10000 % 0x100 && f[2] == n / 0x100 % 0x100 && f[3]
        == n % 0x100);
}

/// A stream is read only where its first message is complete and of at most
/// 12 MiB. More bytes never spoil a message that was complete.
pub proof fn incomplete_messages_are_not_read(stream: Seq<u8>, more: Seq<u8>)
    ensures
        stream.len() < 4 ==> first_payload(stream) == Err::<Seq<u8>, FrameProblem>(
            FrameProblem::Closed,
        ),
        first_payload(stream) matches Ok(payload) ==> payload.len() <= 12 * 1024 * 1024
            && stream.len() >= 4 + payload.len() && first_payload(stream + more) == Ok::<
            Seq<u8>,
            FrameProblem,
        >(payload),
        stream.len() >= 4 ==> {
            let n = ((stream[0] * 256 + stream[1]) * 256 + stream[2]) * 256 + stream[3];
            &&& n > 12 * 1024 * 1024 ==> first_payload(stream) == Err::<Seq<u8>, FrameProblem>(
                FrameProblem::TooLarge(n as usize),
            )
            &&& n <= 12 * 1024 * 1024 && stream.len() < 4 + n ==> first_payload(stream) == Err::<
                Seq<u8>,
                FrameProblem,
            >(FrameProblem::Truncated)
            &&& n <= 12 * 1024 * 1024 && stream.len() >= 4 + n ==> first_payload(stream) is Ok
        },
{
    if stream.len() >= 4 {
        let head = stream.take(4);
        assert((stream + more).take(4) =~= head);
        assert(head[0] == stream[0] && head[1] == stream[1] && head[2] == stream[2] && head[3]
            == stream[3]);
        let n = crypto::be_u32(head);
        assert(n == ((stream[0] * 256 + stream[1]) * 256 + stream[2]) * 256 + stream[3]);
        if stream.len() >= 4 + n {
            assert((stream + more).subrange(4, 4 + n) =~= stream.subrange(4, 4 + n));
        }
    }
}

} // verus!
