//! What the engine decides about bytes on the way to and from a server:
//! stream framing and the truncation signal. The exchange itself is the caller's.

use vstd::prelude::*;
use crate::error::TransportError;
use crate::message::{be16, read_u16, truncation_flag};
use crate::name::copy_range;
use crate::query::{hi, lo};

verus! {

/// How a server is spoken to.
#[derive(Clone, Copy, Debug, PartialEq, Eq, Structural)]
pub enum Protocol {
    Udp,
    Tcp,
}

/// A server to ask: the octets of its address, its port and the protocol to start with.
#[derive(Clone, Debug, PartialEq, Eq)]
pub struct ServerEndpoint {
    pub address: Vec<u8>,
    pub port: u16,
    pub protocol: Protocol,
}

/// The largest message that a stream frame can carry.
pub const MAX_FRAME_PAYLOAD: usize = 65535;

/// A message behind its two-octet big-endian length.
pub open spec fn framed(msg: Seq<u8>) -> Seq<u8> {
    seq![hi(msg.len() as u16), lo(msg.len() as u16)] + msg
}

/// The message inside a frame, where the length prefix agrees with what follows it.
pub open spec fn unframed(stream: Seq<u8>) -> Result<Seq<u8>, TransportError> {
    if stream.len() >= 2 && be16(stream, 0) == stream.len() - 2 {
        Ok(stream.subrange(2, stream.len() as int))
    } else {
        Err(TransportError::MalformedLength)
    }
}

/// Whether a reply carries the truncation flag in its header.
pub open spec fn datagram_truncated(reply: Seq<u8>) -> bool {
    reply.len() >= 4 && truncation_flag(be16(reply, 2) as u16)
}

/// Frames a message for a stream: its length as two big-endian octets, then the message.
/// A message longer than 65535 octets cannot be framed.
pub fn frame(msg: &[u8]) -> (r: Result<Vec<u8>, TransportError>)
    ensures
        msg@.len() <= MAX_FRAME_PAYLOAD ==> r is Ok && r->Ok_0@ == framed(msg@),
        msg@.len() > MAX_FRAME_PAYLOAD ==> r == Err::<Vec<u8>, _>(TransportError::MalformedLength),
{
    let n: usize = msg.len();
    if n > MAX_FRAME_PAYLOAD {
        return Err(TransportError::MalformedLength);
    }
    let mut out: Vec<u8> = Vec::new();
    out.push((n / 256) as u8);
    out.push((n % 256) as u8);
    let mut i: usize = 0;
    while i < n
        invariant
            n == msg@.len(),
            i <= n,
            out@ == seq![hi(n as u16), lo(n as u16)] + msg@.subrange(0, i as int),
        decreases n - i,
    {
        out.push(msg[i]);
        i += 1;
        assert(out@ =~= seq![hi(n as u16), lo(n as u16)] + msg@.subrange(0, i as int));
    }
    assert(msg@.subrange(0, n as int) =~= msg@);
    Ok(out)
}

/// The number of octets that follow a frame's two-octet length prefix.
pub fn frame_length(prefix: &[u8]) -> (n: usize)
    requires
        prefix@.len() >= 2,
    ensures
        n == be16(prefix@, 0),
{
    read_u16(prefix, 0) as usize
}

/// Takes the message out of a frame. A stream shorter than its prefix, or one whose
/// prefix disagrees with the number of octets behind it, has a malformed length.
pub fn unframe(stream: &[u8]) -> (r: Result<Vec<u8>, TransportError>)
    ensures
        match unframed(stream@) {
            Ok(msg) => r is Ok && r->Ok_0@ == msg,
            Err(e) => r == Err::<Vec<u8>, _>(e),
        },
{
    if stream.len() < 2 {
        return Err(TransportError::MalformedLength);
    }
    let n: usize = frame_length(stream);
    if n != stream.len() - 2 {
        return Err(TransportError::MalformedLength);
    }
    Ok(copy_range(stream, 2, stream.len()))
}

/// Whether a reply carries the truncation flag.
pub fn is_truncated(reply: &[u8]) -> (t: bool)
    ensures
        t == datagram_truncated(reply@),
{
    if reply.len() < 4 {
        return false;
    }
    let flags: u16 = read_u16(reply, 2);
    (flags / 512) % 2 == 1
}

/// Judges a datagram reply: one that carries the truncation flag is handed back as
/// `Truncated`, the signal to ask the same server again over a stream.
pub fn accept_datagram(reply: Vec<u8>) -> (r: Result<Vec<u8>, TransportError>)
    ensures
        datagram_truncated(reply@) ==> r == Err::<Vec<u8>, _>(TransportError::Truncated),
        !datagram_truncated(reply@) ==> r == Ok::<_, TransportError>(reply),
{
    if is_truncated(reply.as_slice()) {
        Err(TransportError::Truncated)
    } else {
        Ok(reply)
    }
}

/// A framed message comes out of its frame unchanged.
pub proof fn frame_round_trip(msg: Seq<u8>)
    requires
        msg.len() <= MAX_FRAME_PAYLOAD,
    ensures
        unframed(framed(msg)) == Ok::<_, TransportError>(msg),
{
    let f = framed(msg);
    assert(f.len() == msg.len() + 2);
    assert(f[0] == hi(msg.len() as u16));
    assert(f[1] == lo(msg.len() as u16));
    assert(be16(f, 0) == msg.len());
    assert(f.subrange(2, f.len() as int) =~= msg);
}

} // verus!
