//! Error kinds reported by the engine.

use vstd::prelude::*;

verus! {

/// Why a byte stream could not be decoded as a message.
#[derive(Clone, Copy, Debug, PartialEq, Eq, Structural)]
pub enum DecodeError {
    /// The stream ends before a field that the layout demands.
    Truncated,
    /// A label's length octet is neither a pointer nor at most 63.
    InvalidLabel,
    /// A name follows more compression pointers than the decoder allows.
    PointerLoop,
    /// A record's declared payload length does not fit the buffer or the payload's own layout.
    LengthMismatch,
}

/// Why an exchange with a server produced no usable bytes.
#[derive(Clone, Copy, Debug, PartialEq, Eq, Structural)]
pub enum TransportError {
    Timeout,
    ConnectionRefused,
    NetworkUnreachable,
    /// A stream frame whose length prefix disagrees with the bytes that follow.
    MalformedLength,
    /// The datagram reply carries the truncation flag: ask again over a stream.
    Truncated,
}

/// Why a decoded response is not an answer to the query.
#[derive(Clone, Copy, Debug, PartialEq, Eq, Structural)]
pub enum ValidationError {
    /// The transaction ID differs from the one sent.
    Mismatch,
    /// The question section does not echo the query's name and type.
    QuestionMismatch,
    /// Response code 3: the name does not exist.
    NameError,
    /// Response code 2: the server failed.
    ServerFailure,
    /// Any other non-zero response code.
    ResponseCode(u8),
}

/// Why a request was rejected before any network traffic.
#[derive(Clone, Copy, Debug, PartialEq, Eq, Structural)]
pub enum ArgumentError {
    /// The record-type token names no known record type.
    UnknownRecordType,
    /// The domain name has an empty label or one longer than 63 octets.
    InvalidName,
}

} // verus!
