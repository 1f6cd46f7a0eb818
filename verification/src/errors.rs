//! The error taxonomy: decode errors abort a whole message decode with no
//! partial result; transport errors abort the current query attempt; and
//! resolution errors report why the delegation walk stopped.

use vstd::prelude::*;

verus! {

/// Why decoding a message (or a name inside one) failed.  Any decode error
/// aborts the entire decode: no partial message is ever produced.
#[derive(Debug, Clone, Copy, PartialEq, Eq, Structural)]
pub enum DecodeError {
    /// The buffer ended before the field being read was complete.
    Truncated,
    /// A compression pointer's 14-bit target lies beyond the end of the
    /// message buffer.
    PointerOutOfBounds,
    /// Name decoding took more than the fixed maximum number of label and
    /// pointer steps; this is what defends against pointer cycles.
    DepthExceeded,
    /// A question or record carried a type code outside the closed set of
    /// known query types; the offending code is kept.
    UnknownQueryType(u16),
    /// A question or record carried a class code outside the known set;
    /// the offending code is kept.
    UnknownClassType(u16),
    /// A record's rdata length does not match what its type demands
    /// (an A record needs exactly 4 bytes, an AAAA record exactly 16).
    LengthMismatch,
    /// The four sections ended before the end of the datagram, so the
    /// header counts do not describe the buffer's actual contents.
    TrailingBytes,
}

/// Why a send or receive over the transport collaborator failed.
#[derive(Debug, Clone, Copy, PartialEq, Eq, Structural)]
pub enum TransportError {
    /// The transport could not set itself up (e.g. binding a socket).
    BindFailed,
    /// The query datagram could not be sent to the nameserver.
    SendFailed,
    /// No response datagram was received.
    NoResponse,
}

/// Why a resolution attempt stopped without an answer.
#[derive(Debug, Clone, Copy, PartialEq, Eq, Structural)]
pub enum ResolveError {
    /// The transport failed while talking to a nameserver.
    Transport(TransportError),
    /// A response datagram could not be decoded.
    Decode(DecodeError),
    /// A response offered no answer, no glue address and no authority
    /// nameserver: there is no further delegation path to follow.
    UnableToResolve,
    /// A nameserver name taken from an authority record has a label longer
    /// than 255 bytes and therefore cannot be encoded into a query.
    InvalidName,
    /// A nested resolution of a nameserver's address returned a record
    /// that is not an A record, so no address could be extracted.
    UnexpectedRecordType,
    /// The delegation walk used up its hop budget without converging.
    BudgetExhausted,
}

} // verus!
