//! What can go wrong in a send or a decode.

use vstd::prelude::*;

verus! {

/// The two-level outcome code of a reply.
#[derive(Clone, Copy, Debug, PartialEq, Eq, Structural)]
pub struct Status {
    /// The primary outcome; zero is success.
    pub general: u8,
    /// The refinement of the outcome; zero where the reply carried none.
    pub extended: u16,
}

/// How a common packet differed from the two items that a send reply holds.
#[derive(Clone, Copy, Debug, PartialEq, Eq, Structural)]
pub enum FrameShape {
    /// The packet held `actual_items` items where `expected_items` were due.
    ItemCount { expected_items: usize, actual_items: usize },
    /// An item carried the type code `actual` where `expected` was due.
    TypeCode { expected: u16, actual: u16 },
}

/// The failures of this layer. None is retried here.
#[derive(Debug, PartialEq, Eq)]
pub enum Error {
    /// A buffer was too short, declared an extended status of a size other
    /// than 0, 1 or 2, or carried a bad offset table.
    MalformedReply,
    /// A common packet had the wrong number of items or a wrong type code.
    UnexpectedFrameShape(FrameShape),
    /// A reply named a service other than the one that the request asks for.
    UnexpectedReplyService { expected: u8, actual: u8 },
    /// A reply carried a general status other than zero; its payload is not
    /// handed on.
    ProtocolStatus(Status),
    /// The transport failed; the text is the adapter's.
    Transport(String),
}

} // verus!
