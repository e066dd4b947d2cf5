//! The byte transport that a connection is driven over.

use vstd::prelude::*;

verus! {

/// What a transport answers when asked for one byte.
#[derive(Clone, Copy, Debug, PartialEq, Eq, Structural)]
pub enum RecvOutcome {
    /// A byte arrived.
    Byte(u8),
    /// No byte is available now.
    NoData,
    /// The transport reported a failure.
    Failed,
}

/// What a transport answers when offered one byte.
#[derive(Clone, Copy, Debug, PartialEq, Eq, Structural)]
pub enum SendOutcome {
    /// The byte was taken.
    Accepted,
    /// The byte could not be taken now.
    WouldBlock,
    /// The transport reported a failure.
    Failed,
}

impl RecvOutcome {
    /// What a read into a one-byte buffer came to: `count` bytes were
    /// read, and `first` is what the buffer then held. One byte is that
    /// byte; any other count cannot be, and counts as a failure.
    pub fn from_read(count: usize, first: u8) -> (outcome: RecvOutcome)
        ensures
            outcome == if count == 1 {
                RecvOutcome::Byte(first)
            } else {
                RecvOutcome::Failed
            },
    {
        if count == 1 {
            RecvOutcome::Byte(first)
        } else {
            RecvOutcome::Failed
        }
    }
}

impl SendOutcome {
    /// What a write of a one-byte buffer came to: `count` bytes were
    /// written. None is a transport that would block, one is the byte
    /// accepted; any other count cannot be, and counts as a failure.
    pub fn from_written(count: usize) -> (outcome: SendOutcome)
        ensures
            outcome == if count == 0 {
                SendOutcome::WouldBlock
            } else if count == 1 {
                SendOutcome::Accepted
            } else {
                SendOutcome::Failed
            },
    {
        if count == 0 {
            SendOutcome::WouldBlock
        } else if count == 1 {
            SendOutcome::Accepted
        } else {
            SendOutcome::Failed
        }
    }
}

/// What a machine makes of one answer of the transport.
#[derive(Clone, Copy, Debug, PartialEq, Eq, Structural)]
pub enum Progress {
    /// The frame is through: stop, the direction is done.
    Done,
    /// A byte crossed and the frame is not through yet: go on.
    More,
    /// No byte crossed: stop, and try again at the next tick.
    Stalled,
}

/// A byte-oriented carrier with two non-blocking operations.
///
/// Neither method carries a contract: a connection is verified against
/// every answer that a transport may give, in any order.
pub trait Transport {
    /// Asks for one byte without waiting for it.
    fn try_recv_byte(&mut self) -> RecvOutcome;

    /// Offers one byte without waiting for room.
    fn try_send_byte(&mut self, byte: u8) -> SendOutcome;
}

} // verus!
