//! The bookkeeping of the batched UDP backends: which send slot is free,
//! which datagram waits to be read, what has to be flushed. The system
//! calls themselves are made around this module.

use vstd::prelude::*;

pub mod socket2_io_uring;
pub mod socket2_mmsg;

verus! {

/// The largest datagram that a backend takes.
pub const MAX_DATAGRAM: usize = 1500;

/// Why a backend did not take or deliver a datagram.
#[derive(Clone, Copy, Debug, PartialEq, Eq, Structural)]
pub enum NetError {
    /// Nothing can be queued, or nothing is ready, right now.
    WouldBlock,
    /// The datagram is larger than `MAX_DATAGRAM` bytes.
    TooLarge,
}

} // verus!
