//! The conditions that halt the machine.

use vstd::prelude::*;

verus! {

/// A fatal condition. None is retried or recovered from: the operation that
/// meets one leaves the machine as it found it and reports the cause.
#[derive(Debug, Clone, Copy, PartialEq, Eq, Structural)]
pub enum Fault {
    /// The word `raw` fetched at `addr` matches no entry of the decode table.
    DecodeFailure { addr: usize, raw: u16 },
    /// A return was executed while the call stack was empty.
    StackUnderflow,
    /// An access that starts at `addr` reaches past the end of memory.
    OutOfBounds { addr: usize },
}

} // verus!
