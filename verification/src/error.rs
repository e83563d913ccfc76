//! Errors of the library.
use vstd::prelude::*;

verus! {

/// Why an IID operation gave no result.
#[derive(Debug, Clone, Copy, PartialEq, Eq, Structural)]
pub enum IidError {
    /// The bytes end before the value that was asked for.
    UnexpectedEndOfData,
    /// The system clock reads a time before the Unix epoch.
    ClockBeforeUnixEpoch,
    /// A date computation leaves the range of `i64`.
    ArithmeticOverflow,
}

} // verus!
