//! The ways a computation can be refused.

use vstd::prelude::*;

verus! {

/// Why a width or a literal was refused. No failure is ever repaired or
/// replaced by a default: the first one found is returned as it is.
#[derive(Debug, Clone, Copy, PartialEq, Eq, Structural)]
pub enum Error {
    /// The width is not a power of two between 4 and 128.
    InvalidWidth,
    /// The text is not an integer literal in the radix its prefix selects,
    /// or its magnitude does not fit in 128 bits.
    MalformedLiteral,
    /// The value fits the width neither as an unsigned number nor as the
    /// pattern of a negative one.
    OutOfRange,
}

} // verus!
