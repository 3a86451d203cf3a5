//! The ways in which an operation of the protocol can fail.

use vstd::prelude::*;

verus! {

/// Why an operation gave no result. A value names the check that failed and
/// carries none of the operands.
#[derive(Clone, Copy, Debug, PartialEq, Eq, Structural)]
pub enum Error {
    /// The operating system's random source gave nothing usable.
    RandomSource,
    /// A buffer is not the encoding of the entity that was asked for.
    Decoding,
    /// A group element is the identity.
    SubgroupValidation,
    /// A buffer holds an entity of another stage of the protocol.
    ProtocolMismatch,
}

} // verus!
