//! What the engine reports when it refuses a message or a block.
use vstd::prelude::*;
use crate::primitives::Address;
use crate::uint::U256;

verus! {

/// Why a message or a block header was refused.
#[derive(Clone, Copy, Debug, PartialEq, Eq)]
#[allow(inconsistent_fields)]
pub enum EngineError {
    /// The bytes are not the encoding of what was expected there.
    Decoding,
    /// No public key can be recovered from a signature.
    InvalidSignature,
    /// A signature recovers to an account outside the validator set.
    NotAuthorized(Address),
    /// A validator signed two different votes of one kind for one height and view.
    DoubleVote(Address),
    /// A seal field, or the number of signatures in it, is out of bounds.
    BadSealFieldSize { min: Option<usize>, max: Option<usize>, found: usize },
    /// The proposal was signed by another account than the primary of its view.
    NotProposer { expected: Address, found: Address },
    /// One account signed twice within one list of a seal.
    InvalidSeal,
    /// The seal has the wrong number of fields.
    InvalidSealArity { expected: usize, found: usize },
    /// The gas limit strays too far from the parent's.
    InvalidGasLimit { min: Option<U256>, max: Option<U256>, found: U256 },
    /// The block number is none that a block can have.
    RidiculousNumber { min: Option<u64>, max: Option<u64>, found: u64 },
}

/// Why engine parameters were refused.
#[derive(Clone, Copy, Debug, PartialEq, Eq)]
pub enum ParamsError {
    /// The validator set is empty, so no view would have a primary.
    NoValidators,
    /// The gas limit bound divisor is zero.
    ZeroGasLimitDivisor,
}

} // verus!
