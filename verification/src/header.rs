//! The part of a block header that the engine reads and writes.
use vstd::prelude::*;
use crate::primitives::{views_of, Address, H256};
use crate::uint::U256;

verus! {

/// A block header, reduced to what consensus looks at.
///
/// `bare_hash` is the digest of the header without its seal, the value that
/// votes bind to. The full header is hashed where it is built; the engine takes
/// the digest as given.
#[derive(Clone, Debug, PartialEq, Eq)]
pub struct Header {
    /// Height of the block.
    pub number: u64,
    /// Account that the block reward goes to.
    pub author: Address,
    /// Gas that the block's transactions may use.
    pub gas_limit: U256,
    /// Difficulty, which this engine copies from block to block.
    pub difficulty: U256,
    /// Digest of the header with its seal cleared.
    pub bare_hash: H256,
    /// Seal fields, each encoded on its own.
    pub seal: Vec<Vec<u8>>,
}

impl Header {
    /// The seal as a list of byte strings.
    pub open spec fn seal_fields(&self) -> Seq<Seq<u8>> {
        views_of(self.seal@)
    }
}

/// What the engine hands to the sealing pipeline.
#[derive(Clone, Debug, PartialEq, Eq)]
pub enum Seal {
    /// No seal can be made now.
    Absent,
    /// The seal of a proposal or of a commit, field by field.
    Proposal(Vec<Vec<u8>>),
}

impl Seal {
    /// The seal's fields as byte strings, if it has any.
    pub open spec fn fields(&self) -> Option<Seq<Seq<u8>>> {
        match self {
            Seal::Absent => None,
            Seal::Proposal(fields) => Some(views_of(fields@)),
        }
    }
}

} // verus!
