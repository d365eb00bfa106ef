//! Abab: the core of a BFT consensus engine with round-robin primaries.
//!
//! The engine orders blocks among a known set of validators. One validator, the
//! primary, proposes per height and view; the others vote; a block is final once
//! more than two thirds of the validators have voted for it. A view that stays
//! silent is abandoned once more than a third of the validators say so.
//!
//! - `primitives`, `uint`: addresses, digests, signatures, 256-bit integers.
//! - `codec`, `crypto`: encoding, hashing and signatures, done by outside crates.
//! - `message`: votes and signed messages, and how they travel.
//! - `validator_set`, `signer`, `vote_collector`: who may vote, this node's own
//!   key, and the votes collected so far.
//! - `verification`: the checks of a block header.
//! - `engine`: the state machine.
//! - `laws`: what holds of all of it together.
pub mod codec;
pub mod crypto;
pub mod engine;
pub mod error;
pub mod header;
pub mod laws;
pub mod message;
pub mod primitives;
pub mod signer;
pub mod uint;
pub mod validator_set;
pub mod verification;
pub mod vote_collector;
