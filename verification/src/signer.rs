//! The key with which this node signs its own votes.
use vstd::prelude::*;
use crate::crypto::{sign, signature_of};
use crate::primitives::{address_eq, Address, H256, Secret, Signature};

verus! {

/// An account and, once it is set, the key to sign with.
#[derive(Clone, Copy, Debug)]
pub struct Signer {
    address: Address,
    secret: Option<Secret>,
}

impl Signer {
    /// The account that the signer acts for.
    pub closed spec fn spec_address(&self) -> Address {
        self.address
    }

    /// The signing key, if one was set.
    pub closed spec fn spec_secret(&self) -> Option<Secret> {
        self.secret
    }

    /// What signing `digest` gives: nothing without a key, else what the key makes of it.
    pub open spec fn spec_sign(&self, digest: H256) -> Option<Signature> {
        match self.spec_secret() {
            Some(secret) => signature_of(secret, digest),
            None => None,
        }
    }

    /// A signer without a key, for the zero account.
    pub fn new() -> (signer: Signer)
        ensures
            forall|i: int| 0 <= i < 20 ==> signer.spec_address()@[i] == 0,
            signer.spec_secret().is_none(),
    {
        Signer { address: [0u8; 20], secret: None }
    }

    /// Sets the account and its key.
    pub fn set(&mut self, address: Address, secret: Secret)
        ensures
            final(self).spec_address() == address,
            final(self).spec_secret() == Some(secret),
    {
        self.address = address;
        self.secret = Some(secret);
    }

    /// The account that the signer acts for.
    pub fn address(&self) -> (address: Address)
        ensures
            address == self.spec_address(),
    {
        self.address
    }

    /// Whether the signer acts for `address`.
    pub fn is_address(&self, address: &Address) -> (own: bool)
        ensures
            own == (self.spec_address() == *address),
    {
        address_eq(&self.address, address)
    }

    /// Signs `digest`. Fails without a key, and where the key is none.
    pub fn sign(&self, digest: &H256) -> (signature: Option<Signature>)
        ensures
            signature == self.spec_sign(*digest),
    {
        match &self.secret {
            Some(secret) => sign(secret, digest),
            None => None,
        }
    }
}

} // verus!
