//! The validators of a chain, and who among them leads a view.
use vstd::prelude::*;
use crate::primitives::{address_eq, Address, Height, ViewNumber};

verus! {

/// The validator that a nonce selects: the list is walked round and round.
pub open spec fn validator_at(validators: Seq<Address>, nonce: int) -> Address
    recommends
        validators.len() > 0,
        nonce >= 0,
{
    validators[nonce % (validators.len() as int)]
}

/// The primary of a view: the validator that `height + view` selects.
pub open spec fn primary_of(validators: Seq<Address>, height: Height, view: ViewNumber) -> Address
    recommends
        validators.len() > 0,
{
    validator_at(validators, height + view)
}

/// A fixed, ordered, non-empty list of validator accounts.
#[derive(Clone, Debug)]
pub struct ValidatorSet {
    validators: Vec<Address>,
}

impl View for ValidatorSet {
    type V = Seq<Address>;

    /// The accounts, in the order in which they take turns.
    closed spec fn view(&self) -> Seq<Address> {
        self.validators@
    }
}

impl ValidatorSet {
    /// A set has at least one validator.
    pub open spec fn wf(&self) -> bool {
        self@.len() > 0
    }

    /// The set of the given accounts, in the given order; `None` for no accounts.
    pub fn new(validators: Vec<Address>) -> (set: Option<ValidatorSet>)
        ensures
            set.is_some() == (validators@.len() > 0),
            set.is_some() ==> set.unwrap()@ == validators@ && set.unwrap().wf(),
    {
        if validators.len() == 0 {
            None
        } else {
            Some(ValidatorSet { validators })
        }
    }

    /// The number of validators.
    pub fn count(&self) -> (n: usize)
        ensures
            n == self@.len(),
    {
        self.validators.len()
    }

    /// Whether `address` is a validator.
    pub fn contains(&self, address: &Address) -> (member: bool)
        ensures
            member == self@.contains(*address),
    {
        let mut i: usize = 0;
        while i < self.validators.len()
            invariant
                0 <= i <= self.validators@.len(),
                forall|j: int| 0 <= j < i ==> self.validators@[j] != *address,
            decreases self.validators@.len() - i,
        {
            if address_eq(&self.validators[i], address) {
                return true;
            }
            i += 1;
        }
        false
    }

    /// The validator that `nonce` selects.
    pub fn get(&self, nonce: u64) -> (validator: Address)
        requires
            self.wf(),
        ensures
            validator == validator_at(self@, nonce as int),
    {
        let n: usize = self.validators.len();
        let index: u64 = nonce % (n as u64);
        self.validators[index as usize]
    }

    /// The primary of `view` at `height`. The sum of the two selects it, taken
    /// as a number, so no height or view is too large.
    pub fn primary(&self, height: Height, view: ViewNumber) -> (validator: Address)
        requires
            self.wf(),
        ensures
            validator == primary_of(self@, height, view),
    {
        let n: usize = self.validators.len();
        let nonce: u128 = height as u128 + view as u128;
        let index: u128 = nonce % (n as u128);
        self.validators[index as usize]
    }
}

} // verus!
