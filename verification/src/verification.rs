//! The checks that a block header must pass: each looks at the header alone,
//! beside the validator set or the parent header.
use vstd::prelude::*;
use crate::codec::{bytes_of_rlp, decode_bytes, items_of_rlp, list_items};
use crate::crypto::{recover, signer_of};
use crate::error::EngineError;
use crate::header::Header;
use crate::message::{
    header_proposal, message_signer, spec_view_change_hash, spec_vote_hash,
    view_change_hash, vote_hash, AbabMessage,
};
use crate::primitives::{
    address_eq, signature_from_seq, signature_from_slice, views_of, Address, H256, Signature,
};
use crate::uint::{lemma_u256_of, u256_limit, u256_of, U256};
use crate::validator_set::{primary_of, ValidatorSet};

verus! {

/// The number of fields in a seal: the view, the proposal signature, the
/// view-change signatures and the vote signatures.
pub const SEAL_FIELDS: usize = 4;

/// The largest number of signatures that is no quorum among `validators`
/// validators: two thirds of them, rounded down.
pub open spec fn two_thirds(validators: nat) -> nat {
    validators * 2 / 3
}

/// The largest number of signatures that cannot force a view change among
/// `validators` validators: a third of them, rounded down.
pub open spec fn one_third(validators: nat) -> nat {
    validators / 3
}

/// That `found` signatures are more than `minimum`, or the error that says they are not.
pub open spec fn check_above(minimum: nat, found: nat) -> Result<(), EngineError> {
    if found > minimum {
        Ok(())
    } else {
        Err(
            EngineError::BadSealFieldSize {
                min: Some(minimum as usize),
                max: None,
                found: found as usize,
            },
        )
    }
}

/// The signature that one item of a seal's list holds.
pub open spec fn seal_signature(item: Seq<u8>) -> Option<Signature> {
    match bytes_of_rlp(item) {
        Some(bytes) => if bytes.len() == 65 {
            Some(signature_from_seq(bytes))
        } else {
            None
        },
        None => None,
    }
}

/// The accounts that signed `digest` in the items of a seal's list, in order;
/// or the first fault: an item that holds no signature, a signature that
/// recovers to nobody or to no validator, an account that signed before.
pub open spec fn signers_in(items: Seq<Seq<u8>>, digest: H256, validators: Seq<Address>) -> Result<
    Seq<Address>,
    EngineError,
>
    decreases items.len(),
{
    if items.len() == 0 {
        Ok(Seq::empty())
    } else {
        match signers_in(items.drop_last(), digest, validators) {
            Err(e) => Err(e),
            Ok(seen) => match seal_signature(items.last()) {
                None => Err(EngineError::Decoding),
                Some(signature) => match signer_of(signature, digest) {
                    None => Err(EngineError::InvalidSignature),
                    Some(account) => if !validators.contains(account) {
                        Err(EngineError::NotAuthorized(account))
                    } else if seen.contains(account) {
                        Err(EngineError::InvalidSeal)
                    } else {
                        Ok(seen.push(account))
                    },
                },
            },
        }
    }
}

/// The check of a seal's list of signatures: each signs `digest`, each for
/// another validator, and there are more of them than `minimum`.
pub open spec fn check_signed_by(
    field: Seq<u8>,
    digest: H256,
    validators: Seq<Address>,
    minimum: nat,
) -> Result<(), EngineError> {
    match signers_in(items_of_rlp(field), digest, validators) {
        Err(e) => Err(e),
        Ok(seen) => check_above(minimum, seen.len()),
    }
}

/// The first check: four seal fields, and the last of them not empty.
pub open spec fn basic_check(header: &Header) -> Result<(), EngineError> {
    if header.seal.len() != 4 {
        Err(EngineError::InvalidSealArity { expected: 4, found: header.seal.len() })
    } else if header.seal_fields()[3].len() < 1 {
        Err(EngineError::BadSealFieldSize { min: Some(1), max: None, found: 0 })
    } else {
        Ok(())
    }
}

/// The check of the view-change field: one byte in the first view, else the
/// signatures of more than a third of the validators on the vote that leads
/// into the view.
pub open spec fn view_change_check(
    validators: Seq<Address>,
    header: &Header,
    proposal: AbabMessage,
) -> Result<(), EngineError> {
    let field = header.seal_fields()[2];
    if proposal.view_vote.view == 0 {
        if field.len() != 1 {
            Err(
                EngineError::BadSealFieldSize {
                    min: Some(1),
                    max: Some(1),
                    found: header.seal[2].len(),
                },
            )
        } else {
            Ok(())
        }
    } else {
        check_signed_by(
            field,
            spec_view_change_hash(proposal.view_vote.height, proposal.view_vote.view).unwrap(),
            validators,
            one_third(validators.len()),
        )
    }
}

/// The check of the votes field: one byte for a proposal, else a quorum of votes.
pub open spec fn votes_check(validators: Seq<Address>, header: &Header, proposal: AbabMessage) -> Result<
    (),
    EngineError,
> {
    let field = header.seal_fields()[3];
    if field.len() == 1 {
        Ok(())
    } else {
        check_signed_by(
            field,
            spec_vote_hash(proposal.view_vote.height, proposal.view_vote.view, header.bare_hash),
            validators,
            two_thirds(validators.len()),
        )
    }
}

/// The second check, of the signatures in the seal; the result is that of the
/// first step that fails.
pub open spec fn unordered_check(validators: Seq<Address>, header: &Header) -> Result<
    (),
    EngineError,
> {
    if header.seal.len() != 4 {
        Err(EngineError::InvalidSealArity { expected: 4, found: header.seal.len() })
    } else {
        match header_proposal(header) {
            None => Err(EngineError::Decoding),
            Some(proposal) => match message_signer(proposal) {
                None => Err(EngineError::InvalidSignature),
                Some(primary) => {
                    let expected = primary_of(
                        validators,
                        proposal.view_vote.height,
                        proposal.view_vote.view,
                    );
                    if expected != primary {
                        Err(EngineError::NotProposer { expected, found: primary })
                    } else {
                        match view_change_check(validators, header, proposal) {
                            Err(e) => Err(e),
                            Ok(_) => votes_check(validators, header, proposal),
                        }
                    }
                },
            },
        }
    }
}

/// The bounds, both exclusive, between which a gas limit must lie beside a
/// parent's: the parent's limit less and plus its share under the divisor.
pub open spec fn gas_bounds(parent: nat, divisor: nat) -> (int, int)
    recommends
        divisor > 0,
{
    (parent - parent / divisor, (parent + parent / divisor) as int)
}

/// The third check, against the parent: a block number above zero, and a gas
/// limit strictly within the bounds.
pub open spec fn family_check(divisor: U256, header: &Header, parent: &Header) -> Result<
    (),
    EngineError,
>
    recommends
        divisor@ > 0,
{
    let (low, high) = gas_bounds(parent.gas_limit@, divisor@);
    if header.number == 0 {
        Err(EngineError::RidiculousNumber { min: Some(1), max: None, found: 0 })
    } else if header.gas_limit@ <= low || header.gas_limit@ >= high {
        Err(
            EngineError::InvalidGasLimit {
                min: Some(u256_of(low as nat)),
                max: if high < u256_limit() {
                    Some(u256_of(high as nat))
                } else {
                    None
                },
                found: header.gas_limit,
            },
        )
    } else {
        Ok(())
    }
}

/// The gas limit of a block that follows `parent`: the parent's limit moved
/// towards `floor` by one less than its share under the divisor, and not past
/// `floor`. Where the share is zero the limit stays.
pub open spec fn next_gas_limit(parent: nat, floor: nat, divisor: nat) -> nat
    recommends
        divisor > 0,
{
    let share = parent / divisor;
    if share == 0 {
        parent
    } else if parent < floor {
        if parent + share - 1 < floor {
            (parent + share - 1) as nat
        } else {
            floor
        }
    } else {
        if parent - share + 1 > floor {
            (parent - share + 1) as nat
        } else {
            floor
        }
    }
}

/// A fault among the first items of a list is the fault of the whole list.
pub proof fn lemma_fault_stays(
    items: Seq<Seq<u8>>,
    digest: H256,
    validators: Seq<Address>,
    k: int,
)
    requires
        0 <= k <= items.len(),
        signers_in(items.take(k), digest, validators).is_err(),
    ensures
        signers_in(items, digest, validators) == signers_in(items.take(k), digest, validators),
    decreases items.len(),
{
    if k == items.len() {
        assert(items.take(k) =~= items);
    } else {
        assert(items.drop_last().take(k) =~= items.take(k));
        lemma_fault_stays(items.drop_last(), digest, validators, k);
    }
}

/// The accounts that a list of signatures passes for are as many as its items,
/// all validators, all different, and each the signer of its item.
pub proof fn lemma_signers_in(items: Seq<Seq<u8>>, digest: H256, validators: Seq<Address>)
    requires
        signers_in(items, digest, validators).is_ok(),
    ensures
        ({
            let seen = signers_in(items, digest, validators).unwrap();
            &&& seen.len() == items.len()
            &&& seen.no_duplicates()
            &&& forall|i: int|
                0 <= i < seen.len() ==> validators.contains(#[trigger] seen[i]) && match seal_signature(
                    items[i],
                ) {
                    Some(signature) => signer_of(signature, digest) == Some(seen[i]),
                    None => false,
                }
        }),
    decreases items.len(),
{
    if items.len() > 0 {
        lemma_signers_in(items.drop_last(), digest, validators);
        let before = signers_in(items.drop_last(), digest, validators).unwrap();
        let seen = signers_in(items, digest, validators).unwrap();
        assert forall|i: int| 0 <= i < seen.len() implies validators.contains(#[trigger] seen[i])
            && match seal_signature(items[i]) {
            Some(signature) => signer_of(signature, digest) == Some(seen[i]),
            None => false,
        } by {
            if i < before.len() {
                assert(seen[i] == before[i]);
                assert(items.drop_last()[i] == items[i]);
            }
        }
    }
}

/// That `found` signatures are more than two thirds of the validators.
pub fn is_above_two_thirds(validators: &ValidatorSet, found: usize) -> (r: Result<(), EngineError>)
    ensures
        r == check_above(two_thirds(validators@.len()), found as nat),
{
    let minimum: usize = ((validators.count() as u128) * 2 / 3) as usize;
    if found > minimum {
        Ok(())
    } else {
        Err(EngineError::BadSealFieldSize { min: Some(minimum), max: None, found })
    }
}

/// That `found` signatures are more than a third of the validators.
pub fn is_above_third(validators: &ValidatorSet, found: usize) -> (r: Result<(), EngineError>)
    ensures
        r == check_above(one_third(validators@.len()), found as nat),
{
    let minimum: usize = validators.count() / 3;
    if found > minimum {
        Ok(())
    } else {
        Err(EngineError::BadSealFieldSize { min: Some(minimum), max: None, found })
    }
}

/// Whether `account` is among `seen`.
fn seen_before(seen: &Vec<Address>, account: &Address) -> (found: bool)
    ensures
        found == seen@.contains(*account),
{
    let mut i: usize = 0;
    while i < seen.len()
        invariant
            0 <= i <= seen@.len(),
            forall|j: int| 0 <= j < i ==> seen@[j] != *account,
        decreases seen@.len() - i,
    {
        if address_eq(&seen[i], account) {
            return true;
        }
        i += 1;
    }
    false
}

/// Counts the signatures of `digest` in a seal's list, each of which must come
/// from another validator.
fn count_signers(validators: &ValidatorSet, field: &[u8], digest: &H256) -> (r: Result<
    usize,
    EngineError,
>)
    ensures
        match r {
            Ok(n) => signers_in(items_of_rlp(field@), *digest, validators@).is_ok() && signers_in(
                items_of_rlp(field@),
                *digest,
                validators@,
            ).unwrap().len() == n,
            Err(e) => signers_in(items_of_rlp(field@), *digest, validators@) == Err::<
                Seq<Address>,
                EngineError,
            >(e),
        },
{
    let items = list_items(field);
    let ghost all = items_of_rlp(field@);
    let mut seen: Vec<Address> = Vec::new();
    let mut i: usize = 0;
    proof {
        assert(all.take(0) =~= Seq::<Seq<u8>>::empty());
    }
    while i < items.len()
        invariant
            0 <= i <= items@.len(),
            views_of(items@) == all,
            all == items_of_rlp(field@),
            seen@.len() == i,
            signers_in(all.take(i as int), *digest, validators@) == Ok::<Seq<Address>, EngineError>(
                seen@,
            ),
        decreases items@.len() - i,
    {
        proof {
            assert(all.take(i + 1).drop_last() =~= all.take(i as int));
            assert(all.take(i + 1).last() == items@[i as int]@);
        }
        let ghost upto = all.take(i + 1);
        let bytes = match decode_bytes(items[i].as_slice()) {
            Ok(bytes) => bytes,
            Err(_) => {
                proof {
                    assert(signers_in(upto, *digest, validators@).is_err());
                    lemma_fault_stays(all, *digest, validators@, i + 1);
                }
                return Err(EngineError::Decoding);
            },
        };
        let signature = match signature_from_slice(bytes.as_slice()) {
            Some(signature) => signature,
            None => {
                proof {
                    assert(signers_in(upto, *digest, validators@).is_err());
                    lemma_fault_stays(all, *digest, validators@, i + 1);
                }
                return Err(EngineError::Decoding);
            },
        };
        assert(seal_signature(upto.last()) == Some(signature));
        let account = match recover(&signature, digest) {
            Some(account) => account,
            None => {
                proof {
                    assert(signers_in(upto, *digest, validators@).is_err());
                    lemma_fault_stays(all, *digest, validators@, i + 1);
                }
                return Err(EngineError::InvalidSignature);
            },
        };
        if !validators.contains(&account) {
            proof {
                assert(signers_in(upto, *digest, validators@).is_err());
                lemma_fault_stays(all, *digest, validators@, i + 1);
            }
            return Err(EngineError::NotAuthorized(account));
        }
        if seen_before(&seen, &account) {
            proof {
                assert(signers_in(upto, *digest, validators@).is_err());
                lemma_fault_stays(all, *digest, validators@, i + 1);
            }
            return Err(EngineError::InvalidSeal);
        }
        seen.push(account);
        i += 1;
    }
    proof {
        assert(all.take(items@.len() as int) =~= all);
    }
    Ok(seen.len())
}

/// The first check of a header: its seal has four fields, and the field of
/// votes holds at least one byte.
pub fn verify_block_basic(header: &Header) -> (r: Result<(), EngineError>)
    ensures
        r == basic_check(header),
{
    let seal_length = header.seal.len();
    if seal_length == SEAL_FIELDS {
        let signatures_len = header.seal[3].len();
        if signatures_len >= 1 {
            Ok(())
        } else {
            Err(EngineError::BadSealFieldSize { min: Some(1), max: None, found: signatures_len })
        }
    } else {
        Err(EngineError::InvalidSealArity { expected: SEAL_FIELDS, found: seal_length })
    }
}

/// The second check of a header: the proposal in its seal is signed by the
/// primary of its view; past the first view more than a third of the
/// validators signed the vote to abandon the view before; and a seal that
/// holds votes holds those of more than two thirds of the validators.
pub fn verify_block_unordered(validators: &ValidatorSet, header: &Header) -> (r: Result<
    (),
    EngineError,
>)
    requires
        validators.wf(),
    ensures
        r == unordered_check(validators@, header),
{
    if header.seal.len() != SEAL_FIELDS {
        return Err(
            EngineError::InvalidSealArity { expected: SEAL_FIELDS, found: header.seal.len() },
        );
    }
    let proposal = match AbabMessage::new_proposal(header) {
        Ok(proposal) => proposal,
        Err(e) => {
            return Err(e);
        },
    };
    let primary = match proposal.verify() {
        Ok(primary) => primary,
        Err(e) => {
            return Err(e);
        },
    };
    let correct_primary = validators.primary(proposal.height(), proposal.view());
    if !address_eq(&correct_primary, &primary) {
        return Err(EngineError::NotProposer { expected: correct_primary, found: primary });
    }
    let new_view_field = &header.seal[2];
    if proposal.view_vote.is_first_view() {
        let new_view_len = new_view_field.len();
        if new_view_len != 1 {
            return Err(
                EngineError::BadSealFieldSize { min: Some(1), max: Some(1), found: new_view_len },
            );
        }
    } else {
        let digest = match view_change_hash(proposal.height(), proposal.view()) {
            Some(digest) => digest,
            None => unreached(),
        };
        let view_change_count = match count_signers(validators, new_view_field.as_slice(), &digest) {
            Ok(count) => count,
            Err(e) => {
                return Err(e);
            },
        };
        match is_above_third(validators, view_change_count) {
            Ok(_) => {},
            Err(e) => {
                return Err(e);
            },
        }
    }
    let votes_field = &header.seal[3];
    if votes_field.len() != 1 {
        let digest = vote_hash(proposal.height(), proposal.view(), header.bare_hash);
        let signature_count = match count_signers(validators, votes_field.as_slice(), &digest) {
            Ok(count) => count,
            Err(e) => {
                return Err(e);
            },
        };
        match is_above_two_thirds(validators, signature_count) {
            Ok(_) => {},
            Err(e) => {
                return Err(e);
            },
        }
    }
    Ok(())
}

/// The third check of a header, against its parent: the block number is above
/// zero, and the gas limit lies strictly between the parent's limit less and
/// plus its share under the divisor.
pub fn verify_block_family(divisor: &U256, header: &Header, parent: &Header) -> (r: Result<
    (),
    EngineError,
>)
    requires
        divisor@ > 0,
    ensures
        r == family_check(*divisor, header, parent),
{
    if header.number == 0 {
        return Err(EngineError::RidiculousNumber { min: Some(1), max: None, found: 0 });
    }
    let share = match parent.gas_limit.checked_div(divisor) {
        Some(share) => share,
        None => unreached(),
    };
    proof {
        vstd::arithmetic::div_mod::lemma_div_is_ordered_by_denominator(
            parent.gas_limit@ as int,
            1,
            divisor@ as int,
        );
        vstd::arithmetic::div_mod::lemma_div_pos_is_pos(parent.gas_limit@ as int, divisor@ as int);
    }
    let min_gas = match parent.gas_limit.checked_sub(&share) {
        Some(min_gas) => min_gas,
        None => unreached(),
    };
    let max_gas = parent.gas_limit.checked_add(&share);
    let too_high = match &max_gas {
        Some(max_gas) => max_gas.le(&header.gas_limit),
        None => false,
    };
    proof {
        header.gas_limit.lemma_bounded();
        lemma_u256_of(min_gas);
        if let Some(m) = max_gas {
            lemma_u256_of(m);
        }
    }
    if header.gas_limit.le(&min_gas) || too_high {
        return Err(
            EngineError::InvalidGasLimit {
                min: Some(min_gas),
                max: max_gas,
                found: header.gas_limit,
            },
        );
    }
    Ok(())
}

/// Fills in the fields that follow from the parent: the difficulty stays, and
/// the gas limit moves towards `gas_floor_target` by less than the parent's
/// share under the divisor.
pub fn populate_from_parent(
    divisor: &U256,
    header: &mut Header,
    parent: &Header,
    gas_floor_target: U256,
    _gas_ceil_target: U256,
)
    requires
        divisor@ > 0,
    ensures
        final(header).difficulty == parent.difficulty,
        final(header).gas_limit@ == next_gas_limit(
            parent.gas_limit@,
            gas_floor_target@,
            divisor@,
        ),
        final(header).number == old(header).number,
        final(header).author == old(header).author,
        final(header).bare_hash == old(header).bare_hash,
        final(header).seal == old(header).seal,
{
    header.difficulty = parent.difficulty;
    let gas_limit = parent.gas_limit;
    let one = U256::from_u64(1);
    let share = match gas_limit.checked_div(divisor) {
        Some(share) => share,
        None => unreached(),
    };
    proof {
        vstd::arithmetic::div_mod::lemma_div_is_ordered_by_denominator(
            gas_limit@ as int,
            1,
            divisor@ as int,
        );
        vstd::arithmetic::div_mod::lemma_div_pos_is_pos(gas_limit@ as int, divisor@ as int);
        gas_floor_target.lemma_bounded();
    }
    let move_by = match share.checked_sub(&one) {
        Some(move_by) => move_by,
        None => {
            header.gas_limit = gas_limit;
            return ;
        },
    };
    if gas_limit.lt(&gas_floor_target) {
        header.gas_limit = match gas_limit.checked_add(&move_by) {
            Some(raised) => if raised.lt(&gas_floor_target) {
                raised
            } else {
                gas_floor_target
            },
            None => gas_floor_target,
        };
    } else {
        header.gas_limit = match gas_limit.checked_sub(&move_by) {
            Some(lowered) => if gas_floor_target.lt(&lowered) {
                lowered
            } else {
                gas_floor_target
            },
            None => gas_floor_target,
        };
    }
}

} // verus!
