//! What holds of the engine as a whole: of every state, of every header that
//! passes the checks, and of steps taken one after another.
use vstd::prelude::*;
use vstd::seq_lib::seq_to_set_is_finite;
use vstd::set_lib::{lemma_len_subset, lemma_set_intersect_union_lens};
use crate::codec::items_of_rlp;
use crate::crypto::signer_of;
use crate::engine::{Handled, Sealing, State};
use crate::error::EngineError;
use crate::header::Header;
use crate::message::{
    decoded_message, header_proposal, message_signer, raw_message_signer, spec_view_change_hash,
    spec_vote_hash, view_change_at, view_vote_digest, AbabMessage, ViewVote,
};
use crate::primitives::{Address, H256};
use crate::validator_set::primary_of;
use crate::verification::{
    gas_bounds, lemma_signers_in, next_gas_limit, one_third, seal_signature, signers_in,
    two_thirds, unordered_check,
};
use crate::vote_collector::{
    aligned, aligned_signers, lemma_aligned_signers_distinct,
    lemma_throw_out_old_keeps_block_votes, lemma_throw_out_old_keeps_wf,
    lemma_vote_keeps_block_votes, lemma_vote_keeps_wf, same_round, Collected,
};

verus! {

/// Whether `signers` are the accounts that signed `digest` in the items of a
/// seal's list, one validator each and no validator twice.
pub open spec fn signed_by_distinct_validators(
    items: Seq<Seq<u8>>,
    digest: H256,
    validators: Seq<Address>,
    signers: Seq<Address>,
) -> bool {
    &&& signers.len() == items.len()
    &&& signers.no_duplicates()
    &&& forall|i: int|
        0 <= i < signers.len() ==> validators.contains(#[trigger] signers[i]) && match seal_signature(
            items[i],
        ) {
            Some(signature) => signer_of(signature, digest) == Some(signers[i]),
            None => false,
        }
}

/// The validators whose votes a committed header holds in its seal.
pub open spec fn commit_voters(validators: Seq<Address>, header: &Header) -> Seq<Address>
    recommends
        unordered_check(validators, header).is_ok(),
        header.seal_fields()[3].len() != 1,
{
    let proposal = header_proposal(header).unwrap();
    signers_in(
        items_of_rlp(header.seal_fields()[3]),
        spec_vote_hash(proposal.view_vote.height, proposal.view_vote.view, header.bare_hash),
        validators,
    ).unwrap()
}

/// Whether the engine did not fall back: the height did not decrease, and
/// within one height the view did not.
pub open spec fn not_behind(before: State, after: State) -> bool {
    before.height < after.height || (before.height == after.height && before.view <= after.view)
}

/// Two quorums among the same validators have more than a third of the
/// validators in common.
pub proof fn lemma_quorums_intersect(validators: Seq<Address>, a: Seq<Address>, b: Seq<Address>)
    requires
        a.no_duplicates(),
        b.no_duplicates(),
        forall|i: int| 0 <= i < a.len() ==> validators.contains(#[trigger] a[i]),
        forall|i: int| 0 <= i < b.len() ==> validators.contains(#[trigger] b[i]),
        a.len() > two_thirds(validators.len()),
        b.len() > two_thirds(validators.len()),
    ensures
        a.to_set().intersect(b.to_set()).finite(),
        a.to_set().intersect(b.to_set()).len() > one_third(validators.len()),
{
    let sa = a.to_set();
    let sb = b.to_set();
    let all = validators.to_set();
    seq_to_set_is_finite(a);
    seq_to_set_is_finite(b);
    seq_to_set_is_finite(validators);
    a.unique_seq_to_set();
    b.unique_seq_to_set();
    validators.lemma_cardinality_of_set();
    assert((sa + sb).subset_of(all)) by {
        assert forall|x: Address| (sa + sb).contains(x) implies all.contains(x) by {
            if sa.contains(x) {
                let i = choose|i: int| 0 <= i < a.len() && a[i] == x;
                assert(validators.contains(a[i]));
            } else {
                let i = choose|i: int| 0 <= i < b.len() && b[i] == x;
                assert(validators.contains(b[i]));
            }
        }
    }
    lemma_len_subset(sa + sb, all);
    lemma_set_intersect_union_lens(sa, sb);
    lemma_len_subset(sa.intersect(sb), sa);
}

/// Of two headers that pass the check of their signatures and hold votes, more
/// than a third of the validators voted for both. So two different blocks are
/// committed at one height and view only if more than a third of the validators
/// vote twice there.
pub proof fn lemma_commits_share_voters(validators: Seq<Address>, first: &Header, second: &Header)
    requires
        unordered_check(validators, first).is_ok(),
        unordered_check(validators, second).is_ok(),
        first.seal_fields()[3].len() != 1,
        second.seal_fields()[3].len() != 1,
    ensures
        commit_voters(validators, first).to_set().intersect(
            commit_voters(validators, second).to_set(),
        ).len() > one_third(validators.len()),
{
    lemma_verified_votes(validators, first);
    lemma_verified_votes(validators, second);
    lemma_quorums_intersect(
        validators,
        commit_voters(validators, first),
        commit_voters(validators, second),
    );
}

/// In a well-formed collector no account counts for two different votes of one
/// kind at one height and view.
pub proof fn lemma_one_counted_vote(c: Collected, first: ViewVote, second: ViewVote)
    requires
        c.wf(),
        same_round(first, second),
        first != second,
    ensures
        aligned_signers(c.records, first).disjoint(aligned_signers(c.records, second)),
{
    assert forall|a: Address|
        !(aligned_signers(c.records, first).contains(a) && aligned_signers(
            c.records,
            second,
        ).contains(a)) by {
        if aligned_signers(c.records, first).contains(a) && aligned_signers(
            c.records,
            second,
        ).contains(a) {
            let i = choose|i: int|
                0 <= i < c.records.len() && aligned(#[trigger] c.records[i], first)
                    && c.records[i].signer == a;
            let j = choose|j: int|
                0 <= j < c.records.len() && aligned(#[trigger] c.records[j], second)
                    && c.records[j].signer == a;
            assert(i != j);
            assert(same_round(c.records[i].message.view_vote, c.records[j].message.view_vote));
        }
    }
}

/// An engine never counts a quorum of votes for two different blocks at one
/// height and view: whoever votes twice there is counted once, and two thirds
/// of the validators cannot be found twice among them without that.
pub proof fn lemma_one_quorum(s: State, first: ViewVote, second: ViewVote)
    requires
        s.wf(),
        first.vote.is_block_vote(),
        second.vote.is_block_vote(),
        first.height == second.height,
        first.view == second.view,
        first != second,
    ensures
        !(s.votes.aligned_count(first) > two_thirds(s.validators.len()) && s.votes.aligned_count(
            second,
        ) > two_thirds(s.validators.len())),
{
    let a = aligned_signers(s.votes.records, first);
    let b = aligned_signers(s.votes.records, second);
    let all = s.validators.to_set();
    lemma_aligned_signers_distinct(s.votes, first);
    lemma_aligned_signers_distinct(s.votes, second);
    lemma_one_counted_vote(s.votes, first, second);
    seq_to_set_is_finite(s.validators);
    s.validators.lemma_cardinality_of_set();
    assert((a + b).subset_of(all)) by {
        assert forall|x: Address| (a + b).contains(x) implies all.contains(x) by {
            if a.contains(x) {
                let i = choose|i: int|
                    0 <= i < s.votes.records.len() && aligned(#[trigger] s.votes.records[i], first)
                        && s.votes.records[i].signer == x;
                assert(s.validators.contains(s.votes.records[i].signer));
            } else {
                let i = choose|i: int|
                    0 <= i < s.votes.records.len() && aligned(
                        #[trigger] s.votes.records[i],
                        second,
                    ) && s.votes.records[i].signer == x;
                assert(s.validators.contains(s.votes.records[i].signer));
            }
        }
    }
    lemma_len_subset(a + b, all);
    lemma_set_intersect_union_lens(a, b);
    assert(a.intersect(b) =~= Set::<Address>::empty());
}

/// A header passes the check of its signatures only if the primary of its view
/// signed its proposal; and a header with a readable proposal that another
/// account signed fails, with both accounts named.
pub proof fn lemma_verified_proposer(validators: Seq<Address>, header: &Header)
    ensures
        unordered_check(validators, header).is_ok() ==> header_proposal(header).is_some()
            && message_signer(header_proposal(header).unwrap()) == Some(
            primary_of(
                validators,
                header_proposal(header).unwrap().view_vote.height,
                header_proposal(header).unwrap().view_vote.view,
            ),
        ),
        header.seal.len() == 4 && header_proposal(header).is_some() && message_signer(
            header_proposal(header).unwrap(),
        ).is_some() && message_signer(header_proposal(header).unwrap()).unwrap() != primary_of(
            validators,
            header_proposal(header).unwrap().view_vote.height,
            header_proposal(header).unwrap().view_vote.view,
        ) ==> unordered_check(validators, header) == Err::<(), EngineError>(
            EngineError::NotProposer {
                expected: primary_of(
                    validators,
                    header_proposal(header).unwrap().view_vote.height,
                    header_proposal(header).unwrap().view_vote.view,
                ),
                found: message_signer(header_proposal(header).unwrap()).unwrap(),
            },
        ),
{
}

/// Past the first view, a header that passes the check of its signatures holds
/// in its third seal field the signatures of more than a third of the
/// validators, each of another validator, over the view-change digest of its
/// height and view.
pub proof fn lemma_verified_view_change(validators: Seq<Address>, header: &Header)
    requires
        unordered_check(validators, header).is_ok(),
        header_proposal(header).unwrap().view_vote.view > 0,
    ensures
        ({
            let proposal = header_proposal(header).unwrap();
            let items = items_of_rlp(header.seal_fields()[2]);
            let digest = spec_view_change_hash(
                proposal.view_vote.height,
                proposal.view_vote.view,
            );
            let signers = signers_in(items, digest.unwrap(), validators);
            &&& digest.is_some()
            &&& signers.is_ok()
            &&& signed_by_distinct_validators(items, digest.unwrap(), validators, signers.unwrap())
            &&& signers.unwrap().len() > one_third(validators.len())
        }),
{
    let proposal = header_proposal(header).unwrap();
    lemma_signers_in(
        items_of_rlp(header.seal_fields()[2]),
        spec_view_change_hash(proposal.view_vote.height, proposal.view_vote.view).unwrap(),
        validators,
    );
}

/// A header that passes the check of its signatures and holds votes holds, in
/// its fourth seal field, the votes of more than two thirds of the validators
/// for its bare hash, each of another validator.
pub proof fn lemma_verified_votes(validators: Seq<Address>, header: &Header)
    requires
        unordered_check(validators, header).is_ok(),
        header.seal_fields()[3].len() != 1,
    ensures
        ({
            let proposal = header_proposal(header).unwrap();
            let items = items_of_rlp(header.seal_fields()[3]);
            let digest = spec_vote_hash(
                proposal.view_vote.height,
                proposal.view_vote.view,
                header.bare_hash,
            );
            let signers = signers_in(items, digest, validators);
            &&& signers.is_ok()
            &&& signers.unwrap() == commit_voters(validators, header)
            &&& signed_by_distinct_validators(items, digest, validators, signers.unwrap())
            &&& signers.unwrap().len() > two_thirds(validators.len())
        }),
{
    let proposal = header_proposal(header).unwrap();
    lemma_signers_in(
        items_of_rlp(header.seal_fields()[3]),
        spec_vote_hash(proposal.view_vote.height, proposal.view_vote.view, header.bare_hash),
        validators,
    );
}

/// A vote that is new and no double vote adds one to the count of its view
/// vote, and can be looked up under its signer.
pub proof fn lemma_vote_counts(c: Collected, m: AbabMessage, signer: Address)
    requires
        !c.knows(m),
        !c.has_voted(signer, m.view_vote),
    ensures
        c.vote(m, signer).aligned_count(m.view_vote) == c.aligned_count(m.view_vote) + 1,
        c.vote(m, signer).get(m) == Some(signer),
{
    assert(c.vote(m, signer).records.drop_last() =~= c.records);
}

/// A double vote is put on record, but changes no count.
pub proof fn lemma_double_vote_counts_nothing(
    c: Collected,
    m: AbabMessage,
    signer: Address,
    v: ViewVote,
)
    requires
        c.is_double_vote(m, signer),
    ensures
        c.vote(m, signer).knows(m),
        c.vote(m, signer).aligned_count(v) == c.aligned_count(v),
{
    let after = c.vote(m, signer);
    assert(after.records.drop_last() =~= c.records);
    assert(after.records[c.records.len() as int].message == m);
}

/// Where the parent's share under the divisor is at least one, the gas limit
/// that follows from the parent lies strictly within the bounds that the check
/// against the parent sets, whatever the floor.
pub proof fn lemma_next_gas_limit_within_bounds(parent: nat, floor: nat, divisor: nat)
    requires
        divisor > 0,
        parent / divisor >= 1,
    ensures
        gas_bounds(parent, divisor).0 < next_gas_limit(parent, floor, divisor) < gas_bounds(
            parent,
            divisor,
        ).1,
{
}

/// The gas limit that follows from the parent lies between the parent's and
/// the floor, and differs from the parent's by less than the parent's share
/// under the divisor, or not at all.
pub proof fn lemma_next_gas_limit_moves_towards_floor(parent: nat, floor: nat, divisor: nat)
    requires
        divisor > 0,
    ensures
        parent <= floor ==> parent <= next_gas_limit(parent, floor, divisor) <= floor,
        parent >= floor ==> floor <= next_gas_limit(parent, floor, divisor) <= parent,
        next_gas_limit(parent, floor, divisor) - parent <= parent / divisor,
        parent - next_gas_limit(parent, floor, divisor) <= parent / divisor,
{
}

/// A recorded message leaves a well-formed state well formed, does not let the
/// engine fall back, and stays on record unless it is older than what is kept.
pub proof fn lemma_valid_message_step(s: State, m: AbabMessage)
    requires
        s.wf(),
    ensures
        s.on_valid_message(m).state.wf(),
        not_behind(s, s.on_valid_message(m).state),
        s.votes.knows(m) ==> s.on_valid_message(m).state.votes.knows(m),
{
    lemma_throw_out_old_keeps_wf(s.votes, m.view_vote);
    lemma_throw_out_old_keeps_block_votes(s.votes, s.validators, m.view_vote);
}

/// Bytes from a peer leave a well-formed state well formed, and do not let the
/// engine fall back: the height never decreases, and within one height the view
/// only increases.
pub proof fn lemma_message_step(s: State, bytes: Seq<u8>)
    requires
        s.wf(),
    ensures
        s.on_message(bytes).state.wf(),
        not_behind(s, s.on_message(bytes).state),
{
    let handled = s.on_message(bytes);
    if handled.state != s {
        let m = decoded_message(bytes).unwrap();
        let sender = raw_message_signer(m, bytes).unwrap();
        lemma_vote_keeps_wf(s.votes, m, sender);
        lemma_vote_keeps_block_votes(s.votes, s.validators, m, sender);
        let recorded = State { votes: s.votes.vote(m, sender), ..s };
        lemma_valid_message_step(recorded, m);
    }
}

/// A timeout leaves a well-formed state well formed, and does not let the
/// engine fall back.
pub proof fn lemma_timeout_step(s: State)
    requires
        s.wf(),
    ensures
        s.on_timeout().state.wf(),
        not_behind(s, s.on_timeout().state),
{
    let own = view_change_at(s.height, s.view);
    match s.signer.spec_sign(view_vote_digest(own)) {
        None => {},
        Some(signature) => {
            let m = AbabMessage { signature, view_vote: own };
            lemma_vote_keeps_wf(s.votes, m, s.signer.spec_address());
            lemma_vote_keeps_block_votes(s.votes, s.validators, m, s.signer.spec_address());
            let recorded = State { votes: s.votes.vote(m, s.signer.spec_address()), ..s };
            lemma_valid_message_step(recorded, m);
        },
    }
}

/// An attempt to seal leaves a well-formed state well formed, at its height
/// and in its view.
pub proof fn lemma_seal_step(s: State, header: &Header)
    requires
        s.wf(),
    ensures
        s.on_generate_seal(header).state.wf(),
        s.on_generate_seal(header).state.height == s.height,
        s.on_generate_seal(header).state.view == s.view,
{
    match s.signer.spec_sign(view_vote_digest(s.own_proposal(header))) {
        None => {},
        Some(signature) => {
            lemma_vote_keeps_wf(
                s.votes,
                AbabMessage { signature, view_vote: s.own_proposal(header) },
                header.author,
            );
            lemma_vote_keeps_block_votes(
                s.votes,
                s.validators,
                AbabMessage { signature, view_vote: s.own_proposal(header) },
                header.author,
            );
        },
    }
}

/// An imported header leaves a well-formed state well formed, and does not let
/// the engine fall back: a commit moves it to a higher height or not at all, a
/// proposal leaves height and view alone.
pub proof fn lemma_header_step(s: State, header: &Header)
    requires
        s.wf(),
        State::classifiable(header),
    ensures
        s.on_header(header).state.wf(),
        not_behind(s, s.on_header(header).state),
{
    let proposal = header_proposal(header).unwrap();
    if header.seal_fields()[3].len() == 1 {
        lemma_vote_keeps_wf(s.votes, proposal, message_signer(proposal).unwrap());
        lemma_vote_keeps_block_votes(
            s.votes,
            s.validators,
            proposal,
            message_signer(proposal).unwrap(),
        );
    }
}

/// Bytes that were accepted are dropped without a word when they come again:
/// the second time nothing is asked of the caller and nothing changes.
pub proof fn lemma_message_twice(s: State, bytes: Seq<u8>)
    requires
        s.wf(),
        s.on_message(bytes).result.is_ok(),
    ensures
        s.on_message(bytes).state.on_message(bytes) == (Handled {
            state: s.on_message(bytes).state,
            result: Ok(Seq::empty()),
        }),
{
    let m = decoded_message(bytes).unwrap();
    if !s.votes.is_old_or_known(m) {
        let sender = raw_message_signer(m, bytes).unwrap();
        lemma_vote_keeps_wf(s.votes, m, sender);
        lemma_vote_keeps_block_votes(s.votes, s.validators, m, sender);
        let recorded = State { votes: s.votes.vote(m, sender), ..s };
        lemma_valid_message_step(recorded, m);
    }
}

/// While the current view has its proposal no seal is made, whatever the
/// header, and the attempt changes nothing. A seal that is made marks the view
/// as having its proposal, so the next attempt makes none.
pub proof fn lemma_seal_once(s: State, first: &Header, second: &Header)
    ensures
        s.proposed ==> s.on_generate_seal(first) == (Sealing { state: s, seal: None }),
        s.on_generate_seal(first).seal.is_some() ==> s.on_generate_seal(first).state.proposed
            && s.on_generate_seal(first).state.on_generate_seal(second) == (Sealing {
            state: s.on_generate_seal(first).state,
            seal: None,
        }),
{
}

} // verus!
