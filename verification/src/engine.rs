//! The consensus state machine.
//!
//! The engine holds the height, the view and whether this node has proposed,
//! beside the votes it has collected. It never talks to the network, the clock
//! or the sealing pipeline itself: each step returns the actions that the
//! caller is to carry out, in order.
use vstd::prelude::*;
use crate::codec::{empty_list, encode_bytes, encode_uint, rlp_of_bytes, rlp_of_uint};
use crate::error::{EngineError, ParamsError};
use crate::header::{Header, Seal};
use crate::message::{
    decoded_message, encode_signatures, header_proposal, message_encoding, message_signer,
    proposal_at, raw_message_signer, signature_list, view_change_at, view_change_into,
    view_vote_digest,
    AbabMessage, ViewVote, Vote,
};
use crate::primitives::{
    bytes_to_vec, views_of, Address, Height, Secret, Signature, ViewNumber, H256,
};
use crate::signer::Signer;
use crate::uint::U256;
use crate::validator_set::{primary_of, ValidatorSet};
use crate::verification::{
    basic_check, family_check, is_above_third, is_above_two_thirds, next_gas_limit, one_third,
    two_thirds, unordered_check,
};
use crate::vote_collector::{
    block_votes_from, lemma_throw_out_old_keeps_block_votes, lemma_vote_keeps_block_votes,
    Collected, VoteCollector,
};

verus! {

/// What an engine is made from.
#[derive(Clone, Debug)]
pub struct AbabParams {
    /// The validators, in the order in which they take turns as primary.
    pub validators: Vec<Address>,
    /// How small a share of the parent's gas limit a block may move its own by.
    pub gas_limit_bound_divisor: U256,
    /// What the author of a block earns.
    pub block_reward: U256,
    /// Milliseconds after which a silent view is abandoned.
    pub timeout: u64,
}

/// Something the caller is to do for the engine.
#[derive(Clone, Debug, PartialEq, Eq)]
pub enum Action {
    /// Start the view-change timer anew.
    ResetTimeout,
    /// Send these bytes to the peers.
    Broadcast(Vec<u8>),
    /// Ask the sealing pipeline for a new attempt.
    UpdateSealing,
    /// Hand this seal, which commits the proposed block, to the sealing pipeline.
    SubmitSeal(Vec<Vec<u8>>),
}

/// An action, with its bytes as plain sequences.
pub enum Effect {
    ResetTimeout,
    Broadcast(Seq<u8>),
    UpdateSealing,
    SubmitSeal(Seq<Seq<u8>>),
}

impl View for Action {
    type V = Effect;

    open spec fn view(&self) -> Effect {
        match self {
            Action::ResetTimeout => Effect::ResetTimeout,
            Action::Broadcast(bytes) => Effect::Broadcast(bytes@),
            Action::UpdateSealing => Effect::UpdateSealing,
            Action::SubmitSeal(fields) => Effect::SubmitSeal(views_of(fields@)),
        }
    }
}

/// The effects that a list of actions stands for.
pub open spec fn effects_of(actions: Seq<Action>) -> Seq<Effect> {
    Seq::new(actions.len(), |i: int| actions[i]@)
}

/// The broadcast of each message, in order.
pub open spec fn broadcasts_of(messages: Seq<AbabMessage>) -> Seq<Effect> {
    Seq::new(messages.len(), |i: int| Effect::Broadcast(message_encoding(messages[i])))
}

/// All that an engine knows.
pub struct State {
    pub height: Height,
    pub view: ViewNumber,
    pub proposed: bool,
    pub votes: Collected,
    pub signer: Signer,
    pub validators: Seq<Address>,
    pub gas_limit_bound_divisor: U256,
    pub block_reward: U256,
    pub timeout: u64,
}

/// Where a step leaves the engine, and what it asks of the caller.
pub struct Outcome {
    pub state: State,
    pub effects: Seq<Effect>,
}

/// Where an incoming message leaves the engine, and what came of it.
pub struct Handled {
    pub state: State,
    pub result: Result<Seq<Effect>, EngineError>,
}

/// Where an attempt to seal leaves the engine, and the seal if one was made.
pub struct Sealing {
    pub state: State,
    pub seal: Option<Seq<Seq<u8>>>,
}

/// Where an imported header leaves the engine, what it asks of the caller, and
/// whether the header is a proposal.
pub struct Import {
    pub state: State,
    pub effects: Seq<Effect>,
    pub proposal: bool,
}

impl State {
    /// The height is at least one, there are validators, the gas limit divisor
    /// is not zero, the collector is well formed, and every vote for a block
    /// that it counts is a validator's.
    pub open spec fn wf(self) -> bool {
        &&& self.height >= 1
        &&& self.validators.len() > 0
        &&& self.gas_limit_bound_divisor@ > 0
        &&& self.votes.wf()
        &&& block_votes_from(self.votes.records, self.validators)
    }

    /// Whether this node leads `view` at `height`.
    pub open spec fn is_view_primary(self, height: Height, view: ViewNumber) -> bool {
        self.signer.spec_address() == primary_of(self.validators, height, view)
    }

    /// Whether this node leads the current view.
    pub open spec fn is_primary(self) -> bool {
        self.is_view_primary(self.height, self.view)
    }

    /// Whether more than two thirds of the validators cast the vote of `m`.
    pub open spec fn has_enough_votes(self, m: AbabMessage) -> bool {
        self.votes.aligned_count(m.view_vote) > two_thirds(self.validators.len())
    }

    /// Whether `m`, a vote to abandon its view, lets this node lead the next
    /// one: this node is the primary there, the engine is not there yet, and
    /// more than a third of the validators cast the same vote.
    pub open spec fn is_new_view(self, m: AbabMessage) -> bool {
        &&& m.view_vote.view < u64::MAX
        &&& self.is_view_primary(self.height, (m.view_vote.view + 1) as u64)
        &&& m.view_vote.view + 1 > self.view
        &&& self.votes.aligned_count(m.view_vote) > one_third(self.validators.len())
    }

    /// What every restart of the timer asks: the restart itself, then a repeat
    /// of each message on record up to the current height and view.
    pub open spec fn catch_up(self) -> Seq<Effect> {
        seq![Effect::ResetTimeout] + broadcasts_of(
            self.votes.get_up_to(view_change_at(self.height, self.view)),
        )
    }

    /// The move to `view` at the same height: the timer restarts, the view has
    /// no proposal yet.
    pub open spec fn new_view(self, view: ViewNumber) -> Outcome {
        Outcome { state: State { view, proposed: false, ..self }, effects: self.catch_up() }
    }

    /// The move to the height after `height`, in view zero: the timer restarts,
    /// the view has no proposal yet.
    pub open spec fn to_next_height(self, height: Height) -> Outcome
        recommends
            height < u64::MAX,
    {
        Outcome {
            state: State { height: (height + 1) as u64, view: 0, proposed: false, ..self },
            effects: self.catch_up(),
        }
    }

    /// The view-change signatures on record that justify `view` at `height`,
    /// ordered by signer: those on the vote to abandon the view before. The
    /// first view needs none.
    pub open spec fn new_view_signatures(votes: Collected, height: Height, view: ViewNumber) -> Seq<
        Signature,
    > {
        match view_change_into(height, view) {
            Some(v) => votes.round_signatures(v),
            None => Seq::empty(),
        }
    }

    /// The seal that commits the block `hash`, given the vote `m` that completed
    /// the quorum; none while no proposal for the block is on record.
    pub open spec fn commit_seal(self, m: AbabMessage, hash: H256) -> Option<Seq<Seq<u8>>> {
        let proposals = self.votes.round_signatures(proposal_at(self.height, self.view, hash));
        if proposals.len() == 0 {
            None
        } else {
            Some(
                seq![
                    rlp_of_uint(self.view),
                    rlp_of_bytes(proposals[0]@),
                    signature_list(State::new_view_signatures(self.votes, self.height, self.view)),
                    signature_list(self.votes.round_signatures(m.view_vote)),
                ],
            )
        }
    }

    /// The step on a message that was accepted and recorded.
    ///
    /// A vote that completes a quorum for the block this node proposed yields
    /// the commit seal, and everything older than the vote is thrown out. A
    /// vote to abandon a view that satisfies `is_new_view` moves the engine to
    /// the next view. Everything else, and every message for another height,
    /// changes nothing.
    pub open spec fn on_valid_message(self, m: AbabMessage) -> Outcome {
        let unchanged = Outcome { state: self, effects: Seq::empty() };
        if m.view_vote.height != self.height {
            unchanged
        } else {
            match m.view_vote.vote {
                Vote::Vote(hash) => if self.proposed && self.is_primary() && self.has_enough_votes(
                    m,
                ) {
                    match self.commit_seal(m, hash) {
                        Some(fields) => Outcome {
                            state: State { votes: self.votes.throw_out_old(m.view_vote), ..self },
                            effects: seq![Effect::SubmitSeal(fields)],
                        },
                        None => unchanged,
                    }
                } else {
                    unchanged
                },
                Vote::ViewChange => if self.is_new_view(m) {
                    let moved = self.new_view((m.view_vote.view + 1) as u64);
                    Outcome { state: moved.state, effects: moved.effects.push(Effect::UpdateSealing) }
                } else {
                    unchanged
                },
                Vote::Proposal(_) => unchanged,
            }
        }
    }

    /// The step on bytes from a peer.
    ///
    /// Bytes that are no message fail. A message that is old or known is
    /// dropped without a word. A signature that recovers to nobody, or to no
    /// validator, fails. A double vote is recorded and fails. Any other message
    /// is recorded, sent on as it came, and stepped on.
    pub open spec fn on_message(self, bytes: Seq<u8>) -> Handled {
        match decoded_message(bytes) {
            None => Handled { state: self, result: Err(EngineError::Decoding) },
            Some(m) => if self.votes.is_old_or_known(m) {
                Handled { state: self, result: Ok(Seq::empty()) }
            } else {
                match raw_message_signer(m, bytes) {
                    None => Handled { state: self, result: Err(EngineError::InvalidSignature) },
                    Some(sender) => if !self.validators.contains(sender) {
                        Handled { state: self, result: Err(EngineError::NotAuthorized(sender)) }
                    } else {
                        let recorded = State { votes: self.votes.vote(m, sender), ..self };
                        if self.votes.is_double_vote(m, sender) {
                            Handled {
                                state: recorded,
                                result: Err(EngineError::DoubleVote(sender)),
                            }
                        } else {
                            let next = recorded.on_valid_message(m);
                            Handled {
                                state: next.state,
                                result: Ok(seq![Effect::Broadcast(bytes)] + next.effects),
                            }
                        }
                    },
                }
            },
        }
    }

    /// The proposal that this node would sign for `header` now.
    pub open spec fn own_proposal(self, header: &Header) -> ViewVote {
        proposal_at(header.number, self.view, header.bare_hash)
    }

    /// The attempt to seal `header` as a proposal.
    ///
    /// Only the primary seals, and only once per view. The proposal is signed
    /// and recorded as the vote of the header's author; the seal holds the
    /// view, the signature, the view-change signatures on record that justify
    /// the view at the header's height, and an empty list of votes.
    pub open spec fn on_generate_seal(self, header: &Header) -> Sealing {
        if !self.is_primary() || self.proposed {
            Sealing { state: self, seal: None }
        } else {
            match self.signer.spec_sign(view_vote_digest(self.own_proposal(header))) {
                None => Sealing { state: self, seal: None },
                Some(signature) => {
                    let votes = self.votes.vote(
                        AbabMessage { signature, view_vote: self.own_proposal(header) },
                        header.author,
                    );
                    Sealing {
                        state: State { votes, proposed: true, ..self },
                        seal: Some(
                            seq![
                                rlp_of_uint(self.view),
                                rlp_of_bytes(signature@),
                                signature_list(
                                    State::new_view_signatures(votes, header.number, self.view),
                                ),
                                seq![0xc0u8],
                            ],
                        ),
                    }
                },
            }
        }
    }

    /// This node's own vote to abandon the current view. If the node can
    /// sign, the vote is recorded under the signer's account, sent out, and
    /// stepped on; if it cannot, nothing happens.
    pub open spec fn broadcast_view_change(self) -> Outcome {
        let own = view_change_at(self.height, self.view);
        match self.signer.spec_sign(view_vote_digest(own)) {
            None => Outcome { state: self, effects: Seq::empty() },
            Some(signature) => {
                let m = AbabMessage { signature, view_vote: own };
                let recorded = State {
                    votes: self.votes.vote(m, self.signer.spec_address()),
                    ..self
                };
                let next = recorded.on_valid_message(m);
                Outcome {
                    state: next.state,
                    effects: seq![Effect::Broadcast(message_encoding(m))] + next.effects,
                }
            },
        }
    }

    /// The step on a timeout: the timer restarts, the messages on record are
    /// repeated, and this node votes to abandon the current view.
    pub open spec fn on_timeout(self) -> Outcome {
        let sent = self.broadcast_view_change();
        Outcome { state: sent.state, effects: self.catch_up() + sent.effects }
    }

    /// Whether `header` can be classified: its seal has four fields and holds a
    /// proposal, and if it holds no votes the proposal's signature recovers to
    /// an account. A header that passed `verify_block_unordered` can.
    pub open spec fn classifiable(header: &Header) -> bool {
        &&& header.seal.len() == 4
        &&& header_proposal(header).is_some()
        &&& header.seal_fields()[3].len() == 1 ==> message_signer(
            header_proposal(header).unwrap(),
        ).is_some()
    }

    /// The step on a header that is being imported.
    ///
    /// A header with votes in its seal is a commit: if its height is above the
    /// engine's, the engine moves to the height after it, in view zero, and
    /// asks for sealing if this node leads there. A header without votes is a
    /// proposal: it is recorded as the vote of its signer, and the engine notes
    /// that the current view has its proposal if that is where it belongs.
    pub open spec fn on_header(self, header: &Header) -> Import
        recommends
            State::classifiable(header),
    {
        let proposal = header_proposal(header).unwrap();
        if header.seal_fields()[3].len() != 1 {
            if proposal.view_vote.height > self.height && proposal.view_vote.height < u64::MAX {
                let moved = self.to_next_height(proposal.view_vote.height);
                Import {
                    state: moved.state,
                    effects: if moved.state.is_primary() {
                        moved.effects.push(Effect::UpdateSealing)
                    } else {
                        moved.effects
                    },
                    proposal: false,
                }
            } else {
                Import { state: self, effects: Seq::empty(), proposal: false }
            }
        } else {
            Import {
                state: State {
                    proposed: self.proposed || (proposal.view_vote.height == self.height
                        && proposal.view_vote.view == self.view),
                    votes: self.votes.vote(proposal, message_signer(proposal).unwrap()),
                    ..self
                },
                effects: Seq::empty(),
                proposal: true,
            }
        }
    }

    /// The import of a header that may be anything: it is checked first, and
    /// classified only if it passes.
    pub open spec fn on_import(self, header: &Header) -> Result<Import, EngineError> {
        match basic_check(header) {
            Err(e) => Err(e),
            Ok(_) => match unordered_check(self.validators, header) {
                Err(e) => Err(e),
                Ok(_) => Ok(self.on_header(header)),
            },
        }
    }
}

/// A header that passes the check of its signatures can be classified.
pub proof fn lemma_checked_is_classifiable(validators: Seq<Address>, header: &Header)
    requires
        unordered_check(validators, header).is_ok(),
    ensures
        State::classifiable(header),
{
}

/// The Abab consensus engine.
#[derive(Clone, Debug)]
pub struct Abab {
    gas_limit_bound_divisor: U256,
    block_reward: U256,
    timeout: u64,
    /// Height of the block being agreed on.
    height: Height,
    /// Attempt at agreeing on it.
    view: ViewNumber,
    /// Whether the current view has its proposal.
    proposed: bool,
    /// Every message accepted so far.
    votes: VoteCollector,
    /// Signs this node's own messages.
    signer: Signer,
    /// The validators of the chain.
    validators: ValidatorSet,
}

impl View for Abab {
    type V = State;

    /// All that the engine knows.
    closed spec fn view(&self) -> State {
        State {
            height: self.height,
            view: self.view,
            proposed: self.proposed,
            votes: self.votes@,
            signer: self.signer,
            validators: self.validators@,
            gas_limit_bound_divisor: self.gas_limit_bound_divisor,
            block_reward: self.block_reward,
            timeout: self.timeout,
        }
    }
}

/// Adds an action to a list.
fn push_action(actions: &mut Vec<Action>, action: Action)
    ensures
        effects_of(final(actions)@) == effects_of(old(actions)@).push(action@),
{
    actions.push(action);
    proof {
        assert(effects_of(actions@) =~= effects_of(old(actions)@).push(action@));
    }
}

impl Abab {
    /// The height is at least one, there are validators, the gas limit divisor
    /// is not zero, the collector is well formed, and every vote for a block
    /// that it counts is a validator's.
    pub open spec fn wf(&self) -> bool {
        self@.wf()
    }

    /// An engine at height one, view zero, without a proposal, a vote or a
    /// signing key. Parameters without validators, or with a gas limit divisor
    /// of zero, are refused.
    pub fn new(our_params: AbabParams) -> (engine: Result<Abab, ParamsError>)
        ensures
            match engine {
                Ok(e) => {
                    &&& our_params.validators@.len() > 0
                    &&& our_params.gas_limit_bound_divisor@ != 0
                    &&& e.wf()
                    &&& e@.height == 1
                    &&& e@.view == 0
                    &&& !e@.proposed
                    &&& e@.votes.records.len() == 0
                    &&& e@.votes.oldest_height == 0
                    &&& e@.votes.oldest_view == 0
                    &&& e@.signer.spec_secret().is_none()
                    &&& e@.validators == our_params.validators@
                    &&& e@.gas_limit_bound_divisor == our_params.gas_limit_bound_divisor
                    &&& e@.block_reward == our_params.block_reward
                    &&& e@.timeout == our_params.timeout
                },
                Err(ParamsError::NoValidators) => our_params.validators@.len() == 0,
                Err(ParamsError::ZeroGasLimitDivisor) => our_params.validators@.len() > 0
                    && our_params.gas_limit_bound_divisor@ == 0,
            },
    {
        let AbabParams { validators, gas_limit_bound_divisor, block_reward, timeout } = our_params;
        let validators = match ValidatorSet::new(validators) {
            Some(validators) => validators,
            None => {
                return Err(ParamsError::NoValidators);
            },
        };
        if gas_limit_bound_divisor.is_zero() {
            return Err(ParamsError::ZeroGasLimitDivisor);
        }
        Ok(
            Abab {
                gas_limit_bound_divisor,
                block_reward,
                timeout,
                height: 1,
                view: 0,
                proposed: false,
                votes: VoteCollector::new(),
                signer: Signer::new(),
                validators,
            },
        )
    }

    /// The engine's name.
    pub fn name(&self) -> (name: &'static str)
        ensures
            name@ == "Abab"@,
    {
        "Abab"
    }

    /// The engine's version: major, minor, patch.
    pub fn version(&self) -> (version: (u32, u32, u32))
        ensures
            version == (1u32, 0u32, 0u32),
    {
        (1, 0, 0)
    }

    /// The number of seal fields: the view, the proposal signature, the
    /// view-change signatures, the vote signatures.
    pub fn seal_fields(&self) -> (n: usize)
        ensures
            n == 4,
    {
        4
    }

    /// Blocks of this engine have no uncles.
    pub fn maximum_uncle_count(&self) -> (n: usize)
        ensures
            n == 0,
    {
        0
    }

    /// Blocks of this engine have no uncles, of any age.
    pub fn maximum_uncle_age(&self) -> (n: usize)
        ensures
            n == 0,
    {
        0
    }

    /// The height of the block being agreed on.
    pub fn height(&self) -> (height: Height)
        ensures
            height == self@.height,
    {
        self.height
    }

    /// The current view.
    pub fn view_number(&self) -> (view: ViewNumber)
        ensures
            view == self@.view,
    {
        self.view
    }

    /// Whether the current view has its proposal.
    pub fn proposed(&self) -> (proposed: bool)
        ensures
            proposed == self@.proposed,
    {
        self.proposed
    }

    /// Milliseconds after which a silent view is abandoned.
    pub fn timeout(&self) -> (timeout: u64)
        ensures
            timeout == self@.timeout,
    {
        self.timeout
    }

    /// The votes collected so far.
    pub fn votes(&self) -> (votes: &VoteCollector)
        ensures
            votes@ == self@.votes,
    {
        &self.votes
    }

    /// Sets the account and key with which this node signs.
    pub fn set_signer(&mut self, address: Address, secret: Secret)
        ensures
            final(self)@.signer.spec_address() == address,
            final(self)@.signer.spec_secret() == Some(secret),
            final(self)@ == (State { signer: final(self)@.signer, ..old(self)@ }),
    {
        self.signer.set(address, secret);
    }

    /// Whether `address` is a validator.
    pub fn is_validator(&self, address: &Address) -> (member: bool)
        ensures
            member == self@.validators.contains(*address),
    {
        self.validators.contains(address)
    }

    /// Whether `address` should take part in sealing: whether it is a validator.
    pub fn is_sealer(&self, address: &Address) -> (sealer: Option<bool>)
        ensures
            sealer == Some(self@.validators.contains(*address)),
    {
        Some(self.is_validator(address))
    }

    /// The validator that leads `view` at `height`.
    pub fn view_primary(&self, height: Height, view: ViewNumber) -> (primary: Address)
        requires
            self.wf(),
        ensures
            primary == primary_of(self@.validators, height, view),
    {
        self.validators.primary(height, view)
    }

    /// Whether this node leads `view` at `height`.
    pub fn is_view_primary(&self, height: Height, view: ViewNumber) -> (leads: bool)
        requires
            self.wf(),
        ensures
            leads == self@.is_view_primary(height, view),
    {
        let primary = self.view_primary(height, view);
        self.signer.is_address(&primary)
    }

    /// Whether this node leads the current view.
    pub fn is_primary(&self) -> (leads: bool)
        requires
            self.wf(),
        ensures
            leads == self@.is_primary(),
    {
        self.is_view_primary(self.height, self.view)
    }

    /// Whether `message` is cast at the current height.
    pub fn is_height(&self, message: &AbabMessage) -> (at: bool)
        ensures
            at == (message.view_vote.height == self@.height),
    {
        message.view_vote.is_height(self.height)
    }

    /// Whether `message` is cast at the current height and view.
    pub fn is_view(&self, message: &AbabMessage) -> (at: bool)
        ensures
            at == (message.view_vote.height == self@.height && message.view_vote.view
                == self@.view),
    {
        message.view_vote.is_view(self.height, self.view)
    }

    /// Whether more than two thirds of the validators cast the vote of `message`.
    pub fn has_enough_votes(&self, message: &AbabMessage) -> (enough: bool)
        ensures
            enough == self@.has_enough_votes(*message),
    {
        let aligned_count = self.votes.count_aligned_votes(message);
        is_above_two_thirds(&self.validators, aligned_count).is_ok()
    }

    /// Whether `message`, a vote to abandon its view, lets this node lead the
    /// next one.
    pub fn is_new_view(&self, message: &AbabMessage) -> (new_view: bool)
        requires
            self.wf(),
        ensures
            new_view == self@.is_new_view(*message),
    {
        if message.view_vote.view == u64::MAX {
            return false;
        }
        let candidate: u64 = message.view_vote.view + 1;
        self.is_view_primary(self.height, candidate) && self.view < candidate && is_above_third(
            &self.validators,
            self.votes.count_aligned_votes(message),
        ).is_ok()
    }

    /// The view-change signatures on record that justify `view` at `height`.
    fn new_view_signatures(&self, height: Height, view: ViewNumber, block_hash: &H256) -> (signatures:
        Vec<Signature>)
        ensures
            signatures@ == State::new_view_signatures(self@.votes, height, view),
    {
        match ViewVote::leading_into(height, view) {
            Some(v) => self.votes.round_signatures(&v, block_hash),
            None => Vec::new(),
        }
    }

    /// Asks the client for a new attempt at sealing.
    fn update_sealing(&self, actions: &mut Vec<Action>)
        ensures
            effects_of(final(actions)@) == effects_of(old(actions)@).push(Effect::UpdateSealing),
    {
        push_action(actions, Action::UpdateSealing);
    }

    /// Asks the client to send `message` to the peers.
    fn broadcast_message(&self, actions: &mut Vec<Action>, message: Vec<u8>)
        ensures
            effects_of(final(actions)@) == effects_of(old(actions)@).push(
                Effect::Broadcast(message@),
            ),
    {
        push_action(actions, Action::Broadcast(message));
    }

    /// Asks for every message on record up to the current height and view to
    /// be sent again, to get the peers up to speed.
    fn broadcast_old_messages(&self, actions: &mut Vec<Action>)
        ensures
            effects_of(final(actions)@) == effects_of(old(actions)@) + broadcasts_of(
                self@.votes.get_up_to(view_change_at(self@.height, self@.view)),
            ),
    {
        let messages = self.votes.get_up_to(&ViewVote::new_view_change(self.height, self.view));
        let ghost start = effects_of(old(actions)@);
        let mut i: usize = 0;
        proof {
            assert(effects_of(actions@) =~= start + broadcasts_of(messages@.take(0)));
        }
        while i < messages.len()
            invariant
                0 <= i <= messages@.len(),
                effects_of(actions@) == start + broadcasts_of(messages@.take(i as int)),
            decreases messages@.len() - i,
        {
            let bytes = messages[i].encode();
            self.broadcast_message(actions, bytes);
            proof {
                assert(broadcasts_of(messages@.take(i + 1)) =~= broadcasts_of(
                    messages@.take(i as int),
                ).push(Effect::Broadcast(message_encoding(messages@[i as int]))));
                assert(effects_of(actions@) =~= start + broadcasts_of(messages@.take(i + 1)));
            }
            i += 1;
        }
        proof {
            assert(messages@.take(messages@.len() as int) =~= messages@);
        }
    }

    /// Asks for the timer to start anew, and for the messages on record to be
    /// sent again.
    fn set_timeout(&self, actions: &mut Vec<Action>)
        ensures
            effects_of(final(actions)@) == effects_of(old(actions)@) + self@.catch_up(),
    {
        push_action(actions, Action::ResetTimeout);
        self.broadcast_old_messages(actions);
        proof {
            assert(effects_of(actions@) =~= effects_of(old(actions)@) + self@.catch_up());
        }
    }

    /// Moves to the height after `height`, in view zero.
    fn to_next_height(&mut self, height: Height, actions: &mut Vec<Action>)
        requires
            height < u64::MAX,
            old(self).wf(),
        ensures
            final(self)@ == old(self)@.to_next_height(height).state,
            effects_of(final(actions)@) == effects_of(old(actions)@) + old(self)@.to_next_height(
                height,
            ).effects,
            final(self).wf(),
    {
        self.set_timeout(actions);
        let new_height: Height = height + 1;
        self.height = new_height;
        self.view = 0;
        self.proposed = false;
    }

    /// Moves to `view` at the same height.
    fn new_view(&mut self, view: ViewNumber, actions: &mut Vec<Action>)
        requires
            old(self).wf(),
        ensures
            final(self)@ == old(self)@.new_view(view).state,
            effects_of(final(actions)@) == effects_of(old(actions)@) + old(self)@.new_view(
                view,
            ).effects,
            final(self).wf(),
    {
        self.set_timeout(actions);
        self.view = view;
        self.proposed = false;
    }

    /// Casts this node's own vote to abandon the current view. See
    /// `State::broadcast_view_change`.
    fn broadcast_view_change(&mut self, actions: &mut Vec<Action>)
        requires
            old(self).wf(),
        ensures
            final(self)@ == old(self)@.broadcast_view_change().state,
            effects_of(final(actions)@) == effects_of(old(actions)@)
                + old(self)@.broadcast_view_change().effects,
            final(self).wf(),
    {
        let view_vote = ViewVote::new_view_change(self.height, self.view);
        let digest = view_vote.digest();
        match self.signer.sign(&digest) {
            Some(signature) => {
                let message = AbabMessage::new(signature, view_vote);
                let validator = self.signer.address();
                proof {
                    lemma_vote_keeps_block_votes(
                        self@.votes,
                        self@.validators,
                        message,
                        validator,
                    );
                }
                let _ = self.votes.vote(message, &validator);
                let message_rlp = message.encode();
                self.broadcast_message(actions, message_rlp);
                let mut more = self.handle_valid_message(&message);
                append_actions(actions, &mut more);
                proof {
                    assert(effects_of(actions@) =~= effects_of(old(actions)@)
                        + old(self)@.broadcast_view_change().effects);
                }
            },
            None => {
                proof {
                    assert(effects_of(actions@) =~= effects_of(old(actions)@)
                        + old(self)@.broadcast_view_change().effects);
                }
            },
        }
    }

    /// Steps on a message that was accepted and recorded. See `State::on_valid_message`.
    pub fn handle_valid_message(&mut self, message: &AbabMessage) -> (actions: Vec<Action>)
        requires
            old(self).wf(),
        ensures
            final(self)@ == old(self)@.on_valid_message(*message).state,
            effects_of(actions@) == old(self)@.on_valid_message(*message).effects,
            final(self).wf(),
    {
        let mut actions: Vec<Action> = Vec::new();
        proof {
            assert(effects_of(actions@) =~= Seq::<Effect>::empty());
        }
        if !self.is_height(message) {
            return actions;
        }
        match message.view_vote.vote {
            Vote::Vote(hash) => {
                if self.proposed && self.is_primary() && self.has_enough_votes(message) {
                    let proposals = self.votes.round_signatures(
                        &ViewVote::new_proposal(self.height, self.view, hash),
                        &hash,
                    );
                    if proposals.len() > 0 {
                        let new_view = self.new_view_signatures(self.height, self.view, &hash);
                        let votes = self.votes.round_signatures(&message.view_vote, &hash);
                        proof {
                            lemma_throw_out_old_keeps_block_votes(
                                self@.votes,
                                self@.validators,
                                message.view_vote,
                            );
                        }
                        self.votes.throw_out_old(&message.view_vote);
                        let mut fields: Vec<Vec<u8>> = Vec::new();
                        fields.push(encode_uint(self.view));
                        fields.push(encode_bytes(proposals[0].as_slice()));
                        fields.push(encode_signatures(&new_view));
                        fields.push(encode_signatures(&votes));
                        proof {
                            assert(views_of(fields@) =~= old(self)@.commit_seal(
                                *message,
                                hash,
                            ).unwrap());
                        }
                        push_action(&mut actions, Action::SubmitSeal(fields));
                        proof {
                            assert(effects_of(actions@) =~= old(self)@.on_valid_message(
                                *message,
                            ).effects);
                        }
                    }
                }
            },
            Vote::ViewChange => {
                if self.is_new_view(message) {
                    self.new_view(message.view_vote.view + 1, &mut actions);
                    self.update_sealing(&mut actions);
                    proof {
                        assert(effects_of(actions@) =~= old(self)@.on_valid_message(
                            *message,
                        ).effects);
                    }
                }
            },
            Vote::Proposal(_) => {},
        }
        actions
    }

    /// Takes bytes that came from a peer. See `State::on_message`.
    pub fn handle_message(&mut self, rlp: &[u8]) -> (handled: Result<Vec<Action>, EngineError>)
        requires
            old(self).wf(),
        ensures
            final(self)@ == old(self)@.on_message(rlp@).state,
            match handled {
                Ok(actions) => old(self)@.on_message(rlp@).result == Ok::<
                    Seq<Effect>,
                    EngineError,
                >(effects_of(actions@)),
                Err(e) => old(self)@.on_message(rlp@).result == Err::<Seq<Effect>, EngineError>(e),
            },
            final(self).wf(),
    {
        let message = match AbabMessage::decode(rlp) {
            Ok(message) => message,
            Err(e) => {
                return Err(e);
            },
        };
        if self.votes.is_old_or_known(&message) {
            let actions: Vec<Action> = Vec::new();
            proof {
                assert(effects_of(actions@) =~= Seq::<Effect>::empty());
            }
            return Ok(actions);
        }
        let sender = match message.verify_raw(rlp) {
            Ok(sender) => sender,
            Err(e) => {
                return Err(e);
            },
        };
        if !self.is_validator(&sender) {
            return Err(EngineError::NotAuthorized(sender));
        }
        proof {
            lemma_vote_keeps_block_votes(self@.votes, self@.validators, message, sender);
        }
        if self.votes.vote(message, &sender).is_some() {
            return Err(EngineError::DoubleVote(sender));
        }
        let mut actions: Vec<Action> = Vec::new();
        self.broadcast_message(&mut actions, bytes_to_vec(rlp));
        proof {
            assert(effects_of(actions@) =~= seq![Effect::Broadcast(rlp@)]);
        }
        let mut more = self.handle_valid_message(&message);
        append_actions(&mut actions, &mut more);
        Ok(actions)
    }

    /// Attempts to seal `header` as this node's proposal. See `State::on_generate_seal`.
    pub fn generate_seal(&mut self, header: &Header) -> (seal: Seal)
        requires
            old(self).wf(),
        ensures
            final(self)@ == old(self)@.on_generate_seal(header).state,
            seal.fields() == old(self)@.on_generate_seal(header).seal,
            final(self).wf(),
    {
        if !self.is_primary() || self.proposed {
            return Seal::Absent;
        }
        let height = header.number;
        let view = self.view;
        let bh = header.bare_hash;
        let proposal = ViewVote::new_proposal(height, view, bh);
        let digest = proposal.digest();
        match self.signer.sign(&digest) {
            Some(signature) => {
                proof {
                    lemma_vote_keeps_block_votes(
                        self@.votes,
                        self@.validators,
                        AbabMessage { signature, view_vote: proposal },
                        header.author,
                    );
                }
                let _ = self.votes.vote(AbabMessage::new(signature, proposal), &header.author);
                self.proposed = true;
                let new_view = self.new_view_signatures(height, view, &bh);
                let mut fields: Vec<Vec<u8>> = Vec::new();
                fields.push(encode_uint(view));
                fields.push(encode_bytes(signature.as_slice()));
                fields.push(encode_signatures(&new_view));
                fields.push(empty_list());
                proof {
                    assert(views_of(fields@) =~= old(self)@.on_generate_seal(header).seal.unwrap());
                }
                Seal::Proposal(fields)
            },
            None => Seal::Absent,
        }
    }

    /// Takes a timeout of the view-change timer. See `State::on_timeout`.
    pub fn step(&mut self) -> (actions: Vec<Action>)
        requires
            old(self).wf(),
        ensures
            final(self)@ == old(self)@.on_timeout().state,
            effects_of(actions@) == old(self)@.on_timeout().effects,
            final(self).wf(),
    {
        let mut actions: Vec<Action> = Vec::new();
        proof {
            assert(effects_of(actions@) =~= Seq::<Effect>::empty());
        }
        self.set_timeout(&mut actions);
        proof {
            assert(effects_of(actions@) =~= self@.catch_up());
        }
        self.broadcast_view_change(&mut actions);
        actions
    }

    /// Classifies a header that is being imported, and steps on it: `true` for
    /// a proposal, `false` for a commit. See `State::on_header`.
    pub fn is_proposal(&mut self, header: &Header) -> (classified: (bool, Vec<Action>))
        requires
            old(self).wf(),
            State::classifiable(header),
        ensures
            final(self)@ == old(self)@.on_header(header).state,
            classified.0 == old(self)@.on_header(header).proposal,
            effects_of(classified.1@) == old(self)@.on_header(header).effects,
            final(self).wf(),
    {
        let mut actions: Vec<Action> = Vec::new();
        proof {
            assert(effects_of(actions@) =~= Seq::<Effect>::empty());
        }
        let signatures_len = header.seal[3].len();
        let proposal = match AbabMessage::new_proposal(header) {
            Ok(proposal) => proposal,
            Err(_) => unreached(),
        };
        if signatures_len != 1 {
            if proposal.height() > self.height && proposal.height() < u64::MAX {
                self.to_next_height(proposal.height(), &mut actions);
                proof {
                    assert(effects_of(actions@) =~= old(self)@.to_next_height(
                        proposal.view_vote.height,
                    ).effects);
                }
                if self.is_view_primary(self.height, self.view) {
                    self.update_sealing(&mut actions);
                }
            }
            return (false, actions);
        }
        let primary = match proposal.verify() {
            Ok(primary) => primary,
            Err(_) => unreached(),
        };
        if self.is_view(&proposal) {
            self.proposed = true;
        }
        proof {
            lemma_vote_keeps_block_votes(self@.votes, self@.validators, proposal, primary);
        }
        let _ = self.votes.vote(proposal, &primary);
        (true, actions)
    }

    /// Checks a header and, if it passes, classifies it and steps on it. A
    /// header that fails a check changes nothing. See `State::on_import`.
    pub fn import_header(&mut self, header: &Header) -> (imported: Result<
        (bool, Vec<Action>),
        EngineError,
    >)
        requires
            old(self).wf(),
        ensures
            ({
                let import = old(self)@.on_import(header);
                match imported {
                    Ok(classified) => {
                        &&& import.is_ok()
                        &&& final(self)@ == import.unwrap().state
                        &&& classified.0 == import.unwrap().proposal
                        &&& effects_of(classified.1@) == import.unwrap().effects
                    },
                    Err(e) => import == Err::<Import, EngineError>(e) && final(self)@ == old(self)@,
                }
            }),
            final(self).wf(),
    {
        match self.verify_block_basic(header) {
            Ok(_) => {},
            Err(e) => {
                return Err(e);
            },
        }
        match self.verify_block_unordered(header) {
            Ok(_) => {},
            Err(e) => {
                return Err(e);
            },
        }
        proof {
            lemma_checked_is_classifiable(self@.validators, header);
        }
        Ok(self.is_proposal(header))
    }

    /// The first check of a header. See `verification::verify_block_basic`.
    pub fn verify_block_basic(&self, header: &Header) -> (r: Result<(), EngineError>)
        ensures
            r == basic_check(header),
    {
        crate::verification::verify_block_basic(header)
    }

    /// The check of the signatures in a header's seal. See
    /// `verification::verify_block_unordered`.
    pub fn verify_block_unordered(&self, header: &Header) -> (r: Result<(), EngineError>)
        requires
            self.wf(),
        ensures
            r == unordered_check(self@.validators, header),
    {
        crate::verification::verify_block_unordered(&self.validators, header)
    }

    /// The check of a header against its parent. See
    /// `verification::verify_block_family`.
    pub fn verify_block_family(&self, header: &Header, parent: &Header) -> (r: Result<
        (),
        EngineError,
    >)
        requires
            self.wf(),
        ensures
            r == family_check(self@.gas_limit_bound_divisor, header, parent),
    {
        crate::verification::verify_block_family(&self.gas_limit_bound_divisor, header, parent)
    }

    /// Fills in the fields of `header` that follow from its parent. See
    /// `verification::populate_from_parent`.
    pub fn populate_from_parent(
        &self,
        header: &mut Header,
        parent: &Header,
        gas_floor_target: U256,
        gas_ceil_target: U256,
    )
        requires
            self.wf(),
        ensures
            final(header).difficulty == parent.difficulty,
            final(header).gas_limit@ == next_gas_limit(
                parent.gas_limit@,
                gas_floor_target@,
                self@.gas_limit_bound_divisor@,
            ),
            final(header).number == old(header).number,
            final(header).author == old(header).author,
            final(header).bare_hash == old(header).bare_hash,
            final(header).seal == old(header).seal,
    {
        crate::verification::populate_from_parent(
            &self.gas_limit_bound_divisor,
            header,
            parent,
            gas_floor_target,
            gas_ceil_target,
        )
    }

    /// What closing a block owes: the block reward, to the block's author.
    pub fn on_close_block(&self, header: &Header) -> (credit: (Address, U256))
        ensures
            credit == (header.author, self@.block_reward),
    {
        (header.author, self.block_reward)
    }
}

/// Moves the actions of `more` to the end of `actions`.
fn append_actions(actions: &mut Vec<Action>, more: &mut Vec<Action>)
    ensures
        effects_of(final(actions)@) == effects_of(old(actions)@) + effects_of(old(more)@),
{
    actions.append(more);
    proof {
        assert(effects_of(actions@) =~= effects_of(old(actions)@) + effects_of(old(more)@));
    }
}

} // verus!
