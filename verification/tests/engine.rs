use abab::crypto::{recover, sign};
use abab::engine::{Abab, AbabParams, Action};
use abab::error::{EngineError, ParamsError};
use abab::header::{Header, Seal};
use abab::message::{encode_signatures, vote_hash, AbabMessage, ViewVote};
use abab::uint::U256;

fn secret(n: u8) -> [u8; 32] {
    let mut s = [0u8; 32];
    s[31] = n;
    s
}

fn address_of(secret: &[u8; 32]) -> [u8; 20] {
    let digest = [7u8; 32];
    let signature = sign(secret, &digest).unwrap();
    recover(&signature, &digest).unwrap()
}

/// Validators D, A, B, C in this order, so that A leads (1, 0) and B leads (1, 1).
fn validators() -> Vec<[u8; 20]> {
    vec![
        address_of(&secret(4)),
        address_of(&secret(1)),
        address_of(&secret(2)),
        address_of(&secret(3)),
    ]
}

fn engine_of(key: u8) -> Abab {
    let mut engine = Abab::new(AbabParams {
        validators: validators(),
        gas_limit_bound_divisor: U256::from_u64(1024),
        block_reward: U256::from_u64(5),
        timeout: 1000,
    })
    .unwrap();
    engine.set_signer(address_of(&secret(key)), secret(key));
    engine
}

fn signed(key: u8, view_vote: ViewVote) -> AbabMessage {
    let signature = sign(&secret(key), &view_vote.digest()).unwrap();
    AbabMessage::new(signature, view_vote)
}

fn block(number: u64, key: u8, hash: [u8; 32]) -> Header {
    Header {
        number,
        author: address_of(&secret(key)),
        gas_limit: U256::from_u64(1_000_000),
        difficulty: U256::from_u64(1),
        bare_hash: hash,
        seal: Vec::new(),
    }
}

fn submitted_seal(actions: &[Action]) -> Option<Vec<Vec<u8>>> {
    for action in actions {
        if let Action::SubmitSeal(fields) = action {
            return Some(fields.clone());
        }
    }
    None
}

#[test]
fn new_engine_starts_at_height_one_view_zero() {
    let engine = engine_of(1);
    assert_eq!(engine.height(), 1);
    assert_eq!(engine.view_number(), 0);
    assert!(!engine.proposed());
    assert_eq!(engine.timeout(), 1000);
    assert_eq!(engine.name(), "Abab");
    assert_eq!(engine.version(), (1, 0, 0));
    assert_eq!(engine.seal_fields(), 4);
    assert_eq!(engine.maximum_uncle_count(), 0);
    assert_eq!(engine.maximum_uncle_age(), 0);
}

#[test]
fn new_refuses_an_empty_validator_set() {
    let made = Abab::new(AbabParams {
        validators: Vec::new(),
        gas_limit_bound_divisor: U256::from_u64(1024),
        block_reward: U256::zero(),
        timeout: 1000,
    });
    assert_eq!(made.err(), Some(ParamsError::NoValidators));
}

#[test]
fn new_refuses_a_zero_gas_limit_divisor() {
    let made = Abab::new(AbabParams {
        validators: validators(),
        gas_limit_bound_divisor: U256::zero(),
        block_reward: U256::zero(),
        timeout: 1000,
    });
    assert_eq!(made.err(), Some(ParamsError::ZeroGasLimitDivisor));
}

#[test]
fn primary_rotates_with_height_and_view() {
    let engine = engine_of(1);
    let v = validators();
    assert_eq!(engine.view_primary(1, 0), v[1]);
    assert_eq!(engine.view_primary(1, 1), v[2]);
    assert_eq!(engine.view_primary(2, 1), v[3]);
    assert_eq!(engine.view_primary(3, 1), v[0]);
    assert_eq!(engine.view_primary(u64::MAX, u64::MAX), v[2]);
    assert!(engine.is_primary());
    assert!(engine.is_view_primary(5, 0));
    assert!(!engine.is_view_primary(1, 1));
}

#[test]
fn is_sealer_tells_validators_from_others() {
    let engine = engine_of(1);
    assert_eq!(engine.is_sealer(&address_of(&secret(3))), Some(true));
    assert_eq!(engine.is_sealer(&address_of(&secret(9))), Some(false));
}

#[test]
fn happy_path_commit() {
    let hash = [0x11u8; 32];
    let mut a = engine_of(1);
    let header = block(1, 1, hash);

    let proposal_seal = match a.generate_seal(&header) {
        Seal::Proposal(fields) => fields,
        Seal::Absent => panic!("the primary seals its proposal"),
    };
    assert_eq!(proposal_seal.len(), 4);
    assert_eq!(proposal_seal[0], vec![0x80]);
    assert_eq!(proposal_seal[2], vec![0xc0]);
    assert_eq!(proposal_seal[3], vec![0xc0]);
    assert!(a.proposed());

    let vote = ViewVote::new_vote(1, 0, hash);
    let from_b = signed(2, vote).encode();
    let from_d = signed(4, vote).encode();
    let from_c = signed(3, vote).encode();
    assert_eq!(a.handle_message(&from_b), Ok(vec![Action::Broadcast(from_b.clone())]));
    assert_eq!(a.handle_message(&from_d), Ok(vec![Action::Broadcast(from_d.clone())]));
    let actions = a.handle_message(&from_c).unwrap();
    assert_eq!(actions.len(), 2);
    assert_eq!(actions[0], Action::Broadcast(from_c.clone()));
    let commit_seal = submitted_seal(&actions).expect("the third vote completes the quorum");
    assert_eq!(commit_seal.len(), 4);
    assert_eq!(commit_seal[0], proposal_seal[0]);
    assert_eq!(commit_seal[1], proposal_seal[1]);
    assert_eq!(commit_seal[2], vec![0xc0]);
    assert_eq!(rlp::Rlp::new(&commit_seal[3]).item_count(), Ok(3));

    let mut committed = block(1, 1, hash);
    committed.seal = commit_seal;
    assert_eq!(a.verify_block_basic(&committed), Ok(()));
    assert_eq!(a.verify_block_unordered(&committed), Ok(()));
    let (is_proposal, _) = a.import_header(&committed).unwrap();
    assert!(!is_proposal);

    let mut proposed = block(1, 1, hash);
    proposed.seal = proposal_seal;
    assert_eq!(a.verify_block_unordered(&proposed), Ok(()));
    let mut b = engine_of(2);
    assert_eq!(b.import_header(&proposed), Ok((true, Vec::new())));
    assert!(b.proposed());
}

#[test]
fn commit_seal_lists_votes_by_signer() {
    let hash = [0x11u8; 32];
    let mut a = engine_of(1);
    a.generate_seal(&block(1, 1, hash));
    let vote = ViewVote::new_vote(1, 0, hash);
    let mut signers = vec![(address_of(&secret(2)), 2u8), (address_of(&secret(3)), 3u8), (address_of(&secret(4)), 4u8)];
    a.handle_message(&signed(4, vote).encode()).unwrap();
    a.handle_message(&signed(2, vote).encode()).unwrap();
    let actions = a.handle_message(&signed(3, vote).encode()).unwrap();
    let seal = submitted_seal(&actions).unwrap();
    signers.sort();
    let expected: Vec<[u8; 65]> = signers.iter().map(|(_, key)| signed(*key, vote).signature).collect();
    assert_eq!(seal[3], encode_signatures(&expected));
}

#[test]
fn commit_at_the_current_height_leaves_the_height() {
    let hash = [0x11u8; 32];
    let mut a = engine_of(1);
    a.generate_seal(&block(1, 1, hash));
    let vote = ViewVote::new_vote(1, 0, hash);
    a.handle_message(&signed(2, vote).encode()).unwrap();
    a.handle_message(&signed(3, vote).encode()).unwrap();
    let actions = a.handle_message(&signed(4, vote).encode()).unwrap();
    let mut committed = block(1, 1, hash);
    committed.seal = submitted_seal(&actions).unwrap();
    assert_eq!(a.import_header(&committed), Ok((false, Vec::new())));
    assert_eq!(a.height(), 1);
    assert_eq!(a.view_number(), 0);
}

fn committed_block(number: u64, leader: u8, hash: [u8; 32]) -> Header {
    let mut header = block(number, leader, hash);
    let proposal = signed(leader, ViewVote::new_proposal(number, 0, hash));
    let digest = vote_hash(number, 0, hash);
    let votes: Vec<[u8; 65]> =
        [1u8, 2u8, 3u8].iter().map(|key| sign(&secret(*key), &digest).unwrap()).collect();
    header.seal = vec![
        rlp::encode(&0u64).to_vec(),
        rlp::encode(&proposal.signature.to_vec()).to_vec(),
        rlp::EMPTY_LIST_RLP.to_vec(),
        encode_signatures(&votes),
    ];
    header
}

#[test]
fn commit_above_the_current_height_moves_to_the_height_after_it() {
    let mut a = engine_of(1);
    let committed = committed_block(2, 2, [0x22u8; 32]);
    assert_eq!(a.import_header(&committed), Ok((false, vec![Action::ResetTimeout])));
    assert_eq!(a.height(), 3);
    assert_eq!(a.view_number(), 0);
    assert!(!a.proposed());
}

#[test]
fn commit_above_the_current_height_asks_the_next_primary_to_seal() {
    let mut c = engine_of(3);
    let committed = committed_block(2, 2, [0x22u8; 32]);
    assert_eq!(
        c.import_header(&committed),
        Ok((false, vec![Action::ResetTimeout, Action::UpdateSealing]))
    );
    assert_eq!(c.height(), 3);
}

#[test]
fn view_change() {
    let mut b = engine_of(2);
    let abandon = ViewVote::new_view_change(1, 0);
    let own = signed(2, abandon).encode();
    assert_eq!(b.step(), vec![Action::ResetTimeout, Action::Broadcast(own.clone())]);
    assert_eq!(b.view_number(), 0);

    let from_c = signed(3, abandon).encode();
    let actions = b.handle_message(&from_c).unwrap();
    assert_eq!(
        actions,
        vec![
            Action::Broadcast(from_c.clone()),
            Action::ResetTimeout,
            Action::Broadcast(own.clone()),
            Action::Broadcast(from_c.clone()),
            Action::UpdateSealing,
        ]
    );
    assert_eq!(b.height(), 1);
    assert_eq!(b.view_number(), 1);
    assert!(!b.proposed());
    assert_eq!(b.view_primary(1, 1), address_of(&secret(2)));
    assert!(b.is_primary());
}

#[test]
fn view_change_needs_more_than_a_third() {
    let mut b = engine_of(2);
    let from_c = signed(3, ViewVote::new_view_change(1, 0)).encode();
    assert_eq!(b.handle_message(&from_c), Ok(vec![Action::Broadcast(from_c.clone())]));
    assert_eq!(b.view_number(), 0);
}

#[test]
fn view_change_moves_only_the_next_primary() {
    let mut c = engine_of(3);
    let abandon = ViewVote::new_view_change(1, 0);
    c.handle_message(&signed(1, abandon).encode()).unwrap();
    let from_d = signed(4, abandon).encode();
    assert_eq!(c.handle_message(&from_d), Ok(vec![Action::Broadcast(from_d.clone())]));
    assert_eq!(c.view_number(), 0);
}

#[test]
fn view_never_decreases_within_a_height() {
    let mut b = engine_of(2);
    let abandon = ViewVote::new_view_change(1, 0);
    b.handle_message(&signed(3, abandon).encode()).unwrap();
    b.handle_message(&signed(4, abandon).encode()).unwrap();
    assert_eq!(b.view_number(), 1);
    b.handle_message(&signed(1, abandon).encode()).unwrap();
    assert_eq!(b.view_number(), 1);
    b.step();
    assert_eq!((b.height(), b.view_number()), (1, 1));
}

#[test]
fn step_without_a_key_only_restarts_the_timer() {
    let mut engine = Abab::new(AbabParams {
        validators: validators(),
        gas_limit_bound_divisor: U256::from_u64(1024),
        block_reward: U256::zero(),
        timeout: 1000,
    })
    .unwrap();
    assert_eq!(engine.step(), vec![Action::ResetTimeout]);
}

#[test]
fn step_repeats_the_messages_on_record() {
    let mut a = engine_of(1);
    let from_b = signed(2, ViewVote::new_vote(1, 0, [0x11u8; 32])).encode();
    let ahead = signed(3, ViewVote::new_vote(2, 0, [0x11u8; 32])).encode();
    a.handle_message(&from_b).unwrap();
    a.handle_message(&ahead).unwrap();
    let own = signed(1, ViewVote::new_view_change(1, 0)).encode();
    assert_eq!(
        a.step(),
        vec![Action::ResetTimeout, Action::Broadcast(from_b), Action::Broadcast(own)]
    );
}

#[test]
fn double_vote_rejected() {
    let mut a = engine_of(1);
    let first = signed(3, ViewVote::new_vote(1, 0, [0x11u8; 32])).encode();
    let second = signed(3, ViewVote::new_vote(1, 0, [0x22u8; 32])).encode();
    assert_eq!(a.handle_message(&first), Ok(vec![Action::Broadcast(first.clone())]));
    assert_eq!(a.handle_message(&second), Err(EngineError::DoubleVote(address_of(&secret(3)))));
    assert_eq!(a.handle_message(&second), Ok(Vec::new()));
}

#[test]
fn a_vote_and_a_view_change_of_one_signer_are_no_double_vote() {
    let mut a = engine_of(1);
    let vote = signed(3, ViewVote::new_vote(1, 0, [0x11u8; 32])).encode();
    let abandon = signed(3, ViewVote::new_view_change(1, 0)).encode();
    assert_eq!(a.handle_message(&vote), Ok(vec![Action::Broadcast(vote.clone())]));
    assert_eq!(a.handle_message(&abandon), Ok(vec![Action::Broadcast(abandon.clone())]));
}

#[test]
fn non_validator_rejected() {
    let mut a = engine_of(1);
    let outsider = signed(9, ViewVote::new_vote(1, 0, [0x11u8; 32])).encode();
    assert_eq!(
        a.handle_message(&outsider),
        Err(EngineError::NotAuthorized(address_of(&secret(9))))
    );
    assert_eq!(
        a.handle_message(&outsider),
        Err(EngineError::NotAuthorized(address_of(&secret(9))))
    );
}

#[test]
fn handle_message_twice_is_silent_the_second_time() {
    let mut a = engine_of(1);
    let bytes = signed(2, ViewVote::new_vote(1, 0, [0x11u8; 32])).encode();
    assert_eq!(a.handle_message(&bytes), Ok(vec![Action::Broadcast(bytes.clone())]));
    assert_eq!(a.handle_message(&bytes), Ok(Vec::new()));
}

#[test]
fn handle_message_refuses_unreadable_bytes() {
    let mut a = engine_of(1);
    assert_eq!(a.handle_message(&[]), Err(EngineError::Decoding));
    assert_eq!(a.handle_message(&[0xc0]), Err(EngineError::Decoding));
    assert_eq!(a.handle_message(&[0x01, 0x02, 0x03]), Err(EngineError::Decoding));
}

#[test]
fn handle_message_refuses_a_signature_that_is_none() {
    let mut a = engine_of(1);
    let mut message = signed(2, ViewVote::new_vote(1, 0, [0x11u8; 32]));
    message.signature[64] = 9;
    assert_eq!(a.handle_message(&message.encode()), Err(EngineError::InvalidSignature));
}

#[test]
fn messages_for_other_heights_are_kept_but_not_acted_on() {
    let mut b = engine_of(2);
    let abandon = ViewVote::new_view_change(2, 0);
    let from_c = signed(3, abandon).encode();
    let from_d = signed(4, abandon).encode();
    assert_eq!(b.handle_message(&from_c), Ok(vec![Action::Broadcast(from_c.clone())]));
    assert_eq!(b.handle_message(&from_d), Ok(vec![Action::Broadcast(from_d.clone())]));
    assert_eq!((b.height(), b.view_number()), (1, 0));
    assert_eq!(b.votes().count_aligned_votes(&signed(3, abandon)), 2);
}

#[test]
fn messages_older_than_a_commit_are_dropped() {
    let hash = [0x11u8; 32];
    let mut a = engine_of(1);
    let early = signed(2, ViewVote::new_view_change(0, 5)).encode();
    a.handle_message(&early).unwrap();
    a.generate_seal(&block(1, 1, hash));
    let vote = ViewVote::new_vote(1, 0, hash);
    a.handle_message(&signed(2, vote).encode()).unwrap();
    a.handle_message(&signed(3, vote).encode()).unwrap();
    let actions = a.handle_message(&signed(4, vote).encode()).unwrap();
    assert!(submitted_seal(&actions).is_some());
    assert_eq!(a.votes().get(&signed(2, ViewVote::new_view_change(0, 5))), None);
    let late = signed(3, ViewVote::new_view_change(0, 7)).encode();
    assert_eq!(a.handle_message(&late), Ok(Vec::new()));
    let outsider_late = signed(9, ViewVote::new_view_change(0, 7)).encode();
    assert_eq!(a.handle_message(&outsider_late), Ok(Vec::new()));
}

#[test]
fn generate_seal_is_idempotent_while_proposed() {
    let mut a = engine_of(1);
    let header = block(1, 1, [0x11u8; 32]);
    assert!(matches!(a.generate_seal(&header), Seal::Proposal(_)));
    assert_eq!(a.generate_seal(&header), Seal::Absent);
    assert_eq!(a.generate_seal(&block(1, 1, [0x33u8; 32])), Seal::Absent);
    assert!(a.proposed());
}

#[test]
fn generate_seal_is_for_the_primary_only() {
    let mut b = engine_of(2);
    assert_eq!(b.generate_seal(&block(1, 2, [0x11u8; 32])), Seal::Absent);
    assert!(!b.proposed());
}

#[test]
fn generate_seal_needs_a_key() {
    let mut engine = Abab::new(AbabParams {
        validators: vec![[0u8; 20]],
        gas_limit_bound_divisor: U256::from_u64(1024),
        block_reward: U256::zero(),
        timeout: 1000,
    })
    .unwrap();
    assert!(engine.is_primary());
    assert_eq!(engine.generate_seal(&block(1, 1, [0x11u8; 32])), Seal::Absent);
    assert!(!engine.proposed());
}

#[test]
fn generate_seal_after_a_view_change_seals_again() {
    let mut b = engine_of(2);
    let abandon = ViewVote::new_view_change(1, 0);
    b.handle_message(&signed(3, abandon).encode()).unwrap();
    b.handle_message(&signed(4, abandon).encode()).unwrap();
    assert_eq!(b.view_number(), 1);
    let fields = match b.generate_seal(&block(1, 2, [0x11u8; 32])) {
        Seal::Proposal(fields) => fields,
        Seal::Absent => panic!("the new primary seals"),
    };
    assert_eq!(fields[0], vec![0x01]);
    assert_eq!(b.generate_seal(&block(1, 2, [0x11u8; 32])), Seal::Absent);
}

#[test]
fn proposal_after_a_view_change_passes_the_checks() {
    let hash = [0x11u8; 32];
    let mut b = engine_of(2);
    let abandon = ViewVote::new_view_change(1, 0);
    b.step();
    b.handle_message(&signed(3, abandon).encode()).unwrap();
    assert_eq!(b.view_number(), 1);
    let mut header = block(1, 2, hash);
    header.seal = match b.generate_seal(&header) {
        Seal::Proposal(fields) => fields,
        Seal::Absent => panic!("the new primary seals"),
    };
    assert_eq!(rlp::Rlp::new(&header.seal[2]).item_count(), Ok(2));
    assert_eq!(b.verify_block_basic(&header), Ok(()));
    assert_eq!(b.verify_block_unordered(&header), Ok(()));

    let vote = ViewVote::new_vote(1, 1, hash);
    b.handle_message(&signed(1, vote).encode()).unwrap();
    b.handle_message(&signed(3, vote).encode()).unwrap();
    let actions = b.handle_message(&signed(4, vote).encode()).unwrap();
    header.seal = submitted_seal(&actions).expect("the third vote completes the quorum");
    assert_eq!(b.verify_block_unordered(&header), Ok(()));
    assert_eq!(engine_of(1).import_header(&header), Ok((false, Vec::new())));
}

#[test]
fn proposal_in_the_first_view_passes_the_checks_after_a_timeout() {
    let mut a = engine_of(1);
    a.step();
    a.handle_message(&signed(4, ViewVote::new_view_change(1, 0)).encode()).unwrap();
    let mut header = block(1, 1, [0x11u8; 32]);
    header.seal = match a.generate_seal(&header) {
        Seal::Proposal(fields) => fields,
        Seal::Absent => panic!("the primary seals"),
    };
    assert_eq!(header.seal[2], vec![0xc0]);
    assert_eq!(a.verify_block_unordered(&header), Ok(()));
}

#[test]
fn no_second_quorum_at_one_height_and_view() {
    let mut a = engine_of(1);
    a.generate_seal(&block(1, 1, [0x11u8; 32]));
    let first = ViewVote::new_vote(1, 0, [0x11u8; 32]);
    let second = ViewVote::new_vote(1, 0, [0x22u8; 32]);
    a.handle_message(&signed(2, first).encode()).unwrap();
    a.handle_message(&signed(3, first).encode()).unwrap();
    assert!(a.handle_message(&signed(2, second).encode()).is_err());
    assert!(a.handle_message(&signed(3, second).encode()).is_err());
    a.handle_message(&signed(4, second).encode()).unwrap();
    assert_eq!(a.votes().count_aligned_votes(&signed(9, first)), 2);
    assert_eq!(a.votes().count_aligned_votes(&signed(9, second)), 1);
}

#[test]
fn a_quorum_without_a_proposal_on_record_commits_nothing() {
    let hash = [0x11u8; 32];
    let mut a = engine_of(1);
    a.generate_seal(&block(1, 1, hash));
    let other = ViewVote::new_vote(1, 0, [0x44u8; 32]);
    a.handle_message(&signed(2, other).encode()).unwrap();
    a.handle_message(&signed(3, other).encode()).unwrap();
    let last = signed(4, other).encode();
    assert_eq!(a.handle_message(&last), Ok(vec![Action::Broadcast(last.clone())]));
}

#[test]
fn is_proposal_tells_proposals_from_commits() {
    let hash = [0x11u8; 32];
    let mut a = engine_of(1);
    let mut proposed = block(1, 1, hash);
    proposed.seal = match a.generate_seal(&proposed) {
        Seal::Proposal(fields) => fields,
        Seal::Absent => panic!("the primary seals its proposal"),
    };
    let mut c = engine_of(3);
    assert_eq!(c.verify_block_basic(&proposed), Ok(()));
    assert_eq!(c.verify_block_unordered(&proposed), Ok(()));
    assert_eq!(c.is_proposal(&proposed), (true, Vec::new()));
    assert!(c.proposed());
    let proposal = AbabMessage::new_proposal(&proposed).unwrap();
    assert_eq!(c.votes().get(&proposal), Some(address_of(&secret(1))));

    let committed = committed_block(1, 1, hash);
    assert_eq!(c.verify_block_unordered(&committed), Ok(()));
    assert_eq!(c.is_proposal(&committed), (false, Vec::new()));
    assert_eq!(c.height(), 1);
}

#[test]
fn a_proposal_for_another_view_does_not_mark_the_current_one() {
    let mut c = engine_of(3);
    let mut header = block(2, 2, [0x11u8; 32]);
    let proposal = signed(2, ViewVote::new_proposal(2, 0, [0x11u8; 32]));
    header.seal = vec![
        rlp::encode(&0u64).to_vec(),
        rlp::encode(&proposal.signature.to_vec()).to_vec(),
        rlp::EMPTY_LIST_RLP.to_vec(),
        rlp::EMPTY_LIST_RLP.to_vec(),
    ];
    assert_eq!(c.import_header(&header), Ok((true, Vec::new())));
    assert!(!c.proposed());
    assert_eq!(c.votes().get(&proposal), Some(address_of(&secret(2))));
}

#[test]
fn handle_valid_message_ignores_other_heights_and_proposals() {
    let mut b = engine_of(2);
    assert_eq!(b.handle_valid_message(&signed(3, ViewVote::new_view_change(2, 0))), Vec::new());
    assert_eq!(
        b.handle_valid_message(&signed(1, ViewVote::new_proposal(1, 0, [0x11u8; 32]))),
        Vec::new()
    );
    assert_eq!(
        b.handle_valid_message(&signed(3, ViewVote::new_vote(1, 0, [0x11u8; 32]))),
        Vec::new()
    );
    assert_eq!((b.height(), b.view_number(), b.proposed()), (1, 0, false));
    assert!(b.is_height(&signed(3, ViewVote::new_view_change(1, 7))));
    assert!(!b.is_height(&signed(3, ViewVote::new_view_change(2, 0))));
    assert!(b.is_view(&signed(3, ViewVote::new_view_change(1, 0))));
    assert!(!b.is_view(&signed(3, ViewVote::new_view_change(1, 1))));
    assert!(!b.has_enough_votes(&signed(3, ViewVote::new_view_change(1, 0))));
    assert!(!b.is_new_view(&signed(3, ViewVote::new_view_change(1, 0))));
    assert!(!b.is_new_view(&signed(3, ViewVote::new_view_change(1, u64::MAX))));
}

#[test]
fn a_view_change_may_skip_views() {
    let mut a = engine_of(1);
    let abandon = ViewVote::new_view_change(1, 3);
    a.handle_message(&signed(2, abandon).encode()).unwrap();
    a.handle_message(&signed(3, abandon).encode()).unwrap();
    assert_eq!((a.height(), a.view_number()), (1, 4));
    assert!(a.is_primary());
}

#[test]
fn on_close_block_credits_the_author() {
    let engine = engine_of(1);
    let header = block(1, 3, [0x11u8; 32]);
    assert_eq!(engine.on_close_block(&header), (address_of(&secret(3)), U256::from_u64(5)));
}

#[test]
fn import_header_refuses_what_fails_a_check() {
    let mut a = engine_of(1);
    let mut header = block(1, 1, [0x11u8; 32]);
    header.seal = vec![vec![0x80], vec![0x80], vec![0xc0]];
    assert_eq!(
        a.import_header(&header),
        Err(EngineError::InvalidSealArity { expected: 4, found: 3 })
    );
    assert_eq!((a.height(), a.view_number(), a.proposed()), (1, 0, false));
}
