use abab::crypto::{recover, sign};
use abab::error::EngineError;
use abab::header::Header;
use abab::message::{encode_signatures, view_change_hash, vote_hash, ViewVote};
use abab::uint::U256;
use abab::validator_set::ValidatorSet;
use abab::verification::{
    is_above_third, is_above_two_thirds, populate_from_parent, verify_block_basic,
    verify_block_family, verify_block_unordered,
};

fn key(n: u8) -> [u8; 32] {
    let mut s = [0u8; 32];
    s[31] = n;
    s
}

fn account(n: u8) -> [u8; 20] {
    let digest = [7u8; 32];
    recover(&sign(&key(n), &digest).unwrap(), &digest).unwrap()
}

/// D, A, B, C: A leads (1, 0), B leads (1, 1).
fn validators() -> ValidatorSet {
    ValidatorSet::new(vec![account(4), account(1), account(2), account(3)]).unwrap()
}

const HASH: [u8; 32] = [0x11u8; 32];

fn plain(number: u64, gas_limit: u64) -> Header {
    Header {
        number,
        author: account(1),
        gas_limit: U256::from_u64(gas_limit),
        difficulty: U256::from_u64(3),
        bare_hash: HASH,
        seal: Vec::new(),
    }
}

fn sealed(leader: u8, view: u64, changes: &[u8], votes: Option<&[u8]>) -> Header {
    let mut header = plain(1, 1_000_000);
    let proposal = sign(&key(leader), &ViewVote::new_proposal(1, view, HASH).digest()).unwrap();
    let change_digest = view_change_hash(1, view).unwrap_or([0x55u8; 32]);
    let change_signatures: Vec<[u8; 65]> =
        changes.iter().map(|k| sign(&key(*k), &change_digest).unwrap()).collect();
    let vote_digest = vote_hash(1, view, HASH);
    header.seal = vec![
        rlp::encode(&view).to_vec(),
        rlp::encode(&proposal.to_vec()).to_vec(),
        encode_signatures(&change_signatures),
        match votes {
            Some(keys) => encode_signatures(
                &keys.iter().map(|k| sign(&key(*k), &vote_digest).unwrap()).collect(),
            ),
            None => rlp::EMPTY_LIST_RLP.to_vec(),
        },
    ];
    header
}

#[test]
fn quorum_thresholds() {
    let four = validators();
    assert_eq!(is_above_two_thirds(&four, 3), Ok(()));
    assert_eq!(
        is_above_two_thirds(&four, 2),
        Err(EngineError::BadSealFieldSize { min: Some(2), max: None, found: 2 })
    );
    assert_eq!(is_above_third(&four, 2), Ok(()));
    assert_eq!(
        is_above_third(&four, 1),
        Err(EngineError::BadSealFieldSize { min: Some(1), max: None, found: 1 })
    );
    let three = ValidatorSet::new(vec![[1u8; 20], [2u8; 20], [3u8; 20]]).unwrap();
    assert_eq!(is_above_two_thirds(&three, 3), Ok(()));
    assert_eq!(
        is_above_two_thirds(&three, 2),
        Err(EngineError::BadSealFieldSize { min: Some(2), max: None, found: 2 })
    );
    let one = ValidatorSet::new(vec![[1u8; 20]]).unwrap();
    assert_eq!(is_above_two_thirds(&one, 1), Ok(()));
    assert_eq!(is_above_third(&one, 1), Ok(()));
    assert_eq!(
        is_above_third(&one, 0),
        Err(EngineError::BadSealFieldSize { min: Some(0), max: None, found: 0 })
    );
}

#[test]
fn basic_check_wants_four_fields() {
    let mut header = plain(1, 10);
    assert_eq!(
        verify_block_basic(&header),
        Err(EngineError::InvalidSealArity { expected: 4, found: 0 })
    );
    header.seal = vec![vec![0x80], vec![0x80], vec![0xc0], vec![0xc0], vec![0xc0]];
    assert_eq!(
        verify_block_basic(&header),
        Err(EngineError::InvalidSealArity { expected: 4, found: 5 })
    );
    header.seal = vec![vec![0x80], vec![0x80], vec![0xc0], vec![0xc0]];
    assert_eq!(verify_block_basic(&header), Ok(()));
}

#[test]
fn basic_check_wants_a_byte_in_the_votes_field() {
    let mut header = plain(1, 10);
    header.seal = vec![vec![0x80], vec![0x80], vec![0xc0], vec![]];
    assert_eq!(
        verify_block_basic(&header),
        Err(EngineError::BadSealFieldSize { min: Some(1), max: None, found: 0 })
    );
    header.seal = vec![vec![0x80], vec![0x80], vec![], vec![0xc0]];
    assert_eq!(verify_block_basic(&header), Ok(()));
}

#[test]
fn proposal_by_the_primary_passes() {
    assert_eq!(verify_block_unordered(&validators(), &sealed(1, 0, &[], None)), Ok(()));
}

#[test]
fn wrong_primary_proposal() {
    assert_eq!(
        verify_block_unordered(&validators(), &sealed(2, 0, &[], None)),
        Err(EngineError::NotProposer { expected: account(1), found: account(2) })
    );
}

#[test]
fn unordered_check_wants_four_fields() {
    let mut header = sealed(1, 0, &[], None);
    header.seal.pop();
    assert_eq!(
        verify_block_unordered(&validators(), &header),
        Err(EngineError::InvalidSealArity { expected: 4, found: 3 })
    );
}

#[test]
fn unordered_check_wants_a_readable_proposal() {
    let mut header = sealed(1, 0, &[], None);
    header.seal[1] = vec![0x83, 1, 2, 3];
    assert_eq!(verify_block_unordered(&validators(), &header), Err(EngineError::Decoding));
    let mut header = sealed(1, 0, &[], None);
    header.seal[0] = vec![0xc0];
    assert_eq!(verify_block_unordered(&validators(), &header), Err(EngineError::Decoding));
    let mut header = sealed(1, 0, &[], None);
    header.seal[1] = rlp::encode(&vec![0u8; 65]).to_vec();
    assert_eq!(verify_block_unordered(&validators(), &header), Err(EngineError::InvalidSignature));
}

#[test]
fn first_view_wants_an_empty_view_change_field() {
    assert_eq!(
        verify_block_unordered(&validators(), &sealed(1, 0, &[2], None)),
        Err(EngineError::BadSealFieldSize { min: Some(1), max: Some(1), found: 69 })
    );
}

#[test]
fn later_view_wants_view_changes_of_more_than_a_third() {
    assert_eq!(verify_block_unordered(&validators(), &sealed(2, 1, &[3, 4], None)), Ok(()));
    assert_eq!(
        verify_block_unordered(&validators(), &sealed(2, 1, &[3], None)),
        Err(EngineError::BadSealFieldSize { min: Some(1), max: None, found: 1 })
    );
    assert_eq!(
        verify_block_unordered(&validators(), &sealed(2, 1, &[], None)),
        Err(EngineError::BadSealFieldSize { min: Some(1), max: None, found: 0 })
    );
}

#[test]
fn view_changes_of_the_view_itself_do_not_count() {
    let mut header = sealed(2, 1, &[], None);
    let own_view = ViewVote::new_view_change(1, 1).digest();
    let signatures: Vec<[u8; 65]> =
        [3u8, 4u8].iter().map(|k| sign(&key(*k), &own_view).unwrap()).collect();
    header.seal[2] = encode_signatures(&signatures);
    assert!(verify_block_unordered(&validators(), &header).is_err());
}

#[test]
fn seal_lists_refuse_a_signer_twice() {
    assert_eq!(
        verify_block_unordered(&validators(), &sealed(2, 1, &[3, 4, 3], None)),
        Err(EngineError::InvalidSeal)
    );
    assert_eq!(
        verify_block_unordered(&validators(), &sealed(1, 0, &[], Some(&[2, 3, 2]))),
        Err(EngineError::InvalidSeal)
    );
}

#[test]
fn seal_lists_refuse_a_signer_outside_the_set() {
    assert_eq!(
        verify_block_unordered(&validators(), &sealed(2, 1, &[3, 9], None)),
        Err(EngineError::NotAuthorized(account(9)))
    );
    assert_eq!(
        verify_block_unordered(&validators(), &sealed(1, 0, &[], Some(&[9, 2, 3, 4]))),
        Err(EngineError::NotAuthorized(account(9)))
    );
}

#[test]
fn seal_lists_refuse_what_is_no_signature() {
    let mut header = sealed(1, 0, &[], None);
    header.seal[3] = vec![0xc2, 0x01, 0x02];
    assert_eq!(verify_block_unordered(&validators(), &header), Err(EngineError::Decoding));
    let mut header = sealed(1, 0, &[], None);
    header.seal[3] = encode_signatures(&vec![[0u8; 65]]);
    assert_eq!(verify_block_unordered(&validators(), &header), Err(EngineError::InvalidSignature));
}

#[test]
fn commit_wants_votes_of_more_than_two_thirds() {
    assert_eq!(
        verify_block_unordered(&validators(), &sealed(1, 0, &[], Some(&[2, 3, 4]))),
        Ok(())
    );
    assert_eq!(
        verify_block_unordered(&validators(), &sealed(1, 0, &[], Some(&[1, 2, 3, 4]))),
        Ok(())
    );
    assert_eq!(
        verify_block_unordered(&validators(), &sealed(1, 0, &[], Some(&[2, 3]))),
        Err(EngineError::BadSealFieldSize { min: Some(2), max: None, found: 2 })
    );
}

#[test]
fn votes_for_another_block_do_not_count() {
    let mut header = sealed(1, 0, &[], None);
    let other = vote_hash(1, 0, [0x22u8; 32]);
    let signatures: Vec<[u8; 65]> =
        [2u8, 3u8, 4u8].iter().map(|k| sign(&key(*k), &other).unwrap()).collect();
    header.seal[3] = encode_signatures(&signatures);
    assert!(verify_block_unordered(&validators(), &header).is_err());
}

#[test]
fn gas_limit_bounds() {
    let divisor = U256::from_u64(1024);
    let parent = plain(1, 1_000_000);
    assert_eq!(verify_block_family(&divisor, &plain(2, 999_500), &parent), Ok(()));
    assert_eq!(verify_block_family(&divisor, &plain(2, 1_000_500), &parent), Ok(()));
    assert_eq!(
        verify_block_family(&divisor, &plain(2, 1_001_500), &parent),
        Err(EngineError::InvalidGasLimit {
            min: Some(U256::from_u64(999_024)),
            max: Some(U256::from_u64(1_000_976)),
            found: U256::from_u64(1_001_500),
        })
    );
}

#[test]
fn gas_limit_bounds_are_exclusive() {
    let divisor = U256::from_u64(1024);
    let parent = plain(1, 1_000_000);
    assert_eq!(verify_block_family(&divisor, &plain(2, 999_025), &parent), Ok(()));
    assert_eq!(verify_block_family(&divisor, &plain(2, 1_000_975), &parent), Ok(()));
    assert!(verify_block_family(&divisor, &plain(2, 999_024), &parent).is_err());
    assert!(verify_block_family(&divisor, &plain(2, 1_000_976), &parent).is_err());
    assert_eq!(
        verify_block_family(&divisor, &plain(2, 1_001_000), &parent),
        Err(EngineError::InvalidGasLimit {
            min: Some(U256::from_u64(999_024)),
            max: Some(U256::from_u64(1_000_976)),
            found: U256::from_u64(1_001_000),
        })
    );
}

#[test]
fn gas_limit_without_an_upper_bound() {
    let top = U256 { limbs: [u64::MAX; 4] };
    let mut parent = plain(1, 0);
    parent.gas_limit = top;
    let mut header = plain(2, 0);
    header.gas_limit = top;
    assert_eq!(verify_block_family(&U256::from_u64(2), &header, &parent), Ok(()));
    header.gas_limit = U256::from_u64(5);
    assert_eq!(
        verify_block_family(&U256::from_u64(1), &header, &parent),
        Ok(())
    );
    header.gas_limit = U256::zero();
    assert_eq!(
        verify_block_family(&U256::from_u64(1), &header, &parent),
        Err(EngineError::InvalidGasLimit { min: Some(U256::zero()), max: None, found: U256::zero() })
    );
}

#[test]
fn block_number_zero_is_ridiculous() {
    let divisor = U256::from_u64(1024);
    assert_eq!(
        verify_block_family(&divisor, &plain(0, 1_000_000), &plain(0, 1_000_000)),
        Err(EngineError::RidiculousNumber { min: Some(1), max: None, found: 0 })
    );
}

#[test]
fn populate_from_parent_moves_the_gas_limit_towards_the_floor() {
    let divisor = U256::from_u64(1024);
    let mut parent = plain(1, 1_000_000);
    parent.difficulty = U256::from_u64(77);
    let ceil = U256::from_u64(9_000_000);

    let mut header = plain(2, 0);
    populate_from_parent(&divisor, &mut header, &parent, U256::from_u64(2_000_000), ceil);
    assert_eq!(header.gas_limit, U256::from_u64(1_000_975));
    assert_eq!(header.difficulty, U256::from_u64(77));
    assert_eq!(header.number, 2);
    assert_eq!(verify_block_family(&divisor, &header, &parent), Ok(()));

    populate_from_parent(&divisor, &mut header, &parent, U256::from_u64(500_000), ceil);
    assert_eq!(header.gas_limit, U256::from_u64(999_025));
    assert_eq!(verify_block_family(&divisor, &header, &parent), Ok(()));

    populate_from_parent(&divisor, &mut header, &parent, U256::from_u64(1_000_100), ceil);
    assert_eq!(header.gas_limit, U256::from_u64(1_000_100));

    populate_from_parent(&divisor, &mut header, &parent, U256::from_u64(999_900), ceil);
    assert_eq!(header.gas_limit, U256::from_u64(999_900));

    populate_from_parent(&divisor, &mut header, &parent, U256::from_u64(1_000_000), ceil);
    assert_eq!(header.gas_limit, U256::from_u64(1_000_000));
}

#[test]
fn populate_from_parent_leaves_a_small_gas_limit() {
    let divisor = U256::from_u64(1024);
    let ceil = U256::from_u64(9_000_000);
    let mut header = plain(2, 0);
    populate_from_parent(&divisor, &mut header, &plain(1, 1000), U256::from_u64(5000), ceil);
    assert_eq!(header.gas_limit, U256::from_u64(1000));
    populate_from_parent(&divisor, &mut header, &plain(1, 0), U256::from_u64(5000), ceil);
    assert_eq!(header.gas_limit, U256::zero());
    populate_from_parent(&divisor, &mut header, &plain(1, 1024), U256::from_u64(5000), ceil);
    assert_eq!(header.gas_limit, U256::from_u64(1024));
    populate_from_parent(&divisor, &mut header, &plain(1, 2048), U256::from_u64(5000), ceil);
    assert_eq!(header.gas_limit, U256::from_u64(2049));
}

#[test]
fn populate_from_parent_stops_at_the_floor_near_the_top() {
    let top = U256 { limbs: [u64::MAX; 4] };
    let mut parent = plain(1, 0);
    parent.gas_limit = U256 { limbs: [u64::MAX - 1, u64::MAX, u64::MAX, u64::MAX] };
    let mut header = plain(2, 0);
    populate_from_parent(&U256::from_u64(1), &mut header, &parent, top, top);
    assert_eq!(header.gas_limit, top);
}
