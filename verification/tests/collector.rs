use abab::message::{AbabMessage, ViewVote};
use abab::vote_collector::VoteCollector;

fn signature(n: u8) -> [u8; 65] {
    [n; 65]
}

fn account(n: u8) -> [u8; 20] {
    [n; 20]
}

const BLOCK: [u8; 32] = [0x11u8; 32];
const OTHER: [u8; 32] = [0x22u8; 32];

fn vote(n: u8, height: u64, view: u64, hash: [u8; 32]) -> AbabMessage {
    AbabMessage::new_vote(signature(n), height, view, hash)
}

#[test]
fn vote_records_and_counts() {
    let mut c = VoteCollector::new();
    assert_eq!(c.count_aligned_votes(&vote(1, 1, 0, BLOCK)), 0);
    assert_eq!(c.vote(vote(1, 1, 0, BLOCK), &account(1)), None);
    assert_eq!(c.vote(vote(2, 1, 0, BLOCK), &account(2)), None);
    assert_eq!(c.vote(vote(3, 1, 0, OTHER), &account(3)), None);
    assert_eq!(c.vote(vote(4, 1, 1, BLOCK), &account(4)), None);
    assert_eq!(c.count_aligned_votes(&vote(9, 1, 0, BLOCK)), 2);
    assert_eq!(c.count_aligned_votes(&vote(9, 1, 0, OTHER)), 1);
    assert_eq!(c.count_aligned_votes(&vote(9, 1, 1, BLOCK)), 1);
    assert_eq!(c.count_aligned_votes(&vote(9, 2, 0, BLOCK)), 0);
    assert_eq!(
        c.count_aligned_votes(&AbabMessage::new(signature(9), ViewVote::new_proposal(1, 0, BLOCK))),
        0
    );
}

#[test]
fn vote_twice_with_the_same_message_changes_nothing() {
    let mut c = VoteCollector::new();
    assert_eq!(c.vote(vote(1, 1, 0, BLOCK), &account(1)), None);
    assert_eq!(c.vote(vote(1, 1, 0, BLOCK), &account(1)), None);
    assert_eq!(c.vote(vote(1, 1, 0, BLOCK), &account(5)), None);
    assert_eq!(c.count_aligned_votes(&vote(1, 1, 0, BLOCK)), 1);
    assert_eq!(c.get_up_to(&ViewVote::new_view_change(1, 0)).len(), 1);
}

#[test]
fn vote_signals_a_double_vote_and_does_not_count_it() {
    let mut c = VoteCollector::new();
    assert_eq!(c.vote(vote(1, 1, 0, BLOCK), &account(1)), None);
    assert_eq!(c.vote(vote(2, 1, 0, OTHER), &account(1)), Some(account(1)));
    assert_eq!(c.vote(vote(3, 1, 0, BLOCK), &account(1)), Some(account(1)));
    assert_eq!(c.count_aligned_votes(&vote(9, 1, 0, BLOCK)), 1);
    assert_eq!(c.count_aligned_votes(&vote(9, 1, 0, OTHER)), 0);
    assert!(c.is_old_or_known(&vote(2, 1, 0, OTHER)));
    assert_eq!(c.get(&vote(2, 1, 0, OTHER)), None);
    assert_eq!(c.get(&vote(1, 1, 0, BLOCK)), Some(account(1)));
    assert_eq!(c.round_signatures(&ViewVote::new_vote(1, 0, BLOCK), &BLOCK), vec![signature(1)]);
}

#[test]
fn votes_of_different_kinds_or_views_are_no_double_votes() {
    let mut c = VoteCollector::new();
    assert_eq!(c.vote(vote(1, 1, 0, BLOCK), &account(1)), None);
    assert_eq!(c.vote(AbabMessage::new_view_change(signature(2), 1, 0), &account(1)), None);
    assert_eq!(
        c.vote(AbabMessage::new(signature(3), ViewVote::new_proposal(1, 0, BLOCK)), &account(1)),
        None
    );
    assert_eq!(c.vote(vote(4, 1, 1, OTHER), &account(1)), None);
    assert_eq!(c.vote(vote(5, 2, 0, OTHER), &account(1)), None);
    assert_eq!(
        c.vote(AbabMessage::new_view_change(signature(6), 1, 0), &account(1)),
        Some(account(1))
    );
}

#[test]
fn round_signatures_are_ordered_by_signer() {
    let mut c = VoteCollector::new();
    c.vote(vote(1, 1, 0, BLOCK), &account(7));
    c.vote(vote(2, 1, 0, BLOCK), &account(3));
    c.vote(vote(3, 1, 0, OTHER), &account(1));
    c.vote(vote(4, 1, 0, BLOCK), &account(9));
    c.vote(vote(5, 1, 0, BLOCK), &account(5));
    assert_eq!(
        c.round_signatures(&ViewVote::new_vote(1, 0, BLOCK), &BLOCK),
        vec![signature(2), signature(5), signature(1), signature(4)]
    );
    assert_eq!(c.round_signatures(&ViewVote::new_vote(1, 0, OTHER), &OTHER), vec![signature(3)]);
    assert_eq!(
        c.round_signatures(&ViewVote::new_vote(1, 1, BLOCK), &BLOCK),
        Vec::<[u8; 65]>::new()
    );
    assert_eq!(
        c.round_signatures(&ViewVote::new_vote(1, 0, BLOCK), &OTHER),
        vec![signature(2), signature(5), signature(1), signature(4)]
    );
}

#[test]
fn get_finds_the_signer_of_a_counted_message() {
    let mut c = VoteCollector::new();
    c.vote(vote(1, 1, 0, BLOCK), &account(7));
    c.vote(vote(2, 1, 0, BLOCK), &account(3));
    assert_eq!(c.get(&vote(1, 1, 0, BLOCK)), Some(account(7)));
    assert_eq!(c.get(&vote(2, 1, 0, BLOCK)), Some(account(3)));
    assert_eq!(c.get(&vote(3, 1, 0, BLOCK)), None);
    assert_eq!(c.get(&vote(1, 1, 1, BLOCK)), None);
}

#[test]
fn get_up_to_keeps_the_order_of_arrival() {
    let mut c = VoteCollector::new();
    let first = vote(1, 2, 1, BLOCK);
    let second = vote(2, 1, 0, BLOCK);
    let third = vote(3, 2, 2, BLOCK);
    let fourth = vote(4, 3, 0, BLOCK);
    let fifth = vote(5, 2, 0, OTHER);
    c.vote(first, &account(1));
    c.vote(second, &account(2));
    c.vote(third, &account(3));
    c.vote(fourth, &account(4));
    c.vote(fifth, &account(5));
    assert_eq!(c.get_up_to(&ViewVote::new_view_change(2, 1)), vec![first, second, fifth]);
    assert_eq!(c.get_up_to(&ViewVote::new_view_change(0, 9)), Vec::<AbabMessage>::new());
    assert_eq!(
        c.get_up_to(&ViewVote::new_view_change(3, 0)),
        vec![first, second, third, fourth, fifth]
    );
}

#[test]
fn is_old_or_known_before_and_after_pruning() {
    let mut c = VoteCollector::new();
    assert!(!c.is_old_or_known(&vote(1, 0, 0, BLOCK)));
    c.vote(vote(1, 1, 0, BLOCK), &account(1));
    assert!(c.is_old_or_known(&vote(1, 1, 0, BLOCK)));
    assert!(!c.is_old_or_known(&vote(2, 1, 0, BLOCK)));
    c.throw_out_old(&ViewVote::new_vote(2, 1, BLOCK));
    assert!(c.is_old_or_known(&vote(2, 1, 0, BLOCK)));
    assert!(c.is_old_or_known(&vote(2, 2, 0, BLOCK)));
    assert!(!c.is_old_or_known(&vote(2, 2, 1, BLOCK)));
    assert!(!c.is_old_or_known(&vote(2, 3, 0, BLOCK)));
}

#[test]
fn throw_out_old_discards_what_is_strictly_older() {
    let mut c = VoteCollector::new();
    c.vote(vote(1, 1, 0, BLOCK), &account(1));
    c.vote(vote(2, 1, 5, BLOCK), &account(2));
    c.vote(vote(3, 2, 0, BLOCK), &account(3));
    c.vote(vote(4, 2, 1, BLOCK), &account(4));
    c.vote(vote(5, 3, 0, BLOCK), &account(5));
    c.throw_out_old(&ViewVote::new_view_change(2, 1));
    assert_eq!(
        c.get_up_to(&ViewVote::new_view_change(9, 9)),
        vec![vote(4, 2, 1, BLOCK), vote(5, 3, 0, BLOCK)]
    );
    assert_eq!(c.count_aligned_votes(&vote(9, 1, 0, BLOCK)), 0);
    assert_eq!(c.count_aligned_votes(&vote(9, 2, 1, BLOCK)), 1);
}

#[test]
fn throw_out_old_never_moves_the_threshold_back() {
    let mut c = VoteCollector::new();
    c.vote(vote(1, 5, 0, BLOCK), &account(1));
    c.throw_out_old(&ViewVote::new_view_change(4, 0));
    c.throw_out_old(&ViewVote::new_view_change(2, 0));
    assert!(c.is_old_or_known(&vote(2, 3, 0, BLOCK)));
    assert!(!c.is_old_or_known(&vote(2, 4, 0, BLOCK)));
    assert_eq!(c.get_up_to(&ViewVote::new_view_change(9, 9)), vec![vote(1, 5, 0, BLOCK)]);
}

#[test]
fn a_pruned_signer_may_vote_again_in_a_later_round() {
    let mut c = VoteCollector::new();
    c.vote(vote(1, 1, 0, BLOCK), &account(1));
    c.throw_out_old(&ViewVote::new_view_change(2, 0));
    assert_eq!(c.vote(vote(2, 2, 0, BLOCK), &account(1)), None);
    assert_eq!(c.count_aligned_votes(&vote(9, 2, 0, BLOCK)), 1);
}
