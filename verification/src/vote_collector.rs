//! The vote collector: every signed message the node has accepted, who signed
//! it, and what the messages add up to.
//!
//! Messages are kept in the order in which they came. A message counts towards
//! a quorum unless its signer had already cast a vote of the same kind at the
//! same height and view: such a second vote is a double vote, kept on record
//! but never counted.
use vstd::prelude::*;
use crate::message::{AbabMessage, ViewVote};
use crate::primitives::{
    address_eq, address_is_less, address_less, lemma_address_less_total,
    lemma_address_less_transitive, Address, H256, Height, Signature, ViewNumber,
};

verus! {

/// One accepted message.
#[derive(Clone, Copy, Debug, PartialEq, Eq)]
pub struct Record {
    /// The message as it was signed.
    pub message: AbabMessage,
    /// The account that signed it.
    pub signer: Address,
    /// Whether it counts towards a quorum: false for a double vote.
    pub counted: bool,
}

/// Whether two view votes are of one kind and cast at one height and view.
pub open spec fn same_round(a: ViewVote, b: ViewVote) -> bool {
    a.height == b.height && a.view == b.view && a.vote.spec_tag() == b.vote.spec_tag()
}

/// Whether a record counts as a vote for exactly `v`.
pub open spec fn aligned(r: Record, v: ViewVote) -> bool {
    r.counted && r.message.view_vote == v
}

/// Whether `v` is cast at `(height, view)` or before it.
pub open spec fn not_after(v: ViewVote, height: Height, view: ViewNumber) -> bool {
    v.height < height || (v.height == height && v.view <= view)
}

/// The number of records that count as votes for exactly `v`.
pub open spec fn count_aligned(records: Seq<Record>, v: ViewVote) -> nat
    decreases records.len(),
{
    if records.len() == 0 {
        0
    } else {
        count_aligned(records.drop_last(), v) + if aligned(records.last(), v) {
            1nat
        } else {
            0nat
        }
    }
}

/// Where `r` goes in a list ordered by signer: before the trailing records
/// whose signers come after its own.
pub open spec fn insert_position(sorted: Seq<Record>, r: Record) -> int
    decreases sorted.len(),
{
    if sorted.len() == 0 {
        0
    } else if address_less(r.signer, sorted.last().signer) {
        insert_position(sorted.drop_last(), r)
    } else {
        sorted.len() as int
    }
}

/// A list ordered by signer, with `r` put in its place.
pub open spec fn insert_by_signer(sorted: Seq<Record>, r: Record) -> Seq<Record> {
    sorted.insert(insert_position(sorted, r), r)
}

/// The records that count as votes for exactly `v`, ordered by signer.
pub open spec fn sorted_bucket(records: Seq<Record>, v: ViewVote) -> Seq<Record>
    decreases records.len(),
{
    if records.len() == 0 {
        Seq::empty()
    } else if aligned(records.last(), v) {
        insert_by_signer(sorted_bucket(records.drop_last(), v), records.last())
    } else {
        sorted_bucket(records.drop_last(), v)
    }
}

/// The signatures of the records, in the same order.
pub open spec fn signatures_of(records: Seq<Record>) -> Seq<Signature> {
    Seq::new(records.len(), |i: int| records[i].message.signature)
}

/// The recorded messages cast at `(height, view)` or before, in the order in
/// which they came.
pub open spec fn messages_up_to(records: Seq<Record>, height: Height, view: ViewNumber) -> Seq<
    AbabMessage,
>
    decreases records.len(),
{
    if records.len() == 0 {
        Seq::empty()
    } else if not_after(records.last().message.view_vote, height, view) {
        messages_up_to(records.drop_last(), height, view).push(records.last().message)
    } else {
        messages_up_to(records.drop_last(), height, view)
    }
}

/// The records that are not cast before `(height, view)`, in the order in which
/// they came.
pub open spec fn kept_from(records: Seq<Record>, height: Height, view: ViewNumber) -> Seq<Record>
    decreases records.len(),
{
    if records.len() == 0 {
        Seq::empty()
    } else if records.last().message.view_vote.spec_before(height, view) {
        kept_from(records.drop_last(), height, view)
    } else {
        kept_from(records.drop_last(), height, view).push(records.last())
    }
}

/// The signer under which `m` was counted, if it was.
pub open spec fn recorded_signer(records: Seq<Record>, m: AbabMessage) -> Option<Address>
    decreases records.len(),
{
    if records.len() == 0 {
        None
    } else if records.last().counted && records.last().message == m {
        Some(records.last().signer)
    } else {
        recorded_signer(records.drop_last(), m)
    }
}

/// Whether the signers of the records strictly increase.
pub open spec fn increasing_signers(records: Seq<Record>) -> bool {
    forall|i: int, j: int|
        0 <= i < j < records.len() ==> address_less(
            (#[trigger] records[i]).signer,
            (#[trigger] records[j]).signer,
        )
}

/// The accounts whose votes for exactly `v` count.
pub open spec fn aligned_signers(records: Seq<Record>, v: ViewVote) -> Set<Address> {
    Set::new(
        |a: Address|
            exists|i: int|
                0 <= i < records.len() && aligned(#[trigger] records[i], v) && records[i].signer
                    == a,
    )
}

/// Whether every counted vote for a block was cast by one of `accounts`.
pub open spec fn block_votes_from(records: Seq<Record>, accounts: Seq<Address>) -> bool {
    forall|i: int|
        0 <= i < records.len() && (#[trigger] records[i]).counted
            && records[i].message.view_vote.vote.is_block_vote() ==> accounts.contains(
            records[i].signer,
        )
}

/// What a collector holds: the accepted messages in the order in which they
/// came, and the height and view below which messages are too old to matter.
pub struct Collected {
    pub records: Seq<Record>,
    pub oldest_height: Height,
    pub oldest_view: ViewNumber,
}

impl Collected {
    /// No message is on record twice, and no account has two counted votes of
    /// one kind at one height and view.
    pub open spec fn wf(self) -> bool {
        &&& forall|i: int, j: int|
            0 <= i < j < self.records.len() ==> (#[trigger] self.records[i]).message != (
            #[trigger] self.records[j]).message
        &&& forall|i: int, j: int|
            0 <= i < self.records.len() && 0 <= j < self.records.len() && i != j && (
            #[trigger] self.records[i]).counted && (#[trigger] self.records[j]).counted
                && self.records[i].signer == self.records[j].signer ==> !same_round(
                self.records[i].message.view_vote,
                self.records[j].message.view_vote,
            )
    }

    /// Whether `m` is on record.
    pub open spec fn knows(self, m: AbabMessage) -> bool {
        exists|i: int| 0 <= i < self.records.len() && (#[trigger] self.records[i]).message == m
    }

    /// Whether `m` is cast before the oldest height and view that still matter.
    pub open spec fn is_old(self, m: AbabMessage) -> bool {
        m.view_vote.spec_before(self.oldest_height, self.oldest_view)
    }

    /// Whether `m` needs no handling: it is too old, or on record already.
    pub open spec fn is_old_or_known(self, m: AbabMessage) -> bool {
        self.is_old(m) || self.knows(m)
    }

    /// Whether `signer` has a vote on record of the kind, height and view of `v`.
    pub open spec fn has_voted(self, signer: Address, v: ViewVote) -> bool {
        exists|i: int|
            0 <= i < self.records.len() && (#[trigger] self.records[i]).signer == signer
                && same_round(self.records[i].message.view_vote, v)
    }

    /// Whether recording `m` for `signer` would be a double vote.
    pub open spec fn is_double_vote(self, m: AbabMessage, signer: Address) -> bool {
        !self.knows(m) && self.has_voted(signer, m.view_vote)
    }

    /// The collector after `m` was recorded for `signer`: unchanged if `m` was on
    /// record, else one record longer; the new record counts unless it is a
    /// double vote.
    pub open spec fn vote(self, m: AbabMessage, signer: Address) -> Collected {
        if self.knows(m) {
            self
        } else {
            Collected {
                records: self.records.push(
                    Record { message: m, signer, counted: !self.has_voted(signer, m.view_vote) },
                ),
                ..self
            }
        }
    }

    /// The number of counted votes for exactly `v`.
    pub open spec fn aligned_count(self, v: ViewVote) -> nat {
        count_aligned(self.records, v)
    }

    /// The signatures of the counted votes for exactly `v`, ordered by signer.
    pub open spec fn round_signatures(self, v: ViewVote) -> Seq<Signature> {
        signatures_of(sorted_bucket(self.records, v))
    }

    /// The signer under which `m` was counted, if it was.
    pub open spec fn get(self, m: AbabMessage) -> Option<Address> {
        recorded_signer(self.records, m)
    }

    /// The recorded messages cast at the height and view of `v` or before.
    pub open spec fn get_up_to(self, v: ViewVote) -> Seq<AbabMessage> {
        messages_up_to(self.records, v.height, v.view)
    }

    /// The collector after everything cast before `v` was thrown out. The oldest
    /// height and view that matter never move back.
    pub open spec fn throw_out_old(self, v: ViewVote) -> Collected {
        if v.spec_before(self.oldest_height, self.oldest_view) {
            Collected { records: kept_from(self.records, v.height, v.view), ..self }
        } else {
            Collected {
                records: kept_from(self.records, v.height, v.view),
                oldest_height: v.height,
                oldest_view: v.view,
            }
        }
    }
}

/// Where the scan from the end stops is where the record belongs.
proof fn lemma_insert_position(sorted: Seq<Record>, r: Record, k: int)
    requires
        0 <= k <= sorted.len(),
        forall|j: int| k <= j < sorted.len() ==> address_less(r.signer, (#[trigger] sorted[j]).signer),
        k > 0 ==> !address_less(r.signer, sorted[k - 1].signer),
    ensures
        insert_position(sorted, r) == k,
    decreases sorted.len(),
{
    if sorted.len() > 0 && k < sorted.len() {
        assert(address_less(r.signer, sorted[sorted.len() - 1].signer));
        lemma_insert_position(sorted.drop_last(), r, k);
    }
}

/// The place of a record lies within the list; the records from there on come
/// after it, and the one just before does not.
pub proof fn lemma_insert_position_bounds(sorted: Seq<Record>, r: Record)
    ensures
        0 <= insert_position(sorted, r) <= sorted.len(),
        forall|j: int|
            insert_position(sorted, r) <= j < sorted.len() ==> address_less(
                r.signer,
                (#[trigger] sorted[j]).signer,
            ),
        insert_position(sorted, r) > 0 ==> !address_less(
            r.signer,
            sorted[insert_position(sorted, r) - 1].signer,
        ),
    decreases sorted.len(),
{
    if sorted.len() > 0 && address_less(r.signer, sorted.last().signer) {
        let shorter = sorted.drop_last();
        lemma_insert_position_bounds(shorter, r);
        assert forall|j: int| insert_position(sorted, r) <= j < sorted.len() implies address_less(
            r.signer,
            (#[trigger] sorted[j]).signer,
        ) by {
            if j < shorter.len() {
                assert(shorter[j] == sorted[j]);
            }
        }
        if insert_position(sorted, r) > 0 {
            assert(shorter[insert_position(sorted, r) - 1] == sorted[insert_position(sorted, r)
                - 1]);
        }
    }
}

/// A record whose signer differs from all the others keeps the order when it
/// is put in its place.
pub proof fn lemma_insert_keeps_increasing(sorted: Seq<Record>, r: Record)
    requires
        increasing_signers(sorted),
        forall|k: int| 0 <= k < sorted.len() ==> (#[trigger] sorted[k]).signer != r.signer,
    ensures
        increasing_signers(insert_by_signer(sorted, r)),
{
    lemma_insert_position_bounds(sorted, r);
    let p = insert_position(sorted, r);
    let after = insert_by_signer(sorted, r);
    assert forall|i: int| 0 <= i < p implies address_less((#[trigger] sorted[i]).signer, r.signer) by {
        assert(!address_less(r.signer, sorted[p - 1].signer));
        lemma_address_less_total(sorted[p - 1].signer, r.signer);
        if i < p - 1 {
            lemma_address_less_transitive(sorted[i].signer, sorted[p - 1].signer, r.signer);
        }
    }
    assert forall|i: int, j: int| 0 <= i < j < after.len() implies address_less(
        (#[trigger] after[i]).signer,
        (#[trigger] after[j]).signer,
    ) by {
        let x = if i < p { sorted[i] } else if i == p { r } else { sorted[i - 1] };
        let y = if j < p { sorted[j] } else if j == p { r } else { sorted[j - 1] };
        assert(after[i] == x);
        assert(after[j] == y);
    }
}

/// Every record of a bucket is a counted vote for `v` from the collector, and
/// the bucket is as long as the count of such votes.
pub proof fn lemma_sorted_bucket_members(records: Seq<Record>, v: ViewVote)
    ensures
        sorted_bucket(records, v).len() == count_aligned(records, v),
        forall|k: int|
            0 <= k < sorted_bucket(records, v).len() ==> aligned(
                #[trigger] sorted_bucket(records, v)[k],
                v,
            ) && records.contains(sorted_bucket(records, v)[k]),
        forall|i: int|
            0 <= i < records.len() && aligned(#[trigger] records[i], v) ==> sorted_bucket(
                records,
                v,
            ).contains(records[i]),
    decreases records.len(),
{
    if records.len() > 0 {
        let rest = records.drop_last();
        let last = records.last();
        lemma_sorted_bucket_members(rest, v);
        let before = sorted_bucket(rest, v);
        let after = sorted_bucket(records, v);
        assert forall|k: int| 0 <= k < before.len() implies records.contains(
            #[trigger] before[k],
        ) by {
            let i = choose|i: int| 0 <= i < rest.len() && rest[i] == before[k];
            assert(records[i] == before[k]);
        }
        if aligned(last, v) {
            lemma_insert_position_bounds(before, last);
            let p = insert_position(before, last);
            assert(records[records.len() - 1] == last);
            assert forall|k: int| 0 <= k < after.len() implies aligned(#[trigger] after[k], v)
                && records.contains(after[k]) by {
                if k < p {
                    assert(after[k] == before[k]);
                } else if k > p {
                    assert(after[k] == before[k - 1]);
                }
            }
            assert forall|i: int| 0 <= i < records.len() && aligned(
                #[trigger] records[i],
                v,
            ) implies after.contains(records[i]) by {
                if i == records.len() - 1 {
                    assert(after[p] == records[i]);
                } else {
                    assert(rest[i] == records[i]);
                    let k = choose|k: int| 0 <= k < before.len() && before[k] == rest[i];
                    if k < p {
                        assert(after[k] == before[k]);
                    } else {
                        assert(after[k + 1] == before[k]);
                    }
                }
            }
        } else {
            assert forall|i: int| 0 <= i < records.len() && aligned(
                #[trigger] records[i],
                v,
            ) implies after.contains(records[i]) by {
                assert(rest[i] == records[i]);
            }
        }
    }
}

/// In a well-formed collector the signers of a bucket strictly increase, so the
/// order of the bucket is fixed by who signed, not by what came first.
pub proof fn lemma_sorted_bucket_increasing(c: Collected, v: ViewVote)
    requires
        c.wf(),
    ensures
        increasing_signers(sorted_bucket(c.records, v)),
    decreases c.records.len(),
{
    let records = c.records;
    if records.len() > 0 {
        let rest = records.drop_last();
        let last = records.last();
        let shorter = Collected { records: rest, ..c };
        assert(shorter.wf()) by {
            assert forall|i: int| 0 <= i < rest.len() implies rest[i] == records[i] by {}
        }
        lemma_sorted_bucket_increasing(shorter, v);
        if aligned(last, v) {
            let before = sorted_bucket(rest, v);
            lemma_sorted_bucket_members(rest, v);
            assert forall|k: int| 0 <= k < before.len() implies (#[trigger] before[k]).signer
                != last.signer by {
                let i = choose|i: int| 0 <= i < rest.len() && rest[i] == before[k];
                assert(records[i] == before[k]);
                assert(records[records.len() - 1] == last);
                assert(same_round(records[i].message.view_vote, last.message.view_vote));
            }
            lemma_insert_keeps_increasing(before, last);
        }
    }
}

/// In a well-formed collector the counted votes for `v` come from as many
/// different accounts as there are such votes.
pub proof fn lemma_aligned_signers_distinct(c: Collected, v: ViewVote)
    requires
        c.wf(),
    ensures
        aligned_signers(c.records, v).finite(),
        aligned_signers(c.records, v).len() == c.aligned_count(v),
    decreases c.records.len(),
{
    let records = c.records;
    if records.len() == 0 {
        assert(aligned_signers(records, v) =~= Set::<Address>::empty());
    } else {
        let rest = records.drop_last();
        let last = records.last();
        let shorter = Collected { records: rest, ..c };
        assert(shorter.wf()) by {
            assert forall|i: int| 0 <= i < rest.len() implies rest[i] == records[i] by {}
        }
        lemma_aligned_signers_distinct(shorter, v);
        let fewer = aligned_signers(rest, v);
        assert(records[records.len() - 1] == last);
        if aligned(last, v) {
            assert(!fewer.contains(last.signer)) by {
                if fewer.contains(last.signer) {
                    let i = choose|i: int|
                        0 <= i < rest.len() && aligned(#[trigger] rest[i], v) && rest[i].signer
                            == last.signer;
                    assert(records[i] == rest[i]);
                    assert(same_round(records[i].message.view_vote, last.message.view_vote));
                }
            }
            assert(aligned_signers(records, v) =~= fewer.insert(last.signer)) by {
                assert forall|a: Address| fewer.insert(last.signer).contains(a) implies
                    aligned_signers(records, v).contains(a) by {
                    if a != last.signer {
                        let i = choose|i: int|
                            0 <= i < rest.len() && aligned(#[trigger] rest[i], v) && rest[i].signer
                                == a;
                        assert(records[i] == rest[i]);
                    }
                }
                assert forall|a: Address| aligned_signers(records, v).contains(a) implies
                    fewer.insert(last.signer).contains(a) by {
                    let i = choose|i: int|
                        0 <= i < records.len() && aligned(#[trigger] records[i], v)
                            && records[i].signer == a;
                    if i < rest.len() {
                        assert(rest[i] == records[i]);
                    }
                }
            }
        } else {
            assert(aligned_signers(records, v) =~= fewer) by {
                assert forall|a: Address| fewer.contains(a) implies aligned_signers(
                    records,
                    v,
                ).contains(a) by {
                    let i = choose|i: int|
                        0 <= i < rest.len() && aligned(#[trigger] rest[i], v) && rest[i].signer
                            == a;
                    assert(records[i] == rest[i]);
                }
                assert forall|a: Address| aligned_signers(records, v).contains(a) implies
                    fewer.contains(a) by {
                    let i = choose|i: int|
                        0 <= i < records.len() && aligned(#[trigger] records[i], v)
                            && records[i].signer == a;
                    assert(rest[i] == records[i]);
                }
            }
        }
    }
}

/// Recording a message keeps a collector well formed, and the message is on
/// record afterwards.
pub proof fn lemma_vote_keeps_wf(c: Collected, m: AbabMessage, signer: Address)
    requires
        c.wf(),
    ensures
        c.vote(m, signer).wf(),
        c.vote(m, signer).knows(m),
        forall|other: AbabMessage| c.knows(other) ==> c.vote(m, signer).knows(other),
{
    let after = c.vote(m, signer);
    if !c.knows(m) {
        let n = c.records.len() as int;
        assert(after.records[n].message == m);
        assert forall|other: AbabMessage| c.knows(other) implies after.knows(other) by {
            let i = choose|i: int|
                0 <= i < c.records.len() && (#[trigger] c.records[i]).message == other;
            assert(after.records[i].message == other);
        }
        assert forall|i: int, j: int| 0 <= i < j < after.records.len() implies (
        #[trigger] after.records[i]).message != (#[trigger] after.records[j]).message by {
            assert(after.records[i] == c.records[i]);
            if j < n {
                assert(after.records[j] == c.records[j]);
            }
        }
        assert forall|i: int, j: int|
            0 <= i < after.records.len() && 0 <= j < after.records.len() && i != j && (
            #[trigger] after.records[i]).counted && (#[trigger] after.records[j]).counted
                && after.records[i].signer == after.records[j].signer implies !same_round(
            after.records[i].message.view_vote,
            after.records[j].message.view_vote,
        ) by {
            if i < n {
                assert(after.records[i] == c.records[i]);
            }
            if j < n {
                assert(after.records[j] == c.records[j]);
            }
        }
    }
}

/// Recording a message leaves every counted vote for a block with one of
/// `accounts`, if the message is no such vote or its signer is one of them.
pub proof fn lemma_vote_keeps_block_votes(
    c: Collected,
    accounts: Seq<Address>,
    m: AbabMessage,
    signer: Address,
)
    requires
        block_votes_from(c.records, accounts),
        m.view_vote.vote.is_block_vote() ==> accounts.contains(signer),
    ensures
        block_votes_from(c.vote(m, signer).records, accounts),
{
    let after = c.vote(m, signer).records;
    assert forall|i: int|
        0 <= i < after.len() && (#[trigger] after[i]).counted
            && after[i].message.view_vote.vote.is_block_vote() implies accounts.contains(
        after[i].signer,
    ) by {
        if i < c.records.len() {
            assert(after[i] == c.records[i]);
        }
    }
}

/// Throwing out old messages leaves every counted vote for a block with one of
/// `accounts`.
pub proof fn lemma_throw_out_old_keeps_block_votes(
    c: Collected,
    accounts: Seq<Address>,
    v: ViewVote,
)
    requires
        block_votes_from(c.records, accounts),
    ensures
        block_votes_from(c.throw_out_old(v).records, accounts),
{
    lemma_kept_from(c.records, v.height, v.view);
    let kept = kept_from(c.records, v.height, v.view);
    let picks = choose|picks: Seq<int>| picked(c.records, kept, picks);
    assert forall|i: int|
        0 <= i < kept.len() && (#[trigger] kept[i]).counted
            && kept[i].message.view_vote.vote.is_block_vote() implies accounts.contains(
        kept[i].signer,
    ) by {
        assert(kept[i] == c.records[picks[i]]);
    }
}

/// What is kept is well formed if what it was kept from is, and still holds
/// every message that is not cast before the given height and view.
pub proof fn lemma_throw_out_old_keeps_wf(c: Collected, v: ViewVote)
    requires
        c.wf(),
    ensures
        c.throw_out_old(v).wf(),
        forall|m: AbabMessage|
            c.knows(m) && !m.view_vote.spec_before(v.height, v.view) ==> c.throw_out_old(v).knows(
                m,
            ),
{
    lemma_kept_from(c.records, v.height, v.view);
    let kept = kept_from(c.records, v.height, v.view);
    let picks = choose|picks: Seq<int>| picked(c.records, kept, picks);
    let after = c.throw_out_old(v);
    assert(after.records == kept);
    assert forall|m: AbabMessage|
        c.knows(m) && !m.view_vote.spec_before(v.height, v.view) implies after.knows(m) by {
        let i = choose|i: int| 0 <= i < c.records.len() && (#[trigger] c.records[i]).message == m;
        let k = choose|k: int| 0 <= k < kept.len() && kept[k] == c.records[i];
        assert(after.records[k].message == m);
    }
    assert forall|i: int, j: int| 0 <= i < j < kept.len() implies (#[trigger] kept[i]).message != (
    #[trigger] kept[j]).message by {
        assert(kept[i] == c.records[picks[i]] && kept[j] == c.records[picks[j]]);
    }
    assert forall|i: int, j: int|
        0 <= i < kept.len() && 0 <= j < kept.len() && i != j && (#[trigger] kept[i]).counted && (
        #[trigger] kept[j]).counted && kept[i].signer == kept[j].signer implies !same_round(
        kept[i].message.view_vote,
        kept[j].message.view_vote,
    ) by {
        assert(kept[i] == c.records[picks[i]] && kept[j] == c.records[picks[j]]);
        if i < j {
            assert(picks[i] < picks[j]);
        } else {
            assert(picks[j] < picks[i]);
        }
    }
}

/// Whether `picks` names, in increasing order, the places in `records` from
/// which the records of `kept` were taken.
pub open spec fn picked(records: Seq<Record>, kept: Seq<Record>, picks: Seq<int>) -> bool {
    &&& picks.len() == kept.len()
    &&& forall|k: int|
        0 <= k < kept.len() ==> 0 <= #[trigger] picks[k] < records.len() && kept[k]
            == records[picks[k]]
    &&& forall|a: int, b: int| 0 <= a < b < kept.len() ==> #[trigger] picks[a] < #[trigger] picks[b]
}

/// What is kept is taken from the records in their order, and misses none that
/// is not cast before the given height and view.
pub proof fn lemma_kept_from(records: Seq<Record>, height: Height, view: ViewNumber)
    ensures
        exists|picks: Seq<int>| picked(records, kept_from(records, height, view), picks),
        forall|i: int|
            0 <= i < records.len() && !(#[trigger] records[i]).message.view_vote.spec_before(
                height,
                view,
            ) ==> kept_from(records, height, view).contains(records[i]),
        forall|k: int|
            0 <= k < kept_from(records, height, view).len() ==> !(#[trigger] kept_from(
                records,
                height,
                view,
            )[k]).message.view_vote.spec_before(height, view),
    decreases records.len(),
{
    let kept = kept_from(records, height, view);
    if records.len() == 0 {
        assert(picked(records, kept, Seq::<int>::empty()));
    } else {
        let rest = records.drop_last();
        let last = records.last();
        lemma_kept_from(rest, height, view);
        let fewer = kept_from(rest, height, view);
        let picks = choose|picks: Seq<int>| picked(rest, fewer, picks);
        if last.message.view_vote.spec_before(height, view) {
            assert(picked(records, kept, picks));
            assert forall|i: int|
                0 <= i < records.len() && !(#[trigger] records[i]).message.view_vote.spec_before(
                    height,
                    view,
                ) implies kept.contains(records[i]) by {
                assert(rest[i] == records[i]);
            }
        } else {
            let more = picks.push(records.len() - 1);
            assert(picked(records, kept, more)) by {
                assert forall|k: int| 0 <= k < kept.len() implies 0 <= #[trigger] more[k]
                    < records.len() && kept[k] == records[more[k]] by {
                    if k < fewer.len() {
                        assert(more[k] == picks[k]);
                        assert(kept[k] == fewer[k]);
                    }
                }
                assert forall|a: int, b: int| 0 <= a < b < kept.len() implies #[trigger] more[a]
                    < #[trigger] more[b] by {
                    assert(more[a] == picks[a]);
                    if b < fewer.len() {
                        assert(more[b] == picks[b]);
                    }
                }
            }
            assert forall|i: int|
                0 <= i < records.len() && !(#[trigger] records[i]).message.view_vote.spec_before(
                    height,
                    view,
                ) implies kept.contains(records[i]) by {
                if i < rest.len() {
                    assert(rest[i] == records[i]);
                    let k = choose|k: int| 0 <= k < fewer.len() && fewer[k] == rest[i];
                    assert(kept[k] == records[i]);
                } else {
                    assert(kept[kept.len() - 1] == records[i]);
                }
            }
            assert forall|k: int| 0 <= k < kept.len() implies !(#[trigger] kept[k]).message.view_vote.spec_before(
                height,
                view,
            ) by {
                if k < fewer.len() {
                    assert(kept[k] == fewer[k]);
                }
            }
        }
    }
}

/// The store of accepted messages.
#[derive(Clone, Debug)]
pub struct VoteCollector {
    records: Vec<Record>,
    oldest_height: Height,
    oldest_view: ViewNumber,
}

impl View for VoteCollector {
    type V = Collected;

    /// What the collector holds.
    closed spec fn view(&self) -> Collected {
        Collected {
            records: self.records@,
            oldest_height: self.oldest_height,
            oldest_view: self.oldest_view,
        }
    }
}

/// Puts a record in its place in a list ordered by signer.
fn insert_record(sorted: &mut Vec<Record>, record: Record)
    ensures
        final(sorted)@ == insert_by_signer(old(sorted)@, record),
{
    let mut k: usize = sorted.len();
    while k > 0 && address_is_less(&record.signer, &sorted[k - 1].signer)
        invariant
            0 <= k <= sorted@.len(),
            sorted@ == old(sorted)@,
            forall|j: int|
                k <= j < sorted@.len() ==> address_less(record.signer, (#[trigger] sorted@[j]).signer),
        decreases k,
    {
        k -= 1;
    }
    proof {
        lemma_insert_position(sorted@, record, k as int);
    }
    sorted.insert(k, record);
}

impl VoteCollector {
    /// No message is on record twice, and no account has two counted votes of
    /// one kind at one height and view.
    pub open spec fn wf(&self) -> bool {
        self@.wf()
    }

    /// A collector without messages, for which nothing is too old.
    pub fn new() -> (collector: VoteCollector)
        ensures
            collector@.records.len() == 0,
            collector@.oldest_height == 0,
            collector@.oldest_view == 0,
            collector.wf(),
    {
        VoteCollector { records: Vec::new(), oldest_height: 0, oldest_view: 0 }
    }

    /// Whether `message` is on record.
    fn knows(&self, message: &AbabMessage) -> (known: bool)
        ensures
            known == self@.knows(*message),
    {
        let mut i: usize = 0;
        while i < self.records.len()
            invariant
                0 <= i <= self.records@.len(),
                forall|j: int| 0 <= j < i ==> (#[trigger] self.records@[j]).message != *message,
            decreases self.records@.len() - i,
        {
            if self.records[i].message.same(message) {
                return true;
            }
            i += 1;
        }
        false
    }

    /// Whether `signer` has a vote on record of the kind, height and view of `view_vote`.
    fn has_voted(&self, signer: &Address, view_vote: &ViewVote) -> (voted: bool)
        ensures
            voted == self@.has_voted(*signer, *view_vote),
    {
        let mut i: usize = 0;
        while i < self.records.len()
            invariant
                0 <= i <= self.records@.len(),
                forall|j: int|
                    0 <= j < i ==> !((#[trigger] self.records@[j]).signer == *signer && same_round(
                        self.records@[j].message.view_vote,
                        *view_vote,
                    )),
            decreases self.records@.len() - i,
        {
            let record = self.records[i];
            if address_eq(&record.signer, signer) && record.message.view_vote.height
                == view_vote.height && record.message.view_vote.view == view_vote.view
                && record.message.view_vote.vote.tag() == view_vote.vote.tag() {
                return true;
            }
            i += 1;
        }
        false
    }

    /// Records `message` as signed by `signer`. A message already on record
    /// changes nothing. A double vote is recorded too, but uncounted, and the
    /// signer comes back to mark it.
    pub fn vote(&mut self, message: AbabMessage, signer: &Address) -> (double: Option<Address>)
        requires
            old(self).wf(),
        ensures
            final(self)@ == old(self)@.vote(message, *signer),
            double == (if old(self)@.is_double_vote(message, *signer) {
                Some(*signer)
            } else {
                None
            }),
            final(self).wf(),
    {
        proof {
            lemma_vote_keeps_wf(self@, message, *signer);
        }
        if self.knows(&message) {
            return None;
        }
        let voted = self.has_voted(signer, &message.view_vote);
        self.records.push(Record { message, signer: *signer, counted: !voted });
        if voted {
            Some(*signer)
        } else {
            None
        }
    }

    /// Whether `message` needs no handling: it is cast before the oldest height
    /// and view that matter, or it is on record already.
    pub fn is_old_or_known(&self, message: &AbabMessage) -> (skip: bool)
        ensures
            skip == self@.is_old_or_known(*message),
    {
        message.view_vote.before(self.oldest_height, self.oldest_view) || self.knows(message)
    }

    /// The number of counted votes for exactly the view vote of `message`. In a
    /// well-formed collector they come from as many different accounts.
    pub fn count_aligned_votes(&self, message: &AbabMessage) -> (count: usize)
        ensures
            count == self@.aligned_count(message.view_vote),
    {
        let mut count: usize = 0;
        let mut i: usize = 0;
        while i < self.records.len()
            invariant
                0 <= i <= self.records@.len(),
                count <= i,
                count == count_aligned(self.records@.take(i as int), message.view_vote),
            decreases self.records@.len() - i,
        {
            let record = self.records[i];
            proof {
                assert(self.records@.take(i + 1).drop_last() =~= self.records@.take(i as int));
            }
            if record.counted && record.message.view_vote.same(&message.view_vote) {
                count += 1;
            }
            i += 1;
        }
        proof {
            assert(self.records@.take(self.records@.len() as int) =~= self.records@);
        }
        count
    }

    /// The signatures of the counted votes for exactly `view_vote`, ordered by
    /// the account that signed. A view vote names its block, so `_block_hash`
    /// selects nothing further.
    pub fn round_signatures(&self, view_vote: &ViewVote, _block_hash: &H256) -> (signatures: Vec<
        Signature,
    >)
        ensures
            signatures@ == self@.round_signatures(*view_vote),
    {
        let mut bucket: Vec<Record> = Vec::new();
        let mut i: usize = 0;
        while i < self.records.len()
            invariant
                0 <= i <= self.records@.len(),
                bucket@ == sorted_bucket(self.records@.take(i as int), *view_vote),
            decreases self.records@.len() - i,
        {
            let record = self.records[i];
            proof {
                assert(self.records@.take(i + 1).drop_last() =~= self.records@.take(i as int));
            }
            if record.counted && record.message.view_vote.same(view_vote) {
                insert_record(&mut bucket, record);
            }
            i += 1;
        }
        proof {
            assert(self.records@.take(self.records@.len() as int) =~= self.records@);
        }
        let mut signatures: Vec<Signature> = Vec::new();
        let mut j: usize = 0;
        while j < bucket.len()
            invariant
                0 <= j <= bucket@.len(),
                signatures@.len() == j,
                forall|k: int| 0 <= k < j ==> signatures@[k] == (#[trigger] bucket@[k]).message.signature,
            decreases bucket@.len() - j,
        {
            signatures.push(bucket[j].message.signature);
            j += 1;
        }
        proof {
            assert(signatures@ =~= signatures_of(bucket@));
        }
        signatures
    }

    /// The account under which `message` was counted, if it was.
    pub fn get(&self, message: &AbabMessage) -> (signer: Option<Address>)
        ensures
            signer == self@.get(*message),
    {
        let mut i: usize = self.records.len();
        proof {
            assert(self.records@.take(self.records@.len() as int) =~= self.records@);
        }
        while i > 0
            invariant
                0 <= i <= self.records@.len(),
                recorded_signer(self.records@, *message) == recorded_signer(
                    self.records@.take(i as int),
                    *message,
                ),
            decreases i,
        {
            let record = self.records[i - 1];
            proof {
                assert(self.records@.take(i as int).drop_last() =~= self.records@.take(i - 1));
            }
            if record.counted && record.message.same(message) {
                return Some(record.signer);
            }
            i -= 1;
        }
        None
    }

    /// The recorded messages cast at the height and view of `view_vote` or
    /// before, in the order in which they came.
    pub fn get_up_to(&self, view_vote: &ViewVote) -> (messages: Vec<AbabMessage>)
        ensures
            messages@ == self@.get_up_to(*view_vote),
    {
        let mut messages: Vec<AbabMessage> = Vec::new();
        let mut i: usize = 0;
        while i < self.records.len()
            invariant
                0 <= i <= self.records@.len(),
                messages@ == messages_up_to(
                    self.records@.take(i as int),
                    view_vote.height,
                    view_vote.view,
                ),
            decreases self.records@.len() - i,
        {
            let record = self.records[i];
            proof {
                assert(self.records@.take(i + 1).drop_last() =~= self.records@.take(i as int));
            }
            let v = record.message.view_vote;
            if v.height < view_vote.height || (v.height == view_vote.height && v.view
                <= view_vote.view) {
                messages.push(record.message);
            }
            i += 1;
        }
        proof {
            assert(self.records@.take(self.records@.len() as int) =~= self.records@);
        }
        messages
    }

    /// Throws out every message cast before the height and view of `view_vote`,
    /// and lets nothing older matter from now on.
    pub fn throw_out_old(&mut self, view_vote: &ViewVote)
        requires
            old(self).wf(),
        ensures
            final(self)@ == old(self)@.throw_out_old(*view_vote),
            final(self).wf(),
    {
        proof {
            lemma_throw_out_old_keeps_wf(self@, *view_vote);
        }
        let mut kept: Vec<Record> = Vec::new();
        let mut i: usize = 0;
        while i < self.records.len()
            invariant
                0 <= i <= self.records@.len(),
                kept@ == kept_from(self.records@.take(i as int), view_vote.height, view_vote.view),
            decreases self.records@.len() - i,
        {
            let record = self.records[i];
            proof {
                assert(self.records@.take(i + 1).drop_last() =~= self.records@.take(i as int));
            }
            if !record.message.view_vote.before(view_vote.height, view_vote.view) {
                kept.push(record);
            }
            i += 1;
        }
        proof {
            assert(self.records@.take(self.records@.len() as int) =~= self.records@);
        }
        self.records = kept;
        if !view_vote.before(self.oldest_height, self.oldest_view) {
            self.oldest_height = view_vote.height;
            self.oldest_view = view_vote.view;
        }
    }
}

} // verus!
