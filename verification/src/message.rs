//! Consensus messages: what a validator asserts, and how it travels.
//!
//! On the wire a message is the list `(signature, view_vote)`, and a view vote
//! is the list `(height, view, tag)` followed, for a proposal or a vote, by the
//! block hash. A signature signs the digest of the encoded view vote.
use vstd::prelude::*;
use crate::codec::{
    bytes_of_rlp, decode_bytes, decode_uint, encode_bytes, encode_uint, items_of_rlp, list_items,
    listable, lemma_total_len_push, rlp_is_item, rlp_of_bytes, rlp_of_list, rlp_of_uint,
    stream_append_raw, stream_items, stream_limit, stream_new_list, stream_out, total_len,
    uint_of_rlp,
};
use crate::crypto::{keccak256, keccak256_of, recover, signer_of};
use crate::error::EngineError;
use crate::header::Header;
use crate::primitives::{
    hash_eq, hash_from_seq, hash_from_slice, lemma_hash_from_seq, lemma_signature_from_seq,
    signature_eq, signature_from_seq, signature_from_slice, Address, H256, Height, Signature,
    ViewNumber,
};

verus! {

/// What a validator asserts about a height and view.
#[derive(Clone, Copy, Debug, PartialEq, Eq)]
pub enum Vote {
    /// The signer wants to abandon the view.
    ViewChange,
    /// The signer, primary of the view, proposes the block with this hash.
    Proposal(H256),
    /// The signer accepts the block with this hash.
    Vote(H256),
}

impl Vote {
    /// The number that stands for the kind of vote on the wire.
    pub open spec fn spec_tag(self) -> u64 {
        match self {
            Vote::ViewChange => 0,
            Vote::Proposal(_) => 1,
            Vote::Vote(_) => 2,
        }
    }

    /// The block hash that the vote names, if its kind has one.
    pub open spec fn spec_block_hash(self) -> Option<H256> {
        match self {
            Vote::ViewChange => None,
            Vote::Proposal(hash) => Some(hash),
            Vote::Vote(hash) => Some(hash),
        }
    }

    /// Whether the vote accepts a block, rather than proposing one or
    /// abandoning a view.
    pub open spec fn is_block_vote(self) -> bool {
        match self {
            Vote::Vote(_) => true,
            _ => false,
        }
    }

    /// The number that stands for the kind of vote on the wire.
    pub fn tag(&self) -> (tag: u64)
        ensures
            tag == self.spec_tag(),
    {
        match self {
            Vote::ViewChange => 0,
            Vote::Proposal(_) => 1,
            Vote::Vote(_) => 2,
        }
    }

    /// The block hash that the vote names, if its kind has one.
    pub fn block_hash(&self) -> (hash: Option<H256>)
        ensures
            hash == self.spec_block_hash(),
    {
        match self {
            Vote::ViewChange => None,
            Vote::Proposal(hash) => Some(*hash),
            Vote::Vote(hash) => Some(*hash),
        }
    }

    /// Whether two votes are of one kind and name the same block.
    pub fn same(&self, other: &Vote) -> (same: bool)
        ensures
            same == (*self == *other),
    {
        match (self, other) {
            (Vote::ViewChange, Vote::ViewChange) => true,
            (Vote::Proposal(a), Vote::Proposal(b)) => hash_eq(a, b),
            (Vote::Vote(a), Vote::Vote(b)) => hash_eq(a, b),
            _ => false,
        }
    }
}

/// A vote together with the height and view it is cast in.
#[derive(Clone, Copy, Debug, PartialEq, Eq)]
pub struct ViewVote {
    pub height: Height,
    pub view: ViewNumber,
    pub vote: Vote,
}

/// The vote to abandon `view` at `height`.
pub open spec fn view_change_at(height: Height, view: ViewNumber) -> ViewVote {
    ViewVote { height, view, vote: Vote::ViewChange }
}

/// The proposal of `block_hash` at `height` and `view`.
pub open spec fn proposal_at(height: Height, view: ViewNumber, block_hash: H256) -> ViewVote {
    ViewVote { height, view, vote: Vote::Proposal(block_hash) }
}

/// The vote for `block_hash` at `height` and `view`.
pub open spec fn vote_at(height: Height, view: ViewNumber, block_hash: H256) -> ViewVote {
    ViewVote { height, view, vote: Vote::Vote(block_hash) }
}

/// The encoded components of a view vote, in wire order.
pub open spec fn view_vote_items(v: ViewVote) -> Seq<Seq<u8>> {
    let head = seq![rlp_of_uint(v.height), rlp_of_uint(v.view), rlp_of_uint(v.vote.spec_tag())];
    match v.vote.spec_block_hash() {
        Some(hash) => head.push(rlp_of_bytes(hash@)),
        None => head,
    }
}

/// A view vote on the wire.
pub open spec fn view_vote_encoding(v: ViewVote) -> Seq<u8> {
    rlp_of_list(view_vote_items(v))
}

/// The digest that a signature on a view vote signs.
pub open spec fn view_vote_digest(v: ViewVote) -> H256 {
    keccak256_of(view_vote_encoding(v))
}

/// The vote that leads into `view` at `height`: the vote to abandon the view
/// before it. Nothing leads into the first view.
pub open spec fn view_change_into(height: Height, view: ViewNumber) -> Option<ViewVote> {
    if view == 0 {
        None
    } else {
        Some(view_change_at(height, (view - 1) as u64))
    }
}

/// The digest that the view-change signatures in the seal of a block at
/// `height` and `view` sign: that of the vote that leads into the view. The
/// first view has none.
pub open spec fn spec_view_change_hash(height: Height, view: ViewNumber) -> Option<H256> {
    match view_change_into(height, view) {
        Some(v) => Some(view_vote_digest(v)),
        None => None,
    }
}

/// The digest that a vote signature for `block_hash` at `height` and `view` signs.
pub open spec fn spec_vote_hash(height: Height, view: ViewNumber, block_hash: H256) -> H256 {
    view_vote_digest(vote_at(height, view, block_hash))
}

/// The vote that a tag stands for, with the encoded block hash that came with it.
pub open spec fn vote_of_parts(tag: u64, hash_item: Option<Seq<u8>>) -> Option<Vote> {
    match hash_item {
        None => if tag == 0 {
            Some(Vote::ViewChange)
        } else {
            None
        },
        Some(item) => match bytes_of_rlp(item) {
            Some(bytes) => if bytes.len() == 32 && tag == 1 {
                Some(Vote::Proposal(hash_from_seq(bytes)))
            } else if bytes.len() == 32 && tag == 2 {
                Some(Vote::Vote(hash_from_seq(bytes)))
            } else {
                None
            },
            None => None,
        },
    }
}

/// The view vote that the encoded components stand for: three of them for a
/// view change, four for a proposal or a vote.
pub open spec fn view_vote_of_items(items: Seq<Seq<u8>>) -> Option<ViewVote> {
    if items.len() != 3 && items.len() != 4 {
        None
    } else {
        match (uint_of_rlp(items[0]), uint_of_rlp(items[1]), uint_of_rlp(items[2])) {
            (Some(height), Some(view), Some(tag)) => match vote_of_parts(
                tag,
                if items.len() == 4 {
                    Some(items[3])
                } else {
                    None
                },
            ) {
                Some(vote) => Some(ViewVote { height, view, vote }),
                None => None,
            },
            _ => None,
        }
    }
}

/// The view vote that the bytes encode, if they encode one.
pub open spec fn decoded_view_vote(bytes: Seq<u8>) -> Option<ViewVote> {
    view_vote_of_items(items_of_rlp(bytes))
}

/// Appends one encoded item to a list under construction, and keeps account of
/// the list's size and of whether all of it is well formed.
fn append_item(stream: &mut rlp::RlpStream, item: &[u8])
    requires
        stream_items(*old(stream)).len() < stream_limit(*old(stream)),
    ensures
        stream_items(*final(stream)) == stream_items(*old(stream)).push(item@),
        stream_limit(*final(stream)) == stream_limit(*old(stream)),
        total_len(stream_items(*final(stream))) == total_len(stream_items(*old(stream)))
            + item@.len(),
        (forall|i: int|
            0 <= i < stream_items(*old(stream)).len() ==> rlp_is_item(
                #[trigger] stream_items(*old(stream))[i],
            )) && rlp_is_item(item@) ==> (forall|i: int|
            0 <= i < stream_items(*final(stream)).len() ==> rlp_is_item(
                #[trigger] stream_items(*final(stream))[i],
            )),
{
    proof {
        lemma_total_len_push(stream_items(*stream), item@);
    }
    stream_append_raw(stream, item);
}

impl ViewVote {
    /// The vote to abandon `view` at `height`.
    pub fn new_view_change(height: Height, view: ViewNumber) -> (v: ViewVote)
        ensures
            v == view_change_at(height, view),
    {
        ViewVote { height, view, vote: Vote::ViewChange }
    }

    /// The proposal of `block_hash` at `height` and `view`.
    pub fn new_proposal(height: Height, view: ViewNumber, block_hash: H256) -> (v: ViewVote)
        ensures
            v == proposal_at(height, view, block_hash),
    {
        ViewVote { height, view, vote: Vote::Proposal(block_hash) }
    }

    /// The vote for `block_hash` at `height` and `view`.
    pub fn new_vote(height: Height, view: ViewNumber, block_hash: H256) -> (v: ViewVote)
        ensures
            v == vote_at(height, view, block_hash),
    {
        ViewVote { height, view, vote: Vote::Vote(block_hash) }
    }

    /// The vote that leads into `view` at `height`: the vote to abandon the
    /// view before it. Nothing leads into the first view.
    pub fn leading_into(height: Height, view: ViewNumber) -> (v: Option<ViewVote>)
        ensures
            v == view_change_into(height, view),
    {
        if view == 0 {
            None
        } else {
            Some(ViewVote::new_view_change(height, view - 1))
        }
    }

    /// Whether the vote is cast at `height`.
    pub fn is_height(&self, height: Height) -> (at: bool)
        ensures
            at == (self.height == height),
    {
        self.height == height
    }

    /// Whether the vote is cast at `height` and `view`.
    pub fn is_view(&self, height: Height, view: ViewNumber) -> (at: bool)
        ensures
            at == (self.height == height && self.view == view),
    {
        self.height == height && self.view == view
    }

    /// Whether the vote is cast in the first view of its height.
    pub fn is_first_view(&self) -> (first: bool)
        ensures
            first == (self.view == 0),
    {
        self.view == 0
    }

    /// The view change at the same height and view.
    pub fn to_view_change(&self) -> (v: ViewVote)
        ensures
            v == view_change_at(self.height, self.view),
    {
        ViewVote::new_view_change(self.height, self.view)
    }

    /// Whether two view votes are equal, that is, aligned.
    pub fn same(&self, other: &ViewVote) -> (same: bool)
        ensures
            same == (*self == *other),
    {
        self.height == other.height && self.view == other.view && self.vote.same(&other.vote)
    }

    /// Whether `self` is cast before `(height, view)`: at a lower height, or at
    /// the same height in a lower view.
    pub open spec fn spec_before(&self, height: Height, view: ViewNumber) -> bool {
        self.height < height || (self.height == height && self.view < view)
    }

    /// Whether `self` is cast before `(height, view)`.
    pub fn before(&self, height: Height, view: ViewNumber) -> (earlier: bool)
        ensures
            earlier == self.spec_before(height, view),
    {
        self.height < height || (self.height == height && self.view < view)
    }

    /// Encodes the view vote for the wire. The encoding is a single item of at
    /// most 69 bytes, and decoding it gives the view vote back.
    pub fn encode(&self) -> (out: Vec<u8>)
        ensures
            out@ == view_vote_encoding(*self),
            out@.len() <= 69,
            rlp_is_item(out@),
            decoded_view_vote(out@) == Some(*self),
    {
        let height = encode_uint(self.height);
        let view = encode_uint(self.view);
        let tag = encode_uint(self.vote.tag());
        match self.vote.block_hash() {
            None => {
                let mut stream = stream_new_list(3);
                assert(total_len(stream_items(stream)) == 0);
                append_item(&mut stream, height.as_slice());
                append_item(&mut stream, view.as_slice());
                append_item(&mut stream, tag.as_slice());
                proof {
                    assert(stream_items(stream) =~= view_vote_items(*self));
                    assert(listable(stream_items(stream)));
                }
                stream_out(stream)
            },
            Some(hash) => {
                let block = encode_bytes(hash.as_slice());
                let mut stream = stream_new_list(4);
                assert(total_len(stream_items(stream)) == 0);
                append_item(&mut stream, height.as_slice());
                append_item(&mut stream, view.as_slice());
                append_item(&mut stream, tag.as_slice());
                append_item(&mut stream, block.as_slice());
                proof {
                    assert(stream_items(stream) =~= view_vote_items(*self));
                    assert(listable(stream_items(stream)));
                    lemma_hash_from_seq(hash);
                }
                stream_out(stream)
            },
        }
    }

    /// Decodes a view vote. Succeeds exactly on the bytes that encode one.
    pub fn decode(bytes: &[u8]) -> (v: Option<ViewVote>)
        ensures
            v == decoded_view_vote(bytes@),
    {
        let items = list_items(bytes);
        if items.len() != 3 && items.len() != 4 {
            return None;
        }
        let height = match decode_uint(items[0].as_slice()) {
            Ok(height) => height,
            Err(_) => {
                return None;
            },
        };
        let view = match decode_uint(items[1].as_slice()) {
            Ok(view) => view,
            Err(_) => {
                return None;
            },
        };
        let tag = match decode_uint(items[2].as_slice()) {
            Ok(tag) => tag,
            Err(_) => {
                return None;
            },
        };
        if items.len() == 3 {
            if tag == 0 {
                Some(ViewVote { height, view, vote: Vote::ViewChange })
            } else {
                None
            }
        } else {
            let bytes = match decode_bytes(items[3].as_slice()) {
                Ok(bytes) => bytes,
                Err(_) => {
                    return None;
                },
            };
            match hash_from_slice(bytes.as_slice()) {
                Some(hash) => if tag == 1 {
                    Some(ViewVote { height, view, vote: Vote::Proposal(hash) })
                } else if tag == 2 {
                    Some(ViewVote { height, view, vote: Vote::Vote(hash) })
                } else {
                    None
                },
                None => None,
            }
        }
    }

    /// The digest that a signature on this view vote signs.
    pub fn digest(&self) -> (digest: H256)
        ensures
            digest == view_vote_digest(*self),
    {
        let encoded = self.encode();
        keccak256(encoded.as_slice())
    }
}

/// The digest that the view-change signatures in the seal of a block at
/// `height` and `view` sign: that of the vote to abandon the view before. The
/// first view has none.
pub fn view_change_hash(height: Height, view: ViewNumber) -> (digest: Option<H256>)
    ensures
        digest == spec_view_change_hash(height, view),
{
    match ViewVote::leading_into(height, view) {
        Some(v) => Some(v.digest()),
        None => None,
    }
}

/// The digest that a vote signature for `block_hash` at `height` and `view` signs.
pub fn vote_hash(height: Height, view: ViewNumber, block_hash: H256) -> (digest: H256)
    ensures
        digest == spec_vote_hash(height, view, block_hash),
{
    ViewVote::new_vote(height, view, block_hash).digest()
}

/// The signatures of a seal's list, each encoded on its own.
pub open spec fn signature_items(signatures: Seq<Signature>) -> Seq<Seq<u8>> {
    Seq::new(signatures.len(), |i: int| rlp_of_bytes(signatures[i]@))
}

/// A list of signatures as it stands in a seal.
pub open spec fn signature_list(signatures: Seq<Signature>) -> Seq<u8> {
    rlp_of_list(signature_items(signatures))
}

/// Encodes a list of signatures for a seal.
pub fn encode_signatures(signatures: &Vec<Signature>) -> (out: Vec<u8>)
    ensures
        out@ == signature_list(signatures@),
{
    let mut stream = stream_new_list(signatures.len());
    let mut i: usize = 0;
    proof {
        assert(signature_items(signatures@.take(0)) =~= Seq::<Seq<u8>>::empty());
    }
    while i < signatures.len()
        invariant
            0 <= i <= signatures@.len(),
            stream_limit(stream) == signatures@.len(),
            stream_items(stream) == signature_items(signatures@.take(i as int)),
        decreases signatures@.len() - i,
    {
        let item = encode_bytes(signatures[i].as_slice());
        stream_append_raw(&mut stream, item.as_slice());
        proof {
            assert(signature_items(signatures@.take(i + 1)) =~= signature_items(
                signatures@.take(i as int),
            ).push(rlp_of_bytes(signatures@[i as int]@)));
        }
        i += 1;
    }
    proof {
        assert(signatures@.take(signatures@.len() as int) =~= signatures@);
    }
    stream_out(stream)
}

/// A view vote with its signature.
#[derive(Clone, Copy, Debug, PartialEq, Eq)]
pub struct AbabMessage {
    pub signature: Signature,
    pub view_vote: ViewVote,
}

/// A message on the wire.
pub open spec fn message_encoding(m: AbabMessage) -> Seq<u8> {
    rlp_of_list(seq![rlp_of_bytes(m.signature@), view_vote_encoding(m.view_vote)])
}

/// The message that the bytes encode, if they encode one: a list of a 65-byte
/// signature and a view vote.
pub open spec fn decoded_message(bytes: Seq<u8>) -> Option<AbabMessage> {
    let items = items_of_rlp(bytes);
    if items.len() != 2 {
        None
    } else {
        match (bytes_of_rlp(items[0]), decoded_view_vote(items[1])) {
            (Some(signature), Some(view_vote)) => if signature.len() == 65 {
                Some(AbabMessage { signature: signature_from_seq(signature), view_vote })
            } else {
                None
            },
            _ => None,
        }
    }
}

/// The account that signed a message, by the digest of its re-encoded view vote.
pub open spec fn message_signer(m: AbabMessage) -> Option<Address> {
    signer_of(m.signature, view_vote_digest(m.view_vote))
}

/// The account that signed a message, by the digest of the view vote as it
/// stands in `raw`, the bytes in which the message arrived.
pub open spec fn raw_message_signer(m: AbabMessage, raw: Seq<u8>) -> Option<Address> {
    if items_of_rlp(raw).len() < 2 {
        None
    } else {
        signer_of(m.signature, keccak256_of(items_of_rlp(raw)[1]))
    }
}

/// The consensus view that a header's seal names in its first field.
pub open spec fn header_view(header: &Header) -> Option<ViewNumber> {
    if header.seal.len() < 1 {
        None
    } else {
        uint_of_rlp(header.seal_fields()[0])
    }
}

/// The proposal signature that a header's seal holds in its second field.
pub open spec fn header_signature(header: &Header) -> Option<Signature> {
    if header.seal.len() < 2 {
        None
    } else {
        match bytes_of_rlp(header.seal_fields()[1]) {
            Some(bytes) => if bytes.len() == 65 {
                Some(signature_from_seq(bytes))
            } else {
                None
            },
            None => None,
        }
    }
}

/// The proposal that a header stands for: its number, the view and signature
/// from its seal, and its bare hash.
pub open spec fn header_proposal(header: &Header) -> Option<AbabMessage> {
    match (header_view(header), header_signature(header)) {
        (Some(view), Some(signature)) => Some(
            AbabMessage { signature, view_vote: proposal_at(header.number, view, header.bare_hash) },
        ),
        _ => None,
    }
}

impl AbabMessage {
    /// A message from its parts.
    pub fn new(signature: Signature, view_vote: ViewVote) -> (m: AbabMessage)
        ensures
            m == (AbabMessage { signature, view_vote }),
    {
        AbabMessage { signature, view_vote }
    }

    /// A signed vote to abandon `view` at `height`.
    pub fn new_view_change(signature: Signature, height: Height, view: ViewNumber) -> (m:
        AbabMessage)
        ensures
            m == (AbabMessage { signature, view_vote: view_change_at(height, view) }),
    {
        AbabMessage { signature, view_vote: ViewVote::new_view_change(height, view) }
    }

    /// A signed vote for `block_hash` at `height` and `view`.
    pub fn new_vote(signature: Signature, height: Height, view: ViewNumber, block_hash: H256) -> (m:
        AbabMessage)
        ensures
            m == (AbabMessage { signature, view_vote: vote_at(height, view, block_hash) }),
    {
        AbabMessage { signature, view_vote: ViewVote::new_vote(height, view, block_hash) }
    }

    /// The proposal that a header stands for. Fails with `Decoding` exactly where
    /// the seal lacks its first two fields or they do not hold a view and a
    /// 65-byte signature.
    pub fn new_proposal(header: &Header) -> (m: Result<AbabMessage, EngineError>)
        ensures
            match m {
                Ok(message) => header_proposal(header) == Some(message),
                Err(e) => e == EngineError::Decoding && header_proposal(header).is_none(),
            },
    {
        if header.seal.len() < 2 {
            return Err(EngineError::Decoding);
        }
        let view = match decode_uint(header.seal[0].as_slice()) {
            Ok(view) => view,
            Err(_) => {
                return Err(EngineError::Decoding);
            },
        };
        let bytes = match decode_bytes(header.seal[1].as_slice()) {
            Ok(bytes) => bytes,
            Err(_) => {
                return Err(EngineError::Decoding);
            },
        };
        match signature_from_slice(bytes.as_slice()) {
            Some(signature) => Ok(
                AbabMessage {
                    signature,
                    view_vote: ViewVote::new_proposal(header.number, view, header.bare_hash),
                },
            ),
            None => Err(EngineError::Decoding),
        }
    }

    /// The height the message is cast at.
    pub fn height(&self) -> (height: Height)
        ensures
            height == self.view_vote.height,
    {
        self.view_vote.height
    }

    /// The view the message is cast in.
    pub fn view(&self) -> (view: ViewNumber)
        ensures
            view == self.view_vote.view,
    {
        self.view_vote.view
    }

    /// Whether two messages carry the same view vote and the same signature.
    pub fn same(&self, other: &AbabMessage) -> (same: bool)
        ensures
            same == (*self == *other),
    {
        signature_eq(&self.signature, &other.signature) && self.view_vote.same(&other.view_vote)
    }

    /// Encodes the message for the wire. Decoding the result gives the message back.
    pub fn encode(&self) -> (out: Vec<u8>)
        ensures
            out@ == message_encoding(*self),
            decoded_message(out@) == Some(*self),
    {
        let signature = encode_bytes(self.signature.as_slice());
        let view_vote = self.view_vote.encode();
        let mut stream = stream_new_list(2);
        assert(total_len(stream_items(stream)) == 0);
        append_item(&mut stream, signature.as_slice());
        append_item(&mut stream, view_vote.as_slice());
        proof {
            assert(stream_items(stream) =~= seq![
                rlp_of_bytes(self.signature@),
                view_vote_encoding(self.view_vote),
            ]);
            assert(listable(stream_items(stream)));
            lemma_signature_from_seq(self.signature);
        }
        stream_out(stream)
    }

    /// Decodes a message. Fails, with `Decoding`, exactly on bytes that encode none.
    pub fn decode(bytes: &[u8]) -> (m: Result<AbabMessage, EngineError>)
        ensures
            match m {
                Ok(message) => decoded_message(bytes@) == Some(message),
                Err(e) => e == EngineError::Decoding && decoded_message(bytes@).is_none(),
            },
    {
        let items = list_items(bytes);
        if items.len() != 2 {
            return Err(EngineError::Decoding);
        }
        let signature = match decode_bytes(items[0].as_slice()) {
            Ok(signature) => signature,
            Err(_) => {
                return Err(EngineError::Decoding);
            },
        };
        let view_vote = match ViewVote::decode(items[1].as_slice()) {
            Some(view_vote) => view_vote,
            None => {
                return Err(EngineError::Decoding);
            },
        };
        match signature_from_slice(signature.as_slice()) {
            Some(signature) => Ok(AbabMessage { signature, view_vote }),
            None => Err(EngineError::Decoding),
        }
    }

    /// Recovers the account that signed `digest` with this message's signature.
    pub fn verify_hash(&self, digest: &H256) -> (signer: Result<Address, EngineError>)
        ensures
            match signer {
                Ok(a) => signer_of(self.signature, *digest) == Some(a),
                Err(e) => e == EngineError::InvalidSignature && signer_of(
                    self.signature,
                    *digest,
                ).is_none(),
            },
    {
        match recover(&self.signature, digest) {
            Some(a) => Ok(a),
            None => Err(EngineError::InvalidSignature),
        }
    }

    /// Recovers the signer from the signature and the view vote, encoded anew.
    pub fn verify(&self) -> (signer: Result<Address, EngineError>)
        ensures
            match signer {
                Ok(a) => message_signer(*self) == Some(a),
                Err(e) => e == EngineError::InvalidSignature && message_signer(*self).is_none(),
            },
    {
        let digest = self.view_vote.digest();
        self.verify_hash(&digest)
    }

    /// Recovers the signer from the signature and the view vote as it stands in
    /// `raw`, the bytes in which the message arrived.
    pub fn verify_raw(&self, raw: &[u8]) -> (signer: Result<Address, EngineError>)
        ensures
            match signer {
                Ok(a) => raw_message_signer(*self, raw@) == Some(a),
                Err(e) => raw_message_signer(*self, raw@).is_none() && e == (if items_of_rlp(
                    raw@,
                ).len() < 2 {
                    EngineError::Decoding
                } else {
                    EngineError::InvalidSignature
                }),
            },
    {
        let items = list_items(raw);
        if items.len() < 2 {
            return Err(EngineError::Decoding);
        }
        let digest = keccak256(items[1].as_slice());
        self.verify_hash(&digest)
    }
}

} // verus!
