//! Recursive-length-prefix encoding, as the `rlp` crate computes it.
//!
//! Nothing in this module is proved: every function here hands its arguments to
//! `rlp` and its contract says what that crate returns. The encodings themselves
//! are named rather than spelled out; beside the names stand the facts that the
//! rest of the library builds on: what was encoded decodes to itself.
use vstd::prelude::*;
use crate::primitives::views_of;

verus! {

/// `rlp::RlpStream`, the crate's builder of encodings, kept opaque.
#[verifier::external_type_specification]
#[verifier::external_body]
pub struct ExRlpStream(rlp::RlpStream);

/// `rlp::DecoderError`, the crate's reason for refusing bytes, kept opaque.
#[verifier::external_type_specification]
#[verifier::external_body]
pub struct ExDecoderError(rlp::DecoderError);

/// What `rlp::encode` returns for an unsigned integer.
pub uninterp spec fn rlp_of_uint(value: u64) -> Seq<u8>;

/// What `rlp::encode` returns for a byte string.
pub uninterp spec fn rlp_of_bytes(bytes: Seq<u8>) -> Seq<u8>;

/// What `rlp::RlpStream::out` returns for a list into which `items`, each already
/// encoded, were appended in this order.
pub uninterp spec fn rlp_of_list(items: Seq<Seq<u8>>) -> Seq<u8>;

/// What `rlp::decode` returns for an unsigned integer, its error dropped.
pub uninterp spec fn uint_of_rlp(bytes: Seq<u8>) -> Option<u64>;

/// What `rlp::decode` returns for a byte string, its error dropped.
pub uninterp spec fn bytes_of_rlp(bytes: Seq<u8>) -> Option<Seq<u8>>;

/// The encoded items that `rlp::Rlp::iter` yields, in order.
pub uninterp spec fn items_of_rlp(bytes: Seq<u8>) -> Seq<Seq<u8>>;

/// Whether the bytes are one encoded item and nothing more: a header that
/// `rlp::Rlp::payload_info` accepts, followed by exactly the payload it announces.
pub uninterp spec fn rlp_is_item(bytes: Seq<u8>) -> bool;

/// The encoded items appended so far to the list that a stream is building.
pub uninterp spec fn stream_items(stream: rlp::RlpStream) -> Seq<Seq<u8>>;

/// The number of items that a stream's list was declared with.
pub uninterp spec fn stream_limit(stream: rlp::RlpStream) -> nat;

/// The number of bytes in all the items together.
pub open spec fn total_len(items: Seq<Seq<u8>>) -> nat
    decreases items.len(),
{
    if items.len() == 0 {
        0
    } else {
        total_len(items.drop_last()) + items.last().len()
    }
}

/// Items that a list can hold and give back: each is one encoded item, and
/// together they fit the four bytes in which the crate writes a length.
pub open spec fn listable(items: Seq<Seq<u8>>) -> bool {
    &&& total_len(items) <= 0xffff_ffff
    &&& forall|i: int| 0 <= i < items.len() ==> rlp_is_item(#[trigger] items[i])
}

/// Calls `rlp::encode` on an integer. The result is one item of at most nine
/// bytes (one for the header, eight for the value), and decodes to the integer.
#[verifier::external_body]
pub(crate) fn encode_uint(value: u64) -> (out: Vec<u8>)
    ensures
        out@ == rlp_of_uint(value),
        out@.len() <= 9,
        rlp_is_item(out@),
        uint_of_rlp(out@) == Some(value),
{
    rlp::encode(&value).to_vec()
}

/// Calls `rlp::encode` on a byte string. The header takes at most five bytes. A
/// string whose length fits in four bytes becomes one item that decodes to the
/// string; the crate cuts longer lengths short, so nothing is said of those.
#[verifier::external_body]
pub(crate) fn encode_bytes(bytes: &[u8]) -> (out: Vec<u8>)
    ensures
        out@ == rlp_of_bytes(bytes@),
        out@.len() <= bytes@.len() + 5,
        bytes@.len() <= 0xffff_ffff ==> rlp_is_item(out@) && bytes_of_rlp(out@) == Some(bytes@),
{
    rlp::encode(&bytes).to_vec()
}

/// Calls `rlp::EMPTY_LIST_RLP`: the encoding of the list without items is the
/// single byte `0xc0`.
#[verifier::external_body]
pub(crate) fn empty_list() -> (out: Vec<u8>)
    ensures
        out@ == seq![0xc0u8],
{
    rlp::EMPTY_LIST_RLP.to_vec()
}

/// Calls `rlp::RlpStream::new_list`: a stream that builds one list of `len`
/// items and holds none yet.
#[verifier::external_body]
pub(crate) fn stream_new_list(len: usize) -> (stream: rlp::RlpStream)
    ensures
        stream_items(stream) == Seq::<Seq<u8>>::empty(),
        stream_limit(stream) == len,
{
    rlp::RlpStream::new_list(len)
}

/// Calls `rlp::RlpStream::append_raw` with one already encoded item. The crate
/// panics on an item beyond the declared number, and fails silently once the
/// list is complete, so the list must still have room.
#[verifier::external_body]
pub(crate) fn stream_append_raw(stream: &mut rlp::RlpStream, item: &[u8])
    requires
        stream_items(*old(stream)).len() < stream_limit(*old(stream)),
    ensures
        stream_items(*final(stream)) == stream_items(*old(stream)).push(item@),
        stream_limit(*final(stream)) == stream_limit(*old(stream)),
{
    stream.append_raw(item, 1);
}

/// Calls `rlp::RlpStream::out`, which panics unless the list is complete. The
/// header takes at most five bytes. Where the items are `listable`, the result is
/// itself one item, and iterating over it gives the items back.
#[verifier::external_body]
pub(crate) fn stream_out(stream: rlp::RlpStream) -> (out: Vec<u8>)
    requires
        stream_items(stream).len() == stream_limit(stream),
    ensures
        out@ == rlp_of_list(stream_items(stream)),
        out@.len() <= total_len(stream_items(stream)) + 5,
        listable(stream_items(stream)) ==> rlp_is_item(out@) && items_of_rlp(out@) == stream_items(
            stream,
        ),
{
    stream.out().to_vec()
}

/// Calls `rlp::decode` for an unsigned integer.
#[verifier::external_body]
pub(crate) fn decode_uint(bytes: &[u8]) -> (out: Result<u64, rlp::DecoderError>)
    ensures
        match out {
            Ok(value) => uint_of_rlp(bytes@) == Some(value),
            Err(_) => uint_of_rlp(bytes@).is_none(),
        },
{
    rlp::decode::<u64>(bytes)
}

/// Calls `rlp::decode` for a byte string.
#[verifier::external_body]
pub(crate) fn decode_bytes(bytes: &[u8]) -> (out: Result<Vec<u8>, rlp::DecoderError>)
    ensures
        match out {
            Ok(value) => bytes_of_rlp(bytes@) == Some(value@),
            Err(_) => bytes_of_rlp(bytes@).is_none(),
        },
{
    rlp::decode::<Vec<u8>>(bytes)
}

/// Calls `rlp::Rlp::iter` and copies out each item it yields, header included.
/// Bytes that are no list, and a list broken from its first item on, yield none.
#[verifier::external_body]
pub(crate) fn list_items(bytes: &[u8]) -> (out: Vec<Vec<u8>>)
    ensures
        views_of(out@) == items_of_rlp(bytes@),
{
    rlp::Rlp::new(bytes).iter().map(|item| item.as_raw().to_vec()).collect()
}

/// The length of a list grown by one item.
pub proof fn lemma_total_len_push(items: Seq<Seq<u8>>, item: Seq<u8>)
    ensures
        total_len(items.push(item)) == total_len(items) + item.len(),
{
    assert(items.push(item).drop_last() =~= items);
}

} // verus!
