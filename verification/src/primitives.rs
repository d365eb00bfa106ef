//! Fixed-size byte values shared by the whole engine, and how they compare.
use vstd::prelude::*;

verus! {

/// A validator's account: the low twenty bytes of the hash of its public key.
pub type Address = [u8; 20];

/// A 32-byte digest.
pub type H256 = [u8; 32];

/// A recoverable signature: 64 compact bytes followed by the recovery id.
pub type Signature = [u8; 65];

/// A 32-byte signing key.
pub type Secret = [u8; 32];

/// Position of a block in the chain.
pub type Height = u64;

/// Number of the consensus attempt within one height.
pub type ViewNumber = u64;

/// The views of a list of byte strings.
pub open spec fn views_of(items: Seq<Vec<u8>>) -> Seq<Seq<u8>> {
    Seq::new(items.len(), |i: int| items[i]@)
}

/// Lexicographic order on addresses: at the first byte that differs, `a` has the smaller one.
#[verifier::opaque]
pub open spec fn address_less(a: Address, b: Address) -> bool {
    exists|k: int|
        0 <= k < 20 && (forall|j: int| 0 <= j < k ==> a@[j] == b@[j]) && #[trigger] a@[k] < b@[k]
}

/// The order on addresses never holds both ways, nor of an address and itself.
pub proof fn lemma_address_less_asymmetric(a: Address, b: Address)
    requires
        address_less(a, b),
    ensures
        !address_less(b, a),
        a != b,
{
    reveal(address_less);
    let k = choose|k: int|
        0 <= k < 20 && (forall|j: int| 0 <= j < k ==> a@[j] == b@[j]) && #[trigger] a@[k] < b@[k];
    if address_less(b, a) {
        let m = choose|m: int|
            0 <= m < 20 && (forall|j: int| 0 <= j < m ==> b@[j] == a@[j]) && #[trigger] b@[m]
                < a@[m];
        if m < k {
            assert(a@[m] == b@[m]);
        } else if k < m {
            assert(b@[k] == a@[k]);
        }
    }
}

/// The order on addresses is transitive.
pub proof fn lemma_address_less_transitive(a: Address, b: Address, c: Address)
    requires
        address_less(a, b),
        address_less(b, c),
    ensures
        address_less(a, c),
{
    reveal(address_less);
    let k = choose|k: int|
        0 <= k < 20 && (forall|j: int| 0 <= j < k ==> a@[j] == b@[j]) && #[trigger] a@[k] < b@[k];
    let m = choose|m: int|
        0 <= m < 20 && (forall|j: int| 0 <= j < m ==> b@[j] == c@[j]) && #[trigger] b@[m] < c@[m];
    let n = if k <= m { k } else { m };
    assert(forall|j: int| 0 <= j < n ==> a@[j] == c@[j]);
    assert(a@[n] < c@[n]);
}

/// The digest whose bytes are `bytes`; meaningful for 32 bytes.
pub open spec fn hash_from_seq(bytes: Seq<u8>) -> H256 {
    choose|h: H256| h@ == bytes
}

/// A digest is the digest of its own bytes.
pub proof fn lemma_hash_from_seq(h: H256)
    ensures
        hash_from_seq(h@) == h,
{
    let c = hash_from_seq(h@);
    assert(c@ == h@);
    assert(c =~= h);
}

/// The signature whose bytes are `bytes`; meaningful for 65 bytes.
pub open spec fn signature_from_seq(bytes: Seq<u8>) -> Signature {
    choose|s: Signature| s@ == bytes
}

/// A signature is the signature of its own bytes.
pub proof fn lemma_signature_from_seq(s: Signature)
    ensures
        signature_from_seq(s@) == s,
{
    let c = signature_from_seq(s@);
    assert(c@ == s@);
    assert(c =~= s);
}

/// Reads a digest from exactly 32 bytes.
pub fn hash_from_slice(bytes: &[u8]) -> (hash: Option<H256>)
    ensures
        hash.is_some() == (bytes@.len() == 32),
        hash.is_some() ==> hash.unwrap() == hash_from_seq(bytes@) && hash.unwrap()@ == bytes@,
{
    if bytes.len() != 32 {
        return None;
    }
    let mut hash: H256 = [0u8; 32];
    let mut i: usize = 0;
    while i < 32
        invariant
            0 <= i <= 32,
            bytes@.len() == 32,
            forall|k: int| 0 <= k < i ==> hash@[k] == bytes@[k],
        decreases 32 - i,
    {
        hash[i] = bytes[i];
        i += 1;
    }
    proof {
        assert(hash@ =~= bytes@);
        lemma_hash_from_seq(hash);
    }
    Some(hash)
}

/// Reads a signature from exactly 65 bytes.
pub fn signature_from_slice(bytes: &[u8]) -> (signature: Option<Signature>)
    ensures
        signature.is_some() == (bytes@.len() == 65),
        signature.is_some() ==> signature.unwrap() == signature_from_seq(bytes@)
            && signature.unwrap()@ == bytes@,
{
    if bytes.len() != 65 {
        return None;
    }
    let mut signature: Signature = [0u8; 65];
    let mut i: usize = 0;
    while i < 65
        invariant
            0 <= i <= 65,
            bytes@.len() == 65,
            forall|k: int| 0 <= k < i ==> signature@[k] == bytes@[k],
        decreases 65 - i,
    {
        signature[i] = bytes[i];
        i += 1;
    }
    proof {
        assert(signature@ =~= bytes@);
        lemma_signature_from_seq(signature);
    }
    Some(signature)
}

/// Of two different addresses one comes before the other, once the bytes
/// before position `from` are known to agree.
pub proof fn lemma_address_less_total_from(a: Address, b: Address, from: int)
    requires
        a != b,
        0 <= from <= 20,
        forall|j: int| 0 <= j < from ==> a@[j] == b@[j],
    ensures
        address_less(a, b) || address_less(b, a),
    decreases 20 - from,
{
    reveal(address_less);
    if from == 20 {
        assert(a =~= b);
    } else if a@[from] < b@[from] {
        assert(address_less(a, b));
    } else if b@[from] < a@[from] {
        assert(address_less(b, a));
    } else {
        lemma_address_less_total_from(a, b, from + 1);
    }
}

/// Of two different addresses one comes before the other.
pub proof fn lemma_address_less_total(a: Address, b: Address)
    requires
        a != b,
    ensures
        address_less(a, b) || address_less(b, a),
{
    lemma_address_less_total_from(a, b, 0);
}

/// Whether two byte strings hold the same bytes.
pub fn bytes_eq(a: &[u8], b: &[u8]) -> (same: bool)
    ensures
        same == (a@ == b@),
{
    if a.len() != b.len() {
        return false;
    }
    let mut i: usize = 0;
    while i < a.len()
        invariant
            a@.len() == b@.len(),
            0 <= i <= a@.len(),
            forall|j: int| 0 <= j < i ==> a@[j] == b@[j],
        decreases a@.len() - i,
    {
        if a[i] != b[i] {
            return false;
        }
        i += 1;
    }
    assert(a@ =~= b@);
    true
}

/// Whether two addresses are the same account.
pub fn address_eq(a: &Address, b: &Address) -> (same: bool)
    ensures
        same == (*a == *b),
{
    let same = bytes_eq(a.as_slice(), b.as_slice());
    proof {
        if same {
            assert(*a =~= *b);
        }
    }
    same
}

/// Whether two digests are the same.
pub fn hash_eq(a: &H256, b: &H256) -> (same: bool)
    ensures
        same == (*a == *b),
{
    let same = bytes_eq(a.as_slice(), b.as_slice());
    proof {
        if same {
            assert(*a =~= *b);
        }
    }
    same
}

/// Whether two signatures hold the same bytes.
pub fn signature_eq(a: &Signature, b: &Signature) -> (same: bool)
    ensures
        same == (*a == *b),
{
    let same = bytes_eq(a.as_slice(), b.as_slice());
    proof {
        if same {
            assert(*a =~= *b);
        }
    }
    same
}

/// Whether `a` comes before `b` in the order on addresses.
pub fn address_is_less(a: &Address, b: &Address) -> (less: bool)
    ensures
        less == address_less(*a, *b),
{
    proof {
        reveal(address_less);
    }
    let mut i: usize = 0;
    while i < 20
        invariant
            0 <= i <= 20,
            forall|j: int| 0 <= j < i ==> a@[j] == b@[j],
        decreases 20 - i,
    {
        proof {
            reveal(address_less);
        }
        if a[i] < b[i] {
            assert(a@[i as int] < b@[i as int]);
            return true;
        }
        if a[i] > b[i] {
            proof {
                if address_less(*a, *b) {
                    let k = choose|k: int|
                        0 <= k < 20 && (forall|j: int| 0 <= j < k ==> a@[j] == b@[j])
                            && #[trigger] a@[k] < b@[k];
                    if k > i {
                        assert(a@[i as int] == b@[i as int]);
                    }
                }
            }
            return false;
        }
        i += 1;
    }
    false
}

/// A copy of a byte string.
pub fn bytes_to_vec(bytes: &[u8]) -> (copy: Vec<u8>)
    ensures
        copy@ == bytes@,
{
    let mut copy: Vec<u8> = Vec::new();
    let mut i: usize = 0;
    while i < bytes.len()
        invariant
            0 <= i <= bytes@.len(),
            copy@ == bytes@.take(i as int),
        decreases bytes@.len() - i,
    {
        copy.push(bytes[i]);
        proof {
            assert(bytes@.take(i + 1) =~= bytes@.take(i as int).push(bytes@[i as int]));
        }
        i += 1;
    }
    proof {
        assert(bytes@.take(bytes@.len() as int) =~= bytes@);
    }
    copy
}

} // verus!
