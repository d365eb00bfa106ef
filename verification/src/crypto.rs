//! Hashing and recoverable signatures, as `tiny-keccak` and `secp256k1` compute them.
use vstd::prelude::*;
use crate::primitives::{Address, H256, Secret, Signature};

verus! {

/// `secp256k1::Error`, the crate's reason for refusing a key or a signature, kept opaque.
#[verifier::external_type_specification]
#[verifier::external_body]
pub struct ExSecpError(secp256k1::Error);

/// The Keccak-256 digest that `tiny_keccak` computes of the bytes.
pub uninterp spec fn keccak256_of(bytes: Seq<u8>) -> H256;

/// The public key, in its 65-byte uncompressed form, that
/// `secp256k1::ecdsa::RecoverableSignature::recover_ecdsa` finds for a signature
/// and the digest it signs; `None` where the crate refuses the signature.
pub uninterp spec fn recovered_key_of(signature: Signature, digest: H256) -> Option<[u8; 65]>;

/// The signature that `secp256k1::ecdsa::RecoverableSignature::sign_ecdsa_recoverable`
/// makes of a digest with a key; `None` where the crate refuses the key.
pub uninterp spec fn signature_of(secret: Secret, digest: H256) -> Option<Signature>;

/// Feeds the bytes to `tiny_keccak::Keccak::v256` and takes the digest.
#[verifier::external_body]
pub(crate) fn keccak256(bytes: &[u8]) -> (digest: H256)
    ensures
        digest == keccak256_of(bytes@),
{
    let mut hasher = tiny_keccak::Keccak::v256();
    let mut digest = [0u8; 32];
    tiny_keccak::Hasher::update(&mut hasher, bytes);
    tiny_keccak::Hasher::finalize(hasher, &mut digest);
    digest
}

/// Reads the signature as 64 compact bytes and a recovery id, and calls
/// `recover_ecdsa` on it with the digest. The key comes back uncompressed.
#[verifier::external_body]
pub(crate) fn recover_key(signature: &Signature, digest: &H256) -> (key: Result<
    [u8; 65],
    secp256k1::Error,
>)
    ensures
        match key {
            Ok(k) => recovered_key_of(*signature, *digest) == Some(k),
            Err(_) => recovered_key_of(*signature, *digest).is_none(),
        },
{
    let id = secp256k1::ecdsa::RecoveryId::try_from(i32::from(signature[64]))?;
    let parsed = secp256k1::ecdsa::RecoverableSignature::from_compact(&signature[..64], id)?;
    let key = parsed.recover_ecdsa(secp256k1::Message::from_digest(*digest))?;
    Ok(key.serialize_uncompressed())
}

/// Calls `sign_ecdsa_recoverable` on the digest with the key, which draws its
/// nonce from both as RFC 6979 says. The signature comes back as 64 compact
/// bytes followed by the recovery id.
#[verifier::external_body]
pub(crate) fn sign_with(secret: &Secret, digest: &H256) -> (signature: Result<
    Signature,
    secp256k1::Error,
>)
    ensures
        match signature {
            Ok(s) => signature_of(*secret, *digest) == Some(s),
            Err(_) => signature_of(*secret, *digest).is_none(),
        },
{
    let key = secp256k1::SecretKey::from_secret_bytes(*secret)?;
    let message = secp256k1::Message::from_digest(*digest);
    let signed = secp256k1::ecdsa::RecoverableSignature::sign_ecdsa_recoverable(message, &key);
    let (id, compact) = signed.serialize_compact();
    let mut signature = [0u8; 65];
    signature[..64].copy_from_slice(&compact);
    signature[64] = id.to_u8();
    Ok(signature)
}

/// The address whose bytes are `bytes`; meaningful for twenty bytes.
pub open spec fn address_from_seq(bytes: Seq<u8>) -> Address {
    choose|a: Address| a@ == bytes
}

/// An address is the address of its own bytes.
pub proof fn lemma_address_from_seq(a: Address)
    ensures
        address_from_seq(a@) == a,
{
    let c = address_from_seq(a@);
    assert(c@ == a@);
    assert(c =~= a);
}

/// The account of a public key: the last twenty bytes of the digest of the key
/// without its leading format byte.
pub open spec fn key_address(key: [u8; 65]) -> Address {
    address_from_seq(keccak256_of(key@.subrange(1, 65))@.subrange(12, 32))
}

/// The account that signed `digest` with `signature`, if the signature is one.
pub open spec fn signer_of(signature: Signature, digest: H256) -> Option<Address> {
    match recovered_key_of(signature, digest) {
        Some(key) => Some(key_address(key)),
        None => None,
    }
}

/// The account of a public key.
pub fn public_to_address(key: &[u8; 65]) -> (address: Address)
    ensures
        address == key_address(*key),
{
    let mut body: Vec<u8> = Vec::new();
    let mut i: usize = 1;
    while i < 65
        invariant
            1 <= i <= 65,
            body@ == key@.subrange(1, i as int),
        decreases 65 - i,
    {
        body.push(key[i]);
        proof {
            assert(key@.subrange(1, i + 1) =~= key@.subrange(1, i as int).push(key@[i as int]));
        }
        i += 1;
    }
    let digest = keccak256(body.as_slice());
    let mut address: Address = [0u8; 20];
    let mut j: usize = 0;
    while j < 20
        invariant
            0 <= j <= 20,
            forall|k: int| 0 <= k < j ==> address@[k] == digest@[12 + k],
        decreases 20 - j,
    {
        address[j] = digest[12 + j];
        j += 1;
    }
    proof {
        assert(address@ =~= digest@.subrange(12, 32));
        lemma_address_from_seq(address);
    }
    address
}

/// Recovers the account that signed `digest`. Fails exactly where the signature
/// is none that the curve library accepts.
pub fn recover(signature: &Signature, digest: &H256) -> (signer: Option<Address>)
    ensures
        signer == signer_of(*signature, *digest),
{
    match recover_key(signature, digest) {
        Ok(key) => Some(public_to_address(&key)),
        Err(_) => None,
    }
}

/// Signs `digest` with `secret`. Fails exactly where the curve library refuses the key.
pub fn sign(secret: &Secret, digest: &H256) -> (signature: Option<Signature>)
    ensures
        signature == signature_of(*secret, *digest),
{
    match sign_with(secret, digest) {
        Ok(s) => Some(s),
        Err(_) => None,
    }
}

} // verus!
