//! Digests and keys.
use vstd::prelude::*;

use crate::ids::Id;

verus! {

/// The SHA-256 digest of `bytes`.
pub uninterp spec fn sha256_digest(bytes: Seq<u8>) -> Seq<u8>;

/// `sha2::Sha256::digest`: the digest of `bytes`, which depends on nothing
/// else.
#[verifier::external_body]
pub(crate) fn sha256(bytes: &[u8]) -> (r: [u8; 32])
    ensures
        r@ == sha256_digest(bytes@),
{
    <sha2::Sha256 as sha2::Digest>::digest(bytes).into()
}

/// The id of `bytes`: their digest.
pub fn digest_id(bytes: &[u8]) -> (r: Id)
    ensures
        r@ == sha256_digest(bytes@),
{
    Id { bytes: sha256(bytes) }
}

/// The uncompressed form of the BLS public key that `compressed` encodes, if
/// it encodes a valid one.
pub uninterp spec fn bls_expanded(compressed: Seq<u8>) -> Option<Seq<u8>>;

/// `blst::min_pk::PublicKey::key_validate`, then `serialize`: the uncompressed
/// form of the key encoded by `compressed`. There is none where the bytes do
/// not encode a point of the group other than infinity.
#[verifier::external_body]
fn bls_expand(compressed: &[u8; 48]) -> (r: Option<[u8; 96]>)
    ensures
        r is Some <==> bls_expanded(compressed@) is Some,
        r matches Some(u) ==> bls_expanded(compressed@) == Some(u@),
{
    match blst::min_pk::PublicKey::key_validate(compressed) {
        Ok(key) => Some(key.serialize()),
        Err(_) => None,
    }
}

/// The compressed form of the BLS public key that `uncompressed` encodes, if
/// it encodes a point of the curve.
pub uninterp spec fn bls_compacted(uncompressed: Seq<u8>) -> Option<Seq<u8>>;

/// `blst::min_pk::PublicKey::deserialize`, then `compress`: the compressed
/// form of the key encoded by `uncompressed`.
#[verifier::external_body]
fn bls_compact(uncompressed: &[u8]) -> (r: Option<[u8; 48]>)
    ensures
        r is Some <==> bls_compacted(uncompressed@) is Some,
        r matches Some(c) ==> bls_compacted(uncompressed@) == Some(c@),
{
    match blst::min_pk::PublicKey::deserialize(uncompressed) {
        Ok(key) => Some(key.compress()),
        Err(_) => None,
    }
}

/// Whether `proof` is a BLS signature of `message` under the key that
/// `compressed` encodes, in the ciphersuite `suite`.
pub uninterp spec fn bls_signed(
    compressed: Seq<u8>,
    proof: Seq<u8>,
    message: Seq<u8>,
    suite: Seq<u8>,
) -> bool;

/// `blst::min_pk::Signature::verify`: whether `proof` is a signature of
/// `message` under the key that `compressed` encodes, in the ciphersuite
/// `suite`. Bytes that encode no key or no signature verify nothing.
#[verifier::external_body]
fn bls_verify(compressed: &[u8; 48], proof: &[u8; 96], message: &[u8], suite: &[u8]) -> (r: bool)
    ensures
        r == bls_signed(compressed@, proof@, message@, suite@),
{
    match (
        blst::min_pk::PublicKey::from_bytes(compressed),
        blst::min_pk::Signature::from_bytes(proof),
    ) {
        (Ok(key), Ok(sig)) => sig.verify(true, message, suite, &[], &key, true)
            == blst::BLST_ERROR::BLST_SUCCESS,
        _ => false,
    }
}

/// A BLS public key, in both of its encodings.
#[derive(Clone, Copy, Debug, PartialEq, Eq)]
pub struct PublicKey {
    /// The compressed form.
    pub compressed: [u8; 48],
    /// The uncompressed form.
    pub uncompressed: [u8; 96],
}

impl PublicKey {
    /// The key that `bytes` encode in compressed form.
    pub fn from_compressed(bytes: &[u8; 48]) -> (r: Option<PublicKey>)
        ensures
            r is Some <==> bls_expanded(bytes@) is Some,
            r matches Some(k) ==> k.compressed@ == bytes@ && bls_expanded(bytes@) == Some(
                k.uncompressed@,
            ),
    {
        match bls_expand(bytes) {
            Some(uncompressed) => Some(PublicKey { compressed: *bytes, uncompressed }),
            None => None,
        }
    }

    /// The key that `bytes` encode in uncompressed form.
    pub fn from_uncompressed(bytes: &[u8]) -> (r: Option<PublicKey>)
        ensures
            r is Some <==> bytes@.len() == 96 && bls_compacted(bytes@) is Some,
            r matches Some(k) ==> k.uncompressed@ == bytes@ && bls_compacted(bytes@) == Some(
                k.compressed@,
            ),
    {
        if bytes.len() != 96 {
            return None;
        }
        let mut uncompressed: [u8; 96] = [0u8; 96];
        let mut i: usize = 0;
        while i < 96
            invariant
                i <= 96,
                bytes@.len() == 96,
                forall|j: int| 0 <= j < i ==> uncompressed@[j] == bytes@[j],
            decreases 96 - i,
        {
            uncompressed[i] = bytes[i];
            i += 1;
        }
        assert(uncompressed@ =~= bytes@);
        match bls_compact(bytes) {
            Some(compressed) => Some(PublicKey { compressed, uncompressed }),
            None => None,
        }
    }

    /// The compressed form.
    pub fn compress(&self) -> (r: [u8; 48])
        ensures
            r == self.compressed,
    {
        self.compressed
    }

    /// The uncompressed form.
    pub fn serialize(&self) -> (r: [u8; 96])
        ensures
            r == self.uncompressed,
    {
        self.uncompressed
    }
}

/// The ciphersuite that proofs of possession are made in.
pub open spec fn pop_suite() -> Seq<u8> {
    vstd::utf8::encode_utf8("BLS_POP_BLS12381G2_XMD:SHA-256_SSWU_RO_POP_"@)
}

/// Whether `proof` proves possession of the key that `public_key` encodes: a
/// signature over `message` in the ciphersuite of such proofs.
pub fn verify_pop(public_key: &[u8; 48], proof: &[u8; 96], message: &[u8]) -> (r: bool)
    ensures
        r == bls_signed(public_key@, proof@, message@, pop_suite()),
{
    let suite = "BLS_POP_BLS12381G2_XMD:SHA-256_SSWU_RO_POP_";
    bls_verify(public_key, proof, message, suite.as_bytes())
}

} // verus!
