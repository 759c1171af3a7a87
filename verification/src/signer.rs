//! The BLS key that a staker declares, with the proof that it holds it.
use vstd::prelude::*;

use crate::codec::{be, lemma_concat, lemma_pow256, lemma_rd_be, lemma_rd_be_sound, lemma_rd_fixed, lemma_rd_fixed_sound, push_fixed, push_u32, rd_be, rd_fixed, CodecError, Reader};
use crate::collections::ordmap::Dup;
use crate::crypto::{bls_expanded, bls_signed, pop_suite, verify_pop, PublicKey};
use crate::error::{Error, Result as ChainResult};
use crate::wire::{de_fixed, Read, Wire};

verus! {

/// The length of a compressed public key.
pub const PUBLIC_KEY_LEN: usize = 48;

/// The length of a signature.
pub const SIGNATURE_LEN: usize = 96;

/// A compressed public key, and a signature over it that proves possession.
#[derive(Clone, Copy, Debug, PartialEq, Eq)]
pub struct ProofOfPossession {
    /// The compressed public key.
    pub public_key: [u8; 48],
    /// The signature over the key.
    pub proof: [u8; 96],
}

/// What a [`ProofOfPossession`] holds.
#[verifier::ext_equal]
pub struct ProofOfPossessionView {
    /// The compressed public key.
    pub public_key: Seq<u8>,
    /// The signature over the key.
    pub proof: Seq<u8>,
}

impl View for ProofOfPossession {
    type V = ProofOfPossessionView;

    open spec fn view(&self) -> ProofOfPossessionView {
        ProofOfPossessionView { public_key: self.public_key@, proof: self.proof@ }
    }
}

impl Dup for ProofOfPossession {
    fn dup(&self) -> (r: ProofOfPossession) {
        *self
    }
}

/// The first 48 bytes of `s`.
fn array_48(s: &[u8]) -> (r: [u8; 48])
    requires
        s@.len() == 48,
    ensures
        r@ == s@,
{
    let mut out: [u8; 48] = [0u8; 48];
    let mut i: usize = 0;
    while i < 48
        invariant
            i <= 48,
            s@.len() == 48,
            forall|j: int| 0 <= j < i ==> out@[j] == s@[j],
        decreases 48 - i,
    {
        out[i] = s[i];
        i += 1;
    }
    assert(out@ =~= s@);
    out
}

/// The first 96 bytes of `s`.
fn array_96(s: &[u8]) -> (r: [u8; 96])
    requires
        s@.len() == 96,
    ensures
        r@ == s@,
{
    let mut out: [u8; 96] = [0u8; 96];
    let mut i: usize = 0;
    while i < 96
        invariant
            i <= 96,
            s@.len() == 96,
            forall|j: int| 0 <= j < i ==> out@[j] == s@[j],
        decreases 96 - i,
    {
        out[i] = s[i];
        i += 1;
    }
    assert(out@ =~= s@);
    out
}

/// The bytes of a BLS signature.
#[derive(Clone, Copy, Debug, PartialEq, Eq)]
pub struct BlsSignature {
    /// The bytes.
    pub bytes: [u8; 96],
}

impl View for BlsSignature {
    type V = Seq<u8>;

    open spec fn view(&self) -> Seq<u8> {
        self.bytes@
    }
}

impl Dup for BlsSignature {
    fn dup(&self) -> (r: BlsSignature) {
        *self
    }
}

impl Wire for BlsSignature {
    open spec fn fits(v: Seq<u8>) -> bool {
        v.len() == 96
    }

    open spec fn ser(v: Seq<u8>) -> Seq<u8> {
        v
    }

    open spec fn de(s: Seq<u8>) -> Read<Seq<u8>> {
        de_fixed(s, 96)
    }

    proof fn round_trip(v: Seq<u8>, t: Seq<u8>) {
        lemma_rd_fixed(v, t);
    }

    proof fn canonical(s: Seq<u8>) {
        lemma_rd_fixed_sound(s, 96);
    }

    fn can_write(&self) -> (r: bool) {
        true
    }

    fn write(&self, out: &mut Vec<u8>) {
        push_fixed(out, self.bytes.as_slice());
    }

    fn read(p: &mut Reader<'_>) -> (r: Result<BlsSignature, CodecError>) {
        match p.take(96) {
            Some(s) => Ok(BlsSignature { bytes: array_96(s) }),
            None => Err(CodecError::InsufficientLength),
        }
    }
}

impl Wire for ProofOfPossession {
    open spec fn fits(v: ProofOfPossessionView) -> bool {
        v.public_key.len() == 48 && v.proof.len() == 96
    }

    open spec fn ser(v: ProofOfPossessionView) -> Seq<u8> {
        v.public_key + v.proof
    }

    open spec fn de(s: Seq<u8>) -> Read<ProofOfPossessionView> {
        match de_fixed(s, 48) {
            Err(e) => Err(e),
            Ok((public_key, s)) => match de_fixed(s, 96) {
                Err(e) => Err(e),
                Ok((proof_bytes, s)) => Ok(
                    (ProofOfPossessionView { public_key, proof: proof_bytes }, s),
                ),
            },
        }
    }

    proof fn round_trip(v: ProofOfPossessionView, t: Seq<u8>) {
        lemma_concat(v.public_key, v.proof, t);
        lemma_rd_fixed(v.public_key, v.proof + t);
        lemma_rd_fixed(v.proof, t);
    }

    proof fn canonical(s: Seq<u8>) {
        lemma_rd_fixed_sound(s, 48);
        if let Some((a, t)) = rd_fixed(s, 48) {
            lemma_rd_fixed_sound(t, 96);
            if let Some((b, u)) = rd_fixed(t, 96) {
                lemma_concat(a, b, u);
            }
        }
    }

    fn can_write(&self) -> (r: bool) {
        true
    }

    fn write(&self, out: &mut Vec<u8>) {
        push_fixed(out, self.public_key.as_slice());
        push_fixed(out, self.proof.as_slice());
        assert(out@ =~= old(out)@ + Self::ser(self@));
    }

    fn read(p: &mut Reader<'_>) -> (r: Result<ProofOfPossession, CodecError>) {
        match p.take(48) {
            Some(k) => {
                let public_key = array_48(k);
                match p.take(96) {
                    Some(s) => Ok(ProofOfPossession { public_key, proof: array_96(s) }),
                    None => Err(CodecError::InsufficientLength),
                }
            },
            None => Err(CodecError::InsufficientLength),
        }
    }
}

impl ProofOfPossessionView {
    /// Whether the key is valid and the proof is a signature over it.
    pub open spec fn valid(self) -> bool {
        bls_expanded(self.public_key) is Some && bls_signed(
            self.public_key,
            self.proof,
            self.public_key,
            pop_suite(),
        )
    }
}

impl ProofOfPossession {
    /// A key with its proof.
    pub fn new(public_key: [u8; 48], proof_bytes: [u8; 96]) -> (r: ProofOfPossession)
        ensures
            r.public_key == public_key,
            r.proof == proof_bytes,
    {
        ProofOfPossession { public_key, proof: proof_bytes }
    }

    /// Whether the key is valid and the proof is a signature over it.
    pub fn verify(&self) -> (r: ChainResult<()>)
        ensures
            r is Ok <==> self@.valid(),
            r matches Err(e) ==> e == Error::InvalidProofOfPossession,
    {
        if PublicKey::from_compressed(&self.public_key).is_none() {
            return Err(Error::InvalidProofOfPossession);
        }
        if verify_pop(&self.public_key, &self.proof, self.public_key.as_slice()) {
            Ok(())
        } else {
            Err(Error::InvalidProofOfPossession)
        }
    }

    /// The key, where it is a valid one.
    pub fn key(&self) -> (r: ChainResult<PublicKey>)
        ensures
            r is Ok <==> bls_expanded(self.public_key@) is Some,
            r matches Ok(k) ==> k.compressed@ == self.public_key@ && bls_expanded(self.public_key@)
                == Some(k.uncompressed@),
            r matches Err(e) ==> e == Error::InvalidProofOfPossession,
    {
        match PublicKey::from_compressed(&self.public_key) {
            Some(k) => Ok(k),
            None => Err(Error::InvalidProofOfPossession),
        }
    }
}

/// No key.
#[derive(Clone, Copy, Debug, PartialEq, Eq, Structural)]
pub struct Empty;

impl View for Empty {
    type V = ();

    open spec fn view(&self) -> () {
        ()
    }
}

impl Dup for Empty {
    fn dup(&self) -> (r: Empty) {
        Empty
    }
}

impl Wire for Empty {
    open spec fn fits(v: ()) -> bool {
        true
    }

    open spec fn ser(v: ()) -> Seq<u8> {
        Seq::empty()
    }

    open spec fn de(s: Seq<u8>) -> Read<()> {
        Ok(((), s))
    }

    proof fn round_trip(v: (), t: Seq<u8>) {
        assert(Seq::<u8>::empty() + t =~= t);
    }

    proof fn canonical(s: Seq<u8>) {
        assert(Seq::<u8>::empty() + s =~= s);
    }

    fn can_write(&self) -> (r: bool) {
        true
    }

    fn write(&self, out: &mut Vec<u8>) {
        assert(out@ =~= out@ + Self::ser(self@));
    }

    fn read(p: &mut Reader<'_>) -> (r: Result<Empty, CodecError>) {
        Ok(Empty)
    }
}

/// The BLS key that a staker declares, or none.
#[derive(Debug, PartialEq, Eq)]
pub enum Signer {
    /// No key.
    Empty(Empty),
    /// A key with its proof.
    ProofOfPossession(ProofOfPossession),
}

/// What a [`Signer`] holds.
#[verifier::ext_equal]
pub enum SignerView {
    /// No key.
    Empty(()),
    /// A key with its proof.
    ProofOfPossession(ProofOfPossessionView),
}

impl View for Signer {
    type V = SignerView;

    open spec fn view(&self) -> SignerView {
        match self {
            Signer::Empty(x) => SignerView::Empty(x@),
            Signer::ProofOfPossession(x) => SignerView::ProofOfPossession(x@),
        }
    }
}

impl Dup for Signer {
    fn dup(&self) -> (r: Signer) {
        match self {
            Signer::Empty(x) => Signer::Empty(x.dup()),
            Signer::ProofOfPossession(x) => Signer::ProofOfPossession(x.dup()),
        }
    }
}

impl SignerView {
    /// The type id in front of the value.
    pub open spec fn type_id(self) -> u32 {
        match self {
            SignerView::Empty(_) => 27,
            SignerView::ProofOfPossession(_) => 28,
        }
    }
}

impl Signer {
    /// The type id in front of the value.
    pub fn codec_type_id(&self) -> (r: u32)
        ensures
            r == self@.type_id(),
    {
        match self {
            Signer::Empty(_) => 27,
            Signer::ProofOfPossession(_) => 28,
        }
    }
}

/// Whether every length of the value fits its field.
#[verifier::opaque]
pub open spec fn signer_fits(v: SignerView) -> bool {
    match v {
        SignerView::Empty(x) => Empty::fits(x),
        SignerView::ProofOfPossession(x) => ProofOfPossession::fits(x),
    }
}

/// The type id, and the value that it is the type of.
#[verifier::opaque]
pub open spec fn signer_ser(v: SignerView) -> Seq<u8> {
    be(v.type_id() as nat, 4) + match v {
        SignerView::Empty(x) => Empty::ser(x),
        SignerView::ProofOfPossession(x) => ProofOfPossession::ser(x),
    }
}

/// The value at the start of `s`, and what follows.
#[verifier::opaque]
pub open spec fn signer_de(s: Seq<u8>) -> Read<SignerView> {
    match rd_be(s, 4) {
        None => Err(CodecError::InsufficientLength),
        Some((id, s)) => 
        if id == 27 {
            match Empty::de(s) {
                Err(e) => Err(e),
                Ok((x, t)) => Ok((SignerView::Empty(x), t)),
            }
        } else 
        if id == 28 {
            match ProofOfPossession::de(s) {
                Err(e) => Err(e),
                Ok((x, t)) => Ok((SignerView::ProofOfPossession(x), t)),
            }
        } else 
        {
            Err(CodecError::UnknownTypeId)
        },
    }
}

impl Wire for Signer {
    open spec fn fits(v: SignerView) -> bool {
        signer_fits(v)
    }

    open spec fn ser(v: SignerView) -> Seq<u8> {
        signer_ser(v)
    }

    open spec fn de(s: Seq<u8>) -> Read<SignerView> {
        signer_de(s)
    }

    proof fn round_trip(v: SignerView, t: Seq<u8>) {
        reveal(signer_fits);
        reveal(signer_ser);
        reveal(signer_de);
        lemma_pow256();
        match v {
            SignerView::Empty(x) => {
                lemma_rd_be(27, 4, Empty::ser(x) + t);
                lemma_concat(be(27, 4), Empty::ser(x), t);
                Empty::round_trip(x, t);
            },
            SignerView::ProofOfPossession(x) => {
                lemma_rd_be(28, 4, ProofOfPossession::ser(x) + t);
                lemma_concat(be(28, 4), ProofOfPossession::ser(x), t);
                ProofOfPossession::round_trip(x, t);
            },
        }
    }

    proof fn canonical(s: Seq<u8>) {
        reveal(signer_fits);
        reveal(signer_ser);
        reveal(signer_de);
        lemma_rd_be_sound(s, 4);
        if let Ok((v, t)) = Self::de(s) {
            let u = (rd_be(s, 4)->0).1;
            match v {
                SignerView::Empty(x) => {
                    Empty::canonical(u);
                    lemma_concat(be(27, 4), Empty::ser(x), t);
                },
                SignerView::ProofOfPossession(x) => {
                    ProofOfPossession::canonical(u);
                    lemma_concat(be(28, 4), ProofOfPossession::ser(x), t);
                },
            }
        }
    }

    fn can_write(&self) -> (r: bool) {
        proof {
            reveal(signer_fits);
        }
        match self {
            Signer::Empty(x) => x.can_write(),
            Signer::ProofOfPossession(x) => x.can_write(),
        }
    }

    fn write(&self, out: &mut Vec<u8>) {
        proof {
            reveal(signer_fits);
            reveal(signer_ser);
        }
        push_u32(out, self.codec_type_id());
        match self {
            Signer::Empty(x) => {
                x.write(out);
                proof {
                    lemma_concat(old(out)@, be(27, 4), Empty::ser(x@));
                }
            },
            Signer::ProofOfPossession(x) => {
                x.write(out);
                proof {
                    lemma_concat(old(out)@, be(28, 4), ProofOfPossession::ser(x@));
                }
            },
        }
    }

    fn read(p: &mut Reader<'_>) -> (r: Result<Signer, CodecError>) {
        proof {
            reveal(signer_de);
        }
        let id: u32 = match p.take_u32() {
            Some(id) => id,
            None => {
                return Err(CodecError::InsufficientLength);
            },
        };
        if id == 27 {
            match Empty::read(p) {
                Ok(x) => Ok(Signer::Empty(x)),
                Err(e) => Err(e),
            }
        }
        else if id == 28 {
            match ProofOfPossession::read(p) {
                Ok(x) => Ok(Signer::ProofOfPossession(x)),
                Err(e) => Err(e),
            }
        }
        else {
            Err(CodecError::UnknownTypeId)
        }
    }
}

impl Default for Signer {
    fn default() -> (r: Signer)
        ensures
            r@ == SignerView::Empty(()),
    {
        Signer::Empty(Empty)
    }
}

impl Signer {
    /// Whether the declaration is valid: no key always is, and a key is with a
    /// valid proof.
    pub fn verify(&self) -> (r: ChainResult<()>)
        ensures
            r is Ok <==> match self@ {
                SignerView::Empty(_) => true,
                SignerView::ProofOfPossession(p) => p.valid(),
            },
            r matches Err(e) ==> e == Error::InvalidProofOfPossession,
    {
        match self {
            Signer::Empty(_) => Ok(()),
            Signer::ProofOfPossession(pop) => pop.verify(),
        }
    }

    /// The key, if one is declared. A key that is not valid is a failure.
    pub fn key(&self) -> (r: ChainResult<Option<PublicKey>>)
        ensures
            match self@ {
                SignerView::Empty(_) => r is Ok && r->Ok_0 is None,
                SignerView::ProofOfPossession(p) => match bls_expanded(p.public_key) {
                    Some(u) => r is Ok && r->Ok_0 is Some && r->Ok_0->0.compressed@ == p.public_key
                        && r->Ok_0->0.uncompressed@ == u,
                    None => r is Err && r->Err_0 == Error::InvalidProofOfPossession,
                },
            },
    {
        match self {
            Signer::Empty(_) => Ok(None),
            Signer::ProofOfPossession(pop) => match pop.key() {
                Ok(k) => Ok(Some(k)),
                Err(e) => Err(e),
            },
        }
    }

    /// Whether a key is declared.
    pub fn has_key(&self) -> (r: bool)
        ensures
            r == (self@ is ProofOfPossession),
    {
        matches!(self, Signer::ProofOfPossession(_))
    }
}

} // verus!
