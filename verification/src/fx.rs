//! Who owns what, and what it takes to spend it.
use vstd::prelude::*;

use crate::collections::ordmap::Dup;
use crate::crypto::{digest_id, sha256_digest};
use crate::error::{Error, Result};
use crate::ids::Id;
use crate::codec::CodecError;
use crate::txs::components::{OutputOwners, Owner, OwnerView};
use crate::wire::{default_codec, versioned, Wire};

verus! {

/// The id of an owner: the digest of its bytes.
pub fn owner_id(owner: &OutputOwners) -> (r: Result<Id>)
    ensures
        ({
            let v = OwnerView::Secp256k1(owner@);
            if Owner::fits(v) && versioned::<Owner>(v).len() <= 262_144 {
                r is Ok && r->Ok_0@ == sha256_digest(versioned::<Owner>(v))
            } else {
                r == Err::<Id, Error>(
                    Error::Codec(
                        if Owner::fits(v) {
                            CodecError::TooBig
                        } else {
                            CodecError::LengthOverflow
                        },
                    ),
                )
            }
        }),
{
    let wrapped = Owner::Secp256k1(owner.dup());
    match default_codec().marshal(&wrapped) {
        Ok(b) => Ok(digest_id(b.as_slice())),
        Err(e) => Err(Error::Codec(e)),
    }
}

/// Whether an output may be spent. `assent` is whether the signatures prove that
/// its owners assent.
pub fn verify_transfer(assent: bool) -> (r: Result<()>)
    ensures
        r is Ok <==> assent,
        r matches Err(e) ==> e == Error::InvalidComponent,
{
    if assent {
        Ok(())
    } else {
        Err(Error::InvalidComponent)
    }
}

} // verus!
