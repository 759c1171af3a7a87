//! The state that the chain starts with.
use vstd::prelude::*;

use crate::block::executor::verify::LAST_SECOND;
use crate::codec::CodecError;
use crate::crypto::{bls_expanded, sha256_digest, PublicKey};
use crate::error::{Error, Result};
use crate::genesis::codec::{genesis_block, genesis_block_bytes};
use crate::genesis::types::{Genesis, GenesisUtxo};
use crate::ids::{empty_id, lemma_id_bytes, Id};
use crate::order::bytes_copy;
use crate::signer::SignerView;
use crate::state::chain::{Chain, ChainView};
use crate::state::staker::{Priority, Staker};
use crate::txs::tx::Tx;
use crate::txs::unsigned::{UnsignedTx, Validator};
use crate::utxo::{input_id_of, Utxo};
use crate::wire::{versioned, Wire};

verus! {

/// The id with the given bytes.
pub open spec fn id_with(bytes: Seq<u8>) -> Id {
    choose|id: Id| id@ == bytes
}

/// The key with the given forms.
pub open spec fn key_with(compressed: Seq<u8>, uncompressed: Seq<u8>) -> PublicKey {
    choose|k: PublicKey| k.compressed@ == compressed && k.uncompressed@ == uncompressed
}

proof fn lemma_key_with(k: PublicKey)
    ensures
        k == key_with(k.compressed@, k.uncompressed@),
{
    let other = key_with(k.compressed@, k.uncompressed@);
    assert(other.compressed@ == k.compressed@ && other.uncompressed@ == k.uncompressed@);
    assert(other.compressed =~= k.compressed);
    assert(other.uncompressed =~= k.uncompressed);
}

/// The key that a validator declares, if any. One that is not valid is a
/// failure.
pub open spec fn declared_key(s: SignerView) -> core::result::Result<Option<PublicKey>, Error> {
    match s {
        SignerView::Empty(_) => Ok(None),
        SignerView::ProofOfPossession(p) => match bls_expanded(p.public_key) {
            Some(u) => Ok(Some(key_with(p.public_key, u))),
            None => Err(Error::InvalidProofOfPossession),
        },
    }
}

/// The staker of a validator that is there from the start.
pub open spec fn first_staker(
    tx_id: Id,
    v: Validator,
    public_key: Option<PublicKey>,
    subnet_id: Id,
) -> core::result::Result<Staker, Error> {
    if v.start > LAST_SECOND || v.end > LAST_SECOND {
        Err(Error::Overflow)
    } else {
        Ok(
            Staker {
                tx_id,
                node_id: v.node_id,
                public_key,
                subnet_id,
                weight: v.wght,
                start_time: v.start,
                end_time: v.end,
                potential_reward: 0,
                next_time: v.end,
                priority: Priority::PrimaryNetworkValidatorCurrent,
            },
        )
    }
}

/// The staker that `tx` adds.
pub open spec fn staker_of(tx: Tx) -> core::result::Result<Staker, Error> {
    match tx.unsigned {
        UnsignedTx::AddValidator(v) => first_staker(
            tx.tx_id,
            v.validator,
            None,
            id_with(empty_id()),
        ),
        UnsignedTx::AddPermissionlessValidator(v) => match declared_key(v.signer@) {
            Ok(k) => first_staker(tx.tx_id, v.validator, k, v.subnet),
            Err(e) => Err(e),
        },
        _ => Err(Error::WrongTxType),
    }
}

/// A state, and why it goes no further, if it does not.
pub type Seeded = (ChainView, Option<Error>);

/// With the first `n` outputs.
pub open spec fn seed_utxos(m: ChainView, us: Seq<GenesisUtxo>, n: nat) -> Seeded
    decreases n,
{
    if n == 0 {
        (m, None)
    } else {
        let (m1, e) = seed_utxos(m, us, (n - 1) as nat);
        let u = us[n - 1].utxo@;
        if e is Some {
            (m1, e)
        } else if !Utxo::fits(u) {
            (m1, Some(Error::Codec(CodecError::LengthOverflow)))
        } else if versioned::<Utxo>(u).len() > 0x7fff_ffff {
            (m1, Some(Error::Codec(CodecError::TooBig)))
        } else {
            let id = input_id_of(u.tx_id, u.output_index as u64);
            (ChainView { utxos: m1.utxos.insert(id, versioned::<Utxo>(u)), ..m1 }, None)
        }
    }
}

/// With the validators that the first `n` transactions add, and those
/// transactions.
pub open spec fn seed_validators(m: ChainView, txs: Seq<Tx>, n: nat) -> Seeded
    decreases n,
{
    if n == 0 {
        (m, None)
    } else {
        let (m1, e) = seed_validators(m, txs, (n - 1) as nat);
        let tx = txs[n - 1];
        if e is Some {
            (m1, e)
        } else {
            match staker_of(tx) {
                Ok(s) => {
                    let m2 = m1.put_current_validator(s);
                    (
                        ChainView { txs: m2.txs.insert(tx.cache().id, tx.cache().bytes), ..m2 },
                        None,
                    )
                },
                Err(e) => (m1, Some(e)),
            }
        }
    }
}

/// With the chains that the first `n` transactions create.
pub open spec fn seed_chains(m: ChainView, txs: Seq<Tx>, n: nat) -> Seeded
    decreases n,
{
    if n == 0 {
        (m, None)
    } else {
        let (m1, e) = seed_chains(m, txs, (n - 1) as nat);
        let tx = txs[n - 1];
        if e is Some {
            (m1, e)
        } else {
            match tx.unsigned {
                UnsignedTx::CreateChain(c) => (m1.add_chain(c.subnet_id@, tx.tx_id@), None),
                _ => (m1, Some(Error::WrongTxType)),
            }
        }
    }
}

/// With all of the genesis state: its time and supply, its outputs, validators
/// and chains. What cannot be taken over stops it there.
pub open spec fn seed(m: ChainView, g: Genesis) -> Seeded {
    if g.timestamp > LAST_SECOND {
        (m, Some(Error::Overflow))
    } else {
        let m0 = ChainView {
            timestamp: g.timestamp,
            supply: m.supply.insert(empty_id(), g.initial_supply),
            ..m
        };
        let (m1, e1) = seed_utxos(m0, g.utxos.items@, g.utxos.items@.len());
        if e1 is Some {
            (m1, e1)
        } else {
            let (m2, e2) = seed_validators(
                m1,
                g.validators.items@,
                g.validators.items@.len(),
            );
            if e2 is Some {
                (m2, e2)
            } else {
                seed_chains(m2, g.chains.items@, g.chains.items@.len())
            }
        }
    }
}

/// The staker that `tx` adds, as a current validator that no reward is due to
/// yet.
pub fn staker_from_validator_tx(tx: &Tx) -> (r: Result<Staker>)
    ensures
        r == staker_of(*tx),
        r matches Ok(s) ==> match tx.unsigned {
            UnsignedTx::AddValidator(_) => s.subnet_id@ == empty_id(),
            UnsignedTx::AddPermissionlessValidator(v) => match v.signer@ {
                SignerView::Empty(_) => s.public_key is None,
                SignerView::ProofOfPossession(p) => s.public_key is Some
                    && s.public_key->0.compressed@ == p.public_key && Some(
                    s.public_key->0.uncompressed@,
                ) == bls_expanded(p.public_key),
            },
            _ => true,
        },
{
    let (validator, public_key, subnet) = match &tx.unsigned {
        UnsignedTx::AddValidator(v) => {
            let e = Id::empty();
            proof {
                lemma_id_bytes(e, id_with(empty_id()));
            }
            (&v.validator, None, e)
        },
        UnsignedTx::AddPermissionlessValidator(v) => match v.signer.key() {
            Ok(k) => {
                proof {
                    if let Some(pk) = k {
                        lemma_key_with(pk);
                    }
                }
                (&v.validator, k, v.subnet)
            },
            Err(e) => {
                return Err(e);
            },
        },
        _ => {
            return Err(Error::WrongTxType);
        },
    };
    if validator.start > LAST_SECOND || validator.end > LAST_SECOND {
        return Err(Error::Overflow);
    }
    Ok(
        Staker::new_current(
            tx.tx_id,
            validator.node_id,
            public_key,
            subnet,
            validator.wght,
            validator.start,
            validator.end,
            0,
            Priority::PrimaryNetworkValidatorCurrent,
        ),
    )
}

fn put_utxos<C: Chain>(state: &mut C, us: &Vec<GenesisUtxo>) -> (r: Result<()>)
    requires
        old(state).wf(),
    ensures
        final(state).wf(),
        final(state).rest() == old(state).rest(),
        final(state).model() == seed_utxos(old(state).model(), us@, us@.len()).0,
        match seed_utxos(old(state).model(), us@, us@.len()).1 {
            Some(e) => r == Err::<(), Error>(e),
            None => r is Ok,
        },
{
    let n: usize = us.len();
    let mut i: usize = 0;
    let ghost start = state.model();
    while i < n
        invariant
            i <= n,
            n == us@.len(),
            state.wf(),
            state.rest() == old(state).rest(),
            start == old(state).model(),
            seed_utxos(start, us@, i as nat) == (state.model(), None::<Error>),
        decreases n - i,
    {
        let u = &us[i].utxo;
        match u.marshal() {
            Ok(b) => {
                state.add_utxo(u.input_id(), b);
            },
            Err(e) => {
                proof {
                    lemma_utxos_stop(start, us@, (i + 1) as nat, n as nat);
                }
                return Err(Error::Codec(e));
            },
        }
        i += 1;
    }
    Ok(())
}

proof fn lemma_utxos_stop(m: ChainView, us: Seq<GenesisUtxo>, a: nat, b: nat)
    requires
        a <= b,
        seed_utxos(m, us, a).1 is Some,
    ensures
        seed_utxos(m, us, b) == seed_utxos(m, us, a),
    decreases b,
{
    if a < b {
        lemma_utxos_stop(m, us, a, (b - 1) as nat);
    }
}

proof fn lemma_validators_stop(m: ChainView, txs: Seq<Tx>, a: nat, b: nat)
    requires
        a <= b,
        seed_validators(m, txs, a).1 is Some,
    ensures
        seed_validators(m, txs, b) == seed_validators(m, txs, a),
    decreases b,
{
    if a < b {
        lemma_validators_stop(m, txs, a, (b - 1) as nat);
    }
}

proof fn lemma_chains_stop(m: ChainView, txs: Seq<Tx>, a: nat, b: nat)
    requires
        a <= b,
        seed_chains(m, txs, a).1 is Some,
    ensures
        seed_chains(m, txs, b) == seed_chains(m, txs, a),
    decreases b,
{
    if a < b {
        lemma_chains_stop(m, txs, a, (b - 1) as nat);
    }
}

fn put_validators<C: Chain>(state: &mut C, txs: &Vec<Tx>) -> (r: Result<()>)
    requires
        old(state).wf(),
    ensures
        final(state).wf(),
        final(state).rest() == old(state).rest(),
        final(state).model() == seed_validators(
            old(state).model(),
            txs@,
            txs@.len(),
        ).0,
        match seed_validators(old(state).model(), txs@, txs@.len()).1 {
            Some(e) => r == Err::<(), Error>(e),
            None => r is Ok,
        },
{
    let n: usize = txs.len();
    let mut i: usize = 0;
    let ghost start = state.model();
    while i < n
        invariant
            i <= n,
            n == txs@.len(),
            state.wf(),
            state.rest() == old(state).rest(),
            start == old(state).model(),
            seed_validators(start, txs@, i as nat) == (state.model(), None::<Error>),
        decreases n - i,
    {
        let tx = &txs[i];
        match staker_from_validator_tx(tx) {
            Ok(s) => {
                let _ = state.put_current_validator(s);
                state.add_tx(tx.id(), bytes_copy(tx.bytes()));
            },
            Err(e) => {
                proof {
                    lemma_validators_stop(start, txs@, (i + 1) as nat, n as nat);
                }
                return Err(e);
            },
        }
        i += 1;
    }
    Ok(())
}

fn put_chains<C: Chain>(state: &mut C, txs: &Vec<Tx>) -> (r: Result<()>)
    requires
        old(state).wf(),
    ensures
        final(state).wf(),
        final(state).rest() == old(state).rest(),
        final(state).model() == seed_chains(old(state).model(), txs@, txs@.len()).0,
        match seed_chains(old(state).model(), txs@, txs@.len()).1 {
            Some(e) => r == Err::<(), Error>(e),
            None => r is Ok,
        },
{
    let n: usize = txs.len();
    let mut i: usize = 0;
    let ghost start = state.model();
    while i < n
        invariant
            i <= n,
            n == txs@.len(),
            state.wf(),
            state.rest() == old(state).rest(),
            start == old(state).model(),
            seed_chains(start, txs@, i as nat) == (state.model(), None::<Error>),
        decreases n - i,
    {
        let tx = &txs[i];
        match &tx.unsigned {
            UnsignedTx::CreateChain(c) => {
                state.add_chain(c.subnet_id, tx.id());
            },
            _ => {
                proof {
                    lemma_chains_stop(start, txs@, (i + 1) as nat, n as nat);
                }
                return Err(Error::WrongTxType);
            },
        }
        i += 1;
    }
    Ok(())
}

/// Puts the genesis state into `state`, and gives the id of the genesis block,
/// which is then the last accepted block.
pub fn seed_state<C: Chain>(state: &mut C, genesis: &Genesis, genesis_bytes: &[u8]) -> (r: Result<
    Id,
>)
    requires
        old(state).wf(),
    ensures
        final(state).wf(),
        final(state).rest() == old(state).rest(),
        final(state).model() == seed(old(state).model(), *genesis).0,
        match seed(old(state).model(), *genesis).1 {
            Some(e) => r == Err::<Id, Error>(e),
            None => r is Ok && r->Ok_0@ == sha256_digest(genesis_block_bytes(genesis_bytes@)),
        },
{
    let block = match genesis_block(genesis_bytes) {
        Ok(b) => b,
        Err(e) => {
            return Err(e);
        },
    };
    if genesis.timestamp > LAST_SECOND {
        return Err(Error::Overflow);
    }
    let ghost start = state.model();
    state.set_timestamp(genesis.timestamp);
    state.set_current_supply(Id::empty(), genesis.initial_supply);
    if let Err(e) = put_utxos(state, &genesis.utxos.items) {
        return Err(e);
    }
    if let Err(e) = put_validators(state, &genesis.validators.items) {
        return Err(e);
    }
    if let Err(e) = put_chains(state, &genesis.chains.items) {
        return Err(e);
    }
    Ok(block.id())
}

proof fn lemma_stored(m: ChainView, txs: Seq<Tx>, n: nat, i: int)
    requires
        0 <= i < n <= txs.len(),
        seed_validators(m, txs, n).1 is None,
        forall|j: int|
            0 <= j < txs.len() && (#[trigger] txs[j]).cache().id == txs[i].cache().id
                ==> txs[j].cache().bytes == txs[i].cache().bytes,
    ensures
        seed_validators(m, txs, n).0.txs.contains_key(txs[i].cache().id),
        seed_validators(m, txs, n).0.txs[txs[i].cache().id] == txs[i].cache().bytes,
    decreases n,
{
    if i < n - 1 {
        lemma_stored(m, txs, (n - 1) as nat, i);
        assert(txs[n - 1].cache().id == txs[i].cache().id ==> txs[n - 1].cache().bytes
            == txs[i].cache().bytes);
    }
}

proof fn lemma_chains_keep_txs(m: ChainView, txs: Seq<Tx>, n: nat)
    ensures
        seed_chains(m, txs, n).0.txs == m.txs,
    decreases n,
{
    if n > 0 {
        lemma_chains_keep_txs(m, txs, (n - 1) as nat);
    }
}

/// Every validator that is there from the start can be rewarded: the
/// transaction that adds it is stored under its id.
pub proof fn seeded_validators_are_stored(m: ChainView, g: Genesis, i: int)
    requires
        seed(m, g).1 is None,
        0 <= i < g.validators.items@.len(),
        forall|j: int|
            0 <= j < g.validators.items@.len() && (#[trigger] g.validators.items@[j]).cache().id
                == g.validators.items@[i].cache().id ==> g.validators.items@[j].cache().bytes
                == g.validators.items@[i].cache().bytes,
    ensures
        seed(m, g).0.txs.contains_key(g.validators.items@[i].cache().id),
        seed(m, g).0.txs[g.validators.items@[i].cache().id]
            == g.validators.items@[i].cache().bytes,
{
    let m0 = ChainView {
        timestamp: g.timestamp,
        supply: m.supply.insert(empty_id(), g.initial_supply),
        ..m
    };
    let m1 = seed_utxos(m0, g.utxos.items@, g.utxos.items@.len()).0;
    let txs = g.validators.items@;
    let m2 = seed_validators(m1, txs, txs.len()).0;
    lemma_stored(m1, txs, txs.len(), i);
    lemma_chains_keep_txs(m2, g.chains.items@, g.chains.items@.len());
}

} // verus!
