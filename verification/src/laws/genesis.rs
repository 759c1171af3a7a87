//! The start of the chain: which validators, outputs and chains there are from
//! the first block on.
use vstd::prelude::*;

use crate::crypto::{bls_expanded, sha256_digest};
use crate::error::{Error, Result};
use crate::genesis::codec::genesis_block_bytes;
use crate::genesis::seed::{seed_chains, seed_state, seed_utxos, seed_validators, staker_from_validator_tx, staker_of};
use crate::genesis::types::{Genesis, GenesisUtxo};
use crate::ids::Id;
use crate::signer::SignerView;
use crate::state::chain::{Chain, ChainView};
use crate::state::staker::{lemma_member_key, member_key, Priority, Staker};
use crate::txs::tx::Tx;
use crate::txs::unsigned::UnsignedTx;
use crate::utxo::{input_id_of, Utxo};
use crate::wire::{versioned, Wire};

verus! {

/// Whether a validator's times can be told.
pub open spec fn times_can_be_told(start: u64, end: u64) -> bool {
    start <= 0x7fff_ffff_ffff_ffff && end <= 0x7fff_ffff_ffff_ffff
}

/// Whether a transaction adds a validator that can be there from the start: with
/// times that can be told, and a key that is valid where it declares one.
pub open spec fn seedable(tx: Tx) -> bool {
    match tx.unsigned {
        UnsignedTx::AddValidator(t) => times_can_be_told(t.validator.start, t.validator.end),
        UnsignedTx::AddPermissionlessValidator(t) => times_can_be_told(
            t.validator.start,
            t.validator.end,
        ) && match t.signer@ {
            SignerView::Empty(_) => true,
            SignerView::ProofOfPossession(p) => bls_expanded(p.public_key) is Some,
        },
        _ => false,
    }
}

/// The node that a transaction adds a validator on, and its subnet.
pub open spec fn node_added(tx: Tx) -> (Seq<u8>, Seq<u8>) {
    match tx.unsigned {
        UnsignedTx::AddValidator(t) => (Seq::new(32, |i: int| 0u8), t.validator.node_id@),
        UnsignedTx::AddPermissionlessValidator(t) => (t.subnet@, t.validator.node_id@),
        _ => (Seq::empty(), Seq::empty()),
    }
}

/// A transaction that adds a validator makes the current staker that it asks
/// for, on the primary network where it names no subnet; one whose times cannot
/// be told or whose key is not valid does not, nor does any other transaction.
pub proof fn validators_start_as_they_asked(tx: &Tx, r: Result<Staker>)
    requires
        call_ensures(staker_from_validator_tx, (tx,), r),
    ensures
        r is Ok <==> seedable(*tx),
        tx.unsigned matches UnsignedTx::AddValidator(t) ==> {
            &&& r is Err ==> r->Err_0 == Error::Overflow
            &&& r matches Ok(s) ==> {
                &&& s.tx_id == tx.tx_id
                &&& s.node_id == t.validator.node_id
                &&& s.weight == t.validator.wght
                &&& s.start_time == t.validator.start
                &&& s.end_time == t.validator.end
                &&& s.next_time == t.validator.end
                &&& s.potential_reward == 0
                &&& s.public_key is None
                &&& s.subnet_id@ == Seq::new(32, |i: int| 0u8)
                &&& s.priority == Priority::PrimaryNetworkValidatorCurrent
            }
        },
        tx.unsigned matches UnsignedTx::AddPermissionlessValidator(t) ==> {
            &&& r is Err && times_can_be_told(t.validator.start, t.validator.end) ==> r->Err_0
                == Error::InvalidProofOfPossession
            &&& r matches Ok(s) ==> {
                &&& s.tx_id == tx.tx_id
                &&& s.node_id == t.validator.node_id
                &&& s.weight == t.validator.wght
                &&& s.start_time == t.validator.start
                &&& s.end_time == t.validator.end
                &&& s.next_time == t.validator.end
                &&& s.potential_reward == 0
                &&& s.subnet_id == t.subnet
                &&& s.priority == Priority::PrimaryNetworkValidatorCurrent
                &&& t.signer@ is Empty ==> s.public_key is None
                &&& t.signer@ matches SignerView::ProofOfPossession(p) ==> {
                    &&& s.public_key is Some
                    &&& s.public_key->0.compressed@ == p.public_key
                    &&& Some(s.public_key->0.uncompressed@) == bls_expanded(p.public_key)
                }
            }
        },
        !(tx.unsigned is AddValidator || tx.unsigned is AddPermissionlessValidator) ==> r == Err::<
            Staker,
            Error,
        >(Error::WrongTxType),
{
}

proof fn lemma_seedable(tx: Tx)
    ensures
        staker_of(tx) is Ok <==> seedable(tx),
        staker_of(tx) matches Ok(s) ==> {
            let v = match tx.unsigned {
                UnsignedTx::AddValidator(t) => t.validator,
                UnsignedTx::AddPermissionlessValidator(t) => t.validator,
                _ => arbitrary(),
            };
            &&& s.tx_id == tx.tx_id
            &&& s.node_id == v.node_id
            &&& s.weight == v.wght
            &&& s.start_time == v.start
            &&& s.end_time == v.end
            &&& s.next_time == v.end
            &&& (s.subnet_id@, s.node_id@) == node_added(tx)
        },
{
    let zero = Id {
        bytes: [
            0u8, 0u8, 0u8, 0u8, 0u8, 0u8, 0u8, 0u8, 0u8, 0u8, 0u8, 0u8, 0u8, 0u8, 0u8, 0u8,
            0u8, 0u8, 0u8, 0u8, 0u8, 0u8, 0u8, 0u8, 0u8, 0u8, 0u8, 0u8, 0u8, 0u8, 0u8, 0u8,
        ],
    };
    assert(zero@ =~= Seq::new(32, |i: int| 0u8));
}

proof fn lemma_validators(m: ChainView, txs: Seq<Tx>, n: nat)
    requires
        n <= txs.len(),
        forall|i: int| 0 <= i < txs.len() ==> seedable(#[trigger] txs[i]),
    ensures
        seed_validators(m, txs, n).1 is None,
    decreases n,
{
    if n > 0 {
        lemma_validators(m, txs, (n - 1) as nat);
        lemma_seedable(txs[n - 1]);
        assert(seedable(txs[n - 1]));
    }
}

proof fn lemma_validator_found(m: ChainView, txs: Seq<Tx>, n: nat, i: int)
    requires
        0 <= i < n <= txs.len(),
        seed_validators(m, txs, n).1 is None,
        forall|j: int|
            0 <= j < txs.len() && j != i ==> node_added(#[trigger] txs[j]) != node_added(txs[i]),
    ensures
        ({
            let k = member_key(node_added(txs[i]).0, node_added(txs[i]).1);
            let vs = seed_validators(m, txs, n).0.current.validators;
            &&& staker_of(txs[i]) is Ok
            &&& vs.contains_key(k)
            &&& vs[k] == staker_of(txs[i])->Ok_0
        }),
    decreases n,
{
    let tx = txs[n - 1];
    lemma_seedable(tx);
    lemma_seedable(txs[i]);
    if i < n - 1 {
        lemma_validator_found(m, txs, (n - 1) as nat, i);
        let s = staker_of(tx)->Ok_0;
        let o = staker_of(txs[i])->Ok_0;
        assert(node_added(tx) != node_added(txs[i]));
        assert(s.subnet_id@.len() == 32 && o.subnet_id@.len() == 32);
        lemma_member_key(s.subnet_id@, s.node_id@, o.subnet_id@, o.node_id@);
    }
}

proof fn lemma_utxos(m: ChainView, us: Seq<GenesisUtxo>, n: nat)
    requires
        n <= us.len(),
        forall|i: int|
            0 <= i < us.len() ==> Utxo::fits((#[trigger] us[i]).utxo@) && versioned::<Utxo>(
                us[i].utxo@,
            ).len() <= 0x7fff_ffff,
    ensures
        seed_utxos(m, us, n).1 is None,
    decreases n,
{
    if n > 0 {
        lemma_utxos(m, us, (n - 1) as nat);
        assert(Utxo::fits(us[n - 1].utxo@));
    }
}

proof fn lemma_utxo_found(m: ChainView, us: Seq<GenesisUtxo>, n: nat, i: int)
    requires
        0 <= i < n <= us.len(),
        seed_utxos(m, us, n).1 is None,
        forall|j: int|
            0 <= j < us.len() && j != i ==> input_id_of(
                (#[trigger] us[j]).utxo@.tx_id,
                us[j].utxo@.output_index as u64,
            ) != input_id_of(us[i].utxo@.tx_id, us[i].utxo@.output_index as u64),
    ensures
        ({
            let k = input_id_of(us[i].utxo@.tx_id, us[i].utxo@.output_index as u64);
            let found = seed_utxos(m, us, n).0.utxos;
            found.contains_key(k) && found[k] == versioned::<Utxo>(us[i].utxo@)
        }),
    decreases n,
{
    if i < n - 1 {
        lemma_utxo_found(m, us, (n - 1) as nat, i);
        assert(us[n - 1] == us[n - 1]);
    }
}

proof fn lemma_chains(m: ChainView, txs: Seq<Tx>, n: nat)
    requires
        n <= txs.len(),
        forall|i: int| 0 <= i < txs.len() ==> (#[trigger] txs[i]).unsigned is CreateChain,
    ensures
        seed_chains(m, txs, n).1 is None,
    decreases n,
{
    if n > 0 {
        lemma_chains(m, txs, (n - 1) as nat);
        assert(txs[n - 1].unsigned is CreateChain);
    }
}

proof fn lemma_chain_found(m: ChainView, txs: Seq<Tx>, n: nat, i: int)
    requires
        0 <= i < n <= txs.len(),
        seed_chains(m, txs, n).1 is None,
    ensures
        txs[i].unsigned is CreateChain,
        seed_chains(m, txs, n).0.chains[txs[i].unsigned->CreateChain_0.subnet_id@].contains(
            txs[i].tx_id@,
        ),
    decreases n,
{
    let before = seed_chains(m, txs, (n - 1) as nat).0;
    let tx = txs[n - 1];
    let subnet = txs[i].unsigned->CreateChain_0.subnet_id@;
    let own = tx.unsigned->CreateChain_0.subnet_id@;
    if i < n - 1 {
        lemma_chain_found(m, txs, (n - 1) as nat, i);
        let list = before.chains[subnet];
        if own == subnet && !list.contains(tx.tx_id@) {
            let x = list.index_of(txs[i].tx_id@);
            assert(list.push(tx.tx_id@)[x] == txs[i].tx_id@);
        }
    } else {
        let list = before.chains[own];
        if !list.contains(tx.tx_id@) {
            assert(list.push(tx.tx_id@)[list.len() as int] == tx.tx_id@);
        }
    }
}

proof fn lemma_frames(m: ChainView, g: Genesis, n: nat)
    ensures
        seed_utxos(m, g.utxos.items@, n).0.timestamp == m.timestamp,
        seed_utxos(m, g.utxos.items@, n).0.supply == m.supply,
        seed_utxos(m, g.utxos.items@, n).0.current == m.current,
        seed_validators(m, g.validators.items@, n).0.timestamp == m.timestamp,
        seed_validators(m, g.validators.items@, n).0.supply == m.supply,
        seed_validators(m, g.validators.items@, n).0.utxos == m.utxos,
        seed_chains(m, g.chains.items@, n).0.timestamp == m.timestamp,
        seed_chains(m, g.chains.items@, n).0.supply == m.supply,
        seed_chains(m, g.chains.items@, n).0.utxos == m.utxos,
        seed_chains(m, g.chains.items@, n).0.current == m.current,
    decreases n,
{
    if n > 0 {
        lemma_frames(m, g, (n - 1) as nat);
    }
}

/// A genesis whose validators can be there from the start, whose outputs can be
/// written and whose chains are chains is taken over. The time, the supply,
/// every validator, output and chain are then as it says, and the last accepted
/// block is the one made of its bytes.
pub proof fn the_chain_starts_as_genesis_says<C: Chain>(
    state: &mut C,
    g: &Genesis,
    bytes: &[u8],
    r: Result<Id>,
    i: int,
)
    requires
        old(state).wf(),
        call_ensures(seed_state::<C>, (state, g, bytes), r),
    ensures
        g.timestamp > 0x7fff_ffff_ffff_ffff ==> r == Err::<Id, Error>(Error::Overflow),
        (g.timestamp <= 0x7fff_ffff_ffff_ffff && (forall|j: int|
            0 <= j < g.validators.items@.len() ==> seedable(#[trigger] g.validators.items@[j])) && (
        forall|j: int|
            0 <= j < g.utxos.items@.len() ==> Utxo::fits((#[trigger] g.utxos.items@[j]).utxo@)
                && versioned::<Utxo>(g.utxos.items@[j].utxo@).len() <= 0x7fff_ffff) && (forall|
            j: int,
        |
            0 <= j < g.chains.items@.len() ==> (
            #[trigger] g.chains.items@[j]).unsigned is CreateChain)) ==> r is Ok,
        r matches Ok(id) ==> {
            let m = final(state).model();
            let us = g.utxos.items@;
            let vs = g.validators.items@;
            let cs = g.chains.items@;
            &&& id@ == sha256_digest(genesis_block_bytes(bytes@))
            &&& m.timestamp == g.timestamp
            &&& m.supply[Seq::new(32, |i: int| 0u8)] == g.initial_supply
            &&& (0 <= i < vs.len() && forall|j: int|
                0 <= j < vs.len() && j != i ==> node_added(#[trigger] vs[j]) != node_added(vs[i]))
                ==> {
                let k = member_key(node_added(vs[i]).0, node_added(vs[i]).1);
                let v = match vs[i].unsigned {
                    UnsignedTx::AddValidator(t) => t.validator,
                    UnsignedTx::AddPermissionlessValidator(t) => t.validator,
                    _ => arbitrary(),
                };
                &&& m.current.validators.contains_key(k)
                &&& m.current.validators[k].tx_id == vs[i].tx_id
                &&& m.current.validators[k].weight == v.wght
                &&& m.current.validators[k].start_time == v.start
                &&& m.current.validators[k].end_time == v.end
            }
            &&& (0 <= i < us.len() && forall|j: int|
                0 <= j < us.len() && j != i ==> input_id_of(
                    (#[trigger] us[j]).utxo@.tx_id,
                    us[j].utxo@.output_index as u64,
                ) != input_id_of(us[i].utxo@.tx_id, us[i].utxo@.output_index as u64)) ==> {
                let k = input_id_of(us[i].utxo@.tx_id, us[i].utxo@.output_index as u64);
                m.utxos.contains_key(k) && m.utxos[k] == versioned::<Utxo>(us[i].utxo@)
            }
            &&& 0 <= i < cs.len() ==> cs[i].unsigned is CreateChain
                && m.chains[cs[i].unsigned->CreateChain_0.subnet_id@].contains(cs[i].tx_id@)
        },
{
    let m = old(state).model();
    let us = g.utxos.items@;
    let vs = g.validators.items@;
    let cs = g.chains.items@;
    let m0 = ChainView {
        timestamp: g.timestamp,
        supply: m.supply.insert(crate::ids::empty_id(), g.initial_supply),
        ..m
    };
    let m1 = seed_utxos(m0, us, us.len()).0;
    let m2 = seed_validators(m1, vs, vs.len()).0;
    lemma_frames(m0, *g, us.len());
    lemma_frames(m1, *g, vs.len());
    lemma_frames(m2, *g, cs.len());
    if forall|j: int| 0 <= j < vs.len() ==> seedable(#[trigger] vs[j]) {
        lemma_validators(m1, vs, vs.len());
    }
    if forall|j: int|
        0 <= j < us.len() ==> Utxo::fits((#[trigger] us[j]).utxo@) && versioned::<Utxo>(
            us[j].utxo@,
        ).len() <= 0x7fff_ffff {
        lemma_utxos(m0, us, us.len());
    }
    if forall|j: int| 0 <= j < cs.len() ==> (#[trigger] cs[j]).unsigned is CreateChain {
        lemma_chains(m2, cs, cs.len());
    }
    if r is Ok {
        if 0 <= i < vs.len() && forall|j: int|
            0 <= j < vs.len() && j != i ==> node_added(#[trigger] vs[j]) != node_added(vs[i]) {
            lemma_validator_found(m1, vs, vs.len(), i);
            lemma_seedable(vs[i]);
        }
        if 0 <= i < us.len() && forall|j: int|
            0 <= j < us.len() && j != i ==> input_id_of(
                (#[trigger] us[j]).utxo@.tx_id,
                us[j].utxo@.output_index as u64,
            ) != input_id_of(us[i].utxo@.tx_id, us[i].utxo@.output_index as u64) {
            lemma_utxo_found(m0, us, us.len(), i);
        }
        if 0 <= i < cs.len() {
            lemma_chain_found(m2, cs, cs.len(), i);
        }
    }
}

} // verus!
