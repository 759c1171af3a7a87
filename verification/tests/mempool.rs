use ava_platformvm::block::codec::Codec;
use ava_platformvm::collections::ordmap::Dup;
use ava_platformvm::ids::Id;
use ava_platformvm::network::{
    DropReason, HandleOutcome, SyntacticVerifier, TxGossipHandler, TxVerifier,
};
use ava_platformvm::txs::components::{BaseTx, Input, TransferInput, TransferableInput};
use ava_platformvm::txs::mempool::{Mempool, MempoolError, MAX_TX_SIZE};
use ava_platformvm::txs::tx::Tx;
use ava_platformvm::txs::unsigned::UnsignedTx;
use ava_platformvm::wire::List;

fn tx_of(ins: Vec<TransferableInput>, memo: Vec<u8>) -> Tx {
    let base = BaseTx {
        network_id: 1,
        blockchain_id: Id::empty(),
        outs: List { items: vec![] },
        ins: List { items: ins },
        memo,
    };
    let mut tx = Tx::new(UnsignedTx::Base(base));
    tx.initialize(&Codec()).expect("initialize");
    tx
}

fn tx_with_tag(tag: u32) -> Tx {
    tx_of(vec![], tag.to_be_bytes().to_vec())
}

struct RejectAll;

impl TxVerifier for RejectAll {
    fn verify_tx(&self, _tx: &Tx) -> Result<(), String> {
        Err("nope".to_string())
    }
}

#[test]
fn admits_then_dedupes_inbound_gossip() {
    let h = TxGossipHandler::new();
    let v = SyntacticVerifier;
    let mut m = Mempool::new();

    let tx = tx_with_tag(1);
    assert_eq!(h.handle_gossiped_tx(&mut m, &v, tx.dup()), HandleOutcome::Added);
    assert_eq!(m.len(), 1);

    assert_eq!(
        h.handle_gossiped_tx(&mut m, &v, tx.dup()),
        HandleOutcome::Dropped(DropReason::Duplicate)
    );
    assert_eq!(m.len(), 1);
    assert!(m.contains(&tx.id()));
}

#[test]
fn order_independent_convergence() {
    let h = TxGossipHandler::new();
    let v = SyntacticVerifier;
    let txs = || vec![tx_with_tag(1), tx_with_tag(2), tx_with_tag(3)];

    let mut a = Mempool::new();
    h.handle_gossiped_txs(&mut a, &v, txs());

    let mut b = Mempool::new();
    let mut reversed = txs();
    reversed.reverse();
    h.handle_gossiped_txs(&mut b, &v, reversed);

    let mut ids_a: Vec<Id> = a.snapshot().iter().map(Tx::id).collect();
    let mut ids_b: Vec<Id> = b.snapshot().iter().map(Tx::id).collect();
    ids_a.sort_by_key(|i| i.bytes);
    ids_b.sort_by_key(|i| i.bytes);
    assert_eq!(ids_a, ids_b);
    assert_eq!(ids_a.len(), 3);
}

#[test]
fn fitting_gossip_is_added_in_any_order() {
    let h = TxGossipHandler::new();
    let v = SyntacticVerifier;
    let txs = || vec![tx_of(vec![spends(0)], vec![1]), tx_with_tag(2), tx_with_tag(3)];
    for turn in 0..3 {
        let mut order = txs();
        order.rotate_left(turn);
        let ids: Vec<Id> = order.iter().map(Tx::id).collect();
        let mut m = Mempool::new();
        let outcomes = h.handle_gossiped_txs(&mut m, &v, order);
        assert_eq!(outcomes, vec![HandleOutcome::Added; 3]);
        assert_eq!(m.snapshot().iter().map(Tx::id).collect::<Vec<Id>>(), ids);
    }
}

#[test]
fn verification_failure_drops_without_mutation() {
    let h = TxGossipHandler::new();
    let mut m = Mempool::new();
    let tx = tx_with_tag(7);
    let outcome = h.handle_gossiped_tx(&mut m, &RejectAll, tx);
    assert_eq!(
        outcome,
        HandleOutcome::Dropped(DropReason::Verification("nope".to_string()))
    );
    assert!(m.is_empty());
}

#[test]
fn syntactic_verifier_rejects_uninitialized() {
    let v = SyntacticVerifier;
    let uninit = Tx::new(UnsignedTx::Base(BaseTx {
        network_id: 0,
        blockchain_id: Id::empty(),
        outs: List { items: vec![] },
        ins: List { items: vec![] },
        memo: vec![],
    }));
    assert!(v.verify_tx(&uninit).is_err());
    assert!(v.verify_tx(&tx_with_tag(1)).is_ok());
}

fn spends(index: u32) -> TransferableInput {
    TransferableInput {
        tx_id: Id::from([3; 32]),
        output_index: index,
        asset_id: Id::from([4; 32]),
        input: Input::Transfer(TransferInput { amt: 1, sig_indices: List { items: vec![0] } }),
    }
}

#[test]
fn the_pool_refuses_what_conflicts_or_is_too_large() {
    let mut m = Mempool::new();
    assert_eq!(m.add(tx_of(vec![spends(0)], vec![1])), Ok(()));
    assert_eq!(
        m.add(tx_of(vec![spends(1), spends(0)], vec![2])),
        Err(MempoolError::Conflict)
    );
    assert_eq!(m.add(tx_of(vec![spends(1)], vec![2])), Ok(()));
    assert_eq!(
        m.add(tx_of(vec![], vec![0; MAX_TX_SIZE])),
        Err(MempoolError::TooLarge)
    );
    assert_eq!(m.add(tx_of(vec![spends(0)], vec![1])), Err(MempoolError::Duplicate));
    assert_eq!(m.len(), 2);

    let h = TxGossipHandler::new();
    assert_eq!(
        h.handle_gossiped_tx(&mut m, &SyntacticVerifier, tx_of(vec![spends(0)], vec![9])),
        HandleOutcome::Dropped(DropReason::Mempool(MempoolError::Conflict))
    );
    assert_eq!(m.len(), 2);
}

#[test]
fn a_full_pool_takes_no_more() {
    let mut m = Mempool::new();
    let mut n = 0u32;
    loop {
        let mut memo = n.to_be_bytes().to_vec();
        memo.resize(65_000, 0);
        match m.add(tx_of(vec![], memo)) {
            Ok(()) => n += 1,
            Err(e) => {
                assert_eq!(e, MempoolError::Full);
                break;
            },
        }
    }
    let size: usize = m.snapshot().iter().map(|t| t.bytes().len()).sum();
    assert!(size <= 64 * 1024 * 1024);
    assert!(size + 66_000 > 64 * 1024 * 1024);
}

#[test]
fn a_transaction_is_read_back_from_its_bytes() {
    let tx = tx_of(vec![spends(5)], b"memo".to_vec());
    let again = Tx::parse(&Codec(), tx.bytes()).expect("parse");
    assert_eq!(again, tx);
    assert_eq!(again.id(), tx.id());
}
