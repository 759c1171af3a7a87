use ava_platformvm::block::codec::{Codec, GenesisCodec};
use ava_platformvm::block::executor::verify::rewarded_staker_tx;
use ava_platformvm::block::BlockBody;
use ava_platformvm::codec::CodecError;
use ava_platformvm::crypto::digest_id;
use ava_platformvm::error::Error;
use ava_platformvm::genesis::seed::staker_from_validator_tx;
use ava_platformvm::genesis::{
    genesis_block, genesis_id, marshal, parse, seed_state, Genesis, GenesisUtxo,
};
use ava_platformvm::ids::{Id, NodeId, ShortId};
use ava_platformvm::signer::{ProofOfPossession, Signer};
use ava_platformvm::state::chain::Chain;
use ava_platformvm::state::staker::Priority;
use ava_platformvm::state::state::State;
use ava_platformvm::txs::components::{
    Auth, BaseTx, Input, Output, OutputOwners, Owner, SigIndices, TransferInput, TransferOutput,
    TransferableInput, TransferableOutput,
};
use ava_platformvm::txs::tx::Tx;
use ava_platformvm::txs::unsigned::{
    AddPermissionlessValidatorTx, CreateChainTx, UnsignedTx, Validator,
};
use ava_platformvm::utxo::Utxo;
use ava_platformvm::wire::List;

const AVAX_ASSET_ID: [u8; 32] = [
    0x21, 0xe6, 0x73, 0x17, 0xcb, 0xc4, 0xbe, 0x2a, 0xeb, 0x00, 0x67, 0x7a, 0xd6, 0x46, 0x27,
    0x78, 0xa8, 0xf5, 0x22, 0x74, 0xb9, 0xd6, 0x05, 0xdf, 0x25, 0x91, 0xb2, 0x30, 0x27, 0xa8,
    0x7d, 0xff,
];
const ADDR: [u8; 20] = [
    0x44, 0x55, 0x66, 0x77, 0x88, 0x99, 0xaa, 0xbb, 0x44, 0x55, 0x66, 0x77, 0x88, 0x99, 0xaa,
    0xbb, 0x44, 0x55, 0x66, 0x77,
];
const BLS_PUBKEY: [u8; 48] = [
    0xaf, 0xf4, 0xac, 0xb4, 0xc5, 0x43, 0x9b, 0x5d, 0x42, 0x6c, 0xad, 0xf9, 0xe9, 0x46, 0xd3,
    0xa4, 0x52, 0xf7, 0xde, 0x34, 0x14, 0xd1, 0xad, 0x27, 0x33, 0x61, 0x33, 0x21, 0x1d, 0x8b,
    0x90, 0xcf, 0x49, 0xfb, 0x97, 0xee, 0xbc, 0xde, 0xee, 0xf7, 0x14, 0xdc, 0x20, 0xf5, 0x4e,
    0xd0, 0xd4, 0xd1,
];
const BLS_SIG: [u8; 96] = [
    0x8c, 0xfd, 0x79, 0x09, 0xd1, 0x53, 0xb9, 0x60, 0x4b, 0x62, 0xb1, 0x43, 0xba, 0x36, 0x20,
    0x7b, 0xb7, 0xe6, 0x48, 0x67, 0x42, 0x44, 0x80, 0x20, 0x2a, 0x67, 0xdc, 0x68, 0x76, 0x83,
    0x46, 0xd9, 0x5c, 0x90, 0x98, 0x3c, 0x2d, 0x27, 0x9c, 0x64, 0xc4, 0x3c, 0x51, 0x13, 0x6b,
    0x2a, 0x05, 0xe0, 0x16, 0x02, 0xd5, 0x2a, 0xa6, 0x37, 0x6f, 0xda, 0x17, 0xfa, 0x6e, 0x2a,
    0x18, 0xa0, 0x83, 0xe4, 0x9d, 0x9c, 0x45, 0x0e, 0xab, 0x7b, 0x89, 0xb1, 0xd5, 0x55, 0x5d,
    0xa5, 0xc4, 0x89, 0x87, 0x2e, 0x02, 0xb7, 0xe5, 0x22, 0x7b, 0x77, 0x55, 0x0a, 0xf1, 0x33,
    0x0e, 0x5a, 0x71, 0xf8, 0xc3, 0x68,
];

fn list<T>(items: Vec<T>) -> List<T> {
    List { items }
}

fn owners_one_addr() -> OutputOwners {
    OutputOwners { locktime: 0, threshold: 1, addrs: list(vec![ShortId::from(ADDR)]) }
}

fn transfer(amt: u64) -> Output {
    Output::Transfer(TransferOutput { amt, owners: owners_one_addr() })
}

fn synthetic_genesis() -> Genesis {
    const KILO_AVAX: u64 = 2_000 * 1_000_000_000;
    let avax = Id::from(AVAX_ASSET_ID);

    let utxo0 = GenesisUtxo {
        utxo: Utxo {
            tx_id: Id::empty(),
            output_index: 0,
            asset_id: avax,
            out: transfer(123_456_789),
        },
        message: vec![],
    };
    let utxo1 = GenesisUtxo {
        utxo: Utxo {
            tx_id: Id::empty(),
            output_index: 1,
            asset_id: avax,
            out: transfer(987_654_321),
        },
        message: b"hi".to_vec(),
    };

    let mut vdr = Tx::new(UnsignedTx::AddPermissionlessValidator(AddPermissionlessValidatorTx {
        base: BaseTx {
            network_id: 1,
            blockchain_id: Id::empty(),
            outs: list(vec![]),
            ins: list(vec![TransferableInput {
                tx_id: Id::empty(),
                output_index: 0,
                asset_id: avax,
                input: Input::Transfer(TransferInput {
                    amt: KILO_AVAX,
                    sig_indices: list(vec![0]),
                }),
            }]),
            memo: vec![],
        },
        validator: Validator {
            node_id: NodeId::from([
                0x11, 0x22, 0x33, 0x44, 0x55, 0x66, 0x77, 0x88, 0x11, 0x22, 0x33, 0x44, 0x55, 0x66,
                0x77, 0x88, 0x11, 0x22, 0x33, 0x44,
            ]),
            start: 5,
            end: 5 + 365 * 24 * 60 * 60,
            wght: KILO_AVAX,
        },
        subnet: Id::empty(),
        signer: Signer::ProofOfPossession(ProofOfPossession::new(BLS_PUBKEY, BLS_SIG)),
        stake_outs: list(vec![TransferableOutput { asset_id: avax, out: transfer(KILO_AVAX) }]),
        validator_rewards_owner: Owner::Secp256k1(owners_one_addr()),
        delegator_rewards_owner: Owner::Secp256k1(owners_one_addr()),
        delegation_shares: 1_000_000,
    }));
    vdr.initialize(&GenesisCodec()).expect("init validator tx");

    let mut chain = Tx::new(UnsignedTx::CreateChain(CreateChainTx {
        base: BaseTx {
            network_id: 1,
            blockchain_id: Id::empty(),
            outs: list(vec![]),
            ins: list(vec![]),
            memo: vec![],
        },
        subnet_id: Id::empty(),
        chain_name: "X-Chain".to_string(),
        vm_id: Id::from([0x07; 32]),
        fx_ids: list(vec![Id::from([0x09; 32])]),
        genesis_data: b"avm-genesis".to_vec(),
        subnet_auth: Auth::Secp256k1(SigIndices { sig_indices: list(vec![]) }),
    }));
    chain.initialize(&GenesisCodec()).expect("init chain tx");

    Genesis {
        utxos: list(vec![utxo0, utxo1]),
        validators: list(vec![vdr]),
        chains: list(vec![chain]),
        timestamp: 5,
        initial_supply: 360_000_000 * 1_000_000_000,
        message: "synthetic genesis".to_string(),
    }
}

#[test]
fn pchain_genesis_block_id() {
    let g = synthetic_genesis();
    let bytes = marshal(&g).expect("marshal genesis");

    let id = genesis_id(&bytes);
    assert_eq!(id, digest_id(&bytes));

    let block = genesis_block(&bytes).expect("derive genesis block");
    assert_eq!(block.parent_id(), id);
    assert_eq!(block.height(), 0);
    assert!(matches!(block.body(), BlockBody::ApricotCommit(_)));

    let parsed = parse(&bytes).expect("parse genesis");
    assert_eq!(parsed, g);
}

#[test]
fn seed_state_records_genesis() {
    let g = synthetic_genesis();
    let bytes = marshal(&g).expect("marshal");
    let mut state = State::new();

    let blk_id = seed_state(&mut state, &g, &bytes).expect("seed");

    let expected = genesis_block(&bytes).expect("block").id();
    assert_eq!(blk_id, expected);

    assert_eq!(state.current_supply(Id::empty()).expect("supply"), g.initial_supply);
    assert_eq!(state.timestamp(), 5);

    for gutxo in &g.utxos.items {
        let mut prefixed = u64::from(gutxo.utxo.output_index).to_be_bytes().to_vec();
        prefixed.extend_from_slice(gutxo.utxo.tx_id.as_bytes());
        let id = digest_id(&prefixed);
        assert_eq!(gutxo.utxo.input_id(), id);
        assert!(state.get_utxo(id).is_ok());
    }

    assert_eq!(state.current_stakers().len(), 1);
    assert_eq!(state.chains(Id::empty()).len(), 1);
}

#[test]
fn seed_state_records_genesis_validator_tx() {
    let g = synthetic_genesis();
    let bytes = marshal(&g).expect("marshal");
    let mut state = State::new();

    seed_state(&mut state, &g, &bytes).expect("seed");

    let vdr = g.validators.items.first().expect("one genesis validator");
    assert!(!vdr.bytes().is_empty());

    let stored = state.get_tx(vdr.id()).expect("genesis validator tx in store");
    assert_eq!(stored, vdr.bytes());

    let parsed = Tx::parse(&Codec(), &stored).expect("parse stored validator tx");
    assert!(rewarded_staker_tx(&parsed).is_some());
}

#[test]
fn genesis_validators_become_stakers() {
    let g = synthetic_genesis();
    let s = staker_from_validator_tx(&g.validators.items[0]).expect("staker");
    assert_eq!(s.tx_id, g.validators.items[0].id());
    assert_eq!(s.weight, 2_000 * 1_000_000_000);
    assert_eq!((s.start_time, s.end_time), (5, 5 + 365 * 24 * 60 * 60));
    assert_eq!(s.priority, Priority::PrimaryNetworkValidatorCurrent);
    assert_eq!(s.public_key.expect("a key").compress(), BLS_PUBKEY);
    assert!(staker_from_validator_tx(&g.chains.items[0]).is_err());
}

#[test]
fn a_genesis_with_bytes_left_over_is_refused() {
    let mut bytes = marshal(&synthetic_genesis()).expect("marshal");
    bytes.push(0);
    assert_eq!(parse(&bytes).err(), Some(Error::Codec(CodecError::ExtraSpace)));
}
