use ava_platformvm::block::codec::Codec;
use ava_platformvm::codec::CodecError;
use ava_platformvm::ids::{Id, NodeId, ShortId};
use ava_platformvm::signer::{BlsSignature, ProofOfPossession};
use ava_platformvm::txs::components::{
    Auth, BaseTx, Input, Output, OutputOwners, Owner, SigIndices, TransferInput, TransferOutput,
    TransferableInput, TransferableOutput,
};
use ava_platformvm::txs::delegation::{AddDelegatorTx, AddPermissionlessDelegatorTx};
use ava_platformvm::txs::l1::{
    ConvertSubnetToL1Tx, ConvertSubnetToL1Validator, DisableL1ValidatorTx,
    IncreaseL1ValidatorBalanceTx, L1Owner, RegisterL1ValidatorTx, SetL1ValidatorWeightTx,
};
use ava_platformvm::txs::mempool::{Mempool, MempoolError};
use ava_platformvm::txs::subnets::{
    AddSubnetValidatorTx, RemoveSubnetValidatorTx, TransferSubnetOwnershipTx, TransformSubnetTx,
};
use ava_platformvm::txs::transfers::{AdvanceTimeTx, ExportTx, ImportTx};
use ava_platformvm::txs::tx::Tx;
use ava_platformvm::txs::unsigned::{RewardValidatorTx, UnsignedTx, Validator};
use ava_platformvm::wire::List;

fn input() -> TransferableInput {
    TransferableInput {
        tx_id: Id::from([0x31; 32]),
        output_index: 7,
        asset_id: Id::from([0x32; 32]),
        input: Input::Transfer(TransferInput { amt: 5, sig_indices: List { items: vec![0, 1] } }),
    }
}

fn owners() -> OutputOwners {
    OutputOwners {
        locktime: 0,
        threshold: 1,
        addrs: List { items: vec![ShortId::from([0x21; 20])] },
    }
}

fn output() -> TransferableOutput {
    TransferableOutput {
        asset_id: Id::from([0x32; 32]),
        out: Output::Transfer(TransferOutput { amt: 9, owners: owners() }),
    }
}

fn base(ins: Vec<TransferableInput>) -> BaseTx {
    BaseTx {
        network_id: 1,
        blockchain_id: Id::from([0x11; 32]),
        outs: List { items: vec![] },
        ins: List { items: ins },
        memo: vec![],
    }
}

fn validator() -> Validator {
    Validator { node_id: NodeId::from([0x41; 20]), start: 1, end: 2, wght: 3 }
}

fn owner() -> Owner {
    Owner::Secp256k1(owners())
}

fn auth() -> Auth {
    Auth::Secp256k1(SigIndices { sig_indices: List { items: vec![4] } })
}

fn l1_owner() -> L1Owner {
    L1Owner { threshold: 1, addresses: List { items: vec![ShortId::from([0x22; 20])] } }
}

fn subnet() -> Id {
    Id::from([0x51; 32])
}

fn all_kinds() -> Vec<(u32, UnsignedTx)> {
    vec![
        (
            13,
            UnsignedTx::AddSubnetValidator(AddSubnetValidatorTx {
                base: base(vec![]),
                validator: validator(),
                subnet: subnet(),
                subnet_auth: auth(),
            }),
        ),
        (
            14,
            UnsignedTx::AddDelegator(AddDelegatorTx {
                base: base(vec![input()]),
                validator: validator(),
                stake_outs: List { items: vec![output()] },
                delegation_rewards_owner: owner(),
            }),
        ),
        (
            17,
            UnsignedTx::Import(ImportTx {
                base: base(vec![]),
                source_chain: Id::from([0x61; 32]),
                imported_inputs: List { items: vec![input()] },
            }),
        ),
        (
            18,
            UnsignedTx::Export(ExportTx {
                base: base(vec![input()]),
                destination_chain: Id::from([0x61; 32]),
                exported_outputs: List { items: vec![output()] },
            }),
        ),
        (19, UnsignedTx::AdvanceTime(AdvanceTimeTx { time: 77 })),
        (20, UnsignedTx::RewardValidator(RewardValidatorTx { tx_id: Id::from([0x71; 32]) })),
        (
            23,
            UnsignedTx::RemoveSubnetValidator(RemoveSubnetValidatorTx {
                base: base(vec![]),
                node_id: NodeId::from([0x41; 20]),
                subnet: subnet(),
                subnet_auth: auth(),
            }),
        ),
        (
            24,
            UnsignedTx::TransformSubnet(TransformSubnetTx {
                base: base(vec![]),
                subnet: subnet(),
                asset_id: Id::from([0x52; 32]),
                initial_supply: 1,
                maximum_supply: 2,
                min_consumption_rate: 3,
                max_consumption_rate: 4,
                min_validator_stake: 5,
                max_validator_stake: 6,
                min_stake_duration: 7,
                max_stake_duration: 8,
                min_delegation_fee: 9,
                min_delegator_stake: 10,
                max_validator_weight_factor: 11,
                uptime_requirement: 12,
                subnet_auth: auth(),
            }),
        ),
        (
            26,
            UnsignedTx::AddPermissionlessDelegator(AddPermissionlessDelegatorTx {
                base: base(vec![]),
                validator: validator(),
                subnet: subnet(),
                stake_outs: List { items: vec![output()] },
                delegation_rewards_owner: owner(),
            }),
        ),
        (
            33,
            UnsignedTx::TransferSubnetOwnership(TransferSubnetOwnershipTx {
                base: base(vec![]),
                subnet: subnet(),
                subnet_auth: auth(),
                owner: owner(),
            }),
        ),
        (34, UnsignedTx::Base(base(vec![input()]))),
        (
            35,
            UnsignedTx::ConvertSubnetToL1(ConvertSubnetToL1Tx {
                base: base(vec![]),
                subnet: subnet(),
                chain_id: Id::from([0x53; 32]),
                address: vec![1, 2, 3],
                validators: List {
                    items: vec![ConvertSubnetToL1Validator {
                        node_id: vec![0x41; 20],
                        weight: 1,
                        balance: 2,
                        signer: ProofOfPossession { public_key: [0x81; 48], proof: [0x82; 96] },
                        remaining_balance_owner: l1_owner(),
                        deactivation_owner: l1_owner(),
                    }],
                },
                subnet_auth: auth(),
            }),
        ),
        (
            36,
            UnsignedTx::RegisterL1Validator(RegisterL1ValidatorTx {
                base: base(vec![]),
                balance: 6,
                proof_of_possession: BlsSignature { bytes: [0x83; 96] },
                message: vec![7, 8],
            }),
        ),
        (
            37,
            UnsignedTx::SetL1ValidatorWeight(SetL1ValidatorWeightTx {
                base: base(vec![]),
                message: vec![9],
            }),
        ),
        (
            38,
            UnsignedTx::IncreaseL1ValidatorBalance(IncreaseL1ValidatorBalanceTx {
                base: base(vec![]),
                validation_id: Id::from([0x91; 32]),
                balance: 10,
            }),
        ),
        (
            39,
            UnsignedTx::DisableL1Validator(DisableL1ValidatorTx {
                base: base(vec![]),
                validation_id: Id::from([0x91; 32]),
                disable_auth: auth(),
            }),
        ),
    ]
}

#[test]
fn every_kind_is_read_back() {
    for (id, tx) in all_kinds() {
        assert_eq!(tx.codec_type_id(), id);
        let bytes = Codec().marshal(&tx).expect("marshal");
        assert_eq!(bytes[..2], [0, 0]);
        assert_eq!(bytes[2..6], id.to_be_bytes());
        let back: UnsignedTx = Codec().unmarshal(&bytes).expect("unmarshal");
        assert_eq!(back, tx);
        let cut = Codec().unmarshal::<UnsignedTx>(&bytes[..bytes.len() - 1]);
        assert_eq!(cut, Err(CodecError::InsufficientLength));
    }
}

#[test]
fn kinds_without_a_number_are_refused() {
    for id in [0u32, 5, 11, 21, 22, 27, 32, 43, u32::MAX] {
        let mut bytes = vec![0, 0];
        bytes.extend(id.to_be_bytes());
        bytes.extend([0; 64]);
        let r = Codec().unmarshal::<UnsignedTx>(&bytes);
        assert_eq!(r, Err(CodecError::UnknownTypeId));
    }
}

#[test]
fn a_delegation_is_laid_out_field_by_field() {
    let tx = UnsignedTx::AddDelegator(AddDelegatorTx {
        base: base(vec![]),
        validator: validator(),
        stake_outs: List { items: vec![] },
        delegation_rewards_owner: owner(),
    });
    let mut expected: Vec<u8> = vec![0, 0];
    expected.extend(14u32.to_be_bytes());
    expected.extend(1u32.to_be_bytes());
    expected.extend([0x11; 32]);
    expected.extend([0; 12]);
    expected.extend([0x41; 20]);
    expected.extend(1u64.to_be_bytes());
    expected.extend(2u64.to_be_bytes());
    expected.extend(3u64.to_be_bytes());
    expected.extend(0u32.to_be_bytes());
    expected.extend(11u32.to_be_bytes());
    expected.extend(0u64.to_be_bytes());
    expected.extend(1u32.to_be_bytes());
    expected.extend(1u32.to_be_bytes());
    expected.extend([0x21; 20]);
    assert_eq!(Codec().marshal(&tx), Ok(expected));
}

fn initialized(unsigned: UnsignedTx) -> Tx {
    let mut tx = Tx::new(unsigned);
    tx.initialize(&Codec()).expect("initialize");
    tx
}

#[test]
fn imported_inputs_conflict_too() {
    let mut m = Mempool::new();
    let import = UnsignedTx::Import(ImportTx {
        base: base(vec![]),
        source_chain: Id::from([0x61; 32]),
        imported_inputs: List { items: vec![input()] },
    });
    assert_eq!(m.add(initialized(import)), Ok(()));
    let spend = UnsignedTx::Base(base(vec![input()]));
    assert_eq!(m.add(initialized(spend)), Err(MempoolError::Conflict));
}
