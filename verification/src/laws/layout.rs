//! Layouts: what is written of each kind of value, and in what order.
use vstd::prelude::*;
use vstd::utf8::encode_utf8;

use crate::block::apricot::{
    ApricotAbortBlock,
    ApricotAtomicBlock,
    ApricotCommitBlock,
    ApricotProposalBlock,
    ApricotStandardBlock,
    CommonBlock,
    apricot_abort_block_fits,
    apricot_abort_block_ser,
    apricot_atomic_block_fits,
    apricot_atomic_block_ser,
    apricot_commit_block_fits,
    apricot_commit_block_ser,
    apricot_proposal_block_fits,
    apricot_proposal_block_ser,
    apricot_standard_block_fits,
    apricot_standard_block_ser,
    common_block_fits,
    common_block_ser,
};
use crate::block::banff::{
    BanffAbortBlock,
    BanffCommitBlock,
    BanffProposalBlock,
    BanffStandardBlock,
    banff_abort_block_fits,
    banff_abort_block_ser,
    banff_commit_block_fits,
    banff_commit_block_ser,
    banff_proposal_block_fits,
    banff_proposal_block_ser,
    banff_standard_block_fits,
    banff_standard_block_ser,
};
use crate::block::body::{BlockBody, block_body_fits, block_body_ser};
use crate::codec::{be, be_value, lemma_be_len, lemma_be_value_be, lemma_pow256, CodecError};
use crate::genesis::types::{
    Genesis,
    GenesisUtxo,
    genesis_fits,
    genesis_ser,
    genesis_utxo_fits,
    genesis_utxo_ser,
};
use crate::ids::{Id, NodeId, ShortId};
use crate::signer::{
    BlsSignature,
    Empty,
    ProofOfPossession,
    Signer,
    signer_fits,
    signer_ser,
};
use crate::txs::components::{
    Auth,
    BaseTx,
    Input,
    Output,
    OutputOwners,
    Owner,
    SigIndices,
    TransferInput,
    TransferOutput,
    TransferableInput,
    TransferableOutput,
    auth_fits,
    auth_ser,
    base_tx_fits,
    base_tx_ser,
    input_fits,
    input_ser,
    input_view,
    output_fits,
    output_owners_fits,
    output_owners_ser,
    output_ser,
    output_view,
    owner_fits,
    owner_ser,
    sig_indices_fits,
    sig_indices_ser,
    transfer_input_fits,
    transfer_input_ser,
    transfer_output_fits,
    transfer_output_ser,
    transferable_input_fits,
    transferable_input_ser,
    transferable_output_fits,
    transferable_output_ser,
};
use crate::txs::delegation::{
    AddDelegatorTx,
    AddPermissionlessDelegatorTx,
    add_delegator_tx_fits,
    add_delegator_tx_ser,
    add_permissionless_delegator_tx_fits,
    add_permissionless_delegator_tx_ser,
};
use crate::txs::l1::{
    ConvertSubnetToL1Tx,
    ConvertSubnetToL1Validator,
    DisableL1ValidatorTx,
    IncreaseL1ValidatorBalanceTx,
    L1Owner,
    RegisterL1ValidatorTx,
    SetL1ValidatorWeightTx,
    convert_subnet_to_l1_tx_fits,
    convert_subnet_to_l1_tx_ser,
    convert_subnet_to_l1_validator_fits,
    convert_subnet_to_l1_validator_ser,
    disable_l1_validator_tx_fits,
    disable_l1_validator_tx_ser,
    increase_l1_validator_balance_tx_fits,
    increase_l1_validator_balance_tx_ser,
    l1_owner_fits,
    l1_owner_ser,
    register_l1_validator_tx_fits,
    register_l1_validator_tx_ser,
    set_l1_validator_weight_tx_fits,
    set_l1_validator_weight_tx_ser,
};
use crate::txs::subnets::{
    AddSubnetValidatorTx,
    RemoveSubnetValidatorTx,
    TransferSubnetOwnershipTx,
    TransformSubnetTx,
    add_subnet_validator_tx_fits,
    add_subnet_validator_tx_ser,
    remove_subnet_validator_tx_fits,
    remove_subnet_validator_tx_ser,
    transfer_subnet_ownership_tx_fits,
    transfer_subnet_ownership_tx_ser,
    transform_subnet_tx_fits,
    transform_subnet_tx_ser,
};
use crate::txs::transfers::{
    AdvanceTimeTx,
    ExportTx,
    ImportTx,
    advance_time_tx_fits,
    advance_time_tx_ser,
    export_tx_fits,
    export_tx_ser,
    import_tx_fits,
    import_tx_ser,
};
use crate::txs::tx::Tx;
use crate::txs::unsigned::{
    AddPermissionlessValidatorTx,
    AddValidatorTx,
    CreateChainTx,
    CreateSubnetTx,
    Credential,
    RewardValidatorTx,
    Sig,
    SigList,
    UnsignedTx,
    add_permissionless_validator_tx_fits,
    add_permissionless_validator_tx_ser,
    add_validator_tx_fits,
    add_validator_tx_ser,
    create_chain_tx_fits,
    create_chain_tx_ser,
    create_subnet_tx_fits,
    create_subnet_tx_ser,
    credential_fits,
    credential_ser,
    reward_validator_tx_fits,
    reward_validator_tx_ser,
    sig_list_fits,
    sig_list_ser,
    unsigned_tx_fits,
    unsigned_tx_ser,
};
use crate::txs::validator::{Validator, validator_fits, validator_ser};
use crate::utxo::{Utxo, utxo_fits, utxo_ser};
use crate::wire::{ser_all, versioned_bytes_are_canonical, versioned_round_trip, List, Manager, Wire};

verus! {

/// A [`Utxo`] is written as its transaction's id, index among its outputs,
/// asset and its output, in this order.
pub proof fn utxo_layout(v: &Utxo, out: &mut Vec<u8>, able: bool)
    requires
        call_ensures(Utxo::can_write, (v,), able),
        able ==> call_ensures(Utxo::write, (v, out), ()),
    ensures
        able <==> Id::fits(v.tx_id@) && u32::fits(v.output_index@)
            && Id::fits(v.asset_id@) && Output::fits(v.out@),
        able ==> final(out)@ == old(out)@ + Id::ser(v.tx_id@) + u32::ser(v.output_index@)
            + Id::ser(v.asset_id@) + Output::ser(v.out@),
{
    reveal(utxo_fits);
    reveal(utxo_ser);
}

/// A [`CommonBlock`] is written as its parent and its height, in this order.
pub proof fn common_block_layout(v: &CommonBlock, out: &mut Vec<u8>, able: bool)
    requires
        call_ensures(CommonBlock::can_write, (v,), able),
        able ==> call_ensures(CommonBlock::write, (v, out), ()),
    ensures
        able <==> Id::fits(v.parent_id@) && u64::fits(v.height@),
        able ==> final(out)@ == old(out)@ + Id::ser(v.parent_id@) + u64::ser(v.height@),
{
    reveal(common_block_fits);
    reveal(common_block_ser);
}

/// An [`ApricotProposalBlock`] is written as its parent and height and its
/// transaction, in this order.
pub proof fn apricot_proposal_block_layout(v: &ApricotProposalBlock, out: &mut Vec<u8>, able: bool)
    requires
        call_ensures(ApricotProposalBlock::can_write, (v,), able),
        able ==> call_ensures(ApricotProposalBlock::write, (v, out), ()),
    ensures
        able <==> CommonBlock::fits(v.common@) && Tx::fits(v.tx@),
        able ==> final(out)@ == old(out)@ + CommonBlock::ser(v.common@) + Tx::ser(v.tx@),
{
    reveal(apricot_proposal_block_fits);
    reveal(apricot_proposal_block_ser);
}

/// An [`ApricotAbortBlock`] is written as its parent and height.
pub proof fn apricot_abort_block_layout(v: &ApricotAbortBlock, out: &mut Vec<u8>, able: bool)
    requires
        call_ensures(ApricotAbortBlock::can_write, (v,), able),
        able ==> call_ensures(ApricotAbortBlock::write, (v, out), ()),
    ensures
        able <==> CommonBlock::fits(v.common@),
        able ==> final(out)@ == old(out)@ + CommonBlock::ser(v.common@),
{
    reveal(apricot_abort_block_fits);
    reveal(apricot_abort_block_ser);
}

/// An [`ApricotCommitBlock`] is written as its parent and height.
pub proof fn apricot_commit_block_layout(v: &ApricotCommitBlock, out: &mut Vec<u8>, able: bool)
    requires
        call_ensures(ApricotCommitBlock::can_write, (v,), able),
        able ==> call_ensures(ApricotCommitBlock::write, (v, out), ()),
    ensures
        able <==> CommonBlock::fits(v.common@),
        able ==> final(out)@ == old(out)@ + CommonBlock::ser(v.common@),
{
    reveal(apricot_commit_block_fits);
    reveal(apricot_commit_block_ser);
}

/// An [`ApricotStandardBlock`] is written as its parent and height and its
/// transactions, in this order.
pub proof fn apricot_standard_block_layout(v: &ApricotStandardBlock, out: &mut Vec<u8>, able: bool)
    requires
        call_ensures(ApricotStandardBlock::can_write, (v,), able),
        able ==> call_ensures(ApricotStandardBlock::write, (v, out), ()),
    ensures
        able <==> CommonBlock::fits(v.common@)
            && List::<Tx>::fits(v.transactions@),
        able ==> final(out)@ == old(out)@ + CommonBlock::ser(v.common@)
            + List::<Tx>::ser(v.transactions@),
{
    reveal(apricot_standard_block_fits);
    reveal(apricot_standard_block_ser);
}

/// An [`ApricotAtomicBlock`] is written as its parent and height and its
/// transaction, in this order.
pub proof fn apricot_atomic_block_layout(v: &ApricotAtomicBlock, out: &mut Vec<u8>, able: bool)
    requires
        call_ensures(ApricotAtomicBlock::can_write, (v,), able),
        able ==> call_ensures(ApricotAtomicBlock::write, (v, out), ()),
    ensures
        able <==> CommonBlock::fits(v.common@) && Tx::fits(v.tx@),
        able ==> final(out)@ == old(out)@ + CommonBlock::ser(v.common@) + Tx::ser(v.tx@),
{
    reveal(apricot_atomic_block_fits);
    reveal(apricot_atomic_block_ser);
}

/// A [`BanffProposalBlock`] is written as its time, transactions and its older
/// form, in this order.
pub proof fn banff_proposal_block_layout(v: &BanffProposalBlock, out: &mut Vec<u8>, able: bool)
    requires
        call_ensures(BanffProposalBlock::can_write, (v,), able),
        able ==> call_ensures(BanffProposalBlock::write, (v, out), ()),
    ensures
        able <==> u64::fits(v.time@) && List::<Tx>::fits(v.transactions@)
            && ApricotProposalBlock::fits(v.apricot@),
        able ==> final(out)@ == old(out)@ + u64::ser(v.time@)
            + List::<Tx>::ser(v.transactions@) + ApricotProposalBlock::ser(v.apricot@),
{
    reveal(banff_proposal_block_fits);
    reveal(banff_proposal_block_ser);
}

/// A [`BanffAbortBlock`] is written as its time and its older form, in this
/// order.
pub proof fn banff_abort_block_layout(v: &BanffAbortBlock, out: &mut Vec<u8>, able: bool)
    requires
        call_ensures(BanffAbortBlock::can_write, (v,), able),
        able ==> call_ensures(BanffAbortBlock::write, (v, out), ()),
    ensures
        able <==> u64::fits(v.time@) && ApricotAbortBlock::fits(v.apricot@),
        able ==> final(out)@ == old(out)@ + u64::ser(v.time@)
            + ApricotAbortBlock::ser(v.apricot@),
{
    reveal(banff_abort_block_fits);
    reveal(banff_abort_block_ser);
}

/// A [`BanffCommitBlock`] is written as its time and its older form, in this
/// order.
pub proof fn banff_commit_block_layout(v: &BanffCommitBlock, out: &mut Vec<u8>, able: bool)
    requires
        call_ensures(BanffCommitBlock::can_write, (v,), able),
        able ==> call_ensures(BanffCommitBlock::write, (v, out), ()),
    ensures
        able <==> u64::fits(v.time@) && ApricotCommitBlock::fits(v.apricot@),
        able ==> final(out)@ == old(out)@ + u64::ser(v.time@)
            + ApricotCommitBlock::ser(v.apricot@),
{
    reveal(banff_commit_block_fits);
    reveal(banff_commit_block_ser);
}

/// A [`BanffStandardBlock`] is written as its time and its older form, in this
/// order.
pub proof fn banff_standard_block_layout(v: &BanffStandardBlock, out: &mut Vec<u8>, able: bool)
    requires
        call_ensures(BanffStandardBlock::can_write, (v,), able),
        able ==> call_ensures(BanffStandardBlock::write, (v, out), ()),
    ensures
        able <==> u64::fits(v.time@) && ApricotStandardBlock::fits(v.apricot@),
        able ==> final(out)@ == old(out)@ + u64::ser(v.time@)
            + ApricotStandardBlock::ser(v.apricot@),
{
    reveal(banff_standard_block_fits);
    reveal(banff_standard_block_ser);
}

/// A [`GenesisUtxo`] is written as its output and its message, in this order.
pub proof fn genesis_utxo_layout(v: &GenesisUtxo, out: &mut Vec<u8>, able: bool)
    requires
        call_ensures(GenesisUtxo::can_write, (v,), able),
        able ==> call_ensures(GenesisUtxo::write, (v, out), ()),
    ensures
        able <==> Utxo::fits(v.utxo@) && Vec::<u8>::fits(v.message@),
        able ==> final(out)@ == old(out)@ + Utxo::ser(v.utxo@) + Vec::<u8>::ser(v.message@),
{
    reveal(genesis_utxo_fits);
    reveal(genesis_utxo_ser);
}

/// A [`Genesis`] is written as its outputs, validators, chains, timestamp,
/// initial supply and its message, in this order.
pub proof fn genesis_layout(v: &Genesis, out: &mut Vec<u8>, able: bool)
    requires
        call_ensures(Genesis::can_write, (v,), able),
        able ==> call_ensures(Genesis::write, (v, out), ()),
    ensures
        able <==> List::<GenesisUtxo>::fits(v.utxos@)
            && List::<Tx>::fits(v.validators@) && List::<Tx>::fits(v.chains@)
            && u64::fits(v.timestamp@) && u64::fits(v.initial_supply@)
            && String::fits(v.message@),
        able ==> final(out)@ == old(out)@ + List::<GenesisUtxo>::ser(v.utxos@)
            + List::<Tx>::ser(v.validators@) + List::<Tx>::ser(v.chains@)
            + u64::ser(v.timestamp@) + u64::ser(v.initial_supply@) + String::ser(v.message@),
{
    reveal(genesis_fits);
    reveal(genesis_ser);
}

/// An [`OutputOwners`] is written as its locktime, threshold and its addresses,
/// in this order.
pub proof fn output_owners_layout(v: &OutputOwners, out: &mut Vec<u8>, able: bool)
    requires
        call_ensures(OutputOwners::can_write, (v,), able),
        able ==> call_ensures(OutputOwners::write, (v, out), ()),
    ensures
        able <==> u64::fits(v.locktime@) && u32::fits(v.threshold@)
            && List::<ShortId>::fits(v.addrs@),
        able ==> final(out)@ == old(out)@ + u64::ser(v.locktime@) + u32::ser(v.threshold@)
            + List::<ShortId>::ser(v.addrs@),
{
    reveal(output_owners_fits);
    reveal(output_owners_ser);
}

/// A [`TransferOutput`] is written as its amount and its owners, in this order.
pub proof fn transfer_output_layout(v: &TransferOutput, out: &mut Vec<u8>, able: bool)
    requires
        call_ensures(TransferOutput::can_write, (v,), able),
        able ==> call_ensures(TransferOutput::write, (v, out), ()),
    ensures
        able <==> u64::fits(v.amt@) && OutputOwners::fits(v.owners@),
        able ==> final(out)@ == old(out)@ + u64::ser(v.amt@) + OutputOwners::ser(v.owners@),
{
    reveal(transfer_output_fits);
    reveal(transfer_output_ser);
}

/// A [`TransferInput`] is written as its amount and its signers, in this order.
pub proof fn transfer_input_layout(v: &TransferInput, out: &mut Vec<u8>, able: bool)
    requires
        call_ensures(TransferInput::can_write, (v,), able),
        able ==> call_ensures(TransferInput::write, (v, out), ()),
    ensures
        able <==> u64::fits(v.amt@) && List::<u32>::fits(v.sig_indices@),
        able ==> final(out)@ == old(out)@ + u64::ser(v.amt@) + List::<u32>::ser(v.sig_indices@),
{
    reveal(transfer_input_fits);
    reveal(transfer_input_ser);
}

/// A [`TransferableOutput`] is written as its asset and its output, in this
/// order.
pub proof fn transferable_output_layout(v: &TransferableOutput, out: &mut Vec<u8>, able: bool)
    requires
        call_ensures(TransferableOutput::can_write, (v,), able),
        able ==> call_ensures(TransferableOutput::write, (v, out), ()),
    ensures
        able <==> Id::fits(v.asset_id@) && Output::fits(v.out@),
        able ==> final(out)@ == old(out)@ + Id::ser(v.asset_id@) + Output::ser(v.out@),
{
    reveal(transferable_output_fits);
    reveal(transferable_output_ser);
}

/// A [`TransferableInput`] is written as its transaction's id, index among its
/// outputs, asset and its input, in this order.
pub proof fn transferable_input_layout(v: &TransferableInput, out: &mut Vec<u8>, able: bool)
    requires
        call_ensures(TransferableInput::can_write, (v,), able),
        able ==> call_ensures(TransferableInput::write, (v, out), ()),
    ensures
        able <==> Id::fits(v.tx_id@) && u32::fits(v.output_index@)
            && Id::fits(v.asset_id@) && Input::fits(v.input@),
        able ==> final(out)@ == old(out)@ + Id::ser(v.tx_id@) + u32::ser(v.output_index@)
            + Id::ser(v.asset_id@) + Input::ser(v.input@),
{
    reveal(transferable_input_fits);
    reveal(transferable_input_ser);
}

/// A [`BaseTx`] is written as its network, chain, outputs, inputs and its memo,
/// in this order.
pub proof fn base_tx_layout(v: &BaseTx, out: &mut Vec<u8>, able: bool)
    requires
        call_ensures(BaseTx::can_write, (v,), able),
        able ==> call_ensures(BaseTx::write, (v, out), ()),
    ensures
        able <==> u32::fits(v.network_id@) && Id::fits(v.blockchain_id@)
            && List::<TransferableOutput>::fits(v.outs@)
            && List::<TransferableInput>::fits(v.ins@) && Vec::<u8>::fits(v.memo@),
        able ==> final(out)@ == old(out)@ + u32::ser(v.network_id@)
            + Id::ser(v.blockchain_id@) + List::<TransferableOutput>::ser(v.outs@)
            + List::<TransferableInput>::ser(v.ins@) + Vec::<u8>::ser(v.memo@),
{
    reveal(base_tx_fits);
    reveal(base_tx_ser);
}

/// A [`SigIndices`] is written as its signers.
pub proof fn sig_indices_layout(v: &SigIndices, out: &mut Vec<u8>, able: bool)
    requires
        call_ensures(SigIndices::can_write, (v,), able),
        able ==> call_ensures(SigIndices::write, (v, out), ()),
    ensures
        able <==> List::<u32>::fits(v.sig_indices@),
        able ==> final(out)@ == old(out)@ + List::<u32>::ser(v.sig_indices@),
{
    reveal(sig_indices_fits);
    reveal(sig_indices_ser);
}

/// An [`AddDelegatorTx`] is written as its common part, validator, staked
/// outputs and its delegation rewards owner, in this order.
pub proof fn add_delegator_tx_layout(v: &AddDelegatorTx, out: &mut Vec<u8>, able: bool)
    requires
        call_ensures(AddDelegatorTx::can_write, (v,), able),
        able ==> call_ensures(AddDelegatorTx::write, (v, out), ()),
    ensures
        able <==> BaseTx::fits(v.base@) && Validator::fits(v.validator@)
            && List::<TransferableOutput>::fits(v.stake_outs@)
            && Owner::fits(v.delegation_rewards_owner@),
        able ==> final(out)@ == old(out)@ + BaseTx::ser(v.base@)
            + Validator::ser(v.validator@) + List::<TransferableOutput>::ser(v.stake_outs@)
            + Owner::ser(v.delegation_rewards_owner@),
{
    reveal(add_delegator_tx_fits);
    reveal(add_delegator_tx_ser);
}

/// An [`AddPermissionlessDelegatorTx`] is written as its common part,
/// validator, subnet, staked outputs and its delegation rewards owner, in this
/// order.
pub proof fn add_permissionless_delegator_tx_layout(
    v: &AddPermissionlessDelegatorTx,
    out: &mut Vec<u8>,
    able: bool,
)
    requires
        call_ensures(AddPermissionlessDelegatorTx::can_write, (v,), able),
        able ==> call_ensures(AddPermissionlessDelegatorTx::write, (v, out), ()),
    ensures
        able <==> BaseTx::fits(v.base@) && Validator::fits(v.validator@)
            && Id::fits(v.subnet@) && List::<TransferableOutput>::fits(v.stake_outs@)
            && Owner::fits(v.delegation_rewards_owner@),
        able ==> final(out)@ == old(out)@ + BaseTx::ser(v.base@)
            + Validator::ser(v.validator@) + Id::ser(v.subnet@)
            + List::<TransferableOutput>::ser(v.stake_outs@)
            + Owner::ser(v.delegation_rewards_owner@),
{
    reveal(add_permissionless_delegator_tx_fits);
    reveal(add_permissionless_delegator_tx_ser);
}

/// An [`L1Owner`] is written as its threshold and its addresses, in this order.
pub proof fn l1_owner_layout(v: &L1Owner, out: &mut Vec<u8>, able: bool)
    requires
        call_ensures(L1Owner::can_write, (v,), able),
        able ==> call_ensures(L1Owner::write, (v, out), ()),
    ensures
        able <==> u32::fits(v.threshold@) && List::<ShortId>::fits(v.addresses@),
        able ==> final(out)@ == old(out)@ + u32::ser(v.threshold@)
            + List::<ShortId>::ser(v.addresses@),
{
    reveal(l1_owner_fits);
    reveal(l1_owner_ser);
}

/// A [`ConvertSubnetToL1Validator`] is written as its node, weight, balance,
/// signer, remaining balance owner and its deactivation owner, in this order.
pub proof fn convert_subnet_to_l1_validator_layout(
    v: &ConvertSubnetToL1Validator,
    out: &mut Vec<u8>,
    able: bool,
)
    requires
        call_ensures(ConvertSubnetToL1Validator::can_write, (v,), able),
        able ==> call_ensures(ConvertSubnetToL1Validator::write, (v, out), ()),
    ensures
        able <==> Vec::<u8>::fits(v.node_id@) && u64::fits(v.weight@)
            && u64::fits(v.balance@) && ProofOfPossession::fits(v.signer@)
            && L1Owner::fits(v.remaining_balance_owner@) && L1Owner::fits(v.deactivation_owner@),
        able ==> final(out)@ == old(out)@ + Vec::<u8>::ser(v.node_id@) + u64::ser(v.weight@)
            + u64::ser(v.balance@) + ProofOfPossession::ser(v.signer@)
            + L1Owner::ser(v.remaining_balance_owner@) + L1Owner::ser(v.deactivation_owner@),
{
    reveal(convert_subnet_to_l1_validator_fits);
    reveal(convert_subnet_to_l1_validator_ser);
}

/// A [`ConvertSubnetToL1Tx`] is written as its common part, subnet, chain,
/// address, validators and its subnet's authorisation, in this order.
pub proof fn convert_subnet_to_l1_tx_layout(v: &ConvertSubnetToL1Tx, out: &mut Vec<u8>, able: bool)
    requires
        call_ensures(ConvertSubnetToL1Tx::can_write, (v,), able),
        able ==> call_ensures(ConvertSubnetToL1Tx::write, (v, out), ()),
    ensures
        able <==> BaseTx::fits(v.base@) && Id::fits(v.subnet@)
            && Id::fits(v.chain_id@) && Vec::<u8>::fits(v.address@)
            && List::<ConvertSubnetToL1Validator>::fits(v.validators@)
            && Auth::fits(v.subnet_auth@),
        able ==> final(out)@ == old(out)@ + BaseTx::ser(v.base@) + Id::ser(v.subnet@)
            + Id::ser(v.chain_id@) + Vec::<u8>::ser(v.address@)
            + List::<ConvertSubnetToL1Validator>::ser(v.validators@)
            + Auth::ser(v.subnet_auth@),
{
    reveal(convert_subnet_to_l1_tx_fits);
    reveal(convert_subnet_to_l1_tx_ser);
}

/// A [`RegisterL1ValidatorTx`] is written as its common part, balance, proof of
/// possession and its message, in this order.
pub proof fn register_l1_validator_tx_layout(
    v: &RegisterL1ValidatorTx,
    out: &mut Vec<u8>,
    able: bool,
)
    requires
        call_ensures(RegisterL1ValidatorTx::can_write, (v,), able),
        able ==> call_ensures(RegisterL1ValidatorTx::write, (v, out), ()),
    ensures
        able <==> BaseTx::fits(v.base@) && u64::fits(v.balance@)
            && BlsSignature::fits(v.proof_of_possession@) && Vec::<u8>::fits(v.message@),
        able ==> final(out)@ == old(out)@ + BaseTx::ser(v.base@) + u64::ser(v.balance@)
            + BlsSignature::ser(v.proof_of_possession@) + Vec::<u8>::ser(v.message@),
{
    reveal(register_l1_validator_tx_fits);
    reveal(register_l1_validator_tx_ser);
}

/// A [`SetL1ValidatorWeightTx`] is written as its common part and its message,
/// in this order.
pub proof fn set_l1_validator_weight_tx_layout(
    v: &SetL1ValidatorWeightTx,
    out: &mut Vec<u8>,
    able: bool,
)
    requires
        call_ensures(SetL1ValidatorWeightTx::can_write, (v,), able),
        able ==> call_ensures(SetL1ValidatorWeightTx::write, (v, out), ()),
    ensures
        able <==> BaseTx::fits(v.base@) && Vec::<u8>::fits(v.message@),
        able ==> final(out)@ == old(out)@ + BaseTx::ser(v.base@) + Vec::<u8>::ser(v.message@),
{
    reveal(set_l1_validator_weight_tx_fits);
    reveal(set_l1_validator_weight_tx_ser);
}

/// An [`IncreaseL1ValidatorBalanceTx`] is written as its common part,
/// validation and its balance, in this order.
pub proof fn increase_l1_validator_balance_tx_layout(
    v: &IncreaseL1ValidatorBalanceTx,
    out: &mut Vec<u8>,
    able: bool,
)
    requires
        call_ensures(IncreaseL1ValidatorBalanceTx::can_write, (v,), able),
        able ==> call_ensures(IncreaseL1ValidatorBalanceTx::write, (v, out), ()),
    ensures
        able <==> BaseTx::fits(v.base@) && Id::fits(v.validation_id@)
            && u64::fits(v.balance@),
        able ==> final(out)@ == old(out)@ + BaseTx::ser(v.base@) + Id::ser(v.validation_id@)
            + u64::ser(v.balance@),
{
    reveal(increase_l1_validator_balance_tx_fits);
    reveal(increase_l1_validator_balance_tx_ser);
}

/// A [`DisableL1ValidatorTx`] is written as its common part, validation and its
/// authorisation, in this order.
pub proof fn disable_l1_validator_tx_layout(v: &DisableL1ValidatorTx, out: &mut Vec<u8>, able: bool)
    requires
        call_ensures(DisableL1ValidatorTx::can_write, (v,), able),
        able ==> call_ensures(DisableL1ValidatorTx::write, (v, out), ()),
    ensures
        able <==> BaseTx::fits(v.base@) && Id::fits(v.validation_id@)
            && Auth::fits(v.disable_auth@),
        able ==> final(out)@ == old(out)@ + BaseTx::ser(v.base@) + Id::ser(v.validation_id@)
            + Auth::ser(v.disable_auth@),
{
    reveal(disable_l1_validator_tx_fits);
    reveal(disable_l1_validator_tx_ser);
}

/// An [`AddSubnetValidatorTx`] is written as its common part, validator, subnet
/// and its subnet's authorisation, in this order.
pub proof fn add_subnet_validator_tx_layout(v: &AddSubnetValidatorTx, out: &mut Vec<u8>, able: bool)
    requires
        call_ensures(AddSubnetValidatorTx::can_write, (v,), able),
        able ==> call_ensures(AddSubnetValidatorTx::write, (v, out), ()),
    ensures
        able <==> BaseTx::fits(v.base@) && Validator::fits(v.validator@)
            && Id::fits(v.subnet@) && Auth::fits(v.subnet_auth@),
        able ==> final(out)@ == old(out)@ + BaseTx::ser(v.base@)
            + Validator::ser(v.validator@) + Id::ser(v.subnet@) + Auth::ser(v.subnet_auth@),
{
    reveal(add_subnet_validator_tx_fits);
    reveal(add_subnet_validator_tx_ser);
}

/// A [`RemoveSubnetValidatorTx`] is written as its common part, node, subnet
/// and its subnet's authorisation, in this order.
pub proof fn remove_subnet_validator_tx_layout(
    v: &RemoveSubnetValidatorTx,
    out: &mut Vec<u8>,
    able: bool,
)
    requires
        call_ensures(RemoveSubnetValidatorTx::can_write, (v,), able),
        able ==> call_ensures(RemoveSubnetValidatorTx::write, (v, out), ()),
    ensures
        able <==> BaseTx::fits(v.base@) && NodeId::fits(v.node_id@)
            && Id::fits(v.subnet@) && Auth::fits(v.subnet_auth@),
        able ==> final(out)@ == old(out)@ + BaseTx::ser(v.base@) + NodeId::ser(v.node_id@)
            + Id::ser(v.subnet@) + Auth::ser(v.subnet_auth@),
{
    reveal(remove_subnet_validator_tx_fits);
    reveal(remove_subnet_validator_tx_ser);
}

/// A [`TransformSubnetTx`] is written as its common part, subnet, asset,
/// initial supply, maximum supply, min consumption rate, max consumption rate,
/// min validator stake, max validator stake, min stake duration, max stake
/// duration, lowest delegation fee, min delegator stake, max validator weight
/// factor, uptime requirement and its subnet's authorisation, in this order.
pub proof fn transform_subnet_tx_layout(v: &TransformSubnetTx, out: &mut Vec<u8>, able: bool)
    requires
        call_ensures(TransformSubnetTx::can_write, (v,), able),
        able ==> call_ensures(TransformSubnetTx::write, (v, out), ()),
    ensures
        able <==> BaseTx::fits(v.base@) && Id::fits(v.subnet@)
            && Id::fits(v.asset_id@) && u64::fits(v.initial_supply@)
            && u64::fits(v.maximum_supply@) && u64::fits(v.min_consumption_rate@)
            && u64::fits(v.max_consumption_rate@) && u64::fits(v.min_validator_stake@)
            && u64::fits(v.max_validator_stake@) && u32::fits(v.min_stake_duration@)
            && u32::fits(v.max_stake_duration@) && u32::fits(v.min_delegation_fee@)
            && u64::fits(v.min_delegator_stake@) && u8::fits(v.max_validator_weight_factor@)
            && u32::fits(v.uptime_requirement@) && Auth::fits(v.subnet_auth@),
        able ==> final(out)@ == old(out)@ + BaseTx::ser(v.base@) + Id::ser(v.subnet@)
            + Id::ser(v.asset_id@) + u64::ser(v.initial_supply@) + u64::ser(v.maximum_supply@)
            + u64::ser(v.min_consumption_rate@) + u64::ser(v.max_consumption_rate@)
            + u64::ser(v.min_validator_stake@) + u64::ser(v.max_validator_stake@)
            + u32::ser(v.min_stake_duration@) + u32::ser(v.max_stake_duration@)
            + u32::ser(v.min_delegation_fee@) + u64::ser(v.min_delegator_stake@)
            + u8::ser(v.max_validator_weight_factor@) + u32::ser(v.uptime_requirement@)
            + Auth::ser(v.subnet_auth@),
{
    reveal(transform_subnet_tx_fits);
    reveal(transform_subnet_tx_ser);
}

/// A [`TransferSubnetOwnershipTx`] is written as its common part, subnet,
/// subnet's authorisation and its owner, in this order.
pub proof fn transfer_subnet_ownership_tx_layout(
    v: &TransferSubnetOwnershipTx,
    out: &mut Vec<u8>,
    able: bool,
)
    requires
        call_ensures(TransferSubnetOwnershipTx::can_write, (v,), able),
        able ==> call_ensures(TransferSubnetOwnershipTx::write, (v, out), ()),
    ensures
        able <==> BaseTx::fits(v.base@) && Id::fits(v.subnet@)
            && Auth::fits(v.subnet_auth@) && Owner::fits(v.owner@),
        able ==> final(out)@ == old(out)@ + BaseTx::ser(v.base@) + Id::ser(v.subnet@)
            + Auth::ser(v.subnet_auth@) + Owner::ser(v.owner@),
{
    reveal(transfer_subnet_ownership_tx_fits);
    reveal(transfer_subnet_ownership_tx_ser);
}

/// An [`ImportTx`] is written as its common part, source chain and its imported
/// inputs, in this order.
pub proof fn import_tx_layout(v: &ImportTx, out: &mut Vec<u8>, able: bool)
    requires
        call_ensures(ImportTx::can_write, (v,), able),
        able ==> call_ensures(ImportTx::write, (v, out), ()),
    ensures
        able <==> BaseTx::fits(v.base@) && Id::fits(v.source_chain@)
            && List::<TransferableInput>::fits(v.imported_inputs@),
        able ==> final(out)@ == old(out)@ + BaseTx::ser(v.base@) + Id::ser(v.source_chain@)
            + List::<TransferableInput>::ser(v.imported_inputs@),
{
    reveal(import_tx_fits);
    reveal(import_tx_ser);
}

/// An [`ExportTx`] is written as its common part, destination chain and its
/// exported outputs, in this order.
pub proof fn export_tx_layout(v: &ExportTx, out: &mut Vec<u8>, able: bool)
    requires
        call_ensures(ExportTx::can_write, (v,), able),
        able ==> call_ensures(ExportTx::write, (v, out), ()),
    ensures
        able <==> BaseTx::fits(v.base@) && Id::fits(v.destination_chain@)
            && List::<TransferableOutput>::fits(v.exported_outputs@),
        able ==> final(out)@ == old(out)@ + BaseTx::ser(v.base@)
            + Id::ser(v.destination_chain@)
            + List::<TransferableOutput>::ser(v.exported_outputs@),
{
    reveal(export_tx_fits);
    reveal(export_tx_ser);
}

/// An [`AdvanceTimeTx`] is written as its time.
pub proof fn advance_time_tx_layout(v: &AdvanceTimeTx, out: &mut Vec<u8>, able: bool)
    requires
        call_ensures(AdvanceTimeTx::can_write, (v,), able),
        able ==> call_ensures(AdvanceTimeTx::write, (v, out), ()),
    ensures
        able <==> u64::fits(v.time@),
        able ==> final(out)@ == old(out)@ + u64::ser(v.time@),
{
    reveal(advance_time_tx_fits);
    reveal(advance_time_tx_ser);
}

/// An [`AddValidatorTx`] is written as its common part, validator, staked
/// outputs, rewards owner and its delegation shares, in this order.
pub proof fn add_validator_tx_layout(v: &AddValidatorTx, out: &mut Vec<u8>, able: bool)
    requires
        call_ensures(AddValidatorTx::can_write, (v,), able),
        able ==> call_ensures(AddValidatorTx::write, (v, out), ()),
    ensures
        able <==> BaseTx::fits(v.base@) && Validator::fits(v.validator@)
            && List::<TransferableOutput>::fits(v.stake_outs@) && Owner::fits(v.rewards_owner@)
            && u32::fits(v.delegation_shares@),
        able ==> final(out)@ == old(out)@ + BaseTx::ser(v.base@)
            + Validator::ser(v.validator@) + List::<TransferableOutput>::ser(v.stake_outs@)
            + Owner::ser(v.rewards_owner@) + u32::ser(v.delegation_shares@),
{
    reveal(add_validator_tx_fits);
    reveal(add_validator_tx_ser);
}

/// A [`CreateChainTx`] is written as its common part, subnet, chain name,
/// virtual machine, features, genesis data and its subnet's authorisation, in
/// this order.
pub proof fn create_chain_tx_layout(v: &CreateChainTx, out: &mut Vec<u8>, able: bool)
    requires
        call_ensures(CreateChainTx::can_write, (v,), able),
        able ==> call_ensures(CreateChainTx::write, (v, out), ()),
    ensures
        able <==> BaseTx::fits(v.base@) && Id::fits(v.subnet_id@)
            && String::fits(v.chain_name@) && Id::fits(v.vm_id@) && List::<Id>::fits(v.fx_ids@)
            && Vec::<u8>::fits(v.genesis_data@) && Auth::fits(v.subnet_auth@),
        able ==> final(out)@ == old(out)@ + BaseTx::ser(v.base@) + Id::ser(v.subnet_id@)
            + String::ser(v.chain_name@) + Id::ser(v.vm_id@) + List::<Id>::ser(v.fx_ids@)
            + Vec::<u8>::ser(v.genesis_data@) + Auth::ser(v.subnet_auth@),
{
    reveal(create_chain_tx_fits);
    reveal(create_chain_tx_ser);
}

/// A [`CreateSubnetTx`] is written as its common part and its owner, in this
/// order.
pub proof fn create_subnet_tx_layout(v: &CreateSubnetTx, out: &mut Vec<u8>, able: bool)
    requires
        call_ensures(CreateSubnetTx::can_write, (v,), able),
        able ==> call_ensures(CreateSubnetTx::write, (v, out), ()),
    ensures
        able <==> BaseTx::fits(v.base@) && Owner::fits(v.owner@),
        able ==> final(out)@ == old(out)@ + BaseTx::ser(v.base@) + Owner::ser(v.owner@),
{
    reveal(create_subnet_tx_fits);
    reveal(create_subnet_tx_ser);
}

/// A [`RewardValidatorTx`] is written as its transaction's id.
pub proof fn reward_validator_tx_layout(v: &RewardValidatorTx, out: &mut Vec<u8>, able: bool)
    requires
        call_ensures(RewardValidatorTx::can_write, (v,), able),
        able ==> call_ensures(RewardValidatorTx::write, (v, out), ()),
    ensures
        able <==> Id::fits(v.tx_id@),
        able ==> final(out)@ == old(out)@ + Id::ser(v.tx_id@),
{
    reveal(reward_validator_tx_fits);
    reveal(reward_validator_tx_ser);
}

/// An [`AddPermissionlessValidatorTx`] is written as its common part,
/// validator, subnet, signer, staked outputs, validator rewards owner,
/// delegator rewards owner and its delegation shares, in this order.
pub proof fn add_permissionless_validator_tx_layout(
    v: &AddPermissionlessValidatorTx,
    out: &mut Vec<u8>,
    able: bool,
)
    requires
        call_ensures(AddPermissionlessValidatorTx::can_write, (v,), able),
        able ==> call_ensures(AddPermissionlessValidatorTx::write, (v, out), ()),
    ensures
        able <==> BaseTx::fits(v.base@) && Validator::fits(v.validator@)
            && Id::fits(v.subnet@) && Signer::fits(v.signer@)
            && List::<TransferableOutput>::fits(v.stake_outs@)
            && Owner::fits(v.validator_rewards_owner@)
            && Owner::fits(v.delegator_rewards_owner@) && u32::fits(v.delegation_shares@),
        able ==> final(out)@ == old(out)@ + BaseTx::ser(v.base@)
            + Validator::ser(v.validator@) + Id::ser(v.subnet@) + Signer::ser(v.signer@)
            + List::<TransferableOutput>::ser(v.stake_outs@)
            + Owner::ser(v.validator_rewards_owner@) + Owner::ser(v.delegator_rewards_owner@)
            + u32::ser(v.delegation_shares@),
{
    reveal(add_permissionless_validator_tx_fits);
    reveal(add_permissionless_validator_tx_ser);
}

/// A [`SigList`] is written as its signatures.
pub proof fn sig_list_layout(v: &SigList, out: &mut Vec<u8>, able: bool)
    requires
        call_ensures(SigList::can_write, (v,), able),
        able ==> call_ensures(SigList::write, (v, out), ()),
    ensures
        able <==> List::<Sig>::fits(v.sigs@),
        able ==> final(out)@ == old(out)@ + List::<Sig>::ser(v.sigs@),
{
    reveal(sig_list_fits);
    reveal(sig_list_ser);
}

/// A [`Validator`] is written as its node, start, end and its weight, in this
/// order.
pub proof fn validator_layout(v: &Validator, out: &mut Vec<u8>, able: bool)
    requires
        call_ensures(Validator::can_write, (v,), able),
        able ==> call_ensures(Validator::write, (v, out), ()),
    ensures
        able <==> NodeId::fits(v.node_id@) && u64::fits(v.start@)
            && u64::fits(v.end@) && u64::fits(v.wght@),
        able ==> final(out)@ == old(out)@ + NodeId::ser(v.node_id@) + u64::ser(v.start@)
            + u64::ser(v.end@) + u64::ser(v.wght@),
{
    reveal(validator_fits);
    reveal(validator_ser);
}

/// A signer is written as the number of its kind, in four bytes, and what it
/// holds.
pub proof fn signer_layout(v: &Signer, out: &mut Vec<u8>, able: bool)
    requires
        call_ensures(Signer::can_write, (v,), able),
        able ==> call_ensures(Signer::write, (v, out), ()),
    ensures
        *v matches Signer::Empty(x) ==> {
            &&& able <==> Empty::fits(x@)
            &&& able ==> final(out)@ == old(out)@ + be(27, 4) + Empty::ser(x@)
        },
        *v matches Signer::ProofOfPossession(x) ==> {
            &&& able <==> ProofOfPossession::fits(x@)
            &&& able ==> final(out)@ == old(out)@ + be(28, 4) + ProofOfPossession::ser(x@)
        },
{
    reveal(signer_fits);
    reveal(signer_ser);
}

/// A block is written as the number of its kind, in four bytes, and what it
/// holds.
pub proof fn block_body_layout(v: &BlockBody, out: &mut Vec<u8>, able: bool)
    requires
        call_ensures(BlockBody::can_write, (v,), able),
        able ==> call_ensures(BlockBody::write, (v, out), ()),
    ensures
        *v matches BlockBody::ApricotProposal(x) ==> {
            &&& able <==> ApricotProposalBlock::fits(x@)
            &&& able ==> final(out)@ == old(out)@ + be(0, 4) + ApricotProposalBlock::ser(x@)
        },
        *v matches BlockBody::ApricotAbort(x) ==> {
            &&& able <==> ApricotAbortBlock::fits(x@)
            &&& able ==> final(out)@ == old(out)@ + be(1, 4) + ApricotAbortBlock::ser(x@)
        },
        *v matches BlockBody::ApricotCommit(x) ==> {
            &&& able <==> ApricotCommitBlock::fits(x@)
            &&& able ==> final(out)@ == old(out)@ + be(2, 4) + ApricotCommitBlock::ser(x@)
        },
        *v matches BlockBody::ApricotStandard(x) ==> {
            &&& able <==> ApricotStandardBlock::fits(x@)
            &&& able ==> final(out)@ == old(out)@ + be(3, 4) + ApricotStandardBlock::ser(x@)
        },
        *v matches BlockBody::ApricotAtomic(x) ==> {
            &&& able <==> ApricotAtomicBlock::fits(x@)
            &&& able ==> final(out)@ == old(out)@ + be(4, 4) + ApricotAtomicBlock::ser(x@)
        },
        *v matches BlockBody::BanffProposal(x) ==> {
            &&& able <==> BanffProposalBlock::fits(x@)
            &&& able ==> final(out)@ == old(out)@ + be(29, 4) + BanffProposalBlock::ser(x@)
        },
        *v matches BlockBody::BanffAbort(x) ==> {
            &&& able <==> BanffAbortBlock::fits(x@)
            &&& able ==> final(out)@ == old(out)@ + be(30, 4) + BanffAbortBlock::ser(x@)
        },
        *v matches BlockBody::BanffCommit(x) ==> {
            &&& able <==> BanffCommitBlock::fits(x@)
            &&& able ==> final(out)@ == old(out)@ + be(31, 4) + BanffCommitBlock::ser(x@)
        },
        *v matches BlockBody::BanffStandard(x) ==> {
            &&& able <==> BanffStandardBlock::fits(x@)
            &&& able ==> final(out)@ == old(out)@ + be(32, 4) + BanffStandardBlock::ser(x@)
        },
{
    reveal(block_body_fits);
    reveal(block_body_ser);
}

/// An owner is written as the number of its kind, in four bytes, and what it
/// holds.
pub proof fn owner_layout(v: &Owner, out: &mut Vec<u8>, able: bool)
    requires
        call_ensures(Owner::can_write, (v,), able),
        able ==> call_ensures(Owner::write, (v, out), ()),
    ensures
        *v matches Owner::Secp256k1(x) ==> {
            &&& able <==> OutputOwners::fits(x@)
            &&& able ==> final(out)@ == old(out)@ + be(11, 4) + OutputOwners::ser(x@)
        },
{
    reveal(owner_fits);
    reveal(owner_ser);
}

/// An authorisation is written as the number of its kind, in four bytes, and
/// what it holds.
pub proof fn auth_layout(v: &Auth, out: &mut Vec<u8>, able: bool)
    requires
        call_ensures(Auth::can_write, (v,), able),
        able ==> call_ensures(Auth::write, (v, out), ()),
    ensures
        *v matches Auth::Secp256k1(x) ==> {
            &&& able <==> SigIndices::fits(x@)
            &&& able ==> final(out)@ == old(out)@ + be(10, 4) + SigIndices::ser(x@)
        },
{
    reveal(auth_fits);
    reveal(auth_ser);
}

/// A transaction is written as the number of its kind, in four bytes, and what
/// it holds.
pub proof fn unsigned_tx_layout(v: &UnsignedTx, out: &mut Vec<u8>, able: bool)
    requires
        call_ensures(UnsignedTx::can_write, (v,), able),
        able ==> call_ensures(UnsignedTx::write, (v, out), ()),
    ensures
        *v matches UnsignedTx::AddValidator(x) ==> {
            &&& able <==> AddValidatorTx::fits(x@)
            &&& able ==> final(out)@ == old(out)@ + be(12, 4) + AddValidatorTx::ser(x@)
        },
        *v matches UnsignedTx::AddSubnetValidator(x) ==> {
            &&& able <==> AddSubnetValidatorTx::fits(x@)
            &&& able ==> final(out)@ == old(out)@ + be(13, 4) + AddSubnetValidatorTx::ser(x@)
        },
        *v matches UnsignedTx::AddDelegator(x) ==> {
            &&& able <==> AddDelegatorTx::fits(x@)
            &&& able ==> final(out)@ == old(out)@ + be(14, 4) + AddDelegatorTx::ser(x@)
        },
        *v matches UnsignedTx::CreateChain(x) ==> {
            &&& able <==> CreateChainTx::fits(x@)
            &&& able ==> final(out)@ == old(out)@ + be(15, 4) + CreateChainTx::ser(x@)
        },
        *v matches UnsignedTx::CreateSubnet(x) ==> {
            &&& able <==> CreateSubnetTx::fits(x@)
            &&& able ==> final(out)@ == old(out)@ + be(16, 4) + CreateSubnetTx::ser(x@)
        },
        *v matches UnsignedTx::Import(x) ==> {
            &&& able <==> ImportTx::fits(x@)
            &&& able ==> final(out)@ == old(out)@ + be(17, 4) + ImportTx::ser(x@)
        },
        *v matches UnsignedTx::Export(x) ==> {
            &&& able <==> ExportTx::fits(x@)
            &&& able ==> final(out)@ == old(out)@ + be(18, 4) + ExportTx::ser(x@)
        },
        *v matches UnsignedTx::AdvanceTime(x) ==> {
            &&& able <==> AdvanceTimeTx::fits(x@)
            &&& able ==> final(out)@ == old(out)@ + be(19, 4) + AdvanceTimeTx::ser(x@)
        },
        *v matches UnsignedTx::RewardValidator(x) ==> {
            &&& able <==> RewardValidatorTx::fits(x@)
            &&& able ==> final(out)@ == old(out)@ + be(20, 4) + RewardValidatorTx::ser(x@)
        },
        *v matches UnsignedTx::RemoveSubnetValidator(x) ==> {
            &&& able <==> RemoveSubnetValidatorTx::fits(x@)
            &&& able ==> final(out)@ == old(out)@ + be(23, 4) + RemoveSubnetValidatorTx::ser(x@)
        },
        *v matches UnsignedTx::TransformSubnet(x) ==> {
            &&& able <==> TransformSubnetTx::fits(x@)
            &&& able ==> final(out)@ == old(out)@ + be(24, 4) + TransformSubnetTx::ser(x@)
        },
        *v matches UnsignedTx::AddPermissionlessValidator(x) ==> {
            &&& able <==> AddPermissionlessValidatorTx::fits(x@)
            &&& able ==> final(out)@ == old(out)@ + be(25, 4) + AddPermissionlessValidatorTx::ser(x@)
        },
        *v matches UnsignedTx::AddPermissionlessDelegator(x) ==> {
            &&& able <==> AddPermissionlessDelegatorTx::fits(x@)
            &&& able ==> final(out)@ == old(out)@ + be(26, 4) + AddPermissionlessDelegatorTx::ser(x@)
        },
        *v matches UnsignedTx::TransferSubnetOwnership(x) ==> {
            &&& able <==> TransferSubnetOwnershipTx::fits(x@)
            &&& able ==> final(out)@ == old(out)@ + be(33, 4) + TransferSubnetOwnershipTx::ser(x@)
        },
        *v matches UnsignedTx::Base(x) ==> {
            &&& able <==> BaseTx::fits(x@)
            &&& able ==> final(out)@ == old(out)@ + be(34, 4) + BaseTx::ser(x@)
        },
        *v matches UnsignedTx::ConvertSubnetToL1(x) ==> {
            &&& able <==> ConvertSubnetToL1Tx::fits(x@)
            &&& able ==> final(out)@ == old(out)@ + be(35, 4) + ConvertSubnetToL1Tx::ser(x@)
        },
        *v matches UnsignedTx::RegisterL1Validator(x) ==> {
            &&& able <==> RegisterL1ValidatorTx::fits(x@)
            &&& able ==> final(out)@ == old(out)@ + be(36, 4) + RegisterL1ValidatorTx::ser(x@)
        },
        *v matches UnsignedTx::SetL1ValidatorWeight(x) ==> {
            &&& able <==> SetL1ValidatorWeightTx::fits(x@)
            &&& able ==> final(out)@ == old(out)@ + be(37, 4) + SetL1ValidatorWeightTx::ser(x@)
        },
        *v matches UnsignedTx::IncreaseL1ValidatorBalance(x) ==> {
            &&& able <==> IncreaseL1ValidatorBalanceTx::fits(x@)
            &&& able ==> final(out)@ == old(out)@ + be(38, 4) + IncreaseL1ValidatorBalanceTx::ser(x@)
        },
        *v matches UnsignedTx::DisableL1Validator(x) ==> {
            &&& able <==> DisableL1ValidatorTx::fits(x@)
            &&& able ==> final(out)@ == old(out)@ + be(39, 4) + DisableL1ValidatorTx::ser(x@)
        },
{
    reveal(unsigned_tx_fits);
    reveal(unsigned_tx_ser);
}

/// A credential is written as the number of its kind, in four bytes, and what
/// it holds.
pub proof fn credential_layout(v: &Credential, out: &mut Vec<u8>, able: bool)
    requires
        call_ensures(Credential::can_write, (v,), able),
        able ==> call_ensures(Credential::write, (v, out), ()),
    ensures
        *v matches Credential::Secp256k1(x) ==> {
            &&& able <==> SigList::fits(x@)
            &&& able ==> final(out)@ == old(out)@ + be(9, 4) + SigList::ser(x@)
        },
{
    reveal(credential_fits);
    reveal(credential_ser);
}

/// A number is written in as many bytes as its type has, the highest first.
pub proof fn number_layout(
    v: u32,
    w: u64,
    b: u8,
    out: &mut Vec<u8>,
    wide: &mut Vec<u8>,
    byte: &mut Vec<u8>,
)
    requires
        call_ensures(u32::write, (&v, out), ()),
        call_ensures(u64::write, (&w, wide), ()),
        call_ensures(u8::write, (&b, byte), ()),
    ensures
        final(out)@.len() == old(out)@.len() + 4,
        final(out)@.take(old(out)@.len() as int) == old(out)@,
        be_value(final(out)@.skip(old(out)@.len() as int)) == v,
        final(wide)@.len() == old(wide)@.len() + 8,
        final(wide)@.take(old(wide)@.len() as int) == old(wide)@,
        be_value(final(wide)@.skip(old(wide)@.len() as int)) == w,
        final(byte)@ == old(byte)@.push(b),
{
    lemma_pow256();
    lemma_be_len(v as nat, 4);
    lemma_be_len(w as nat, 8);
    lemma_be_value_be(v as nat, 4);
    lemma_be_value_be(w as nat, 8);
    assert(final(out)@.skip(old(out)@.len() as int) =~= be(v as nat, 4));
    assert(final(wide)@.skip(old(wide)@.len() as int) =~= be(w as nat, 8));
    assert(final(out)@.take(old(out)@.len() as int) =~= old(out)@);
    assert(final(wide)@.take(old(wide)@.len() as int) =~= old(wide)@);
}

/// An id is written as it is, and so is a signature; bytes whose number may
/// vary are written behind that number.
pub proof fn bytes_layout(
    id: Id,
    node: NodeId,
    address: ShortId,
    sig: Sig,
    bls: BlsSignature,
    bytes: Vec<u8>,
    o1: &mut Vec<u8>,
    o2: &mut Vec<u8>,
    o3: &mut Vec<u8>,
    o4: &mut Vec<u8>,
    o5: &mut Vec<u8>,
    o6: &mut Vec<u8>,
)
    requires
        call_ensures(Id::write, (&id, o1), ()),
        call_ensures(NodeId::write, (&node, o2), ()),
        call_ensures(ShortId::write, (&address, o3), ()),
        call_ensures(Sig::write, (&sig, o4), ()),
        call_ensures(BlsSignature::write, (&bls, o5), ()),
        call_ensures(Vec::<u8>::write, (&bytes, o6), ()),
    ensures
        final(o1)@ == old(o1)@ + id@,
        final(o2)@ == old(o2)@ + node@,
        final(o3)@ == old(o3)@ + address@,
        final(o4)@ == old(o4)@ + sig@,
        final(o5)@ == old(o5)@ + bls@,
        final(o6)@ == old(o6)@ + be(bytes@.len(), 4) + bytes@,
{
}

/// A text is written as the number of its bytes, in two bytes, and those bytes.
pub proof fn text_layout(v: String, out: &mut Vec<u8>, able: bool)
    requires
        call_ensures(String::can_write, (&v,), able),
        able ==> call_ensures(String::write, (&v, out), ()),
    ensures
        able <==> encode_utf8(v@).len() <= u16::MAX,
        able ==> final(out)@ == old(out)@ + be(encode_utf8(v@).len(), 2) + encode_utf8(v@),
{
}

/// A list is written as the number of its items, in four bytes, and the items
/// one after the other: an item more at its end is written at the end.
pub proof fn list_layout<T: Wire>(v: List<T>, item: T::V, out: &mut Vec<u8>)
    requires
        call_ensures(List::<T>::write, (&v, out), ()),
    ensures
        v@.len() == 0 ==> final(out)@ == old(out)@ + be(0, 4),
        v@.len() == 1 ==> final(out)@ == old(out)@ + be(1, 4) + T::ser(v@[0]),
        List::<T>::ser(v@).skip(4) + T::ser(item) == List::<T>::ser(v@.push(item)).skip(4),
        List::<T>::ser(v@).take(4) == be(v@.len(), 4),
{
    reveal_with_fuel(ser_all, 3);
    lemma_be_len(v@.len(), 4);
    lemma_be_len(v@.push(item).len(), 4);
    lemma_ser_all_push::<T>(v@, item);
    assert(List::<T>::ser(v@).skip(4) =~= ser_all::<T>(v@));
    assert(List::<T>::ser(v@.push(item)).skip(4) =~= ser_all::<T>(v@.push(item)));
    assert(List::<T>::ser(v@).take(4) =~= be(v@.len(), 4));
}

proof fn lemma_ser_all_push<T: Wire>(vs: Seq<T::V>, item: T::V)
    ensures
        ser_all::<T>(vs.push(item)) == ser_all::<T>(vs) + T::ser(item),
    decreases vs.len(),
{
    reveal_with_fuel(ser_all, 3);
    if vs.len() == 0 {
        assert(vs.push(item).skip(1) =~= Seq::empty());
        assert(ser_all::<T>(vs.push(item)) =~= ser_all::<T>(vs) + T::ser(item));
    } else {
        lemma_ser_all_push::<T>(vs.skip(1), item);
        assert(vs.push(item).skip(1) =~= vs.skip(1).push(item));
        assert(ser_all::<T>(vs.push(item)) =~= ser_all::<T>(vs) + T::ser(item));
    }
}

/// An output is written as the number of its kind and what it holds; a lock
/// holds its time and what is under it.
pub proof fn output_layout(v: &Output, out: &mut Vec<u8>, able: bool)
    requires
        call_ensures(Output::can_write, (v,), able),
        able ==> call_ensures(Output::write, (v, out), ()),
    ensures
        *v matches Output::Transfer(x) ==> (able <==> TransferOutput::fits(x@)) && (able
            ==> final(out)@ == old(out)@ + be(7, 4) + TransferOutput::ser(x@)),
        *v matches Output::StakeableLock(l) ==> (able <==> Output::fits(l.transferable_out@)) && (
        able ==> final(out)@ == old(out)@ + be(22, 4) + be(l.locktime as nat, 8) + Output::ser(
            l.transferable_out@,
        )),
{
    reveal_with_fuel(output_view, 2);
    reveal_with_fuel(output_fits, 2);
    reveal_with_fuel(output_ser, 2);
}

/// An input is written as the number of its kind and what it holds; a lock
/// holds its time and what is under it.
pub proof fn input_layout(v: &Input, out: &mut Vec<u8>, able: bool)
    requires
        call_ensures(Input::can_write, (v,), able),
        able ==> call_ensures(Input::write, (v, out), ()),
    ensures
        *v matches Input::Transfer(x) ==> (able <==> TransferInput::fits(x@)) && (able
            ==> final(out)@ == old(out)@ + be(5, 4) + TransferInput::ser(x@)),
        *v matches Input::StakeableLock(l) ==> (able <==> Input::fits(l.transferable_in@)) && (able
            ==> final(out)@ == old(out)@ + be(21, 4) + be(l.locktime as nat, 8) + Input::ser(
            l.transferable_in@,
        )),
{
    reveal_with_fuel(input_view, 2);
    reveal_with_fuel(input_fits, 2);
    reveal_with_fuel(input_ser, 2);
}

/// A proof of possession is written as the key and the signature, and the lack
/// of one as nothing.
pub proof fn proof_of_possession_layout(
    v: &ProofOfPossession,
    out: &mut Vec<u8>,
    e: &Empty,
    none: &mut Vec<u8>,
)
    requires
        call_ensures(ProofOfPossession::write, (v, out), ()),
        call_ensures(Empty::write, (e, none), ()),
    ensures
        final(out)@ == old(out)@ + v@.public_key + v@.proof,
        final(none)@ == old(none)@,
{
}

/// A transaction is written as what it asks for and then what it is signed with.
pub proof fn tx_layout(v: &Tx, out: &mut Vec<u8>, able: bool)
    requires
        call_ensures(Tx::can_write, (v,), able),
        able ==> call_ensures(Tx::write, (v, out), ()),
    ensures
        able <==> UnsignedTx::fits(v.unsigned@) && List::<Credential>::fits(v.creds@),
        able ==> final(out)@ == old(out)@ + UnsignedTx::ser(v.unsigned@) + List::<
            Credential,
        >::ser(v.creds@),
{
}

/// What is written of a value is two bytes of version, which is 0, and the
/// value. It is read back as it was, and nothing else is read as a value.
pub proof fn versions_come_first<T: Wire>(
    codec: Manager,
    v: T,
    written: core::result::Result<Vec<u8>, CodecError>,
    bytes: &[u8],
    read: core::result::Result<T, CodecError>,
)
    requires
        call_ensures(Manager::marshal::<T>, (&codec, &v), written),
        call_ensures(Manager::unmarshal::<T>, (&codec, bytes), read),
    ensures
        written matches Ok(b) ==> b@ == seq![0u8, 0u8] + T::ser(v@) && b@.len() <= codec.max_size,
        written matches Ok(b) ==> (bytes@ == b@ ==> read is Ok && read->Ok_0@ == v@),
        written is Err ==> !T::fits(v@) || 2 + T::ser(v@).len() > codec.max_size,
        read matches Ok(r) ==> bytes@ == seq![0u8, 0u8] + T::ser(r@) && T::fits(r@),
        bytes@.len() > codec.max_size ==> read is Err && read->Err_0 == CodecError::TooBig,
{
    lemma_be_len(0, 2);
    reveal_with_fuel(be, 3);
    assert(be(0, 2) =~= seq![0u8, 0u8]);
    if written is Ok {
        versioned_round_trip::<T>(codec.max_size as nat, v@);
    }
    versioned_bytes_are_canonical::<T>(codec.max_size as nat, bytes@);
}

} // verus!
