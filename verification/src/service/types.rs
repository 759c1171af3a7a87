//! What can be asked, and what is answered.
use vstd::prelude::*;

use crate::ids::{Id, NodeId};
use crate::status::Status;

verus! {

/// A height.
#[derive(Clone, Debug, PartialEq, Eq)]
pub struct GetHeightResponse {
    /// The height.
    pub height: u64,
}

/// Whose supply is asked for.
#[derive(Clone, Debug, Default, PartialEq, Eq)]
pub struct GetCurrentSupplyArgs {
    /// The subnet, which is the primary network by default.
    pub subnet_id: Id,
}

/// A supply.
#[derive(Clone, Debug, PartialEq, Eq)]
pub struct GetCurrentSupplyReply {
    /// An upper bound of the supply.
    pub supply: u64,
    /// The height of the last accepted block.
    pub height: u64,
}

/// The time of the chain.
#[derive(Clone, Debug, PartialEq, Eq)]
pub struct GetTimestampReply {
    /// The time.
    pub timestamp: String,
}

/// The state that the gas price follows from.
#[derive(Clone, Debug, PartialEq, Eq)]
pub struct GetFeeStateReply {
    /// The gas that is left.
    pub capacity: u64,
    /// The excess that sets the price.
    pub excess: u64,
    /// The price.
    pub price: u64,
    /// The time.
    pub timestamp: String,
}

/// The state that the fees of L1 validators follow from.
#[derive(Clone, Debug, PartialEq, Eq)]
pub struct GetValidatorFeeStateReply {
    /// The excess that sets the price.
    pub excess: u64,
    /// The price.
    pub price: u64,
    /// The time.
    pub timestamp: String,
}

/// Which validators are asked for.
#[derive(Clone, Debug, Default, PartialEq, Eq)]
pub struct GetCurrentValidatorsArgs {
    /// The subnet, which is the primary network by default.
    pub subnet_id: Id,
    /// The nodes, or none for all of them.
    pub node_ids: Vec<NodeId>,
}

/// A validator.
#[derive(Clone, Debug, PartialEq, Eq)]
pub struct ApiValidator {
    /// What added the validator.
    pub tx_id: Id,
    /// The node.
    pub node_id: NodeId,
    /// The weight.
    pub weight: u64,
    /// When it started, in Unix seconds.
    pub start_time: u64,
    /// The compressed key, if there is one.
    pub public_key: Option<String>,
    /// The validation, of an L1 validator.
    pub validation_id: Option<Id>,
    /// The least nonce that is accepted, of an L1 validator.
    pub min_nonce: Option<u64>,
}

/// The current validators.
#[derive(Clone, Debug, PartialEq, Eq)]
pub struct GetCurrentValidatorsReply {
    /// The validators, in the order of their ids.
    pub validators: Vec<ApiValidator>,
}

/// Which L1 validator is asked for.
#[derive(Clone, Debug, Default, PartialEq, Eq)]
pub struct GetL1ValidatorArgs {
    /// The validation.
    pub validation_id: Id,
}

/// An L1 validator.
#[derive(Clone, Debug, PartialEq, Eq)]
pub struct GetL1ValidatorReply {
    /// The node.
    pub node_id: NodeId,
    /// The weight.
    pub weight: u64,
    /// When it started, in Unix seconds.
    pub start_time: u64,
    /// The validation.
    pub validation_id: Id,
    /// The compressed key, if there is one.
    pub public_key: Option<String>,
    /// The least nonce that is accepted.
    pub min_nonce: u64,
    /// The subnet.
    pub subnet_id: Id,
    /// The height of the last accepted block.
    pub height: u64,
}

/// A validator at some height.
#[derive(Clone, Debug, PartialEq, Eq)]
pub struct JsonGetValidatorOutput {
    /// The compressed key, if there is one.
    pub public_key: Option<String>,
    /// The weight.
    pub weight: u64,
}

/// A sample of validators.
#[derive(Clone, Debug, Default, PartialEq, Eq)]
pub struct SampleValidatorsReply {
    /// The nodes, in order.
    pub validators: Vec<NodeId>,
}

/// Who validates a chain.
#[derive(Clone, Debug, Default, PartialEq, Eq)]
pub struct ValidatedByResponse {
    /// The subnet.
    pub subnet_id: Id,
}

/// What a subnet validates.
#[derive(Clone, Debug, Default, PartialEq, Eq)]
pub struct ValidatesResponse {
    /// The chains.
    pub blockchain_ids: Vec<Id>,
}

/// What became of a transaction.
#[derive(Clone, Debug, PartialEq, Eq)]
pub struct GetTxStatusResponse {
    /// The status.
    pub status: Status,
    /// Why it was dropped, if it was.
    pub reason: String,
}

/// Whose balance is asked for.
#[derive(Clone, Debug, Default, PartialEq, Eq)]
pub struct GetBalanceRequest {
    /// The addresses.
    pub addresses: Vec<String>,
}

/// An output.
#[derive(Clone, Debug, PartialEq, Eq)]
pub struct ApiUtxoId {
    /// The transaction that made it.
    pub tx_id: Id,
    /// Which of its outputs it is.
    pub output_index: u32,
}

/// A balance.
#[derive(Clone, Debug, Default, PartialEq, Eq)]
pub struct GetBalanceResponse {
    /// All of it.
    pub balance: u64,
    /// What is not locked.
    pub unlocked: u64,
    /// What is locked and can be staked.
    pub locked_stakeable: u64,
    /// What is locked and cannot be staked.
    pub locked_not_stakeable: u64,
    /// All of it, by asset, in order.
    pub balances: Vec<(Id, u64)>,
    /// What is not locked, by asset, in order.
    pub unlockeds: Vec<(Id, u64)>,
    /// What is locked and can be staked, by asset, in order.
    pub locked_stakeables: Vec<(Id, u64)>,
    /// What is locked and cannot be staked, by asset, in order.
    pub locked_not_stakeables: Vec<(Id, u64)>,
    /// The outputs that make it up.
    pub utxo_ids: Option<Vec<ApiUtxoId>>,
}

/// A place in a list of outputs.
#[derive(Clone, Debug, Default, PartialEq, Eq)]
pub struct UtxoIndex {
    /// The address.
    pub address: String,
    /// The output.
    pub utxo: String,
}

/// Whose outputs are asked for.
#[derive(Clone, Debug, Default, PartialEq, Eq)]
pub struct GetUTXOsArgs {
    /// The addresses.
    pub addresses: Vec<String>,
    /// The chain, which is this one by default.
    pub source_chain: String,
    /// The place behind which to start.
    pub start_index: UtxoIndex,
    /// How many to give at most.
    pub limit: u64,
    /// How to write them.
    pub encoding: String,
}

/// Outputs.
#[derive(Clone, Debug, Default, PartialEq, Eq)]
pub struct GetUTXOsReply {
    /// How many there are.
    pub num_fetched: u64,
    /// The outputs.
    pub utxos: Vec<String>,
    /// The place behind which to go on.
    pub end_index: UtxoIndex,
    /// How they are written.
    pub encoding: String,
}

/// Which subnet is asked for.
#[derive(Clone, Debug, Default, PartialEq, Eq)]
pub struct GetSubnetArgs {
    /// The subnet.
    pub subnet_id: Id,
}

/// A subnet.
#[derive(Clone, Debug, Default, PartialEq, Eq)]
pub struct GetSubnetResponse {
    /// Whether validators join by permission.
    pub is_permissioned: bool,
    /// The addresses that control it.
    pub control_keys: Vec<String>,
    /// How many of them have to sign.
    pub threshold: u32,
    /// Until when they cannot.
    pub locktime: u64,
    /// The transaction that opened it, if one did.
    pub subnet_transformation_tx_id: Id,
    /// Its conversion to an L1, if it was converted.
    pub conversion_id: Id,
    /// The chain that manages it, if it was converted.
    pub manager_chain_id: Id,
    /// The address that manages it, if it was converted.
    pub manager_address: Option<String>,
}

/// A subnet.
#[derive(Clone, Debug, PartialEq, Eq)]
pub struct ApiSubnet {
    /// The subnet.
    pub id: Id,
    /// The addresses that control it.
    pub control_keys: Vec<String>,
    /// How many of them have to sign.
    pub threshold: u32,
}

/// Which subnets are asked for.
#[derive(Clone, Debug, Default, PartialEq, Eq)]
pub struct GetSubnetsArgs {
    /// The subnets, or none for all of them.
    pub ids: Vec<Id>,
}

/// Subnets.
#[derive(Clone, Debug, Default, PartialEq, Eq)]
pub struct GetSubnetsResponse {
    /// The subnets.
    pub subnets: Vec<ApiSubnet>,
}

/// Which sample is asked for.
#[derive(Clone, Debug, Default, PartialEq, Eq)]
pub struct SampleValidatorsArgs {
    /// How many validators.
    pub size: u64,
    /// The subnet, which is the primary network by default.
    pub subnet_id: Id,
}

/// Which chain is asked for.
#[derive(Clone, Debug, Default, PartialEq, Eq)]
pub struct GetBlockchainStatusArgs {
    /// The chain.
    pub blockchain_id: String,
}

/// What became of a chain.
#[derive(Clone, Debug, Default, PartialEq, Eq)]
pub struct GetBlockchainStatusReply {
    /// The status.
    pub status: BlockchainStatus,
}

/// A chain.
#[derive(Clone, Debug, PartialEq, Eq)]
pub struct ApiBlockchain {
    /// The chain.
    pub id: Id,
    /// Its name.
    pub name: String,
    /// The subnet that validates it.
    pub subnet_id: Id,
    /// The virtual machine that it runs.
    pub vm_id: Id,
}

/// Chains.
#[derive(Clone, Debug, Default, PartialEq, Eq)]
pub struct GetBlockchainsResponse {
    /// The chains.
    pub blockchains: Vec<ApiBlockchain>,
}

/// A transaction to issue.
#[derive(Clone, Debug, Default, PartialEq, Eq)]
pub struct FormattedTx {
    /// The transaction.
    pub tx: String,
    /// How it is written.
    pub encoding: String,
}

/// A transaction that was issued.
#[derive(Clone, Debug, Default, PartialEq, Eq)]
pub struct JsonTxId {
    /// The transaction.
    pub tx_id: Id,
}

/// Whose stake is asked for.
#[derive(Clone, Debug, Default, PartialEq, Eq)]
pub struct GetStakeArgs {
    /// The addresses.
    pub addresses: Vec<String>,
    /// Whether to leave out delegators.
    pub validators_only: bool,
    /// How to write the outputs.
    pub encoding: String,
}

/// A stake.
#[derive(Clone, Debug, Default, PartialEq, Eq)]
pub struct GetStakeReply {
    /// All of it.
    pub staked: u64,
    /// All of it, by asset, in order.
    pub stakeds: Vec<(Id, u64)>,
    /// The outputs that make it up.
    pub outputs: Vec<String>,
    /// How they are written.
    pub encoding: String,
}

/// Which least stakes are asked for.
#[derive(Clone, Debug, Default, PartialEq, Eq)]
pub struct GetMinStakeArgs {
    /// The subnet, which is the primary network by default.
    pub subnet_id: Id,
}

/// The least stakes.
#[derive(Clone, Debug, Default, PartialEq, Eq)]
pub struct GetMinStakeReply {
    /// Of a validator.
    pub min_validator_stake: u64,
    /// Of a delegator.
    pub min_delegator_stake: u64,
}

/// Whose total stake is asked for.
#[derive(Clone, Debug, Default, PartialEq, Eq)]
pub struct GetTotalStakeArgs {
    /// The subnet, which is the primary network by default.
    pub subnet_id: Id,
}

/// A total stake.
#[derive(Clone, Debug, Default, PartialEq, Eq)]
pub struct GetTotalStakeReply {
    /// The same as the weight.
    pub stake: u64,
    /// The weight of all validators.
    pub weight: u64,
}

/// The outputs of a reward.
#[derive(Clone, Debug, Default, PartialEq, Eq)]
pub struct GetRewardUTXOsReply {
    /// How many there are.
    pub num_fetched: u64,
    /// The outputs.
    pub utxos: Vec<String>,
    /// How they are written.
    pub encoding: String,
}

/// Which height is asked for.
#[derive(Clone, Debug, Default, PartialEq, Eq)]
pub struct GetAllValidatorsAtArgs {
    /// The height.
    pub height: u64,
}

/// The nodes with one key.
#[derive(Clone, Debug, PartialEq, Eq)]
pub struct JsonWarpValidator {
    /// The compressed key.
    pub public_key: String,
    /// The weight of the nodes.
    pub weight: u64,
    /// The nodes.
    pub node_ids: Vec<NodeId>,
}

/// The validators of a subnet by their keys.
#[derive(Clone, Debug, PartialEq, Eq)]
pub struct JsonWarpSet {
    /// The validators, in the order of their keys.
    pub validators: Vec<JsonWarpValidator>,
    /// The weight of all validators.
    pub total_weight: u64,
}

/// The validators of every subnet.
#[derive(Clone, Debug, Default, PartialEq, Eq)]
pub struct GetAllValidatorsAtReply {
    /// The validators, by subnet, in order.
    pub validator_sets: Vec<(Id, JsonWarpSet)>,
}

/// What the gas price follows from.
#[derive(Clone, Debug, Default, PartialEq, Eq)]
pub struct GetFeeConfigReply {
    /// The weight of each dimension.
    pub weights: [u64; 4],
    /// The most gas that can be left.
    pub max_capacity: u64,
    /// The gas that is added each second.
    pub max_per_second: u64,
    /// The gas that is meant to be used each second.
    pub target_per_second: u64,
    /// The least price.
    pub min_price: u64,
    /// How the excess sets the price.
    pub excess_conversion_constant: u64,
}

/// What the fees of L1 validators follow from.
#[derive(Clone, Debug, Default, PartialEq, Eq)]
pub struct GetValidatorFeeConfigReply {
    /// The most validators that can be active.
    pub capacity: u64,
    /// The validators that are meant to be active.
    pub target: u64,
    /// The least price.
    pub min_price: u64,
    /// How the excess sets the price.
    pub excess_conversion_constant: u64,
}

/// Nothing is asked for in particular.
#[derive(Clone, Debug, Default, PartialEq, Eq)]
pub struct EmptyArgs {}

/// Which validators are asked for.
#[derive(Clone, Debug, Default, PartialEq, Eq)]
pub struct GetValidatorsAtArgs {
    /// The height.
    pub height: u64,
    /// The subnet, which is the primary network by default.
    pub subnet_id: Id,
}

/// Which chain is asked for.
#[derive(Clone, Debug, Default, PartialEq, Eq)]
pub struct ValidatedByArgs {
    /// The chain.
    pub blockchain_id: Id,
}

/// Which subnet is asked for.
#[derive(Clone, Debug, Default, PartialEq, Eq)]
pub struct ValidatesArgs {
    /// The subnet.
    pub subnet_id: Id,
}

/// Which transaction is asked for.
#[derive(Clone, Debug, Default, PartialEq, Eq)]
pub struct GetTxStatusArgs {
    /// The transaction.
    pub tx_id: Id,
}

/// Which transaction is asked for.
#[derive(Clone, Debug, Default, PartialEq, Eq)]
pub struct GetTxArgs {
    /// The transaction.
    pub tx_id: Id,
    /// How to write it.
    pub encoding: String,
}

/// A transaction.
#[derive(Clone, Debug, PartialEq, Eq)]
pub struct GetTxReply {
    /// The transaction.
    pub tx: String,
    /// How it is written.
    pub encoding: String,
}

/// Which block is asked for.
#[derive(Clone, Debug, Default, PartialEq, Eq)]
pub struct GetBlockArgs {
    /// The block.
    pub block_id: Id,
    /// How to write it.
    pub encoding: String,
}

/// Which block is asked for.
#[derive(Clone, Debug, Default, PartialEq, Eq)]
pub struct GetBlockByHeightArgs {
    /// The height.
    pub height: u64,
    /// How to write it.
    pub encoding: String,
}

/// A block.
#[derive(Clone, Debug, PartialEq, Eq)]
pub struct GetBlockResponse {
    /// The block.
    pub block: String,
    /// How it is written.
    pub encoding: String,
}

/// Whose staking asset is asked for.
#[derive(Clone, Debug, Default, PartialEq, Eq)]
pub struct GetStakingAssetIDArgs {
    /// The subnet, which is the primary network by default.
    pub subnet_id: Id,
}

/// A staking asset.
#[derive(Clone, Debug, PartialEq, Eq)]
pub struct GetStakingAssetIDResponse {
    /// The asset.
    pub asset_id: Id,
}

/// What became of a chain.
#[derive(Clone, Copy, Debug, Default, PartialEq, Eq)]
pub enum BlockchainStatus {
    /// It is not known.
    #[default]
    UnknownChain,
    /// It was created.
    Created,
    /// It is about to be created.
    Preferred,
    /// This node validates it.
    Validating,
    /// This node follows it.
    Syncing,
}

} // verus!
