//! What can go wrong, as the callers of this library see it.
use vstd::prelude::*;
use vstd::string::StringExecFns;

use crate::codec::CodecError;

verus! {

/// A failure of the store under the state.
#[derive(Clone, Copy, Debug, PartialEq, Eq, Structural)]
pub enum DbError {
    /// The key is absent.
    NotFound,
    /// The store was closed.
    Closed,
}

/// A failure of the platform chain.
#[derive(Debug, PartialEq, Eq)]
#[non_exhaustive]
pub enum Error {
    /// Tx is nil.
    NilTx,
    /// Corrupt persisted state.
    CorruptState(String),
    /// Wrong tx type.
    WrongTxType,
    /// Attempted to remove staker before its end time.
    RemoveStakerTooEarly,
    /// Attempting to remove wrong staker.
    RemoveWrongStaker,
    /// L1 validator immutable fields were mutated.
    MutatedL1Validator,
    /// Conflicting L1 validator.
    ConflictingL1Validator,
    /// Requested height is not yet finalized.
    UnfinalizedHeight,
    /// Invalid BLS proof of possession.
    InvalidProofOfPossession,
    /// Insufficient capacity.
    InsufficientCapacity,
    /// Fee computation overflow.
    FeeOverflow,
    /// Codec.
    Codec(CodecError),
    /// Database.
    Database(DbError),
    /// Invalid component.
    InvalidComponent,
    /// Outputs not sorted.
    OutputsNotSorted,
    /// Inputs not sorted and unique.
    InputsNotSortedUnique,
    /// Invalid locktime.
    InvalidLocktime,
    /// Shouldn't nest stakeable locks.
    NestedStakeableLock,
    /// Validator nodeID cannot be empty.
    EmptyNodeId,
    /// No stake.
    NoStake,
    /// Too many shares.
    TooManyShares,
    /// Invalid signer.
    InvalidSigner,
    /// Multiple staked assets.
    MultipleStakedAssets,
    /// Validator weight mismatch.
    ValidatorWeightMismatch,
    /// Weight of this validator is too low.
    WeightTooSmall,
    /// Subnet ID can't be primary network ID.
    BadSubnetId,
    /// Overflow.
    Overflow,
    /// Unexpected diff key length.
    UnexpectedDiffKeyLength,
    /// Unexpected weight value length.
    UnexpectedWeightValueLength,
    /// Weight of this validator is too large.
    WeightTooLarge,
    /// Staker charges an insufficient delegation fee.
    InsufficientDelegationFee,
    /// Staking period is too short.
    StakeTooShort,
    /// Staking period is too long.
    StakeTooLong,
    /// Flow check failed.
    FlowCheckFailed,
    /// Isn't a current or pending validator.
    NotValidator,
    /// Attempting to remove permissionless validator.
    RemovePermissionlessValidator,
    /// Incorrect staked assetID.
    WrongStakedAssetId,
    /// Duplicate validator.
    DuplicateValidator,
    /// Already a validator.
    AlreadyValidator,
    /// Chain timestamp not before start time.
    TimestampNotBeforeStartTime,
    /// Staker start time too far in the future.
    TimeTooAdvanced,
    /// Proposed staking period is not inside dependent staking period.
    PeriodMismatch,
    /// Should have the same number of credentials as inputs.
    WrongNumberOfCredentials,
    /// Unauthorized modification.
    UnauthorizedModification,
    /// Attempting to use a Durango-upgrade feature prior to activation.
    DurangoUpgradeNotActive,
    /// Attempting to use an Etna-upgrade feature prior to activation.
    EtnaUpgradeNotActive,
    /// Attempting to use a Helicon-upgrade feature prior to activation.
    HeliconUpgradeNotActive,
    /// AddValidatorTx is not permitted post-Durango.
    AddValidatorTxPostDurango,
    /// AddDelegatorTx is not permitted post-Durango.
    AddDelegatorTxPostDurango,
    /// Already at the max number of active validators.
    MaxNumActiveValidators,
    /// Could not load L1 validator.
    CouldNotLoadL1Validator,
    /// Warp message contains stale nonce.
    WarpMessageContainsStaleNonce,
    /// Attempting to remove the last L1 validator from a converted subnet.
    RemovingLastValidator,
    /// State corruption.
    StateCorruption,
    /// Warp message expired.
    WarpMessageExpired,
    /// Warp message not yet allowed.
    WarpMessageNotYetAllowed,
    /// Warp message already issued.
    WarpMessageAlreadyIssued,
    /// Warp message source does not match the subnet's L1 conversion.
    WrongWarpMessageSource,
    /// Wrong SourceChainID.
    WrongSourceChainId,
    /// Wrong networkID.
    WrongNetworkId,
    /// Bitset is invalid.
    InvalidBitSet,
    /// Unknown validator.
    UnknownValidator,
    /// Signature weight is insufficient.
    InsufficientWeight,
    /// Failed to parse signature.
    ParseSignature,
    /// Signature is invalid.
    InvalidSignature,
    /// No validator set for source subnet.
    NoValidatorSet,
    /// Validators.
    Validators(String),
    /// No pending blocks.
    NoPendingBlocks,
    /// VM not initialized.
    NotInitialized,
    /// Service.
    Service(String),
}

/// The result of an operation on the platform chain.
pub type Result<T> = core::result::Result<T, Error>;

/// The failure of a read whose key is absent.
pub open spec fn not_found() -> Error {
    Error::Database(DbError::NotFound)
}

impl CodecError {
    /// The text that describes the failure.
    pub open spec fn text(&self) -> Seq<char> {
        match self {
            CodecError::UnknownVersion => "unknown codec version"@,
            CodecError::ExtraSpace => "trailing buffer space"@,
            CodecError::InsufficientLength => "insufficient length"@,
            CodecError::UnknownTypeId => "unknown type id"@,
            CodecError::LengthOverflow => "length overflow"@,
            CodecError::TooBig => "byte array exceeds maximum length"@,
            CodecError::NotText => "invalid utf-8"@,
        }
    }

    /// A description of the failure.
    pub fn message(&self) -> (r: &'static str)
        ensures
            r@ == self.text(),
    {
        match self {
            CodecError::UnknownVersion => "unknown codec version",
            CodecError::ExtraSpace => "trailing buffer space",
            CodecError::InsufficientLength => "insufficient length",
            CodecError::UnknownTypeId => "unknown type id",
            CodecError::LengthOverflow => "length overflow",
            CodecError::TooBig => "byte array exceeds maximum length",
            CodecError::NotText => "invalid utf-8",
        }
    }
}

impl DbError {
    /// The text that describes the failure.
    pub open spec fn text(&self) -> Seq<char> {
        match self {
            DbError::NotFound => "not found"@,
            DbError::Closed => "closed"@,
        }
    }

    /// A description of the failure.
    pub fn message(&self) -> (r: &'static str)
        ensures
            r@ == self.text(),
    {
        match self {
            DbError::NotFound => "not found",
            DbError::Closed => "closed",
        }
    }
}

/// `a` followed by `b`.
pub fn joined(a: &str, b: &str) -> (r: String)
    ensures
        r@ == a@ + b@,
{
    let mut s = a.to_owned();
    s.append(b);
    s
}

impl Error {
    /// The text that describes the failure.
    pub open spec fn text(&self) -> Seq<char> {
        match self {
            Error::NilTx => "tx is nil"@,
            Error::CorruptState(e) => "corrupt persisted state: "@ + e@,
            Error::WrongTxType => "wrong tx type"@,
            Error::RemoveStakerTooEarly => "attempted to remove staker before its end time"@,
            Error::RemoveWrongStaker => "attempting to remove wrong staker"@,
            Error::MutatedL1Validator => "L1 validator immutable fields were mutated"@,
            Error::ConflictingL1Validator => "conflicting L1 validator"@,
            Error::UnfinalizedHeight => "requested height is not yet finalized"@,
            Error::InvalidProofOfPossession => "invalid BLS proof of possession"@,
            Error::InsufficientCapacity => "insufficient capacity"@,
            Error::FeeOverflow => "fee computation overflow"@,
            Error::Codec(e) => "codec: "@ + e.text(),
            Error::Database(e) => "database: "@ + e.text(),
            Error::InvalidComponent => "invalid component"@,
            Error::OutputsNotSorted => "outputs not sorted"@,
            Error::InputsNotSortedUnique => "inputs not sorted and unique"@,
            Error::InvalidLocktime => "invalid locktime"@,
            Error::NestedStakeableLock => "shouldn't nest stakeable locks"@,
            Error::EmptyNodeId => "validator nodeID cannot be empty"@,
            Error::NoStake => "no stake"@,
            Error::TooManyShares => "too many shares"@,
            Error::InvalidSigner => "invalid signer"@,
            Error::MultipleStakedAssets => "multiple staked assets"@,
            Error::ValidatorWeightMismatch => "validator weight mismatch"@,
            Error::WeightTooSmall => "weight of this validator is too low"@,
            Error::BadSubnetId => "subnet ID can't be primary network ID"@,
            Error::Overflow => "overflow"@,
            Error::UnexpectedDiffKeyLength => "unexpected diff key length"@,
            Error::UnexpectedWeightValueLength => "unexpected weight value length"@,
            Error::WeightTooLarge => "weight of this validator is too large"@,
            Error::InsufficientDelegationFee => "staker charges an insufficient delegation fee"@,
            Error::StakeTooShort => "staking period is too short"@,
            Error::StakeTooLong => "staking period is too long"@,
            Error::FlowCheckFailed => "flow check failed"@,
            Error::NotValidator => "isn't a current or pending validator"@,
            Error::RemovePermissionlessValidator => "attempting to remove permissionless validator"@,
            Error::WrongStakedAssetId => "incorrect staked assetID"@,
            Error::DuplicateValidator => "duplicate validator"@,
            Error::AlreadyValidator => "already a validator"@,
            Error::TimestampNotBeforeStartTime => "chain timestamp not before start time"@,
            Error::TimeTooAdvanced => "staker start time too far in the future"@,
            Error::PeriodMismatch => "proposed staking period is not inside dependent staking period"@,
            Error::WrongNumberOfCredentials => "should have the same number of credentials as inputs"@,
            Error::UnauthorizedModification => "unauthorized modification"@,
            Error::DurangoUpgradeNotActive => "attempting to use a Durango-upgrade feature prior to activation"@,
            Error::EtnaUpgradeNotActive => "attempting to use an Etna-upgrade feature prior to activation"@,
            Error::HeliconUpgradeNotActive => "attempting to use a Helicon-upgrade feature prior to activation"@,
            Error::AddValidatorTxPostDurango => "AddValidatorTx is not permitted post-Durango"@,
            Error::AddDelegatorTxPostDurango => "AddDelegatorTx is not permitted post-Durango"@,
            Error::MaxNumActiveValidators => "already at the max number of active validators"@,
            Error::CouldNotLoadL1Validator => "could not load L1 validator"@,
            Error::WarpMessageContainsStaleNonce => "warp message contains stale nonce"@,
            Error::RemovingLastValidator => "attempting to remove the last L1 validator from a converted subnet"@,
            Error::StateCorruption => "state corruption"@,
            Error::WarpMessageExpired => "warp message expired"@,
            Error::WarpMessageNotYetAllowed => "warp message not yet allowed"@,
            Error::WarpMessageAlreadyIssued => "warp message already issued"@,
            Error::WrongWarpMessageSource => "warp message source does not match the subnet's L1 conversion"@,
            Error::WrongSourceChainId => "wrong SourceChainID"@,
            Error::WrongNetworkId => "wrong networkID"@,
            Error::InvalidBitSet => "bitset is invalid"@,
            Error::UnknownValidator => "unknown validator"@,
            Error::InsufficientWeight => "signature weight is insufficient"@,
            Error::ParseSignature => "failed to parse signature"@,
            Error::InvalidSignature => "signature is invalid"@,
            Error::NoValidatorSet => "no validator set for source subnet"@,
            Error::Validators(e) => "validators: "@ + e@,
            Error::NoPendingBlocks => "no pending blocks"@,
            Error::NotInitialized => "VM not initialized"@,
            Error::Service(e) => "service: "@ + e@,
        }
    }

    /// A description of the failure.
    pub fn message(&self) -> (r: String)
        ensures
            r@ == self.text(),
    {
        match self {
            Error::NilTx => "tx is nil".to_owned(),
            Error::CorruptState(e) => joined("corrupt persisted state: ", e.as_str()),
            Error::WrongTxType => "wrong tx type".to_owned(),
            Error::RemoveStakerTooEarly => "attempted to remove staker before its end time".to_owned(),
            Error::RemoveWrongStaker => "attempting to remove wrong staker".to_owned(),
            Error::MutatedL1Validator => "L1 validator immutable fields were mutated".to_owned(),
            Error::ConflictingL1Validator => "conflicting L1 validator".to_owned(),
            Error::UnfinalizedHeight => "requested height is not yet finalized".to_owned(),
            Error::InvalidProofOfPossession => "invalid BLS proof of possession".to_owned(),
            Error::InsufficientCapacity => "insufficient capacity".to_owned(),
            Error::FeeOverflow => "fee computation overflow".to_owned(),
            Error::Codec(e) => joined("codec: ", e.message()),
            Error::Database(e) => joined("database: ", e.message()),
            Error::InvalidComponent => "invalid component".to_owned(),
            Error::OutputsNotSorted => "outputs not sorted".to_owned(),
            Error::InputsNotSortedUnique => "inputs not sorted and unique".to_owned(),
            Error::InvalidLocktime => "invalid locktime".to_owned(),
            Error::NestedStakeableLock => "shouldn't nest stakeable locks".to_owned(),
            Error::EmptyNodeId => "validator nodeID cannot be empty".to_owned(),
            Error::NoStake => "no stake".to_owned(),
            Error::TooManyShares => "too many shares".to_owned(),
            Error::InvalidSigner => "invalid signer".to_owned(),
            Error::MultipleStakedAssets => "multiple staked assets".to_owned(),
            Error::ValidatorWeightMismatch => "validator weight mismatch".to_owned(),
            Error::WeightTooSmall => "weight of this validator is too low".to_owned(),
            Error::BadSubnetId => "subnet ID can't be primary network ID".to_owned(),
            Error::Overflow => "overflow".to_owned(),
            Error::UnexpectedDiffKeyLength => "unexpected diff key length".to_owned(),
            Error::UnexpectedWeightValueLength => "unexpected weight value length".to_owned(),
            Error::WeightTooLarge => "weight of this validator is too large".to_owned(),
            Error::InsufficientDelegationFee => "staker charges an insufficient delegation fee".to_owned(),
            Error::StakeTooShort => "staking period is too short".to_owned(),
            Error::StakeTooLong => "staking period is too long".to_owned(),
            Error::FlowCheckFailed => "flow check failed".to_owned(),
            Error::NotValidator => "isn't a current or pending validator".to_owned(),
            Error::RemovePermissionlessValidator => "attempting to remove permissionless validator".to_owned(),
            Error::WrongStakedAssetId => "incorrect staked assetID".to_owned(),
            Error::DuplicateValidator => "duplicate validator".to_owned(),
            Error::AlreadyValidator => "already a validator".to_owned(),
            Error::TimestampNotBeforeStartTime => "chain timestamp not before start time".to_owned(),
            Error::TimeTooAdvanced => "staker start time too far in the future".to_owned(),
            Error::PeriodMismatch => "proposed staking period is not inside dependent staking period".to_owned(),
            Error::WrongNumberOfCredentials => "should have the same number of credentials as inputs".to_owned(),
            Error::UnauthorizedModification => "unauthorized modification".to_owned(),
            Error::DurangoUpgradeNotActive => "attempting to use a Durango-upgrade feature prior to activation".to_owned(),
            Error::EtnaUpgradeNotActive => "attempting to use an Etna-upgrade feature prior to activation".to_owned(),
            Error::HeliconUpgradeNotActive => "attempting to use a Helicon-upgrade feature prior to activation".to_owned(),
            Error::AddValidatorTxPostDurango => "AddValidatorTx is not permitted post-Durango".to_owned(),
            Error::AddDelegatorTxPostDurango => "AddDelegatorTx is not permitted post-Durango".to_owned(),
            Error::MaxNumActiveValidators => "already at the max number of active validators".to_owned(),
            Error::CouldNotLoadL1Validator => "could not load L1 validator".to_owned(),
            Error::WarpMessageContainsStaleNonce => "warp message contains stale nonce".to_owned(),
            Error::RemovingLastValidator => "attempting to remove the last L1 validator from a converted subnet".to_owned(),
            Error::StateCorruption => "state corruption".to_owned(),
            Error::WarpMessageExpired => "warp message expired".to_owned(),
            Error::WarpMessageNotYetAllowed => "warp message not yet allowed".to_owned(),
            Error::WarpMessageAlreadyIssued => "warp message already issued".to_owned(),
            Error::WrongWarpMessageSource => "warp message source does not match the subnet's L1 conversion".to_owned(),
            Error::WrongSourceChainId => "wrong SourceChainID".to_owned(),
            Error::WrongNetworkId => "wrong networkID".to_owned(),
            Error::InvalidBitSet => "bitset is invalid".to_owned(),
            Error::UnknownValidator => "unknown validator".to_owned(),
            Error::InsufficientWeight => "signature weight is insufficient".to_owned(),
            Error::ParseSignature => "failed to parse signature".to_owned(),
            Error::InvalidSignature => "signature is invalid".to_owned(),
            Error::NoValidatorSet => "no validator set for source subnet".to_owned(),
            Error::Validators(e) => joined("validators: ", e.as_str()),
            Error::NoPendingBlocks => "no pending blocks".to_owned(),
            Error::NotInitialized => "VM not initialized".to_owned(),
            Error::Service(e) => joined("service: ", e.as_str()),
        }
    }
}

/// A failure of the warp message layer.
#[derive(Debug, PartialEq, Eq)]
pub enum WarpError {
    /// The message is for another chain.
    WrongSourceChainId,
    /// The message is for another network.
    WrongNetworkId,
    /// The bit set of signers is padded.
    InvalidBitSet,
    /// A signer is not in the validator set.
    UnknownValidator,
    /// The signers hold too little weight.
    InsufficientWeight,
    /// The signature does not parse.
    ParseSignature,
    /// The signature does not verify.
    InvalidSignature,
    /// A sum overflowed.
    Overflow,
    /// The source subnet has no validator set.
    NoValidatorSet,
    /// The payload is not well formed.
    InvalidPayload,
    /// The message does not decode.
    Codec(CodecError),
    /// The validator set could not be read.
    Validators(String),
    /// Anything else.
    Other,
}

impl From<WarpError> for Error {
    fn from(e: WarpError) -> (r: Error) {
        match e {
            WarpError::WrongSourceChainId => Error::WrongSourceChainId,
            WarpError::WrongNetworkId => Error::WrongNetworkId,
            WarpError::InvalidBitSet => Error::InvalidBitSet,
            WarpError::UnknownValidator => Error::UnknownValidator,
            WarpError::InsufficientWeight => Error::InsufficientWeight,
            WarpError::ParseSignature => Error::ParseSignature,
            WarpError::InvalidSignature => Error::InvalidSignature,
            WarpError::Overflow => Error::Overflow,
            WarpError::NoValidatorSet => Error::NoValidatorSet,
            WarpError::InvalidPayload => Error::InvalidComponent,
            WarpError::Codec(c) => Error::Codec(c),
            WarpError::Validators(v) => Error::Validators(v),
            WarpError::Other => Error::InvalidComponent,
        }
    }
}

impl vstd::std_specs::convert::FromSpecImpl<WarpError> for Error {
    open spec fn obeys_from_spec() -> bool {
        true
    }

    open spec fn from_spec(e: WarpError) -> Error {
        match e {
            WarpError::WrongSourceChainId => Error::WrongSourceChainId,
            WarpError::WrongNetworkId => Error::WrongNetworkId,
            WarpError::InvalidBitSet => Error::InvalidBitSet,
            WarpError::UnknownValidator => Error::UnknownValidator,
            WarpError::InsufficientWeight => Error::InsufficientWeight,
            WarpError::ParseSignature => Error::ParseSignature,
            WarpError::InvalidSignature => Error::InvalidSignature,
            WarpError::Overflow => Error::Overflow,
            WarpError::NoValidatorSet => Error::NoValidatorSet,
            WarpError::InvalidPayload => Error::InvalidComponent,
            WarpError::Codec(c) => Error::Codec(c),
            WarpError::Validators(v) => Error::Validators(v),
            WarpError::Other => Error::InvalidComponent,
        }
    }
}

/// A failure as the engine that drives the chain sees it.
#[derive(Debug, PartialEq, Eq)]
pub enum VmError {
    /// What was asked for is absent.
    NotFound,
    /// The chain failed in some other way.
    InvalidComponent(&'static str),
}

/// The engine's view of a failure: an absent key stays one, everything else is
/// a failure of the chain.
pub fn vm_error(e: &Error) -> (r: VmError)
    ensures
        r is NotFound <==> *e == not_found(),
        r matches VmError::InvalidComponent(m) ==> m@ == "platformvm vm/build error"@,
{
    match e {
        Error::Database(DbError::NotFound) => VmError::NotFound,
        _ => VmError::InvalidComponent("platformvm vm/build error"),
    }
}

/// The message that consensus halts with on a failure.
pub fn consensus_error(e: &Error) -> (r: String)
    ensures
        r@ == "platformvm: "@ + e.text(),
{
    let m = e.message();
    joined("platformvm: ", m.as_str())
}

} // verus!
