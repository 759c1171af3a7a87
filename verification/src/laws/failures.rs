//! Failures: what is said of them, and what becomes of them outside.
use vstd::prelude::*;

use crate::codec::CodecError;
use crate::error::{consensus_error, vm_error, DbError, Error, VmError, WarpError};

verus! {

/// A failure that another one caused says where it comes from and then what the
/// other says; a message that came from elsewhere is kept whole.
pub proof fn causes_are_told(e: Error, said: String)
    requires
        call_ensures(Error::message, (&e,), said),
    ensures
        e matches Error::Codec(c) ==> said@ == "codec: "@ + c.text(),
        e matches Error::Database(d) ==> said@ == "database: "@ + d.text(),
        e matches Error::CorruptState(s) ==> said@ == "corrupt persisted state: "@ + s@,
        e matches Error::Validators(s) ==> said@ == "validators: "@ + s@,
        e matches Error::Service(s) ==> said@ == "service: "@ + s@,
{
}

/// Every other failure is told in the words that stand for it.
pub proof fn failures_are_told(e: Error, said: String)
    requires
        call_ensures(Error::message, (&e,), said),
    ensures
        e is NilTx ==> said@ == "tx is nil"@,
        e is WrongTxType ==> said@ == "wrong tx type"@,
        e is RemoveStakerTooEarly ==> said@ == "attempted to remove staker before its end time"@,
        e is RemoveWrongStaker ==> said@ == "attempting to remove wrong staker"@,
        e is MutatedL1Validator ==> said@ == "L1 validator immutable fields were mutated"@,
        e is ConflictingL1Validator ==> said@ == "conflicting L1 validator"@,
        e is UnfinalizedHeight ==> said@ == "requested height is not yet finalized"@,
        e is InvalidProofOfPossession ==> said@ == "invalid BLS proof of possession"@,
        e is InsufficientCapacity ==> said@ == "insufficient capacity"@,
        e is FeeOverflow ==> said@ == "fee computation overflow"@,
        e is InvalidComponent ==> said@ == "invalid component"@,
        e is OutputsNotSorted ==> said@ == "outputs not sorted"@,
        e is InputsNotSortedUnique ==> said@ == "inputs not sorted and unique"@,
        e is InvalidLocktime ==> said@ == "invalid locktime"@,
        e is NestedStakeableLock ==> said@ == "shouldn't nest stakeable locks"@,
        e is EmptyNodeId ==> said@ == "validator nodeID cannot be empty"@,
        e is NoStake ==> said@ == "no stake"@,
        e is TooManyShares ==> said@ == "too many shares"@,
        e is InvalidSigner ==> said@ == "invalid signer"@,
        e is MultipleStakedAssets ==> said@ == "multiple staked assets"@,
        e is ValidatorWeightMismatch ==> said@ == "validator weight mismatch"@,
        e is WeightTooSmall ==> said@ == "weight of this validator is too low"@,
        e is BadSubnetId ==> said@ == "subnet ID can't be primary network ID"@,
        e is Overflow ==> said@ == "overflow"@,
        e is UnexpectedDiffKeyLength ==> said@ == "unexpected diff key length"@,
        e is UnexpectedWeightValueLength ==> said@ == "unexpected weight value length"@,
        e is WeightTooLarge ==> said@ == "weight of this validator is too large"@,
        e is InsufficientDelegationFee ==> said@ == "staker charges an insufficient delegation fee"@,
        e is StakeTooShort ==> said@ == "staking period is too short"@,
        e is StakeTooLong ==> said@ == "staking period is too long"@,
        e is FlowCheckFailed ==> said@ == "flow check failed"@,
        e is NotValidator ==> said@ == "isn't a current or pending validator"@,
        e is RemovePermissionlessValidator ==> said@ == "attempting to remove permissionless validator"@,
        e is WrongStakedAssetId ==> said@ == "incorrect staked assetID"@,
        e is DuplicateValidator ==> said@ == "duplicate validator"@,
        e is AlreadyValidator ==> said@ == "already a validator"@,
        e is TimestampNotBeforeStartTime ==> said@ == "chain timestamp not before start time"@,
        e is TimeTooAdvanced ==> said@ == "staker start time too far in the future"@,
        e is PeriodMismatch ==> said@ == "proposed staking period is not inside dependent staking period"@,
        e is WrongNumberOfCredentials ==> said@ == "should have the same number of credentials as inputs"@,
        e is UnauthorizedModification ==> said@ == "unauthorized modification"@,
        e is DurangoUpgradeNotActive ==> said@ == "attempting to use a Durango-upgrade feature prior to activation"@,
        e is EtnaUpgradeNotActive ==> said@ == "attempting to use an Etna-upgrade feature prior to activation"@,
        e is HeliconUpgradeNotActive ==> said@ == "attempting to use a Helicon-upgrade feature prior to activation"@,
        e is AddValidatorTxPostDurango ==> said@ == "AddValidatorTx is not permitted post-Durango"@,
        e is AddDelegatorTxPostDurango ==> said@ == "AddDelegatorTx is not permitted post-Durango"@,
        e is MaxNumActiveValidators ==> said@ == "already at the max number of active validators"@,
        e is CouldNotLoadL1Validator ==> said@ == "could not load L1 validator"@,
        e is WarpMessageContainsStaleNonce ==> said@ == "warp message contains stale nonce"@,
        e is RemovingLastValidator ==> said@ == "attempting to remove the last L1 validator from a converted subnet"@,
        e is StateCorruption ==> said@ == "state corruption"@,
        e is WarpMessageExpired ==> said@ == "warp message expired"@,
        e is WarpMessageNotYetAllowed ==> said@ == "warp message not yet allowed"@,
        e is WarpMessageAlreadyIssued ==> said@ == "warp message already issued"@,
        e is WrongWarpMessageSource ==> said@ == "warp message source does not match the subnet's L1 conversion"@,
        e is WrongSourceChainId ==> said@ == "wrong SourceChainID"@,
        e is WrongNetworkId ==> said@ == "wrong networkID"@,
        e is InvalidBitSet ==> said@ == "bitset is invalid"@,
        e is UnknownValidator ==> said@ == "unknown validator"@,
        e is InsufficientWeight ==> said@ == "signature weight is insufficient"@,
        e is ParseSignature ==> said@ == "failed to parse signature"@,
        e is InvalidSignature ==> said@ == "signature is invalid"@,
        e is NoValidatorSet ==> said@ == "no validator set for source subnet"@,
        e is NoPendingBlocks ==> said@ == "no pending blocks"@,
        e is NotInitialized ==> said@ == "VM not initialized"@,
{
}

/// The failures of codecs and databases, by name.
pub proof fn inner_failures_are_told(c: CodecError, d: DbError, a: &str, b: &str)
    requires
        call_ensures(CodecError::message, (&c,), a),
        call_ensures(DbError::message, (&d,), b),
    ensures
        c is UnknownVersion ==> a@ == "unknown codec version"@,
        c is ExtraSpace ==> a@ == "trailing buffer space"@,
        c is InsufficientLength ==> a@ == "insufficient length"@,
        c is UnknownTypeId ==> a@ == "unknown type id"@,
        c is LengthOverflow ==> a@ == "length overflow"@,
        c is TooBig ==> a@ == "byte array exceeds maximum length"@,
        c is NotText ==> a@ == "invalid utf-8"@,
        d is NotFound ==> b@ == "not found"@,
        d is Closed ==> b@ == "closed"@,
{
}

/// What fails of a signed message is the same failure of the chain, whatever it
/// carries is kept, and two failures that are told apart stay apart, but for
/// those that have no name of their own.
pub proof fn message_failures_are_kept(w: WarpError, x: WarpError, e: Error, f: Error)
    requires
        call_ensures(Error::from, (w,), e),
        call_ensures(Error::from, (x,), f),
    ensures
        w is WrongSourceChainId ==> e is WrongSourceChainId,
        w is WrongNetworkId ==> e is WrongNetworkId,
        w is InvalidBitSet ==> e is InvalidBitSet,
        w is UnknownValidator ==> e is UnknownValidator,
        w is InsufficientWeight ==> e is InsufficientWeight,
        w is ParseSignature ==> e is ParseSignature,
        w is InvalidSignature ==> e is InvalidSignature,
        w is Overflow ==> e is Overflow,
        w is NoValidatorSet ==> e is NoValidatorSet,
        w matches WarpError::Codec(c) ==> e == Error::Codec(c),
        w matches WarpError::Validators(v) ==> e == Error::Validators(v),
        w is InvalidPayload || w is Other ==> e is InvalidComponent,
        e == f && !(e is InvalidComponent) ==> w == x,
{
}

/// To the engine what is absent stays absent, and every other failure is one of
/// the chain. Consensus halts with all that the failure says.
pub proof fn failures_outside(e: Error, said: String, v: VmError, halt: String)
    requires
        call_ensures(Error::message, (&e,), said),
        call_ensures(vm_error, (&e,), v),
        call_ensures(consensus_error, (&e,), halt),
    ensures
        e == Error::Database(DbError::NotFound) ==> v is NotFound,
        e != Error::Database(DbError::NotFound) ==> v is InvalidComponent,
        halt@ == "platformvm: "@ + said@,
{
}

} // verus!
