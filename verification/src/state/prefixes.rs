//! The keys of the single values that are stored.
use vstd::prelude::*;

verus! {

/// The chain's time.
pub const TIMESTAMP_KEY: &'static str = "timestamp";

/// The gas state.
pub const FEE_STATE_KEY: &'static str = "fee state";

/// The excess that sets the fees of L1 validators.
pub const L1_VALIDATOR_EXCESS_KEY: &'static str = "l1 validator excess";

/// The fees that each L1 validator has been charged so far.
pub const ACCRUED_FEES_KEY: &'static str = "accrued fees";

/// The supply of the primary network, and the start of the key of every other
/// subnet's.
pub const CURRENT_SUPPLY_KEY: &'static str = "current supply";

/// The block that was accepted last.
pub const LAST_ACCEPTED_KEY: &'static str = "last accepted";

/// The height of the block that was accepted last.
pub const HEIGHT_KEY: &'static str = "height";

/// The bytes of a key.
pub open spec fn key_bytes(key: &str) -> Seq<u8> {
    vstd::utf8::encode_utf8(key@)
}

} // verus!
