//! The time of the next block.
use vstd::prelude::*;

verus! {

/// A moment, in nanoseconds since the start of 1970.
pub type Moment = i128;

/// The last moment that can be told.
pub const LAST_MOMENT: i128 = 9_223_372_036_854_775_807_999_999_999;

/// The first moment that can be told.
pub const FIRST_MOMENT: i128 = -9_223_372_036_854_775_808_000_000_000;

/// How many nanoseconds a second has.
pub const NANOS_PER_SECOND: i128 = 1_000_000_000;

/// The whole seconds from the start of 1970 to `t`: none before it.
pub open spec fn seconds_of(t: Moment) -> int {
    if t < 0 {
        0
    } else {
        t as int / NANOS_PER_SECOND as int
    }
}

/// The whole seconds from the start of 1970 to `t`: none before it.
pub fn unix_secs(t: Moment) -> (r: u64)
    requires
        t <= LAST_MOMENT,
    ensures
        r == seconds_of(t),
{
    if t < 0 {
        0
    } else {
        (t / NANOS_PER_SECOND) as u64
    }
}

/// The later of two moments.
pub open spec fn later(a: int, b: int) -> int {
    if a < b {
        b
    } else {
        a
    }
}

/// The earlier of two moments.
pub open spec fn earlier(a: int, b: int) -> int {
    if a < b {
        a
    } else {
        b
    }
}

/// The time of the next block: now, but not before its parent nor behind the
/// next change of stakers, and no further ahead of now than `sync_bound`. Tells
/// also whether the change of stakers holds the time back, so that the time
/// has to advance to it.
pub fn next_block_time(
    now: Moment,
    parent_timestamp: Moment,
    next_staker_change: Moment,
    sync_bound: u128,
) -> (r: (Moment, bool))
    requires
        FIRST_MOMENT <= now <= LAST_MOMENT,
    ensures
        ({
            let wanted = later(now as int, parent_timestamp as int);
            let capped = earlier(wanted, next_staker_change as int);
            let ahead = if now + sync_bound <= LAST_MOMENT {
                now + sync_bound
            } else {
                capped
            };
            &&& r.0 == earlier(capped, later(ahead, parent_timestamp as int))
            &&& r.1 == (wanted > next_staker_change)
        }),
{
    let mut next: i128 = if now < parent_timestamp {
        parent_timestamp
    } else {
        now
    };
    let mut time_was_capped = false;
    if next > next_staker_change {
        next = next_staker_change;
        time_was_capped = true;
    }
    let room: u128 = (LAST_MOMENT - now) as u128;
    let ahead: i128 = if sync_bound <= room {
        now + sync_bound as i128
    } else {
        next
    };
    let upper: i128 = if ahead < parent_timestamp {
        parent_timestamp
    } else {
        ahead
    };
    if next > upper {
        next = upper;
    }
    (next, time_was_capped)
}

/// The time of the next block is between its parent's and the next change of
/// stakers, wherever that change is not in the past already.
pub proof fn next_block_time_is_between(
    now: int,
    parent_timestamp: int,
    next_staker_change: int,
    ahead: int,
)
    requires
        parent_timestamp <= next_staker_change,
    ensures
        ({
            let capped = earlier(later(now, parent_timestamp), next_staker_change);
            let r = earlier(capped, later(ahead, parent_timestamp));
            parent_timestamp <= r <= next_staker_change && r <= later(now, parent_timestamp)
        }),
{
}

} // verus!
