//! What is stored of a validator beside its staker: uptime, rewards and the
//! terms of its renewal.
use vstd::prelude::*;

use crate::codec::{be, be_value, lemma_be_len, lemma_pow256, lemma_rd_be, push_u16, push_u32, push_u64, rd_be, CodecError, Reader};
use crate::collections::ordmap::Dup;
use crate::ids::{empty_id, Id};
use crate::state::metadata_codec::{is_registered_version, CODEC_VERSION_1, CODEC_VERSION_2, LONG_LEN, PRE_DELEGATEE_REWARD_SIZE};

verus! {

/// The metadata of a validator. Each field names the version that brought it.
#[derive(Clone, Copy, Debug, PartialEq, Eq)]
pub struct ValidatorMetadata {
    /// Time connected so far, in nanoseconds (version 0).
    pub up_duration: u64,
    /// When the uptime was last updated, in Unix seconds (version 0).
    pub last_updated: u64,
    /// The validation reward due (version 0).
    pub potential_reward: u64,
    /// The delegatee reward of the current cycle (version 0).
    pub potential_delegatee_reward: u64,
    /// When the current cycle began, in Unix seconds (version 1).
    pub staker_start_time: u64,
    /// Validation rewards restaked from earlier cycles (version 2).
    pub accrued_validation_rewards: u64,
    /// Delegatee rewards restaked from earlier cycles (version 2).
    pub accrued_delegatee_rewards: u64,
    /// The share of the rewards to restake (version 2).
    pub auto_compound_reward_shares: u32,
    /// The length of the next cycle, in seconds (version 2).
    pub next_period: u64,
    /// When the current cycle ends, in Unix seconds (version 2).
    pub staker_end_time: u64,
    /// The key that the record is stored under, which is not part of it.
    pub tx_id: Id,
}

/// The fields of [`ValidatorMetadata`] that are written.
#[verifier::ext_equal]
pub struct MetadataView {
    /// Time connected so far.
    pub up_duration: u64,
    /// When the uptime was last updated.
    pub last_updated: u64,
    /// The validation reward due.
    pub potential_reward: u64,
    /// The delegatee reward of the current cycle.
    pub potential_delegatee_reward: u64,
    /// When the current cycle began.
    pub staker_start_time: u64,
    /// Validation rewards restaked from earlier cycles.
    pub accrued_validation_rewards: u64,
    /// Delegatee rewards restaked from earlier cycles.
    pub accrued_delegatee_rewards: u64,
    /// The share of the rewards to restake.
    pub auto_compound_reward_shares: u32,
    /// The length of the next cycle.
    pub next_period: u64,
    /// When the current cycle ends.
    pub staker_end_time: u64,
}

impl View for ValidatorMetadata {
    type V = MetadataView;

    open spec fn view(&self) -> MetadataView {
        MetadataView {
            up_duration: self.up_duration,
            last_updated: self.last_updated,
            potential_reward: self.potential_reward,
            potential_delegatee_reward: self.potential_delegatee_reward,
            staker_start_time: self.staker_start_time,
            accrued_validation_rewards: self.accrued_validation_rewards,
            accrued_delegatee_rewards: self.accrued_delegatee_rewards,
            auto_compound_reward_shares: self.auto_compound_reward_shares,
            next_period: self.next_period,
            staker_end_time: self.staker_end_time,
        }
    }
}

impl MetadataView {
    /// Metadata of which nothing was stored.
    pub open spec fn zero() -> MetadataView {
        MetadataView {
            up_duration: 0,
            last_updated: 0,
            potential_reward: 0,
            potential_delegatee_reward: 0,
            staker_start_time: 0,
            accrued_validation_rewards: 0,
            accrued_delegatee_rewards: 0,
            auto_compound_reward_shares: 0,
            next_period: 0,
            staker_end_time: 0,
        }
    }

    /// The fields that `version` has; the others are zero.
    pub open spec fn at_version(self, version: nat) -> MetadataView {
        let base = MetadataView {
            up_duration: self.up_duration,
            last_updated: self.last_updated,
            potential_reward: self.potential_reward,
            potential_delegatee_reward: self.potential_delegatee_reward,
            ..MetadataView::zero()
        };
        if version >= 2 {
            self
        } else if version >= 1 {
            MetadataView { staker_start_time: self.staker_start_time, ..base }
        } else {
            base
        }
    }
}

/// The part of a validator's metadata that renewals change.
#[derive(Clone, Copy, Debug, PartialEq, Eq, Structural)]
pub struct StakingInfo {
    /// The delegatee reward of the current cycle.
    pub delegatee_reward: u64,
    /// Validation rewards restaked from earlier cycles.
    pub accrued_validation_rewards: u64,
    /// Delegatee rewards restaked from earlier cycles.
    pub accrued_delegatee_rewards: u64,
    /// The share of the rewards to restake.
    pub auto_compound_reward_shares: u32,
    /// The length of the next cycle, in seconds.
    pub next_period: u64,
}

/// Staking information of which nothing was set.
pub open spec fn zero_staking_info() -> StakingInfo {
    StakingInfo {
        delegatee_reward: 0,
        accrued_validation_rewards: 0,
        accrued_delegatee_rewards: 0,
        auto_compound_reward_shares: 0,
        next_period: 0,
    }
}

impl Default for StakingInfo {
    fn default() -> (r: StakingInfo)
        ensures
            r == zero_staking_info(),
    {
        StakingInfo {
            delegatee_reward: 0,
            accrued_validation_rewards: 0,
            accrued_delegatee_rewards: 0,
            auto_compound_reward_shares: 0,
            next_period: 0,
        }
    }
}

impl View for StakingInfo {
    type V = StakingInfo;

    open spec fn view(&self) -> StakingInfo {
        *self
    }
}

impl Dup for StakingInfo {
    fn dup(&self) -> (r: StakingInfo) {
        *self
    }
}

impl Default for ValidatorMetadata {
    fn default() -> (r: ValidatorMetadata)
        ensures
            r@ == MetadataView::zero(),
            r.tx_id@ == empty_id(),
    {
        ValidatorMetadata {
            up_duration: 0,
            last_updated: 0,
            potential_reward: 0,
            potential_delegatee_reward: 0,
            staker_start_time: 0,
            accrued_validation_rewards: 0,
            accrued_delegatee_rewards: 0,
            auto_compound_reward_shares: 0,
            next_period: 0,
            staker_end_time: 0,
            tx_id: Id::empty(),
        }
    }
}

spec fn then_v2(m: MetadataView, t: Seq<u8>) -> Seq<u8> {
    be(m.accrued_validation_rewards as nat, 8) + (be(m.accrued_delegatee_rewards as nat, 8) + (be(
        m.auto_compound_reward_shares as nat,
        4,
    ) + (be(m.next_period as nat, 8) + (be(m.staker_end_time as nat, 8) + t))))
}

spec fn then_v1(m: MetadataView, t: Seq<u8>) -> Seq<u8> {
    be(m.staker_start_time as nat, 8) + t
}

spec fn then_v0(m: MetadataView, t: Seq<u8>) -> Seq<u8> {
    be(m.up_duration as nat, 8) + (be(m.last_updated as nat, 8) + (be(m.potential_reward as nat, 8)
        + (be(m.potential_delegatee_reward as nat, 8) + t)))
}

/// The fields that `version` has, in the order in which they are written.
pub open spec fn metadata_fields(m: MetadataView, version: nat) -> Seq<u8> {
    let v0 = be(m.up_duration as nat, 8) + be(m.last_updated as nat, 8) + be(
        m.potential_reward as nat,
        8,
    ) + be(m.potential_delegatee_reward as nat, 8);
    let v1 = if version >= 1 {
        be(m.staker_start_time as nat, 8)
    } else {
        Seq::empty()
    };
    let v2 = if version >= 2 {
        be(m.accrued_validation_rewards as nat, 8) + be(m.accrued_delegatee_rewards as nat, 8) + be(
            m.auto_compound_reward_shares as nat,
            4,
        ) + be(m.next_period as nat, 8) + be(m.staker_end_time as nat, 8)
    } else {
        Seq::empty()
    };
    v0 + v1 + v2
}

/// A record: the version, and the fields that it has.
pub open spec fn metadata_bytes(m: MetadataView, version: nat) -> Seq<u8> {
    be(version, 2) + metadata_fields(m, version)
}

/// The fields of version 0 at the start of `s`, and what follows.
pub open spec fn rd_v0(s: Seq<u8>) -> Option<(MetadataView, Seq<u8>)> {
    match rd_be(s, 8) {
        None => None,
        Some((up_duration, s)) => match rd_be(s, 8) {
            None => None,
            Some((last_updated, s)) => match rd_be(s, 8) {
                None => None,
                Some((potential_reward, s)) => match rd_be(s, 8) {
                    None => None,
                    Some((potential_delegatee_reward, s)) => Some(
                        (
                            MetadataView {
                                up_duration: up_duration as u64,
                                last_updated: last_updated as u64,
                                potential_reward: potential_reward as u64,
                                potential_delegatee_reward: potential_delegatee_reward as u64,
                                ..MetadataView::zero()
                            },
                            s,
                        ),
                    ),
                },
            },
        },
    }
}

/// The fields of version 2 alone at the start of `s`, and what follows.
pub open spec fn rd_v2(m: MetadataView, s: Seq<u8>) -> Option<(MetadataView, Seq<u8>)> {
    match rd_be(s, 8) {
        None => None,
        Some((accrued_validation_rewards, s)) => match rd_be(s, 8) {
            None => None,
            Some((accrued_delegatee_rewards, s)) => match rd_be(s, 4) {
                None => None,
                Some((auto_compound_reward_shares, s)) => match rd_be(s, 8) {
                    None => None,
                    Some((next_period, s)) => match rd_be(s, 8) {
                        None => None,
                        Some((staker_end_time, s)) => Some(
                            (
                                MetadataView {
                                    accrued_validation_rewards: accrued_validation_rewards as u64,
                                    accrued_delegatee_rewards: accrued_delegatee_rewards as u64,
                                    auto_compound_reward_shares: auto_compound_reward_shares as u32,
                                    next_period: next_period as u64,
                                    staker_end_time: staker_end_time as u64,
                                    ..m
                                },
                                s,
                            ),
                        ),
                    },
                },
            },
        },
    }
}

/// The fields that `version` has at the start of `s`, and what follows.
pub open spec fn rd_metadata(s: Seq<u8>, version: nat) -> Option<(MetadataView, Seq<u8>)> {
    match rd_v0(s) {
        None => None,
        Some((m, s)) => if version == 0 {
            Some((m, s))
        } else {
            match rd_be(s, 8) {
                None => None,
                Some((t, s)) => {
                    let m = MetadataView { staker_start_time: t as u64, ..m };
                    if version == 1 {
                        Some((m, s))
                    } else {
                        rd_v2(m, s)
                    }
                },
            }
        },
    }
}

/// The metadata that a stored record holds, or why it holds none. The length
/// tells records from before the versions apart: nothing at all; only the
/// potential reward; uptime and the potential reward.
pub open spec fn metadata_read(bytes: Seq<u8>) -> Result<MetadataView, CodecError> {
    if bytes.len() == 0 {
        Ok(MetadataView::zero())
    } else if bytes.len() == 8 {
        Ok(MetadataView { potential_reward: be_value(bytes) as u64, ..MetadataView::zero() })
    } else if bytes.len() < 2 {
        Err(CodecError::InsufficientLength)
    } else if be_value(bytes.take(2)) > 2 {
        Err(CodecError::UnknownVersion)
    } else if bytes.len() == 26 {
        Ok(
            MetadataView {
                up_duration: be_value(bytes.subrange(2, 10)) as u64,
                last_updated: be_value(bytes.subrange(10, 18)) as u64,
                potential_reward: be_value(bytes.subrange(18, 26)) as u64,
                ..MetadataView::zero()
            },
        )
    } else {
        match rd_metadata(bytes.skip(2), be_value(bytes.take(2))) {
            None => Err(CodecError::InsufficientLength),
            Some((m, rest)) => if rest.len() != 0 {
                Err(CodecError::ExtraSpace)
            } else {
                Ok(m)
            },
        }
    }
}

proof fn lemma_rd_v0(m: MetadataView, t: Seq<u8>)
    ensures
        rd_v0(then_v0(m, t)) == Some((m.at_version(0), t)),
{
    lemma_pow256();
    lemma_rd_be(m.potential_delegatee_reward as nat, 8, t);
    let s3 = be(m.potential_delegatee_reward as nat, 8) + t;
    lemma_rd_be(m.potential_reward as nat, 8, s3);
    let s2 = be(m.potential_reward as nat, 8) + s3;
    lemma_rd_be(m.last_updated as nat, 8, s2);
    lemma_rd_be(m.up_duration as nat, 8, be(m.last_updated as nat, 8) + s2);
}

proof fn lemma_rd_v2(base: MetadataView, m: MetadataView, t: Seq<u8>)
    requires
        base == m.at_version(1),
    ensures
        rd_v2(base, then_v2(m, t)) == Some((m, t)),
{
    lemma_pow256();
    lemma_rd_be(m.staker_end_time as nat, 8, t);
    let s4 = be(m.staker_end_time as nat, 8) + t;
    lemma_rd_be(m.next_period as nat, 8, s4);
    let s3 = be(m.next_period as nat, 8) + s4;
    lemma_rd_be(m.auto_compound_reward_shares as nat, 4, s3);
    let s2 = be(m.auto_compound_reward_shares as nat, 4) + s3;
    lemma_rd_be(m.accrued_delegatee_rewards as nat, 8, s2);
    lemma_rd_be(
        m.accrued_validation_rewards as nat,
        8,
        be(m.accrued_delegatee_rewards as nat, 8) + s2,
    );
}

proof fn lemma_metadata_fields(m: MetadataView, version: nat)
    requires
        version <= 2,
    ensures
        rd_metadata(metadata_fields(m, version), version) == Some(
            (m.at_version(version), Seq::<u8>::empty()),
        ),
        metadata_fields(m, version).len() == if version == 0 {
            32int
        } else if version == 1 {
            40
        } else {
            76
        },
{
    let e = Seq::<u8>::empty();
    lemma_be_len(m.up_duration as nat, 8);
    lemma_be_len(m.last_updated as nat, 8);
    lemma_be_len(m.potential_reward as nat, 8);
    lemma_be_len(m.potential_delegatee_reward as nat, 8);
    lemma_be_len(m.staker_start_time as nat, 8);
    lemma_be_len(m.accrued_validation_rewards as nat, 8);
    lemma_be_len(m.accrued_delegatee_rewards as nat, 8);
    lemma_be_len(m.auto_compound_reward_shares as nat, 4);
    lemma_be_len(m.next_period as nat, 8);
    lemma_be_len(m.staker_end_time as nat, 8);
    lemma_pow256();
    if version == 0 {
        assert(metadata_fields(m, 0) =~= then_v0(m, e));
        lemma_rd_v0(m, e);
    } else if version == 1 {
        assert(metadata_fields(m, 1) =~= then_v0(m, then_v1(m, e)));
        lemma_rd_v0(m, then_v1(m, e));
        lemma_rd_be(m.staker_start_time as nat, 8, e);
    } else {
        assert(metadata_fields(m, 2) =~= then_v0(m, then_v1(m, then_v2(m, e))));
        lemma_rd_v0(m, then_v1(m, then_v2(m, e)));
        lemma_rd_be(m.staker_start_time as nat, 8, then_v2(m, e));
        lemma_rd_v2(m.at_version(1), m, e);
    }
}

/// A record that was written under a version is read back with the fields
/// that the version has.
pub proof fn metadata_round_trip(m: MetadataView, version: nat)
    requires
        version <= 2,
    ensures
        metadata_read(metadata_bytes(m, version)) == Ok::<MetadataView, CodecError>(
            m.at_version(version),
        ),
{
    let f = metadata_fields(m, version);
    lemma_metadata_fields(m, version);
    lemma_pow256();
    lemma_rd_be(version, 2, f);
    lemma_be_len(version, 2);
}

impl ValidatorMetadata {
    /// The weight of a renewed validator: that of its transaction and all
    /// rewards restaked since. There is none where the sum overflows.
    pub fn effective_weight(&self, tx_weight: u64) -> (r: Option<u64>)
        ensures
            r is Some <==> tx_weight + self.accrued_validation_rewards
                + self.accrued_delegatee_rewards <= u64::MAX,
            r matches Some(w) ==> w == tx_weight + self.accrued_validation_rewards
                + self.accrued_delegatee_rewards,
    {
        match tx_weight.checked_add(self.accrued_validation_rewards) {
            Some(w) => w.checked_add(self.accrued_delegatee_rewards),
            None => None,
        }
    }

    /// The record's bytes under `version`.
    pub fn marshal(&self, version: u16) -> (r: Result<Vec<u8>, CodecError>)
        ensures
            r is Ok <==> version <= CODEC_VERSION_2,
            r matches Ok(b) ==> b@ == metadata_bytes(self@, version as nat),
            r matches Err(e) ==> e == CodecError::UnknownVersion,
    {
        if !is_registered_version(version) {
            return Err(CodecError::UnknownVersion);
        }
        let mut out: Vec<u8> = Vec::new();
        push_u16(&mut out, version);
        self.marshal_fields(version, &mut out);
        assert(out@ =~= metadata_bytes(self@, version as nat));
        Ok(out)
    }

    fn marshal_fields(&self, version: u16, out: &mut Vec<u8>)
        ensures
            final(out)@ == old(out)@ + metadata_fields(self@, version as nat),
    {
        push_u64(out, self.up_duration);
        push_u64(out, self.last_updated);
        push_u64(out, self.potential_reward);
        push_u64(out, self.potential_delegatee_reward);
        if version >= CODEC_VERSION_1 {
            push_u64(out, self.staker_start_time);
        }
        if version >= CODEC_VERSION_2 {
            push_u64(out, self.accrued_validation_rewards);
            push_u64(out, self.accrued_delegatee_rewards);
            push_u32(out, self.auto_compound_reward_shares);
            push_u64(out, self.next_period);
            push_u64(out, self.staker_end_time);
        }
        assert(out@ =~= old(out)@ + metadata_fields(self@, version as nat));
    }

    /// The record that `bytes` hold behind their version.
    fn unmarshal(bytes: &[u8]) -> (r: Result<ValidatorMetadata, CodecError>)
        requires
            bytes@.len() != 0,
            bytes@.len() != 8,
            bytes@.len() != 26,
        ensures
            match metadata_read(bytes@) {
                Ok(m) => r is Ok && r->Ok_0@ == m && r->Ok_0.tx_id@ == empty_id(),
                Err(e) => r is Err && r->Err_0 == e,
            },
    {
        let mut p = Reader::new(bytes);
        let version: u16 = match p.take_u16() {
            Some(v) => v,
            None => {
                return Err(CodecError::InsufficientLength);
            },
        };
        if !is_registered_version(version) {
            return Err(CodecError::UnknownVersion);
        }
        match ValidatorMetadata::unmarshal_fields(version, &mut p) {
            Some(m) => if p.done() {
                Ok(m)
            } else {
                Err(CodecError::ExtraSpace)
            },
            None => Err(CodecError::InsufficientLength),
        }
    }

    fn unmarshal_fields(version: u16, p: &mut Reader<'_>) -> (r: Option<ValidatorMetadata>)
        requires
            version <= 2,
        ensures
            match rd_metadata(old(p).rest(), version as nat) {
                Some((m, t)) => r is Some && r->0@ == m && r->0.tx_id@ == empty_id()
                    && final(p).rest() == t,
                None => r is None,
            },
    {
        let mut m = ValidatorMetadata::default();
        m.up_duration = p.take_u64()?;
        m.last_updated = p.take_u64()?;
        m.potential_reward = p.take_u64()?;
        m.potential_delegatee_reward = p.take_u64()?;
        if version >= CODEC_VERSION_1 {
            m.staker_start_time = p.take_u64()?;
        }
        if version >= CODEC_VERSION_2 {
            m.accrued_validation_rewards = p.take_u64()?;
            m.accrued_delegatee_rewards = p.take_u64()?;
            m.auto_compound_reward_shares = p.take_u32()?;
            m.next_period = p.take_u64()?;
            m.staker_end_time = p.take_u64()?;
        }
        Some(m)
    }
}

/// The metadata that the stored record `bytes` holds. The length of a record
/// from before the versions tells what it holds.
pub fn parse_validator_metadata(bytes: &[u8]) -> (r: Result<ValidatorMetadata, CodecError>)
    ensures
        match metadata_read(bytes@) {
            Ok(m) => r is Ok && r->Ok_0@ == m && r->Ok_0.tx_id@ == empty_id(),
            Err(e) => r is Err && r->Err_0 == e,
        },
{
    let len: usize = bytes.len();
    if len == 0 {
        return Ok(ValidatorMetadata::default());
    }
    if len == LONG_LEN {
        let mut p = Reader::new(bytes);
        let mut m = ValidatorMetadata::default();
        match p.take_u64() {
            Some(v) => {
                m.potential_reward = v;
            },
            None => {
                return Err(CodecError::InsufficientLength);
            },
        }
        assert(bytes@.take(8) =~= bytes@);
        return Ok(m);
    }
    if len == PRE_DELEGATEE_REWARD_SIZE {
        let mut p = Reader::new(bytes);
        let version: u16 = match p.take_u16() {
            Some(v) => v,
            None => {
                return Err(CodecError::InsufficientLength);
            },
        };
        if !is_registered_version(version) {
            return Err(CodecError::UnknownVersion);
        }
        let up_duration: Option<u64> = p.take_u64();
        let last_updated: Option<u64> = p.take_u64();
        let potential_reward: Option<u64> = p.take_u64();
        let mut m = ValidatorMetadata::default();
        assert(bytes@.skip(2).take(8) =~= bytes@.subrange(2, 10));
        assert(bytes@.skip(2).skip(8).take(8) =~= bytes@.subrange(10, 18));
        assert(bytes@.skip(2).skip(8).skip(8).take(8) =~= bytes@.subrange(18, 26));
        match (up_duration, last_updated, potential_reward) {
            (Some(u), Some(l), Some(w)) => {
                m.up_duration = u;
                m.last_updated = l;
                m.potential_reward = w;
                return Ok(m);
            },
            _ => {
                return Err(CodecError::InsufficientLength);
            },
        }
    }
    ValidatorMetadata::unmarshal(bytes)
}

} // verus!
