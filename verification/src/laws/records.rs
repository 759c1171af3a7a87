//! Records: who holds what, who stakes what, and what is kept of them.
use core::cmp::Ordering;
use vstd::prelude::*;

use crate::codec::{be_value, CodecError};
use crate::crypto::PublicKey;
use crate::error::{Error, Result};
use crate::fx::verify_transfer;
use crate::ids::{empty_id, Id, NodeId, ShortId};
use crate::order::lex_lt;
use crate::stakeable::{LockIn, LockOut};
use crate::state::l1_validator::L1Validator;
use crate::state::metadata_validator::{parse_validator_metadata, ValidatorMetadata};
use crate::state::staker::{Priority, Staker};
use crate::status::Status;
use crate::txs::components::{
    Input,
    Output,
    OutputOwners,
    TransferInput,
    TransferOutput,
};
use crate::utxo::output_addresses;

verus! {

/// A current staker moves when it leaves and keeps what it may earn; a pending
/// one moves when it starts and has earned nothing. The rest of what either is
/// made of is as it was given.
pub proof fn stakers_move_when_their_time_comes(
    tx_id: Id,
    node_id: NodeId,
    key: Option<PublicKey>,
    subnet: Id,
    weight: u64,
    start: u64,
    end: u64,
    reward: u64,
    group: Priority,
    current: Staker,
    pending: Staker,
)
    requires
        call_ensures(
            Staker::new_current,
            (tx_id, node_id, key, subnet, weight, start, end, reward, group),
            current,
        ),
        call_ensures(
            Staker::new_pending,
            (tx_id, node_id, key, subnet, weight, start, end, group),
            pending,
        ),
    ensures
        current.next_time == current.end_time,
        current.potential_reward == reward,
        pending.next_time == pending.start_time,
        pending.potential_reward == 0,
        current == (Staker { next_time: end, potential_reward: reward, ..pending }),
        pending.tx_id == tx_id && pending.node_id == node_id && pending.subnet_id == subnet,
        pending.public_key == key && pending.weight == weight && pending.priority == group,
        pending.start_time == start && pending.end_time == end,
{
}

/// Of two stakers the one that moves earlier comes first; at one time, whoever
/// is in an earlier group; and in one group, who has the smaller id. Neither
/// comes before the other only where all three agree.
pub proof fn stakers_come_in_order(a: Staker, b: Staker, ab: bool, ba: bool, ga: u8, gb: u8)
    requires
        call_ensures(Staker::before, (&a, &b), ab),
        call_ensures(Staker::before, (&b, &a), ba),
        call_ensures(Priority::to_u8, (&a.priority,), ga),
        call_ensures(Priority::to_u8, (&b.priority,), gb),
    ensures
        a.next_time < b.next_time ==> ab && !ba,
        a.next_time == b.next_time && ga < gb ==> ab && !ba,
        a.next_time == b.next_time && ga == gb && lex_lt(a.tx_id@, b.tx_id@) ==> ab,
        ga == gb <==> a.priority == b.priority,
        !ab && !ba ==> a.next_time == b.next_time && a.priority == b.priority && a.tx_id@
            == b.tx_id@,
{
    crate::state::staker::lemma_order_key(a, b);
    crate::state::staker::staker_order_is_total(a, b, a);
    crate::state::staker::staker_order_is_total(b, a, b);
}

/// A group is of current or of pending stakers, never both. Every pending group
/// comes before every current one, and those of current validators are those of
/// the primary network, of subnets without permission and of subnets with it.
pub proof fn groups_are_current_or_pending(
    p: Priority,
    q: Priority,
    current: bool,
    pending: bool,
    validator: bool,
    other_pending: bool,
    place: u8,
    other: u8,
)
    requires
        call_ensures(Priority::is_current, (&p,), current),
        call_ensures(Priority::is_pending, (&p,), pending),
        call_ensures(Priority::is_current_validator, (&p,), validator),
        call_ensures(Priority::is_pending, (&q,), other_pending),
        call_ensures(Priority::to_u8, (&p,), place),
        call_ensures(Priority::to_u8, (&q,), other),
    ensures
        current != pending,
        current && other_pending ==> other < place,
        validator <==> (p is PrimaryNetworkValidatorCurrent
            || p is SubnetPermissionlessValidatorCurrent
            || p is SubnetPermissionedValidatorCurrent),
        current <==> (validator || p is PrimaryNetworkDelegatorCurrent
            || p is SubnetPermissionlessDelegatorCurrent),
        1 <= place <= 11,
{
}

/// A staker is equal to itself, and two that are equal agree in every field but
/// the longer form of their keys.
pub proof fn equal_stakers_agree(a: Staker, b: Staker, ab: bool, aa: bool)
    requires
        call_ensures(Staker::equals, (&a, &b), ab),
        call_ensures(Staker::equals, (&a, &a), aa),
    ensures
        aa,
        ab ==> a.tx_id == b.tx_id && a.node_id == b.node_id && a.subnet_id == b.subnet_id
            && a.weight == b.weight && a.start_time == b.start_time && a.end_time == b.end_time
            && a.potential_reward == b.potential_reward && a.next_time == b.next_time
            && a.priority == b.priority,
        ab ==> (a.public_key is Some <==> b.public_key is Some),
        ab && a.public_key is Some ==> a.public_key->0.compressed@
            == b.public_key->0.compressed@,
        a == b ==> ab,
{
}

/// An L1 validator is active where it has weight and something left to pay
/// with. One without weight is deleted, and so not active.
pub proof fn l1_validators_need_weight_and_balance(
    v: L1Validator,
    active: bool,
    deleted: bool,
)
    requires
        call_ensures(L1Validator::is_active, (&v,), active),
        call_ensures(L1Validator::is_deleted, (&v,), deleted),
    ensures
        deleted ==> !active,
        deleted <==> v.weight == 0,
        v.end_accumulated_fee == 0 ==> !active,
        !deleted && !active ==> v.end_accumulated_fee == 0,
{
}

/// Whoever pays out earlier is charged earlier; where two pay out together, the
/// one with the smaller id is. Nobody is charged before themselves.
pub proof fn l1_validators_are_charged_in_order(
    a: L1Validator,
    b: L1Validator,
    r: Ordering,
    s: Ordering,
)
    requires
        call_ensures(L1Validator::compare, (&a, &b), r),
        call_ensures(L1Validator::compare, (&b, &a), s),
    ensures
        a.end_accumulated_fee < b.end_accumulated_fee ==> r == Ordering::Less,
        a.end_accumulated_fee == b.end_accumulated_fee && lex_lt(
            a.validation_id@,
            b.validation_id@,
        ) ==> r == Ordering::Less,
        r == Ordering::Less ==> s == Ordering::Greater,
        r == Ordering::Greater ==> s == Ordering::Less,
        r == Ordering::Equal <==> a.end_accumulated_fee == b.end_accumulated_fee
            && a.validation_id@ == b.validation_id@,
{
    crate::state::l1_validator::l1_order_is_total(a@, b@, a@);
}

/// A new state of an L1 validator may change its weight, its nonce and what it
/// has left, and nothing else. A validator under another id is another one.
pub proof fn only_some_of_an_l1_validator_changes(v: L1Validator, w: L1Validator, kept: bool)
    requires
        call_ensures(L1Validator::immutable_fields_are_unmodified, (&v, &w), kept),
    ensures
        v@.validation_id != w@.validation_id ==> kept,
        v@.validation_id == w@.validation_id && w@ == (crate::state::l1_validator::L1View {
            weight: w.weight,
            min_nonce: w.min_nonce,
            end_accumulated_fee: w.end_accumulated_fee,
            ..v@
        }) ==> kept,
        v@.validation_id == w@.validation_id && kept ==> w@ == (
        crate::state::l1_validator::L1View {
            weight: w.weight,
            min_nonce: w.min_nonce,
            end_accumulated_fee: w.end_accumulated_fee,
            ..v@
        }),
{
}

/// The weight that a renewed validator counts with is what it staked and all
/// that it has restaked since.
pub proof fn restaked_rewards_count(m: ValidatorMetadata, weight: u64, r: Option<u64>)
    requires
        call_ensures(ValidatorMetadata::effective_weight, (&m, weight), r),
    ensures
        r matches Some(w) ==> w - weight == m.accrued_validation_rewards
            + m.accrued_delegatee_rewards,
        r is None ==> weight + m.accrued_validation_rewards + m.accrued_delegatee_rewards
            > u64::MAX,
        m.accrued_validation_rewards == 0 && m.accrued_delegatee_rewards == 0 ==> r == Some(
            weight,
        ),
{
}

/// What is read of metadata is what was written of it: all of it under the last
/// version, nothing of renewals under the one before, and neither that nor the
/// start of the cycle under the first. The record's key is not read.
pub proof fn metadata_is_kept(
    m: ValidatorMetadata,
    version: u16,
    written: core::result::Result<Vec<u8>, CodecError>,
    bytes: &[u8],
    read: core::result::Result<ValidatorMetadata, CodecError>,
)
    requires
        call_ensures(ValidatorMetadata::marshal, (&m, version), written),
        written is Ok,
        bytes@ == written->Ok_0@,
        call_ensures(parse_validator_metadata, (bytes,), read),
    ensures
        version <= 2,
        read is Ok,
        read->Ok_0.up_duration == m.up_duration,
        read->Ok_0.last_updated == m.last_updated,
        read->Ok_0.potential_reward == m.potential_reward,
        read->Ok_0.potential_delegatee_reward == m.potential_delegatee_reward,
        read->Ok_0.staker_start_time == if version >= 1 {
            m.staker_start_time
        } else {
            0
        },
        version == 2 ==> read->Ok_0@ == m@,
        version < 2 ==> read->Ok_0.accrued_validation_rewards == 0
            && read->Ok_0.accrued_delegatee_rewards == 0
            && read->Ok_0.auto_compound_reward_shares == 0 && read->Ok_0.next_period == 0
            && read->Ok_0.staker_end_time == 0,
        read->Ok_0.tx_id@ == empty_id(),
{
    crate::state::metadata_validator::metadata_round_trip(m@, version as nat);
}

/// Records from before there were versions hold a reward alone, those from
/// before delegatee rewards three numbers, and an empty one nothing at all.
pub proof fn old_metadata_is_read(
    bytes: &[u8],
    read: core::result::Result<ValidatorMetadata, CodecError>,
)
    requires
        call_ensures(parse_validator_metadata, (bytes,), read),
        bytes@.len() == 0 || bytes@.len() == 8 || bytes@.len() == 26 && be_value(bytes@.take(2))
            <= 2,
    ensures
        read is Ok,
        bytes@.len() == 0 ==> read->Ok_0.potential_reward == 0,
        bytes@.len() == 8 ==> read->Ok_0.potential_reward as nat == be_value(bytes@),
        bytes@.len() <= 8 ==> read->Ok_0.up_duration == 0 && read->Ok_0.last_updated == 0,
        bytes@.len() == 26 ==> read->Ok_0.up_duration as nat == be_value(bytes@.subrange(2, 10))
            && read->Ok_0.last_updated as nat == be_value(bytes@.subrange(10, 18))
            && read->Ok_0.potential_reward as nat == be_value(bytes@.subrange(18, 26)),
        read->Ok_0.potential_delegatee_reward == 0 && read->Ok_0.staker_start_time == 0
            && read->Ok_0.accrued_validation_rewards == 0
            && read->Ok_0.accrued_delegatee_rewards == 0
            && read->Ok_0.auto_compound_reward_shares == 0 && read->Ok_0.next_period == 0
            && read->Ok_0.staker_end_time == 0,
{
    crate::codec::lemma_pow256();
    if bytes@.len() == 8 {
        crate::codec::lemma_be_value_bound(bytes@);
    }
    if bytes@.len() == 26 {
        crate::codec::lemma_be_value_bound(bytes@.subrange(2, 10));
        crate::codec::lemma_be_value_bound(bytes@.subrange(10, 18));
        crate::codec::lemma_be_value_bound(bytes@.subrange(18, 26));
    }
}

/// Owners that are well formed can be met: as many must sign as the threshold
/// says, no more than there are, and at least one where there is any. No
/// address is there twice. Owners of which one of these fails are refused.
pub proof fn owners_can_sign(o: OutputOwners, r: Result<()>)
    requires
        call_ensures(OutputOwners::verify, (&o,), r),
    ensures
        r is Ok ==> o.threshold <= o@.addrs.len(),
        r is Ok && o@.addrs.len() > 0 ==> o.threshold > 0,
        r is Ok ==> o@.addrs.no_duplicates(),
        o.threshold > o@.addrs.len() ==> r is Err,
        o.threshold == 0 && o@.addrs.len() > 0 ==> r is Err,
        o@.addrs.len() == 1 && o.threshold == 1 ==> r is Ok,
        o@.addrs.len() == 2 && 1 <= o.threshold <= 2 && lex_lt(o@.addrs[0], o@.addrs[1])
            ==> r is Ok,
        o@.addrs.len() == 2 && lex_lt(o@.addrs[1], o@.addrs[0]) ==> r is Err,
        r matches Err(e) ==> e == Error::InvalidComponent,
{
    let s = o@.addrs;
    assert(r is Ok ==> s.no_duplicates()) by {
        if r is Ok {
            assert forall|i: int, j: int|
                0 <= i < s.len() && 0 <= j < s.len() && i != j implies s[i] != s[j] by {
                if i < j {
                    assert(lex_lt(s[i], s[j]));
                    crate::order::lemma_lex_antisymmetric(s[i], s[j]);
                } else {
                    assert(lex_lt(s[j], s[i]));
                    crate::order::lemma_lex_antisymmetric(s[j], s[i]);
                }
            }
        }
    }
    if s.len() == 2 && lex_lt(s[1], s[0]) && lex_lt(s[0], s[1]) {
        crate::order::lemma_lex_antisymmetric(s[0], s[1]);
    }
}

/// An output holds something, and what it holds is owned; an input spends
/// something, and no signer signs twice.
pub proof fn transfers_move_something(
    out: TransferOutput,
    r: Result<()>,
    owned: Result<()>,
    input: TransferInput,
    s: Result<()>,
)
    requires
        call_ensures(TransferOutput::verify, (&out,), r),
        call_ensures(OutputOwners::verify, (&out.owners,), owned),
        call_ensures(TransferInput::verify, (&input,), s),
    ensures
        r is Ok <==> out.amt > 0 && owned is Ok,
        s is Ok ==> input.amt > 0 && input@.sig_indices.no_duplicates(),
        input.amt == 0 ==> s is Err,
        input.amt > 0 && input@.sig_indices.len() <= 1 ==> s is Ok,
        forall|i: int|
            0 < i < input@.sig_indices.len() && input@.sig_indices[i - 1]
                >= #[trigger] input@.sig_indices[i] ==> s is Err,
{
}

/// A lock holds the amount of what is under it, has a time, and no lock is
/// under it. It is well formed where, beside that, what is under it is.
pub proof fn locked_outputs_are_outputs(
    locktime: u64,
    under: Output,
    lock: LockOut,
    r: Result<()>,
    inner: Result<()>,
    amount: u64,
    inner_amount: u64,
)
    requires
        call_ensures(LockOut::new, (locktime, under), lock),
        call_ensures(LockOut::verify, (&lock,), r),
        call_ensures(Output::verify, (&under,), inner),
        call_ensures(LockOut::amount, (&lock,), amount),
        call_ensures(Output::amount, (&under,), inner_amount),
    ensures
        amount == inner_amount,
        r is Ok <==> locktime != 0 && under is Transfer && inner is Ok,
        locktime == 0 ==> r == Err::<(), Error>(Error::InvalidLocktime),
        locktime != 0 && under is StakeableLock ==> r == Err::<(), Error>(
            Error::NestedStakeableLock,
        ),
        locktime != 0 && under is Transfer && inner is Err ==> r is Err && r->Err_0
            == inner->Err_0,
        under matches Output::Transfer(t) ==> inner_amount == t.amt,
{
    reveal_with_fuel(crate::txs::components::output_view, 3);
}

/// The same of the inputs that spend what is locked.
pub proof fn locked_inputs_are_inputs(
    locktime: u64,
    under: Input,
    lock: LockIn,
    r: Result<()>,
    inner: Result<()>,
    amount: u64,
    inner_amount: u64,
)
    requires
        call_ensures(LockIn::new, (locktime, under), lock),
        call_ensures(LockIn::verify, (&lock,), r),
        call_ensures(Input::verify, (&under,), inner),
        call_ensures(LockIn::amount, (&lock,), amount),
        call_ensures(Input::amount, (&under,), inner_amount),
    ensures
        amount == inner_amount,
        r is Ok <==> locktime != 0 && under is Transfer && inner is Ok,
        locktime == 0 ==> r == Err::<(), Error>(Error::InvalidLocktime),
        locktime != 0 && under is StakeableLock ==> r == Err::<(), Error>(
            Error::NestedStakeableLock,
        ),
        locktime != 0 && under is Transfer && inner is Err ==> r is Err && r->Err_0
            == inner->Err_0,
        under matches Input::Transfer(t) ==> inner_amount == t.amt,
{
    reveal_with_fuel(crate::txs::components::input_view, 3);
}

/// Whoever owns what is under a lock owns the lock, and an output is owned by
/// the addresses of its owners, in their order.
pub proof fn locks_do_not_change_owners(
    lock: LockOut,
    locked: Output,
    under: &Vec<ShortId>,
    whole: &Vec<ShortId>,
)
    requires
        locked == Output::StakeableLock(lock),
        call_ensures(output_addresses, (&*lock.transferable_out,), under),
        call_ensures(output_addresses, (&locked,), whole),
    ensures
        under@.map_values(|a: ShortId| a@) == whole@.map_values(|a: ShortId| a@),
        *lock.transferable_out matches Output::Transfer(t) ==> under@.map_values(|a: ShortId| a@)
            == t.owners@.addrs,
{
    reveal_with_fuel(crate::txs::components::output_view, 3);
    reveal_with_fuel(crate::utxo::addresses_of, 3);
}

/// What assents may be spent, and nothing else.
pub proof fn owners_assent_to_spending(assent: bool, r: Result<()>)
    requires
        call_ensures(verify_transfer, (assent,), r),
    ensures
        assent ==> r is Ok,
        !assent ==> r is Err,
{
}

/// A status is told from its name, and the name from the status.
pub proof fn statuses_have_names(s: Status, name: &str, read: Option<Status>)
    requires
        call_ensures(Status::as_str, (s,), name),
        call_ensures(Status::from_name, (name,), read),
    ensures
        read == Some(s),
{
    crate::status::statuses_are_told_apart(s, read->0);
    assert(s.name() == name@);
}

} // verus!
