//! Stakers: the validators and delegators of the current and pending sets.
use vstd::prelude::*;

use crate::codec::{be, lemma_be_len, lemma_be_ordered, lemma_pow256, push_u64};
use crate::collections::ordmap::{Dup, Key};
use crate::crypto::PublicKey;
use crate::ids::{lemma_id_bytes, Id, NodeId};
use crate::order::{bytes_eq, bytes_lt, lemma_lex_antisymmetric, lemma_lex_leading_block, lemma_lex_shared_prefix, lemma_lex_total, lemma_lex_transitive, lex_lt, splits_at};

verus! {

/// The group that a staker belongs to. Stakers that move at the same time
/// move in the order of their groups.
#[derive(Clone, Copy, Debug, PartialEq, Eq, Structural)]
pub enum Priority {
    /// A pending delegator of the primary network, from before Banff.
    PrimaryNetworkDelegatorApricotPending,
    /// A pending validator of the primary network.
    PrimaryNetworkValidatorPending,
    /// A pending delegator of the primary network.
    PrimaryNetworkDelegatorBanffPending,
    /// A pending permissionless validator of a subnet.
    SubnetPermissionlessValidatorPending,
    /// A pending permissionless delegator of a subnet.
    SubnetPermissionlessDelegatorPending,
    /// A pending permissioned validator of a subnet.
    SubnetPermissionedValidatorPending,
    /// A current permissioned validator of a subnet.
    SubnetPermissionedValidatorCurrent,
    /// A current permissionless delegator of a subnet.
    SubnetPermissionlessDelegatorCurrent,
    /// A current permissionless validator of a subnet.
    SubnetPermissionlessValidatorCurrent,
    /// A current delegator of the primary network.
    PrimaryNetworkDelegatorCurrent,
    /// A current validator of the primary network.
    PrimaryNetworkValidatorCurrent,
}

impl Priority {
    /// The group's place in the order, from 1.
    pub open spec fn ordinal(&self) -> u8 {
        match self {
            Priority::PrimaryNetworkDelegatorApricotPending => 1,
            Priority::PrimaryNetworkValidatorPending => 2,
            Priority::PrimaryNetworkDelegatorBanffPending => 3,
            Priority::SubnetPermissionlessValidatorPending => 4,
            Priority::SubnetPermissionlessDelegatorPending => 5,
            Priority::SubnetPermissionedValidatorPending => 6,
            Priority::SubnetPermissionedValidatorCurrent => 7,
            Priority::SubnetPermissionlessDelegatorCurrent => 8,
            Priority::SubnetPermissionlessValidatorCurrent => 9,
            Priority::PrimaryNetworkDelegatorCurrent => 10,
            Priority::PrimaryNetworkValidatorCurrent => 11,
        }
    }

    /// Whether the group belongs to the current set.
    pub open spec fn current(&self) -> bool {
        self.ordinal() >= 7
    }

    /// Whether the group is one of validators in the current set.
    pub open spec fn current_validator(&self) -> bool {
        self.ordinal() == 7 || self.ordinal() == 9 || self.ordinal() == 11
    }

    /// The group's place in the order, from 1.
    pub fn to_u8(&self) -> (r: u8)
        ensures
            r == self.ordinal(),
    {
        match self {
            Priority::PrimaryNetworkDelegatorApricotPending => 1,
            Priority::PrimaryNetworkValidatorPending => 2,
            Priority::PrimaryNetworkDelegatorBanffPending => 3,
            Priority::SubnetPermissionlessValidatorPending => 4,
            Priority::SubnetPermissionlessDelegatorPending => 5,
            Priority::SubnetPermissionedValidatorPending => 6,
            Priority::SubnetPermissionedValidatorCurrent => 7,
            Priority::SubnetPermissionlessDelegatorCurrent => 8,
            Priority::SubnetPermissionlessValidatorCurrent => 9,
            Priority::PrimaryNetworkDelegatorCurrent => 10,
            Priority::PrimaryNetworkValidatorCurrent => 11,
        }
    }

    /// Whether the group belongs to the current set.
    pub fn is_current(&self) -> (r: bool)
        ensures
            r == self.current(),
    {
        self.to_u8() >= 7
    }

    /// Whether the group belongs to the pending set.
    pub fn is_pending(&self) -> (r: bool)
        ensures
            r == !self.current(),
    {
        self.to_u8() < 7
    }

    /// Whether the group is one of validators in the current set.
    pub fn is_current_validator(&self) -> (r: bool)
        ensures
            r == self.current_validator(),
    {
        matches!(
            self,
            Priority::SubnetPermissionedValidatorCurrent
            | Priority::SubnetPermissionlessValidatorCurrent
            | Priority::PrimaryNetworkValidatorCurrent
        )
    }
}

/// A validator or delegator in the current or the pending set. Times are in
/// whole Unix seconds.
#[derive(Clone, Copy, Debug)]
pub struct Staker {
    /// The transaction that made the staker.
    pub tx_id: Id,
    /// The validating node.
    pub node_id: NodeId,
    /// The node's BLS key, where it has one.
    pub public_key: Option<PublicKey>,
    /// The subnet that is validated.
    pub subnet_id: Id,
    /// The staker's weight.
    pub weight: u64,
    /// When the staker begins.
    pub start_time: u64,
    /// When the staker ends.
    pub end_time: u64,
    /// The reward due at the end.
    pub potential_reward: u64,
    /// When the staker next moves between the sets.
    pub next_time: u64,
    /// The group that the staker belongs to.
    pub priority: Priority,
}

impl View for Staker {
    type V = Staker;

    open spec fn view(&self) -> Staker {
        *self
    }
}

impl Dup for Staker {
    fn dup(&self) -> (r: Staker) {
        *self
    }
}

/// What stakers are ordered by: the time of the next move, then the group,
/// then the transaction.
pub open spec fn order_key(s: Staker) -> Seq<u8> {
    be(s.next_time as nat, 8) + seq![s.priority.ordinal()] + s.tx_id@
}

/// Whether `a` comes before `b`: it moves earlier, or at the same time in an
/// earlier group, or in the same group with a smaller transaction id.
pub open spec fn staker_before(a: Staker, b: Staker) -> bool {
    ||| a.next_time < b.next_time
    ||| a.next_time == b.next_time && a.priority.ordinal() < b.priority.ordinal()
    ||| a.next_time == b.next_time && a.priority == b.priority && lex_lt(a.tx_id@, b.tx_id@)
}

/// Whether `a` and `b` are in the same place of the order.
pub open spec fn staker_same_place(a: Staker, b: Staker) -> bool {
    a.next_time == b.next_time && a.priority == b.priority && a.tx_id@ == b.tx_id@
}

proof fn lemma_order_key_head(a: Staker, b: Staker)
    ensures
        a.next_time == b.next_time && a.priority.ordinal() == b.priority.ordinal() ==> a.priority
            == b.priority,
        order_key(a).len() == 41,
{
    lemma_be_len(a.next_time as nat, 8);
}

/// The order of the keys is the order of the stakers.
pub proof fn lemma_order_key(a: Staker, b: Staker)
    ensures
        lex_lt(order_key(a), order_key(b)) <==> staker_before(a, b),
        order_key(a) == order_key(b) <==> staker_same_place(a, b),
{
    if staker_before(a, b) {
        lemma_staker_before_key(a, b);
    }
    if staker_before(b, a) {
        lemma_staker_before_key(b, a);
    }
    lemma_order_key_head(a, b);
    lemma_order_key_head(b, a);
    if lex_lt(order_key(a), order_key(b)) {
        lemma_lex_antisymmetric(order_key(a), order_key(b));
    }
    if lex_lt(order_key(b), order_key(a)) {
        lemma_lex_antisymmetric(order_key(b), order_key(a));
    }
    lemma_lex_total(a.tx_id@, b.tx_id@);
    if !staker_before(a, b) && !staker_before(b, a) {
        assert(a.priority.ordinal() == b.priority.ordinal());
        assert(order_key(a) == order_key(b));
    }
    if lex_lt(a.tx_id@, b.tx_id@) {
        lemma_lex_antisymmetric(a.tx_id@, b.tx_id@);
    }
    if lex_lt(b.tx_id@, a.tx_id@) {
        lemma_lex_antisymmetric(b.tx_id@, a.tx_id@);
    }
}

proof fn lemma_staker_before_key(a: Staker, b: Staker)
    requires
        staker_before(a, b),
    ensures
        lex_lt(order_key(a), order_key(b)),
{
    let ta = be(a.next_time as nat, 8);
    let tb = be(b.next_time as nat, 8);
    lemma_be_len(a.next_time as nat, 8);
    lemma_be_len(b.next_time as nat, 8);
    lemma_pow256();
    let pa = seq![a.priority.ordinal()];
    let pb = seq![b.priority.ordinal()];
    assert(order_key(a) =~= ta + (pa + a.tx_id@));
    assert(order_key(b) =~= tb + (pb + b.tx_id@));
    if a.next_time < b.next_time {
        lemma_be_ordered(a.next_time as nat, b.next_time as nat, 8);
        lemma_lex_leading_block(ta, tb, pa + a.tx_id@, pb + b.tx_id@);
    } else if a.priority.ordinal() < b.priority.ordinal() {
        assert(splits_at(pa, pb, 0));
        lemma_lex_leading_block(pa, pb, a.tx_id@, b.tx_id@);
        lemma_lex_shared_prefix(ta, pa + a.tx_id@, pb + b.tx_id@);
    } else {
        lemma_lex_shared_prefix(pa, a.tx_id@, b.tx_id@);
        lemma_lex_shared_prefix(ta, pa + a.tx_id@, pb + b.tx_id@);
    }
}

/// The order of stakers is total: no staker comes before itself, the order is
/// transitive, and any two stakers are ordered or in the same place.
pub proof fn staker_order_is_total(a: Staker, b: Staker, c: Staker)
    ensures
        !staker_before(a, a),
        staker_before(a, b) ==> !staker_before(b, a),
        staker_before(a, b) && staker_before(b, c) ==> staker_before(a, c),
        staker_before(a, b) || staker_before(b, a) || staker_same_place(a, b),
{
    lemma_order_key(a, a);
    lemma_order_key(a, b);
    lemma_order_key(b, a);
    lemma_order_key(b, c);
    lemma_order_key(a, c);
    lemma_lex_total(order_key(a), order_key(b));
    if lex_lt(order_key(a), order_key(a)) {
        lemma_lex_antisymmetric(order_key(a), order_key(a));
    }
    if staker_before(a, b) {
        lemma_lex_antisymmetric(order_key(a), order_key(b));
        if staker_before(b, c) {
            lemma_lex_transitive(order_key(a), order_key(b), order_key(c));
        }
    }
}

impl Staker {
    /// A staker of the current set: it next moves at its end.
    pub fn new_current(
        tx_id: Id,
        node_id: NodeId,
        public_key: Option<PublicKey>,
        subnet_id: Id,
        weight: u64,
        start_time: u64,
        end_time: u64,
        potential_reward: u64,
        priority: Priority,
    ) -> (r: Staker)
        ensures
            r == (Staker {
                tx_id,
                node_id,
                public_key,
                subnet_id,
                weight,
                start_time,
                end_time,
                potential_reward,
                next_time: end_time,
                priority,
            }),
    {
        Staker {
            tx_id,
            node_id,
            public_key,
            subnet_id,
            weight,
            start_time,
            end_time,
            potential_reward,
            next_time: end_time,
            priority,
        }
    }

    /// A staker of the pending set: it next moves at its start, and no reward
    /// is due yet.
    pub fn new_pending(
        tx_id: Id,
        node_id: NodeId,
        public_key: Option<PublicKey>,
        subnet_id: Id,
        weight: u64,
        start_time: u64,
        end_time: u64,
        priority: Priority,
    ) -> (r: Staker)
        ensures
            r == (Staker {
                tx_id,
                node_id,
                public_key,
                subnet_id,
                weight,
                start_time,
                end_time,
                potential_reward: 0,
                next_time: start_time,
                priority,
            }),
    {
        Staker {
            tx_id,
            node_id,
            public_key,
            subnet_id,
            weight,
            start_time,
            end_time,
            potential_reward: 0,
            next_time: start_time,
            priority,
        }
    }

    /// Whether the two stakers agree in every field. Keys agree where their
    /// compressed forms do.
    pub fn equals(&self, other: &Staker) -> (r: bool)
        ensures
            r == (same_key(self.public_key, other.public_key) && *self == (Staker {
                public_key: self.public_key,
                ..*other
            })),
    {
        proof {
            lemma_id_bytes(self.tx_id, other.tx_id);
            lemma_id_bytes(self.subnet_id, other.subnet_id);
            crate::ids::lemma_node_id_bytes(self.node_id, other.node_id);
        }
        let equal_keys = match (&self.public_key, &other.public_key) {
            (None, None) => true,
            (Some(a), Some(b)) => bytes_eq(a.compressed.as_slice(), b.compressed.as_slice()),
            _ => false,
        };
        self.tx_id.same(&other.tx_id) && self.node_id.same(&other.node_id) && equal_keys
            && self.subnet_id.same(&other.subnet_id) && self.weight == other.weight
            && self.start_time == other.start_time && self.end_time == other.end_time
            && self.potential_reward == other.potential_reward && self.next_time == other.next_time
            && self.priority == other.priority
    }

    /// Whether this staker comes before `other`.
    pub fn before(&self, other: &Staker) -> (r: bool)
        ensures
            r == staker_before(*self, *other),
    {
        proof {
            lemma_order_key_head(*self, *other);
        }
        if self.next_time != other.next_time {
            self.next_time < other.next_time
        } else if self.priority.to_u8() != other.priority.to_u8() {
            self.priority.to_u8() < other.priority.to_u8()
        } else {
            self.tx_id.precedes(&other.tx_id)
        }
    }
}

/// Whether two optional keys agree: both are absent, or their compressed forms
/// are the same.
pub open spec fn same_key(a: Option<PublicKey>, b: Option<PublicKey>) -> bool {
    match (a, b) {
        (None, None) => true,
        (Some(x), Some(y)) => x.compressed@ == y.compressed@,
        _ => false,
    }
}

/// A staker's place in the order, as a key.
#[derive(Clone, Copy, Debug)]
pub struct StakerKey {
    /// When the staker next moves.
    pub next_time: u64,
    /// The staker's group.
    pub priority: Priority,
    /// The transaction that made the staker.
    pub tx_id: Id,
}

impl StakerKey {
    /// The place of `s`.
    pub fn of(s: &Staker) -> (r: StakerKey)
        ensures
            r.rank() == order_key(*s),
    {
        StakerKey { next_time: s.next_time, priority: s.priority, tx_id: s.tx_id }
    }

    fn bytes(&self) -> (r: Vec<u8>)
        ensures
            r@ == self.rank(),
    {
        let mut out: Vec<u8> = Vec::new();
        push_u64(&mut out, self.next_time);
        out.push(self.priority.to_u8());
        out.extend_from_slice(self.tx_id.as_bytes());
        assert(out@ =~= self.rank());
        out
    }
}

impl Key for StakerKey {
    open spec fn rank(&self) -> Seq<u8> {
        be(self.next_time as nat, 8) + seq![self.priority.ordinal()] + self.tx_id@
    }

    fn precedes(&self, other: &StakerKey) -> (r: bool) {
        let a = self.bytes();
        let b = other.bytes();
        bytes_lt(a.as_slice(), b.as_slice())
    }

    fn same(&self, other: &StakerKey) -> (r: bool) {
        let a = self.bytes();
        let b = other.bytes();
        bytes_eq(a.as_slice(), b.as_slice())
    }

    fn copied(&self) -> (r: StakerKey) {
        *self
    }
}

/// The key of a node within a subnet.
pub open spec fn member_key(subnet: Seq<u8>, node: Seq<u8>) -> Seq<u8> {
    subnet + node
}

/// A subnet and a node of it, as a key.
#[derive(Clone, Copy, Debug)]
pub struct MemberKey {
    /// The subnet.
    pub subnet_id: Id,
    /// The node.
    pub node_id: NodeId,
}

impl MemberKey {
    fn bytes(&self) -> (r: Vec<u8>)
        ensures
            r@ == self.rank(),
    {
        let mut out: Vec<u8> = Vec::new();
        out.extend_from_slice(self.subnet_id.as_bytes());
        out.extend_from_slice(self.node_id.as_bytes());
        assert(out@ =~= self.rank());
        out
    }
}

impl Key for MemberKey {
    open spec fn rank(&self) -> Seq<u8> {
        member_key(self.subnet_id@, self.node_id@)
    }

    fn precedes(&self, other: &MemberKey) -> (r: bool) {
        let a = self.bytes();
        let b = other.bytes();
        bytes_lt(a.as_slice(), b.as_slice())
    }

    fn same(&self, other: &MemberKey) -> (r: bool) {
        let a = self.bytes();
        let b = other.bytes();
        bytes_eq(a.as_slice(), b.as_slice())
    }

    fn copied(&self) -> (r: MemberKey) {
        *self
    }
}

/// Different nodes, or nodes of different subnets, have different keys.
pub proof fn lemma_member_key(s1: Seq<u8>, n1: Seq<u8>, s2: Seq<u8>, n2: Seq<u8>)
    requires
        s1.len() == s2.len(),
    ensures
        member_key(s1, n1) == member_key(s2, n2) <==> s1 == s2 && n1 == n2,
{
    if member_key(s1, n1) == member_key(s2, n2) {
        assert(s1 =~= member_key(s1, n1).take(s1.len() as int));
        assert(s2 =~= member_key(s2, n2).take(s2.len() as int));
        assert(n1 =~= member_key(s1, n1).skip(s1.len() as int));
        assert(n2 =~= member_key(s2, n2).skip(s2.len() as int));
    }
}

} // verus!
