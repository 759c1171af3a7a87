//! Identifiers: 32-byte ids, and the 20-byte ids of nodes and addresses.
use vstd::prelude::*;

use crate::collections::ordmap::{Dup, Key};
use crate::order::{bytes_eq, bytes_lt};

verus! {

/// A 32-byte identifier of a block, transaction, subnet, chain or output.
#[derive(Clone, Copy, Debug, Default)]
pub struct Id {
    /// The identifier's bytes.
    pub bytes: [u8; 32],
}

/// The 20-byte identifier of a node.
#[derive(Clone, Copy, Debug, Default)]
pub struct NodeId {
    /// The identifier's bytes.
    pub bytes: [u8; 20],
}

/// A 20-byte address.
#[derive(Clone, Copy, Debug, Default, PartialEq, Eq)]
pub struct ShortId {
    /// The address's bytes.
    pub bytes: [u8; 20],
}

/// The bytes of the empty [`Id`].
pub open spec fn empty_id() -> Seq<u8> {
    Seq::new(32, |i: int| 0u8)
}

impl View for Id {
    type V = Seq<u8>;

    open spec fn view(&self) -> Seq<u8> {
        self.bytes@
    }
}

impl View for NodeId {
    type V = Seq<u8>;

    open spec fn view(&self) -> Seq<u8> {
        self.bytes@
    }
}

impl View for ShortId {
    type V = Seq<u8>;

    open spec fn view(&self) -> Seq<u8> {
        self.bytes@
    }
}

/// An id is its bytes.
pub broadcast proof fn lemma_id_bytes(a: Id, b: Id)
    ensures
        #![trigger a@, b@]
        a@ == b@ <==> a == b,
{
    if a@ == b@ {
        assert(a.bytes =~= b.bytes);
    }
}

/// A node id is its bytes.
pub broadcast proof fn lemma_node_id_bytes(a: NodeId, b: NodeId)
    ensures
        #![trigger a@, b@]
        a@ == b@ <==> a == b,
{
    if a@ == b@ {
        assert(a.bytes =~= b.bytes);
    }
}

impl Id {
    /// The id of 32 zero bytes, which also names the primary network.
    pub fn empty() -> (r: Id)
        ensures
            r@ == empty_id(),
    {
        let bytes: [u8; 32] = [
            0, 0, 0, 0, 0, 0, 0, 0, 0, 0, 0, 0, 0, 0, 0, 0,
            0, 0, 0, 0, 0, 0, 0, 0, 0, 0, 0, 0, 0, 0, 0, 0,
        ];
        assert(bytes@ =~= empty_id());
        let r = Id { bytes };
        r
    }

    /// The id's bytes.
    pub fn as_bytes(&self) -> (r: &[u8])
        ensures
            r@ == self@,
    {
        self.bytes.as_slice()
    }

    /// Whether this is the empty id.
    pub fn is_empty(&self) -> (r: bool)
        ensures
            r == (self@ == empty_id()),
    {
        let e = Id::empty();
        self.same(&e)
    }

    /// The id held by `bytes`, if there are exactly 32 of them.
    pub fn from_slice(bytes: &[u8]) -> (r: Option<Id>)
        ensures
            r is Some <==> bytes@.len() == 32,
            r matches Some(id) ==> id@ == bytes@,
    {
        if bytes.len() != 32 {
            return None;
        }
        let mut out: [u8; 32] = [0u8; 32];
        let mut i: usize = 0;
        while i < 32
            invariant
                i <= 32,
                bytes@.len() == 32,
                forall|j: int| 0 <= j < i ==> out@[j] == bytes@[j],
            decreases 32 - i,
        {
            out[i] = bytes[i];
            i += 1;
        }
        assert(out@ =~= bytes@);
        Some(Id { bytes: out })
    }
}

impl NodeId {
    /// The node id of 20 zero bytes.
    pub fn empty() -> (r: NodeId)
        ensures
            r@ == Seq::new(20, |i: int| 0u8),
    {
        let r = NodeId { bytes: [0u8; 20] };
        assert(r@ =~= Seq::new(20, |i: int| 0u8));
        r
    }

    /// The id's bytes.
    pub fn as_bytes(&self) -> (r: &[u8])
        ensures
            r@ == self@,
    {
        self.bytes.as_slice()
    }

    /// The node id held by `bytes`, if there are exactly 20 of them.
    pub fn from_slice(bytes: &[u8]) -> (r: Option<NodeId>)
        ensures
            r is Some <==> bytes@.len() == 20,
            r matches Some(id) ==> id@ == bytes@,
    {
        if bytes.len() != 20 {
            return None;
        }
        let mut out: [u8; 20] = [0u8; 20];
        let mut i: usize = 0;
        while i < 20
            invariant
                i <= 20,
                bytes@.len() == 20,
                forall|j: int| 0 <= j < i ==> out@[j] == bytes@[j],
            decreases 20 - i,
        {
            out[i] = bytes[i];
            i += 1;
        }
        assert(out@ =~= bytes@);
        Some(NodeId { bytes: out })
    }
}

impl From<[u8; 32]> for Id {
    fn from(bytes: [u8; 32]) -> (r: Id) {
        Id { bytes }
    }
}

impl vstd::std_specs::convert::FromSpecImpl<[u8; 32]> for Id {
    open spec fn obeys_from_spec() -> bool {
        true
    }

    open spec fn from_spec(bytes: [u8; 32]) -> Id {
        Id { bytes }
    }
}

impl From<[u8; 20]> for NodeId {
    fn from(bytes: [u8; 20]) -> (r: NodeId) {
        NodeId { bytes }
    }
}

impl vstd::std_specs::convert::FromSpecImpl<[u8; 20]> for NodeId {
    open spec fn obeys_from_spec() -> bool {
        true
    }

    open spec fn from_spec(bytes: [u8; 20]) -> NodeId {
        NodeId { bytes }
    }
}

impl From<[u8; 20]> for ShortId {
    fn from(bytes: [u8; 20]) -> (r: ShortId) {
        ShortId { bytes }
    }
}

impl vstd::std_specs::convert::FromSpecImpl<[u8; 20]> for ShortId {
    open spec fn obeys_from_spec() -> bool {
        true
    }

    open spec fn from_spec(bytes: [u8; 20]) -> ShortId {
        ShortId { bytes }
    }
}

impl PartialEq for Id {
    fn eq(&self, other: &Id) -> (r: bool) {
        let r = bytes_eq(self.bytes.as_slice(), other.bytes.as_slice());
        proof {
            lemma_id_bytes(*self, *other);
        }
        r
    }
}

impl vstd::std_specs::cmp::PartialEqSpecImpl for Id {
    open spec fn obeys_eq_spec() -> bool {
        true
    }

    open spec fn eq_spec(&self, other: &Id) -> bool {
        self@ == other@
    }
}

impl Eq for Id {

}

impl PartialEq for NodeId {
    fn eq(&self, other: &NodeId) -> (r: bool) {
        bytes_eq(self.bytes.as_slice(), other.bytes.as_slice())
    }
}

impl vstd::std_specs::cmp::PartialEqSpecImpl for NodeId {
    open spec fn obeys_eq_spec() -> bool {
        true
    }

    open spec fn eq_spec(&self, other: &NodeId) -> bool {
        self@ == other@
    }
}

impl Eq for NodeId {

}

impl Key for Id {
    open spec fn rank(&self) -> Seq<u8> {
        self@
    }

    fn precedes(&self, other: &Id) -> (r: bool) {
        bytes_lt(self.bytes.as_slice(), other.bytes.as_slice())
    }

    fn same(&self, other: &Id) -> (r: bool) {
        bytes_eq(self.bytes.as_slice(), other.bytes.as_slice())
    }

    fn copied(&self) -> (r: Id) {
        *self
    }
}

impl Key for NodeId {
    open spec fn rank(&self) -> Seq<u8> {
        self@
    }

    fn precedes(&self, other: &NodeId) -> (r: bool) {
        bytes_lt(self.bytes.as_slice(), other.bytes.as_slice())
    }

    fn same(&self, other: &NodeId) -> (r: bool) {
        bytes_eq(self.bytes.as_slice(), other.bytes.as_slice())
    }

    fn copied(&self) -> (r: NodeId) {
        *self
    }
}

impl Key for ShortId {
    open spec fn rank(&self) -> Seq<u8> {
        self@
    }

    fn precedes(&self, other: &ShortId) -> (r: bool) {
        bytes_lt(self.bytes.as_slice(), other.bytes.as_slice())
    }

    fn same(&self, other: &ShortId) -> (r: bool) {
        bytes_eq(self.bytes.as_slice(), other.bytes.as_slice())
    }

    fn copied(&self) -> (r: ShortId) {
        *self
    }
}

impl Dup for NodeId {
    fn dup(&self) -> (r: NodeId) {
        *self
    }
}

impl Dup for ShortId {
    fn dup(&self) -> (r: ShortId) {
        *self
    }
}

impl Dup for Id {
    fn dup(&self) -> (r: Id) {
        *self
    }
}

} // verus!
