//! Asking peers for items, and taking what they give.
use vstd::prelude::*;

use crate::p2p::error::Result;
use crate::p2p::gossip::traits::{GossipSet, Gossipable, Marshaller};
use crate::p2p::handler::AppError;
use crate::p2p::pb::{blobs, de_repeated, request_bytes, PullGossipRequest, PullGossipResponse, PushGossip};

verus! {

/// The request for the items that a filter does not hold.
pub fn pull_request(filter: Vec<u8>, salt: Vec<u8>) -> (r: Vec<u8>)
    ensures
        r@ == request_bytes(salt@, filter@),
{
    let request = PullGossipRequest { salt, filter };
    request.encode_to_vec()
}

/// The items that `s` holds, or none where it is not readable.
pub open spec fn items_in(s: Seq<u8>) -> Seq<Seq<u8>> {
    match de_repeated(s, 1) {
        Some(items) => items,
        None => Seq::empty(),
    }
}

/// The items of a response. A request that failed and a response that is not
/// readable have none.
pub fn response_items(result: core::result::Result<Vec<u8>, AppError>) -> (r: Vec<Vec<u8>>)
    ensures
        blobs(r@) == match result {
            Ok(b) => items_in(b@),
            Err(_) => Seq::empty(),
        },
{
    let none: Vec<Vec<u8>> = Vec::new();
    assert(blobs(none@) =~= Seq::empty());
    match result {
        Ok(b) => match PullGossipResponse::decode(b.as_slice()) {
            Some(m) => m.gossip,
            None => none,
        },
        Err(_) => none,
    }
}

/// The items of gossip. Gossip that is not readable has none.
pub fn gossip_items(msg: &[u8]) -> (r: Vec<Vec<u8>>)
    ensures
        blobs(r@) == items_in(msg@),
{
    let none: Vec<Vec<u8>> = Vec::new();
    assert(blobs(none@) =~= Seq::empty());
    match PushGossip::decode(msg) {
        Some(m) => m.gossip,
        None => none,
    }
}

/// What became of an item that a peer gave.
#[derive(Clone, Copy, Debug, PartialEq, Eq, Structural)]
pub enum Admission {
    /// It is not readable.
    Malformed,
    /// It was not added.
    Refused,
    /// It was added.
    Admitted,
}

/// Whether `a` tells what became of the item that `bytes` hold: it was read,
/// and what was read was added.
pub open spec fn taken_in<T: Gossipable, M: Marshaller<T>, S: GossipSet<T>>(
    marshaller: &M,
    set: &S,
    bytes: &[u8],
    a: Admission,
) -> bool {
    exists|read: Result<T>| #[trigger]
        call_ensures(M::unmarshal, (marshaller, bytes), read) && match read {
            Err(_) => a == Admission::Malformed,
            Ok(item) => exists|added: Result<()>| #[trigger]
                call_ensures(S::add, (set, item), added) && a == if added is Ok {
                    Admission::Admitted
                } else {
                    Admission::Refused
                },
        }
}

/// Adds the item that `bytes` hold to the items that are known.
pub fn take_in<T: Gossipable, M: Marshaller<T>, S: GossipSet<T>>(
    marshaller: &M,
    set: &S,
    bytes: &[u8],
) -> (r: Admission)
    ensures
        taken_in::<T, M, S>(marshaller, set, bytes, r),
{
    match marshaller.unmarshal(bytes) {
        Ok(item) => match set.add(item) {
            Ok(()) => Admission::Admitted,
            Err(_) => Admission::Refused,
        },
        Err(_) => Admission::Malformed,
    }
}

/// Whether `a` tells what became of an item with the bytes given.
pub open spec fn item_taken_in<T: Gossipable, M: Marshaller<T>, S: GossipSet<T>>(
    marshaller: &M,
    set: &S,
    item: Seq<u8>,
    a: Admission,
) -> bool {
    exists|bytes: &[u8]|
        bytes@ == item && #[trigger] taken_in::<T, M, S>(marshaller, set, bytes, a)
}

/// Whether `outcomes` tell what became of each of the items.
pub open spec fn taken_in_all<T: Gossipable, M: Marshaller<T>, S: GossipSet<T>>(
    marshaller: &M,
    set: &S,
    items: Seq<Seq<u8>>,
    outcomes: Seq<Admission>,
) -> bool {
    &&& outcomes.len() == items.len()
    &&& forall|i: int|
        0 <= i < outcomes.len() ==> item_taken_in::<T, M, S>(
            marshaller,
            set,
            items[i],
            #[trigger] outcomes[i],
        )
}

/// Adds the items of a response to those that are known, and tells what became
/// of each. One that is not readable or not added does not keep the others from
/// being added.
pub fn handle_response<T: Gossipable, M: Marshaller<T>, S: GossipSet<T>>(
    marshaller: &M,
    set: &S,
    result: core::result::Result<Vec<u8>, AppError>,
) -> (r: Vec<Admission>)
    ensures
        taken_in_all::<T, M, S>(
            marshaller,
            set,
            match result {
                Ok(b) => items_in(b@),
                Err(_) => Seq::empty(),
            },
            r@,
        ),
{
    let items = response_items(result);
    let n: usize = items.len();
    let ghost all = blobs(items@);
    let mut out: Vec<Admission> = Vec::new();
    let mut i: usize = 0;
    assert(all.len() == n);
    while i < n
        invariant
            i <= n,
            n == items@.len(),
            all == blobs(items@),
            taken_in_all::<T, M, S>(marshaller, set, all.take(i as int), out@),
        decreases n - i,
    {
        let bytes = items[i].as_slice();
        let a = take_in(marshaller, set, bytes);
        let ghost before = out@;
        out.push(a);
        proof {
            let next = all.take(i + 1);
            assert forall|j: int| 0 <= j < out@.len() implies item_taken_in::<T, M, S>(
                marshaller,
                set,
                next[j],
                #[trigger] out@[j],
            ) by {
                if j < i {
                    assert(out@[j] == before[j]);
                    assert(next[j] == all.take(i as int)[j]);
                } else {
                    assert(taken_in::<T, M, S>(marshaller, set, bytes, out@[j]));
                }
            }
        }
        i += 1;
    }
    assert(all.take(n as int) =~= all);
    out
}

} // verus!
