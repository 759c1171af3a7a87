//! Messages between peers: they reach their handler, and requests get one
//! response.
use vstd::prelude::*;

use crate::codec::{be, lemma_be_value_be, lemma_pow256};
use crate::ids::NodeId;
use crate::p2p::client::{Client, Pending};
use crate::p2p::error::{Error, Result};
use crate::p2p::network::{Dispatch, P2pNetwork};
use crate::p2p::varint::varint_round_trip;

verus! {

/// What a client sends reaches the handler that it sends to, which gets exactly
/// what was sent; where that handler is not registered, a request is refused and
/// gossip is dropped.
pub proof fn what_is_sent_is_received<'a>(
    id: u64,
    c: Client,
    bytes: &[u8],
    msg: Vec<u8>,
    n: &P2pNetwork,
    wire: &'a [u8],
    r: Dispatch<'a>,
    g: Option<(u64, &'a [u8])>,
)
    requires
        call_ensures(Client::new, (id,), c),
        call_ensures(Client::frame, (&c, bytes), msg),
        wire@ == msg@,
        call_ensures(P2pNetwork::dispatch_request, (n, wire), r),
        call_ensures(P2pNetwork::dispatch_gossip, (n, wire), g),
    ensures
        n@.handlers.contains_key(be(id as nat, 8)) ==> {
            &&& r matches Dispatch::Handler(h, p) && h == id && p@ == bytes@
            &&& g is Some && (g->0).0 == id && (g->0).1@ == bytes@
        },
        !n@.handlers.contains_key(be(id as nat, 8)) ==> {
            &&& r matches Dispatch::Refused(e) && e.code == -2
            &&& g is None
        },
{
    varint_round_trip(id, bytes@);
}

/// A handler that was registered is there, with the others; an id that is taken
/// is not given again.
pub proof fn handlers_are_registered_once(n: &mut P2pNetwork, id: u64, r: Result<()>, other: u64)
    requires
        call_ensures(P2pNetwork::add_handler, (n, id), r),
    ensures
        final(n)@.handlers.contains_key(be(id as nat, 8)),
        r is Ok <==> !old(n)@.handlers.contains_key(be(id as nat, 8)),
        r is Err ==> r == Err::<(), Error>(Error::DuplicateHandler(id)),
        other != id ==> final(n)@.handlers.contains_key(be(other as nat, 8))
            == old(n)@.handlers.contains_key(be(other as nat, 8)),
        final(n)@.peers == old(n)@.peers,
{
    lemma_pow256();
    lemma_be_value_be(id as nat, 8);
    lemma_be_value_be(other as nat, 8);
}

/// A peer that connects is there until it disconnects; others come and go on
/// their own.
pub proof fn peers_come_and_go(
    a: &mut P2pNetwork,
    b: &mut P2pNetwork,
    node: NodeId,
    other: Seq<u8>,
)
    requires
        call_ensures(P2pNetwork::handle_connected, (a, node), ()),
        call_ensures(P2pNetwork::handle_disconnected, (b, node), ()),
    ensures
        final(a)@.peers.contains_key(node@),
        !final(b)@.peers.contains_key(node@),
        other != node@ ==> final(a)@.peers.contains_key(other) == old(a)@.peers.contains_key(other),
        other != node@ ==> final(b)@.peers.contains_key(other) == old(b)@.peers.contains_key(other),
        final(a)@.handlers == old(a)@.handlers,
        final(b)@.handlers == old(b)@.handlers,
{
}

/// A peer that is sampled is connected, and there is one just where any is
/// connected. Sampling changes no peer.
pub proof fn sampled_peers_are_connected(
    n: &mut P2pNetwork,
    r: Option<NodeId>,
    k: Seq<u8>,
)
    requires
        call_ensures(P2pNetwork::sample_peer, (n,), r),
    ensures
        r matches Some(p) ==> old(n)@.peers.contains_key(p@),
        old(n)@.peers.contains_key(k) ==> r is Some,
        final(n)@.peers == old(n)@.peers,
        final(n)@.handlers == old(n)@.handlers,
{
    let all = old(n).peers_in_order();
    if r is Some {
        let i = (crate::p2p::network::draw(old(n)@.samples) % all.len()) as int;
        assert(all.contains(all[i]));
    }
}

/// A request gets the next id and waits under it. Where one with that id still
/// waits, that one goes on waiting and the new one is refused.
pub proof fn requests_wait_under_their_own_id<C>(
    p: &mut Pending<C>,
    c: C,
    r: Result<u32>,
    other: u32,
)
    requires
        call_ensures(Pending::<C>::begin, (p, c), r),
    ensures
        ({
            let id = old(p)@.next;
            let k = be(id as nat, 8);
            &&& r is Ok <==> !old(p)@.entries.contains_key(k)
            &&& r is Ok ==> r->Ok_0 == id && final(p)@.entries.contains_key(k)
                && final(p)@.entries[k] == c
            &&& r is Err ==> final(p)@.entries == old(p)@.entries && r == Err::<u32, Error>(
                Error::RequestPending(id),
            )
            &&& other != id ==> final(p)@.entries.contains_key(be(other as nat, 8))
                == old(p)@.entries.contains_key(be(other as nat, 8))
            &&& id < u32::MAX ==> final(p)@.next == id + 1
            &&& id == u32::MAX ==> final(p)@.next == 0
        }),
{
    lemma_pow256();
    lemma_be_value_be(old(p)@.next as nat, 8);
    lemma_be_value_be(other as nat, 8);
}

/// A response is handed to what waits for it, which waits no longer; another
/// response to the same request finds nothing. What is abandoned is forgotten,
/// and other requests wait on.
pub proof fn a_response_is_handed_out_once<C>(
    p: &mut Pending<C>,
    q: &mut Pending<C>,
    id: u32,
    r: Option<C>,
    again: Option<C>,
    other: u32,
)
    requires
        call_ensures(Pending::<C>::resolve, (p, id), r),
        *old(q) == *final(p),
        call_ensures(Pending::<C>::resolve, (q, id), again),
    ensures
        ({
            let k = be(id as nat, 8);
            let o = be(other as nat, 8);
            &&& old(p)@.entries.contains_key(k) ==> r == Some(old(p)@.entries[k])
            &&& !old(p)@.entries.contains_key(k) ==> r is None
            &&& again is None
            &&& other != id ==> final(p)@.entries.contains_key(o) == old(p)@.entries.contains_key(
                o,
            ) && (old(p)@.entries.contains_key(o) ==> final(p)@.entries[o] == old(p)@.entries[o])
            &&& final(p)@.next == old(p)@.next
        }),
{
    lemma_pow256();
    lemma_be_value_be(id as nat, 8);
    lemma_be_value_be(other as nat, 8);
}

/// A request that was abandoned waits no longer, and others wait on.
pub proof fn an_abandoned_request_is_forgotten<C>(p: &mut Pending<C>, id: u32, other: u32)
    requires
        call_ensures(Pending::<C>::abandon, (p, id), ()),
    ensures
        !final(p)@.entries.contains_key(be(id as nat, 8)),
        other != id ==> final(p)@.entries.contains_key(be(other as nat, 8))
            == old(p)@.entries.contains_key(be(other as nat, 8)),
        final(p)@.next == old(p)@.next,
{
    lemma_pow256();
    lemma_be_value_be(id as nat, 8);
    lemma_be_value_be(other as nat, 8);
}

} // verus!
