//! The requests that wait for a response.
use vstd::prelude::*;

use crate::codec::be;
use crate::collections::ordmap::{Key, OrdMap};
use crate::p2p::error::{Error, Result};
use crate::p2p::network::protocol_prefix;
use crate::p2p::varint::varint;

verus! {

/// What waits for a response.
pub struct Waiting<C> {
    /// What is called with the response.
    pub on_response: C,
}

impl<C> View for Waiting<C> {
    type V = C;

    open spec fn view(&self) -> C {
        self.on_response
    }
}

/// `msg` behind `prefix`.
pub fn prefix_message(prefix: &[u8], msg: &[u8]) -> (r: Vec<u8>)
    ensures
        r@ == prefix@ + msg@,
{
    let mut out: Vec<u8> = Vec::new();
    out.extend_from_slice(prefix);
    out.extend_from_slice(msg);
    assert(out@ =~= prefix@ + msg@);
    out
}

/// The requests that wait for a response, each under an id of its own.
pub struct Pending<C> {
    next: u32,
    entries: OrdMap<u64, Waiting<C>>,
}

/// What a [`Pending`] holds.
#[verifier::ext_equal]
pub struct PendingView<C> {
    /// The id of the next request.
    pub next: u32,
    /// What waits for a response, by the bytes of its id.
    pub entries: Map<Seq<u8>, C>,
}

impl<C> View for Pending<C> {
    type V = PendingView<C>;

    closed spec fn view(&self) -> PendingView<C> {
        PendingView { next: self.next, entries: self.entries@ }
    }
}

/// The bytes that stand for a request id.
pub open spec fn request_key(id: u32) -> Seq<u8> {
    be(id as nat, 8)
}

/// The id that follows `id`: the first one again behind the last.
pub open spec fn next_id(id: u32) -> u32 {
    if id == u32::MAX {
        0
    } else {
        (id + 1) as u32
    }
}

impl<C> Pending<C> {
    /// No requests.
    pub fn new() -> (r: Pending<C>)
        ensures
            r@.next == 0,
            r@.entries == Map::<Seq<u8>, C>::empty(),
    {
        Pending { next: 0, entries: OrdMap::new() }
    }

    /// Takes note of a request before it is sent, and gives it the next id.
    /// Where a request with that id still waits, the new one is refused and the
    /// old one goes on waiting.
    pub fn begin(&mut self, on_response: C) -> (r: Result<u32>)
        ensures
            final(self)@.next == next_id(old(self)@.next),
            r is Ok <==> !old(self)@.entries.contains_key(request_key(old(self)@.next)),
            r matches Ok(id) ==> id == old(self)@.next && final(self)@.entries
                == old(self)@.entries.insert(request_key(id), on_response),
            r matches Err(e) ==> e == Error::RequestPending(old(self)@.next)
                && final(self)@.entries == old(self)@.entries,
    {
        let id: u32 = self.next;
        self.next = id.wrapping_add(1);
        let k: u64 = id as u64;
        if self.entries.contains(&k) {
            return Err(Error::RequestPending(id));
        }
        self.entries.insert(k, Waiting { on_response });
        Ok(id)
    }

    /// The request `id` was not sent, or whoever made it no longer waits: it is
    /// forgotten.
    pub fn abandon(&mut self, id: u32)
        ensures
            final(self)@ == (PendingView {
                entries: old(self)@.entries.remove(request_key(id)),
                ..old(self)@
            }),
    {
        let k: u64 = id as u64;
        self.entries.remove(&k);
    }

    /// A response to the request `id`, or its failure, is here: what waits for
    /// it is handed out and waits no longer. A response that nothing waits for
    /// is dropped.
    pub fn resolve(&mut self, id: u32) -> (r: Option<C>)
        ensures
            r == if old(self)@.entries.contains_key(request_key(id)) {
                Some(old(self)@.entries[request_key(id)])
            } else {
                None
            },
            final(self)@ == (PendingView {
                entries: old(self)@.entries.remove(request_key(id)),
                ..old(self)@
            }),
    {
        let k: u64 = id as u64;
        match self.entries.take(&k) {
            Some(w) => Some(w.on_response),
            None => None,
        }
    }
}

/// What waits for a response gets exactly one: once it was handed out, or the
/// request was abandoned, a further response finds nothing.
pub proof fn responses_are_delivered_once<C>(before: PendingView<C>, id: u32)
    ensures
        !before.entries.remove(request_key(id)).contains_key(request_key(id)),
        forall|other: u32|
            other != id ==> before.entries.remove(request_key(id)).contains_key(
                #[trigger] request_key(other),
            ) == before.entries.contains_key(request_key(other)),
{
    assert forall|other: u32|
        other != id implies before.entries.remove(request_key(id)).contains_key(
        #[trigger] request_key(other),
    ) == before.entries.contains_key(request_key(other)) by {
        lemma_request_keys(id, other);
    }
}

/// Requests with different ids do not meet.
proof fn lemma_request_keys(a: u32, b: u32)
    ensures
        request_key(a) == request_key(b) <==> a == b,
{
    crate::codec::lemma_pow256();
    crate::codec::lemma_be_value_be(a as nat, 8);
    crate::codec::lemma_be_value_be(b as nat, 8);
}

/// Sends requests and gossip to one handler.
#[derive(Clone, Debug)]
pub struct Client {
    handler_id: u64,
    prefix: Vec<u8>,
}

impl Client {
    /// The handler.
    pub closed spec fn handler(&self) -> u64 {
        self.handler_id
    }

    /// Whether messages start with the handler's prefix.
    pub closed spec fn wf(&self) -> bool {
        self.prefix@ == varint(self.handler_id as nat)
    }

    /// Sends to the handler `handler_id`.
    pub fn new(handler_id: u64) -> (r: Client)
        ensures
            r.wf(),
            r.handler() == handler_id,
    {
        Client { handler_id, prefix: protocol_prefix(handler_id) }
    }

    /// The handler.
    pub fn handler_id(&self) -> (r: u64)
        ensures
            r == self.handler(),
    {
        self.handler_id
    }

    /// What is sent for `bytes`: they follow the handler's prefix.
    pub fn frame(&self, bytes: &[u8]) -> (r: Vec<u8>)
        requires
            self.wf(),
        ensures
            r@ == varint(self.handler() as nat) + bytes@,
    {
        prefix_message(self.prefix.as_slice(), bytes)
    }
}

} // verus!
