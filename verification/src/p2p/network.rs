//! Which handler a message is for, and which peers there are.
use vstd::prelude::*;

use crate::codec::be;
use crate::collections::ordmap::{increasing, Key, OrdMap};
use crate::ids::NodeId;
use crate::p2p::error::{Error, Result};
use crate::p2p::handler::{err_unregistered_handler, AppError};
use crate::p2p::varint::{push_varint, rd_varint, read_varint, varint, varint_round_trip};

verus! {

/// What messages to the handler `handler_id` start with.
pub fn protocol_prefix(handler_id: u64) -> (r: Vec<u8>)
    ensures
        r@ == varint(handler_id as nat),
{
    let mut buf: Vec<u8> = Vec::new();
    push_varint(&mut buf, handler_id);
    assert(buf@ =~= varint(handler_id as nat));
    buf
}

/// The handler that `msg` is for, and what the handler gets. There is none where
/// the message does not start with the id of one.
pub fn parse_prefix(msg: &[u8]) -> (r: Option<(u64, &[u8])>)
    ensures
        match rd_varint(msg@) {
            Some((id, rest)) => r is Some && (r->0).0 == id && (r->0).1@ == rest,
            None => r is None,
        },
{
    read_varint(msg)
}

/// The handler that a message is for, if it is registered, and what the handler
/// gets.
pub open spec fn addressee(handlers: Map<Seq<u8>, ()>, msg: Seq<u8>) -> Option<(nat, Seq<u8>)> {
    match rd_varint(msg) {
        Some((id, rest)) => if handlers.contains_key(be(id, 8)) {
            Some((id, rest))
        } else {
            None
        },
        None => None,
    }
}

/// A message that starts with the prefix of a registered handler is for that
/// handler, which gets exactly the rest.
pub proof fn prefixed_messages_reach_their_handler(
    handlers: Map<Seq<u8>, ()>,
    handler_id: u64,
    payload: Seq<u8>,
)
    requires
        handlers.contains_key(be(handler_id as nat, 8)),
    ensures
        addressee(handlers, varint(handler_id as nat) + payload) == Some(
            (handler_id as nat, payload),
        ),
{
    varint_round_trip(handler_id, payload);
}

/// What becomes of a request.
#[derive(Debug)]
pub enum Dispatch<'a> {
    /// It goes to the handler.
    Handler(u64, &'a [u8]),
    /// It is refused.
    Refused(AppError),
}

/// The peers and handlers of a node.
pub struct P2pNetwork {
    node_id: NodeId,
    handlers: OrdMap<u64, ()>,
    peers: OrdMap<NodeId, ()>,
    sample_counter: u64,
}

/// What a [`P2pNetwork`] holds.
#[verifier::ext_equal]
pub struct NetworkView {
    /// The node itself.
    pub node_id: Seq<u8>,
    /// The ids of the handlers.
    pub handlers: Map<Seq<u8>, ()>,
    /// The peers that are connected.
    pub peers: Map<Seq<u8>, ()>,
    /// How many peers were sampled.
    pub samples: u64,
}

impl View for P2pNetwork {
    type V = NetworkView;

    closed spec fn view(&self) -> NetworkView {
        NetworkView {
            node_id: self.node_id@,
            handlers: self.handlers@,
            peers: self.peers@,
            samples: self.sample_counter,
        }
    }
}

/// The number that the `n`-th sample is drawn by.
pub open spec fn draw(n: u64) -> nat {
    ((n as nat) * 6_364_136_223_846_793_005 + 1_442_695_040_888_963_407)
        % 0x1_0000_0000_0000_0000
}

impl P2pNetwork {
    /// The peers, in order.
    pub closed spec fn peers_in_order(&self) -> Seq<Seq<u8>> {
        self.peers.keys()
    }

    /// A node without peers or handlers.
    pub fn new(node_id: NodeId) -> (r: P2pNetwork)
        ensures
            r@.node_id == node_id@,
            r@.handlers == Map::<Seq<u8>, ()>::empty(),
            r@.peers == Map::<Seq<u8>, ()>::empty(),
            r@.samples == 0,
    {
        P2pNetwork { node_id, handlers: OrdMap::new(), peers: OrdMap::new(), sample_counter: 0 }
    }

    /// The node itself.
    pub fn node_id(&self) -> (r: NodeId)
        ensures
            r@ == self@.node_id,
    {
        self.node_id
    }

    /// Registers a handler, unless its id is taken.
    pub fn add_handler(&mut self, handler_id: u64) -> (r: Result<()>)
        ensures
            r is Ok <==> !old(self)@.handlers.contains_key(be(handler_id as nat, 8)),
            r is Ok ==> final(self)@ == (NetworkView {
                handlers: old(self)@.handlers.insert(be(handler_id as nat, 8), ()),
                ..old(self)@
            }),
            r matches Err(e) ==> e == Error::DuplicateHandler(handler_id) && final(self)@
                == old(self)@,
    {
        if self.handlers.contains(&handler_id) {
            return Err(Error::DuplicateHandler(handler_id));
        }
        self.handlers.insert(handler_id, ());
        Ok(())
    }

    /// One of the peers, if there are any. Each call draws anew.
    pub fn sample_peer(&mut self) -> (r: Option<NodeId>)
        ensures
            ({
                let n = old(self).peers_in_order().len();
                if n == 0 {
                    r is None && final(self)@ == old(self)@
                } else {
                    &&& r is Some
                    &&& r->0@ == old(self).peers_in_order()[(draw(old(self)@.samples) % n) as int]
                    &&& final(self)@ == (NetworkView {
                        samples: if old(self)@.samples == u64::MAX {
                            0
                        } else {
                            (old(self)@.samples + 1) as u64
                        },
                        ..old(self)@
                    })
                }
            }),
            increasing(old(self).peers_in_order()),
            forall|k: Seq<u8>| #[trigger]
                old(self)@.peers.contains_key(k) <==> old(self).peers_in_order().contains(k),
    {
        let len: usize = self.peers.len();
        proof {
            let ks = self.peers.keys();
            assert forall|k: Seq<u8>| #[trigger]
                self.peers@.contains_key(k) <==> ks.contains(k) by {
                if ks.contains(k) {
                    assert(self.peers@.contains_key(ks[ks.index_of(k)]));
                }
            }
        }
        if len == 0 {
            return None;
        }
        let counter: u64 = self.sample_counter;
        self.sample_counter = counter.wrapping_add(1);
        let x: u64 = counter.wrapping_mul(6_364_136_223_846_793_005).wrapping_add(
            1_442_695_040_888_963_407,
        );
        proof {
            lemma_draw(counter);
        }
        let idx: usize = (x % (len as u64)) as usize;
        let k = self.peers.key_at(idx);
        Some(*k)
    }

    /// What becomes of a request: it goes to the handler that it is for, and is
    /// refused where there is none.
    pub fn dispatch_request<'a>(&self, request: &'a [u8]) -> (r: Dispatch<'a>)
        ensures
            match addressee(self@.handlers, request@) {
                Some((id, rest)) => r matches Dispatch::Handler(h, p) && h == id && p@ == rest,
                None => r matches Dispatch::Refused(e) && e.says(-2, "unregistered handler"@),
            },
    {
        match self.dispatch_gossip(request) {
            Some((id, rest)) => Dispatch::Handler(id, rest),
            None => Dispatch::Refused(err_unregistered_handler()),
        }
    }

    /// The handler that gossip is for, and what the handler gets. Where there is
    /// none the gossip is dropped.
    pub fn dispatch_gossip<'a>(&self, msg: &'a [u8]) -> (r: Option<(u64, &'a [u8])>)
        ensures
            match addressee(self@.handlers, msg@) {
                Some((id, rest)) => r is Some && (r->0).0 == id && (r->0).1@ == rest,
                None => r is None,
            },
    {
        match parse_prefix(msg) {
            Some((id, rest)) => if self.handlers.contains(&id) {
                Some((id, rest))
            } else {
                None
            },
            None => None,
        }
    }

    /// The peer `node` is there.
    pub fn handle_connected(&mut self, node: NodeId)
        ensures
            final(self)@ == (NetworkView {
                peers: old(self)@.peers.insert(node@, ()),
                ..old(self)@
            }),
    {
        self.peers.insert(node, ());
    }

    /// The peer `node` is gone.
    pub fn handle_disconnected(&mut self, node: NodeId)
        ensures
            final(self)@ == (NetworkView {
                peers: old(self)@.peers.remove(node@),
                ..old(self)@
            }),
    {
        self.peers.remove(&node);
    }
}

proof fn lemma_draw(n: u64)
    ensures
        ((n as nat) * 6_364_136_223_846_793_005 % 0x1_0000_0000_0000_0000
            + 1_442_695_040_888_963_407) % 0x1_0000_0000_0000_0000 == draw(n),
{
    let a = (n as int) * 6_364_136_223_846_793_005;
    let b: int = 1_442_695_040_888_963_407;
    let m: int = 0x1_0000_0000_0000_0000;
    vstd::arithmetic::div_mod::lemma_add_mod_noop(a, b, m);
    vstd::arithmetic::div_mod::lemma_small_mod(b as nat, m as nat);
    assert((a % m + b % m) % m == (a + b) % m);
}

} // verus!
