//! The messages of the gossip protocol, as fields behind their keys.
use vstd::prelude::*;
use vstd::slice::slice_subrange;

use crate::order::bytes_copy;
use crate::p2p::varint::{lemma_rd_varint, push_varint, rd_varint, read_varint, varint, varint_round_trip};

verus! {

/// What each byte string holds.
pub open spec fn blobs(v: Seq<Vec<u8>>) -> Seq<Seq<u8>> {
    v.map_values(|x: Vec<u8>| x@)
}

/// A field of bytes: its key, its length and the bytes.
pub open spec fn field(tag: nat, b: Seq<u8>) -> Seq<u8> {
    varint(tag * 8 + 2) + (varint(b.len()) + b)
}

/// The field, unless there are no bytes.
pub open spec fn optional_field(tag: nat, b: Seq<u8>) -> Seq<u8> {
    if b.len() == 0 {
        Seq::empty()
    } else {
        field(tag, b)
    }
}

/// The fields of a list, all with the same key.
pub open spec fn repeated_field(tag: nat, items: Seq<Seq<u8>>) -> Seq<u8>
    decreases items.len(),
{
    if items.len() == 0 {
        Seq::empty()
    } else {
        field(tag, items[0]) + repeated_field(tag, items.drop_first())
    }
}

/// The key at the start of `s`: which field follows, how it is written, and what
/// follows the key.
pub open spec fn rd_key(s: Seq<u8>) -> Option<(nat, nat, Seq<u8>)> {
    match rd_varint(s) {
        Some((k, t)) => if k > u32::MAX || k % 8 > 5 || k / 8 < 1 {
            None
        } else {
            Some((k / 8, k % 8, t))
        },
        None => None,
    }
}

/// The bytes at the start of `s`, behind their length, and what follows them.
pub open spec fn rd_blob(s: Seq<u8>) -> Option<(Seq<u8>, Seq<u8>)> {
    match rd_varint(s) {
        Some((n, t)) => if n <= t.len() {
            Some((t.take(n as int), t.skip(n as int)))
        } else {
            None
        },
        None => None,
    }
}

/// What follows a field that is not known.
pub uninterp spec fn skipped(wire: nat, tag: nat, s: Seq<u8>) -> Option<Seq<u8>>;

/// `prost::encoding::skip_field` with a fresh context on a slice: what follows
/// the field with the key given, if the field is well-formed, which depends on
/// the key and the slice alone. It is no longer than the slice.
#[verifier::external_body]
fn skip_field(wire: u64, tag: u32, s: &[u8]) -> (r: Option<&[u8]>)
    ensures
        match skipped(wire as nat, tag as nat, s@) {
            Some(t) => r is Some && r->0@ == t,
            None => r is None,
        },
        r matches Some(t) ==> t@.len() <= s@.len(),
{
    let mut rest: &[u8] = s;
    let kind = match prost::encoding::WireType::try_from(wire) {
        Ok(k) => k,
        Err(_) => return None,
    };
    let context = prost::encoding::DecodeContext::default();
    match prost::encoding::skip_field(kind, tag, &mut rest, context) {
        Ok(()) => Some(rest),
        Err(_) => None,
    }
}

fn read_key(s: &[u8]) -> (r: Option<(u32, u64, &[u8])>)
    ensures
        match rd_key(s@) {
            Some((tag, wire, t)) => r is Some && (r->0).0 == tag && (r->0).1 == wire && (r->0).2@
                == t,
            None => r is None,
        },
        r matches Some(k) ==> k.2@.len() < s@.len(),
{
    proof {
        lemma_rd_varint(s@);
    }
    match read_varint(s) {
        Some((k, t)) => if k > 0xffff_ffff || k % 8 > 5 || k / 8 < 1 {
            None
        } else {
            Some(((k / 8) as u32, k % 8, t))
        },
        None => None,
    }
}

fn read_blob(s: &[u8]) -> (r: Option<(Vec<u8>, &[u8])>)
    ensures
        match rd_blob(s@) {
            Some((b, t)) => r is Some && (r->0).0@ == b && (r->0).1@ == t,
            None => r is None,
        },
        r matches Some(x) ==> x.1@.len() < s@.len(),
{
    proof {
        lemma_rd_varint(s@);
    }
    match read_varint(s) {
        Some((n, t)) => if n <= t.len() as u64 {
            let n: usize = n as usize;
            let head = slice_subrange(t, 0, n);
            let tail = slice_subrange(t, n, t.len());
            assert(head@ =~= t@.take(n as int));
            assert(tail@ =~= t@.skip(n as int));
            Some((bytes_copy(head), tail))
        } else {
            None
        },
        None => None,
    }
}

fn push_field(out: &mut Vec<u8>, tag: u64, b: &[u8])
    requires
        tag <= 0x1fff_ffff,
    ensures
        final(out)@ == old(out)@ + field(tag as nat, b@),
{
    let ghost start = out@;
    push_varint(out, tag * 8 + 2);
    push_varint(out, b.len() as u64);
    out.extend_from_slice(b);
    assert(out@ =~= start + field(tag as nat, b@));
}

/// The items of a list field with the key `tag`. Other fields are passed over.
pub open spec fn de_repeated(s: Seq<u8>, tag: nat) -> Option<Seq<Seq<u8>>>
    decreases s.len(),
{
    if s.len() == 0 {
        Some(Seq::empty())
    } else {
        match rd_key(s) {
            None => None,
            Some((k, wire, t)) => if k == tag {
                if wire != 2 {
                    None
                } else {
                    match rd_blob(t) {
                        Some((b, u)) => if u.len() < s.len() {
                            match de_repeated(u, tag) {
                                Some(items) => Some(seq![b] + items),
                                None => None,
                            }
                        } else {
                            None
                        },
                        None => None,
                    }
                }
            } else {
                match skipped(wire, k, t) {
                    Some(u) => if u.len() < s.len() {
                        de_repeated(u, tag)
                    } else {
                        None
                    },
                    None => None,
                }
            },
        }
    }
}

fn decode_repeated(s: &[u8], tag: u32) -> (r: Option<Vec<Vec<u8>>>)
    ensures
        match de_repeated(s@, tag as nat) {
            Some(items) => r is Some && blobs(r->0@) == items,
            None => r is None,
        },
{
    let mut rest: &[u8] = s;
    let mut out: Vec<Vec<u8>> = Vec::new();
    assert(blobs(out@) =~= Seq::empty());
    while rest.len() > 0
        invariant
            match de_repeated(rest@, tag as nat) {
                Some(items) => de_repeated(s@, tag as nat) == Some(blobs(out@) + items),
                None => de_repeated(s@, tag as nat) is None,
            },
        decreases rest@.len(),
    {
        let ghost before = out@;
        let (k, wire, t) = match read_key(rest) {
            Some(x) => x,
            None => {
                return None;
            },
        };
        if k == tag {
            if wire != 2 {
                return None;
            }
            match read_blob(t) {
                Some((b, u)) => {
                    let ghost bv = b@;
                    out.push(b);
                    proof {
                        assert(blobs(out@) =~= blobs(before).push(bv));
                        if let Some(items) = de_repeated(u@, tag as nat) {
                            assert(blobs(before) + (seq![bv] + items) =~= blobs(out@) + items);
                        }
                    }
                    rest = u;
                },
                None => {
                    return None;
                },
            }
        } else {
            match skip_field(wire, k, t) {
                Some(u) => {
                    rest = u;
                },
                None => {
                    return None;
                },
            }
        }
    }
    assert(blobs(out@) + Seq::<Seq<u8>>::empty() =~= blobs(out@));
    Some(out)
}

fn encode_repeated(tag: u64, items: &Vec<Vec<u8>>) -> (r: Vec<u8>)
    requires
        tag <= 0x1fff_ffff,
    ensures
        r@ == repeated_field(tag as nat, blobs(items@)),
{
    let n: usize = items.len();
    let ghost all = blobs(items@);
    let mut out: Vec<u8> = Vec::new();
    let mut i: usize = 0;
    assert(all.skip(0) =~= all);
    assert(out@ + repeated_field(tag as nat, all) =~= repeated_field(tag as nat, all));
    while i < n
        invariant
            i <= n,
            n == items@.len(),
            all == blobs(items@),
            tag <= 0x1fff_ffff,
            out@ + repeated_field(tag as nat, all.skip(i as int)) == repeated_field(
                tag as nat,
                all,
            ),
        decreases n - i,
    {
        let ghost before = out@;
        push_field(&mut out, tag, items[i].as_slice());
        proof {
            let f = field(tag as nat, all[i as int]);
            assert(all.skip(i as int).drop_first() =~= all.skip(i + 1));
            let rest = repeated_field(tag as nat, all.skip(i + 1));
            assert(before + (f + rest) =~= (before + f) + rest);
        }
        i += 1;
    }
    assert(all.skip(n as int).len() == 0);
    assert(out@ =~= repeated_field(tag as nat, all));
    out
}

/// Items that are pushed to peers.
#[derive(Debug, PartialEq, Eq)]
pub struct PushGossip {
    /// The items.
    pub gossip: Vec<Vec<u8>>,
}

impl PushGossip {
    /// The bytes of the message.
    pub fn encode_to_vec(&self) -> (r: Vec<u8>)
        ensures
            r@ == repeated_field(1, blobs(self.gossip@)),
    {
        encode_repeated(1, &self.gossip)
    }

    /// The message that `s` holds.
    pub fn decode(s: &[u8]) -> (r: Option<PushGossip>)
        ensures
            match de_repeated(s@, 1) {
                Some(items) => r is Some && blobs(r->0.gossip@) == items,
                None => r is None,
            },
    {
        match decode_repeated(s, 1) {
            Some(gossip) => Some(PushGossip { gossip }),
            None => None,
        }
    }
}

/// Items that a peer asked for.
#[derive(Debug, PartialEq, Eq)]
pub struct PullGossipResponse {
    /// The items.
    pub gossip: Vec<Vec<u8>>,
}

impl PullGossipResponse {
    /// The bytes of the message.
    pub fn encode_to_vec(&self) -> (r: Vec<u8>)
        ensures
            r@ == repeated_field(1, blobs(self.gossip@)),
    {
        encode_repeated(1, &self.gossip)
    }

    /// The message that `s` holds.
    pub fn decode(s: &[u8]) -> (r: Option<PullGossipResponse>)
        ensures
            match de_repeated(s@, 1) {
                Some(items) => r is Some && blobs(r->0.gossip@) == items,
                None => r is None,
            },
    {
        match decode_repeated(s, 1) {
            Some(gossip) => Some(PullGossipResponse { gossip }),
            None => None,
        }
    }
}

/// Asks a peer for the items that are not known yet.
#[derive(Debug, PartialEq, Eq)]
pub struct PullGossipRequest {
    /// What the filter is salted with.
    pub salt: Vec<u8>,
    /// The filter of the items that are known.
    pub filter: Vec<u8>,
}

/// The salt and the filter of a request, where `salt` and `filter` were read
/// already. The last field of each kind counts, and other fields are passed
/// over.
pub open spec fn de_request(s: Seq<u8>, salt: Seq<u8>, filter: Seq<u8>) -> Option<
    (Seq<u8>, Seq<u8>),
>
    decreases s.len(),
{
    if s.len() == 0 {
        Some((salt, filter))
    } else {
        match rd_key(s) {
            None => None,
            Some((k, wire, t)) => if k == 2 || k == 3 {
                if wire != 2 {
                    None
                } else {
                    match rd_blob(t) {
                        Some((b, u)) => if u.len() < s.len() {
                            if k == 2 {
                                de_request(u, b, filter)
                            } else {
                                de_request(u, salt, b)
                            }
                        } else {
                            None
                        },
                        None => None,
                    }
                }
            } else {
                match skipped(wire, k, t) {
                    Some(u) => if u.len() < s.len() {
                        de_request(u, salt, filter)
                    } else {
                        None
                    },
                    None => None,
                }
            },
        }
    }
}

/// The bytes of a request.
pub open spec fn request_bytes(salt: Seq<u8>, filter: Seq<u8>) -> Seq<u8> {
    optional_field(2, salt) + optional_field(3, filter)
}

impl PullGossipRequest {
    /// The bytes of the message.
    pub fn encode_to_vec(&self) -> (r: Vec<u8>)
        ensures
            r@ == request_bytes(self.salt@, self.filter@),
    {
        let mut out: Vec<u8> = Vec::new();
        if self.salt.len() > 0 {
            push_field(&mut out, 2, self.salt.as_slice());
        }
        assert(out@ =~= optional_field(2, self.salt@));
        if self.filter.len() > 0 {
            push_field(&mut out, 3, self.filter.as_slice());
        }
        assert(out@ =~= request_bytes(self.salt@, self.filter@));
        out
    }

    /// The message that `s` holds.
    pub fn decode(s: &[u8]) -> (r: Option<PullGossipRequest>)
        ensures
            match de_request(s@, Seq::empty(), Seq::empty()) {
                Some((salt, filter)) => r is Some && r->0.salt@ == salt && r->0.filter@ == filter,
                None => r is None,
            },
    {
        let mut rest: &[u8] = s;
        let mut salt: Vec<u8> = Vec::new();
        let mut filter: Vec<u8> = Vec::new();
        assert(salt@ =~= Seq::empty());
        assert(filter@ =~= Seq::empty());
        while rest.len() > 0
            invariant
                de_request(s@, Seq::empty(), Seq::empty()) == de_request(
                    rest@,
                    salt@,
                    filter@,
                ),
            decreases rest@.len(),
        {
            let (k, wire, t) = match read_key(rest) {
                Some(x) => x,
                None => {
                    return None;
                },
            };
            if k == 2 || k == 3 {
                if wire != 2 {
                    return None;
                }
                match read_blob(t) {
                    Some((b, u)) => {
                        if k == 2 {
                            salt = b;
                        } else {
                            filter = b;
                        }
                        rest = u;
                    },
                    None => {
                        return None;
                    },
                }
            } else {
                match skip_field(wire, k, t) {
                    Some(u) => {
                        rest = u;
                    },
                    None => {
                        return None;
                    },
                }
            }
        }
        Some(PullGossipRequest { salt, filter })
    }
}

/// A field is read back, whatever follows it.
proof fn lemma_field(tag: nat, b: Seq<u8>, t: Seq<u8>)
    requires
        1 <= tag <= 0x1fff_ffff,
        b.len() <= u64::MAX,
    ensures
        rd_key(field(tag, b) + t) == Some((tag, 2nat, varint(b.len()) + b + t)),
        rd_blob(varint(b.len()) + b + t) == Some((b, t)),
        field(tag, b).len() > 0,
        t.len() < (field(tag, b) + t).len(),
{
    let rest = varint(b.len()) + b + t;
    assert(field(tag, b) + t =~= varint(tag * 8 + 2) + rest);
    varint_round_trip((tag * 8 + 2) as u64, rest);
    assert(rest =~= varint(b.len()) + (b + t));
    varint_round_trip(b.len() as u64, b + t);
    assert((b + t).take(b.len() as int) =~= b);
    assert((b + t).skip(b.len() as int) =~= t);
}

/// A list of items that was written is read back.
pub proof fn gossip_round_trip(items: Seq<Seq<u8>>)
    requires
        forall|i: int| 0 <= i < items.len() ==> (#[trigger] items[i]).len() <= u64::MAX,
    ensures
        de_repeated(repeated_field(1, items), 1) == Some(items),
    decreases items.len(),
{
    if items.len() > 0 {
        let rest = repeated_field(1, items.drop_first());
        lemma_field(1, items[0], rest);
        gossip_round_trip(items.drop_first());
        assert(seq![items[0]] + items.drop_first() =~= items);
    } else {
        assert(items =~= Seq::empty());
    }
}

/// A request that was written is read back.
pub proof fn request_round_trip(salt: Seq<u8>, filter: Seq<u8>)
    requires
        salt.len() <= u64::MAX,
        filter.len() <= u64::MAX,
    ensures
        de_request(request_bytes(salt, filter), Seq::empty(), Seq::empty()) == Some(
            (salt, filter),
        ),
{
    let e = Seq::<u8>::empty();
    let tail = optional_field(3, filter);
    if salt.len() > 0 {
        lemma_field(2, salt, tail);
    } else {
        assert(salt =~= e);
        assert(request_bytes(salt, filter) =~= tail);
    }
    assert(de_request(request_bytes(salt, filter), e, e) == de_request(tail, salt, e));
    if filter.len() > 0 {
        lemma_field(3, filter, e);
        assert(field(3, filter) + e =~= tail);
        assert(de_request(e, salt, filter) == Some((salt, filter)));
        assert(de_request(tail, salt, e) == de_request(e, salt, filter));
    } else {
        assert(filter =~= e);
    }
}

} // verus!
