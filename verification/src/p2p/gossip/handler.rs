//! Answering peers that ask for items, and taking what they push.
use vstd::prelude::*;

use crate::ids::Id;
use crate::p2p::error::Error;
use crate::p2p::gossip::bloom::{bloom_hash, holds, parsed_filter, Filter};
use crate::p2p::gossip::pull::{gossip_items, items_in, take_in, taken_in, Admission};
use crate::p2p::gossip::push::{batch_size, PushQueue, PushView};
use crate::p2p::gossip::traits::{GossipSet, Gossipable, Marshaller};
use crate::p2p::handler::{err_unexpected, AppError};
use crate::p2p::pb::{blobs, de_request, repeated_field, PullGossipRequest, PullGossipResponse};

verus! {

/// An item that may be asked for: its id, and its bytes, if it can be written.
pub struct Offer {
    /// The id of the item.
    pub id: Id,
    /// The bytes of the item.
    pub bytes: Option<Vec<u8>>,
}

/// Whether a peer that asks with the filter and the salt given knows `id`.
pub open spec fn peer_knows(seeds: Seq<u64>, entries: Seq<u8>, salt: Seq<u8>, id: Seq<u8>) -> bool {
    holds(seeds, entries, bloom_hash(id, salt))
}

/// Whether a batch takes more bytes than `target`. Sizes that cannot be told
/// count as the largest that can.
pub open spec fn is_full(batch: Seq<Seq<u8>>, target: usize) -> bool {
    batch_size(batch) > target && target < usize::MAX
}

/// What is answered so far, or that an item could not be written.
pub open spec fn answered(
    seeds: Seq<u64>,
    entries: Seq<u8>,
    salt: Seq<u8>,
    offers: Seq<Offer>,
    target: usize,
    n: nat,
) -> Option<Seq<Seq<u8>>>
    decreases n,
{
    if n == 0 {
        Some(Seq::empty())
    } else {
        match answered(seeds, entries, salt, offers, target, (n - 1) as nat) {
            None => None,
            Some(batch) => {
                let o = offers[n - 1];
                if peer_knows(seeds, entries, salt, o.id@) || is_full(batch, target) {
                    Some(batch)
                } else {
                    match o.bytes {
                        Some(b) => Some(batch.push(b@)),
                        None => None,
                    }
                }
            },
        }
    }
}

/// A request that is being answered: items are offered one after the other.
pub struct PullAnswer {
    filter: Filter,
    salt: Vec<u8>,
    target: usize,
    batch: Vec<Vec<u8>>,
    size: usize,
    failed: bool,
}

/// What a [`PullAnswer`] holds.
#[verifier::ext_equal]
pub struct AnswerView {
    /// The seeds of the peer's filter.
    pub seeds: Seq<u64>,
    /// The bits of the peer's filter.
    pub entries: Seq<u8>,
    /// What the peer's filter is salted with.
    pub salt: Seq<u8>,
    /// The bytes that the answer stops at.
    pub target: usize,
    /// The items so far, or none where one could not be written.
    pub batch: Option<Seq<Seq<u8>>>,
}

impl View for PullAnswer {
    type V = AnswerView;

    closed spec fn view(&self) -> AnswerView {
        AnswerView {
            seeds: self.filter.hash_seeds@,
            entries: self.filter.entries@,
            salt: self.salt@,
            target: self.target,
            batch: if self.failed {
                None
            } else {
                Some(blobs(self.batch@))
            },
        }
    }
}

impl AnswerView {
    /// Whether more items can be offered.
    pub open spec fn open(self) -> bool {
        self.batch matches Some(b) && !is_full(b, self.target)
    }
}

/// The filter and the salt of a readable request.
pub open spec fn asked(msg: Seq<u8>) -> Option<(Seq<u64>, Seq<u8>, Seq<u8>)> {
    match de_request(msg, Seq::empty(), Seq::empty()) {
        Some((salt, filter)) => match parsed_filter(filter) {
            Ok((seeds, entries)) => Some((seeds, entries, salt)),
            Err(_) => None,
        },
        None => None,
    }
}

impl PullAnswer {
    /// The filter has a size that filters can have, and what was taken is
    /// counted.
    pub closed spec fn wf(&self) -> bool {
        &&& self.filter.wf()
        &&& self.size == if batch_size(blobs(self.batch@)) > usize::MAX {
            usize::MAX as nat
        } else {
            batch_size(blobs(self.batch@))
        }
    }

    /// Reads a request. One that is not readable is refused.
    pub fn begin(msg: &[u8], target: usize) -> (r: core::result::Result<PullAnswer, AppError>)
        ensures
            match asked(msg@) {
                Some((seeds, entries, salt)) => {
                    &&& r is Ok
                    &&& r->Ok_0.wf()
                    &&& r->Ok_0@ == (AnswerView {
                        seeds,
                        entries,
                        salt,
                        target,
                        batch: Some(Seq::<Seq<u8>>::empty()),
                    })
                },
                None => r is Err && r->Err_0.says(-1, "unexpected error"@),
            },
    {
        let request = match PullGossipRequest::decode(msg) {
            Some(m) => m,
            None => {
                return Err(err_unexpected());
            },
        };
        let filter = match Filter::parse(request.filter.as_slice()) {
            Ok(f) => f,
            Err(_) => {
                return Err(err_unexpected());
            },
        };
        let r = PullAnswer {
            filter,
            salt: request.salt,
            target,
            batch: Vec::new(),
            size: 0,
            failed: false,
        };
        assert(blobs(r.batch@) =~= Seq::empty());
        Ok(r)
    }

    /// Whether the peer wants the item `id`.
    pub fn wants(&self, id: &Id) -> (r: bool)
        requires
            self.wf(),
        ensures
            r == !peer_knows(self@.seeds, self@.entries, self@.salt, id@),
    {
        !self.filter.contains_key(id.as_bytes(), self.salt.as_slice())
    }

    /// Takes an item that the peer wants, and tells whether to go on: not where
    /// the item could not be written, nor where the answer is large enough.
    pub fn take(&mut self, bytes: Option<Vec<u8>>) -> (r: bool)
        requires
            old(self).wf(),
        ensures
            final(self).wf(),
            final(self)@ == (AnswerView {
                batch: match (old(self)@.batch, bytes) {
                    (Some(batch), Some(b)) => Some(batch.push(b@)),
                    _ => None,
                },
                ..old(self)@
            }),
            r == final(self)@.open(),
    {
        match bytes {
            Some(b) => {
                let len: usize = b.len();
                let ghost before = blobs(self.batch@);
                let ghost bv = b@;
                self.size = match self.size.checked_add(len) {
                    Some(s) => s,
                    None => usize::MAX,
                };
                self.batch.push(b);
                proof {
                    assert(blobs(self.batch@) =~= before.push(bv));
                    assert(before.push(bv).drop_last() =~= before);
                }
                !self.failed && self.size <= self.target
            },
            None => {
                self.failed = true;
                false
            },
        }
    }

    /// The answer. Where an item could not be written the request is refused.
    pub fn finish(self) -> (r: core::result::Result<Vec<u8>, AppError>)
        ensures
            match self@.batch {
                Some(batch) => r is Ok && r->Ok_0@ == repeated_field(1, batch),
                None => r is Err && r->Err_0.says(-1, "unexpected error"@),
            },
    {
        if self.failed {
            return Err(err_unexpected());
        }
        let response = PullGossipResponse { gossip: self.batch };
        Ok(response.encode_to_vec())
    }
}

proof fn lemma_answer_stays(
    seeds: Seq<u64>,
    entries: Seq<u8>,
    salt: Seq<u8>,
    offers: Seq<Offer>,
    target: usize,
    a: nat,
    b: nat,
)
    requires
        a <= b,
        answered(seeds, entries, salt, offers, target, a) is None || is_full(
            answered(seeds, entries, salt, offers, target, a)->0,
            target,
        ),
    ensures
        answered(seeds, entries, salt, offers, target, b) == answered(
            seeds,
            entries,
            salt,
            offers,
            target,
            a,
        ),
    decreases b,
{
    if a < b {
        lemma_answer_stays(seeds, entries, salt, offers, target, a, (b - 1) as nat);
    }
}

/// Answers a request from the items offered, one after the other: those that the
/// peer does not know, until the answer is larger than `target`.
pub fn answer_pull(msg: &[u8], offers: Vec<Offer>, target: usize) -> (r: core::result::Result<
    Vec<u8>,
    AppError,
>)
    ensures
        match asked(msg@) {
            None => r is Err && r->Err_0.says(-1, "unexpected error"@),
            Some((seeds, entries, salt)) => match answered(
                seeds,
                entries,
                salt,
                offers@,
                target,
                offers@.len(),
            ) {
                Some(batch) => r is Ok && r->Ok_0@ == repeated_field(1, batch),
                None => r is Err && r->Err_0.says(-1, "unexpected error"@),
            },
        },
{
    let mut answer = match PullAnswer::begin(msg, target) {
        Ok(a) => a,
        Err(e) => {
            return Err(e);
        },
    };
    let n: usize = offers.len();
    let ghost all = offers@;
    let ghost start = answer@;
    let mut i: usize = 0;
    let mut more = true;
    let mut list = offers;
    while i < n && more
        invariant
            i <= n,
            n == all.len(),
            answer.wf(),
            list@.len() == n,
            forall|j: int| i <= j < n ==> #[trigger] list@[j] == all[j],
            answer@ == (AnswerView { batch: answer@.batch, ..start }),
            start.target == target,
            answer@.batch == answered(
                start.seeds,
                start.entries,
                start.salt,
                all,
                target,
                i as nat,
            ),
            more == answer@.open(),
        decreases n - i,
    {
        let id = list[i].id;
        assert(list@[i as int] == all[i as int]);
        if answer.wants(&id) {
            let empty = Offer { id, bytes: None };
            let mut slot = empty;
            std::mem::swap(&mut list[i], &mut slot);
            let ghost before = answer@;
            more = answer.take(slot.bytes);
        }
        i += 1;
    }
    proof {
        if i < n {
            lemma_answer_stays(
                start.seeds,
                start.entries,
                start.salt,
                all,
                target,
                i as nat,
                n as nat,
            );
        }
    }
    answer.finish()
}

/// No item is answered that the peer knows already, and each that is answered
/// was offered.
pub proof fn answers_are_wanted(
    seeds: Seq<u64>,
    entries: Seq<u8>,
    salt: Seq<u8>,
    offers: Seq<Offer>,
    target: usize,
    n: nat,
    i: int,
)
    requires
        n <= offers.len(),
        answered(seeds, entries, salt, offers, target, n) is Some,
        0 <= i < (answered(seeds, entries, salt, offers, target, n)->0).len(),
    ensures
        exists|j: int|
            {
                &&& 0 <= j < n
                &&& (#[trigger] offers[j]).bytes is Some
                &&& offers[j].bytes->0@ == (answered(seeds, entries, salt, offers, target, n)->0)[i]
                &&& !peer_knows(seeds, entries, salt, offers[j].id@)
            },
    decreases n,
{
    let m = (n - 1) as nat;
    let before = answered(seeds, entries, salt, offers, target, m);
    let now = answered(seeds, entries, salt, offers, target, n)->0;
    if i < (before->0).len() {
        answers_are_wanted(seeds, entries, salt, offers, target, m, i);
        let j = choose|j: int|
            {
                &&& 0 <= j < m
                &&& (#[trigger] offers[j]).bytes is Some
                &&& offers[j].bytes->0@ == (before->0)[i]
                &&& !peer_knows(seeds, entries, salt, offers[j].id@)
            };
        assert(offers[j].bytes->0@ == now[i]);
    } else {
        assert(offers[m as int].bytes is Some);
        assert(now[i] == offers[m as int].bytes->0@);
    }
}

/// After the items of `adds` were pushed on, one after the other.
pub open spec fn forwarded<T>(v: PushView<T>, adds: Seq<Option<(Id, T)>>, now: u64) -> PushView<T>
    decreases adds.len(),
{
    if adds.len() == 0 {
        v
    } else {
        let w = forwarded(v, adds.drop_last(), now);
        match adds.last() {
            Some((id, item)) => w.added(id, item, now),
            None => w,
        }
    }
}

/// Whether `a` tells what became of an item with the bytes given, and `add` is
/// what is pushed on of it: the item as it is read again, where it was added.
pub open spec fn handled<T: Gossipable, M: Marshaller<T>, S: GossipSet<T>>(
    marshaller: &M,
    set: &S,
    item: Seq<u8>,
    a: Admission,
    add: Option<(Id, T)>,
) -> bool {
    exists|bytes: &[u8]|
        {
            &&& bytes@ == item
            &&& #[trigger] taken_in::<T, M, S>(marshaller, set, bytes, a)
            &&& match add {
                Some((id, again)) => {
                    &&& a == Admission::Admitted
                    &&& call_ensures(M::unmarshal, (marshaller, bytes), Ok(again))
                    &&& call_ensures(T::gossip_id, (&again,), id)
                },
                None => a == Admission::Admitted ==> exists|e: Error|
                    call_ensures(M::unmarshal, (marshaller, bytes), Err(e)),
            }
        }
}

/// Whether each of the items was handled.
pub open spec fn handled_all<T: Gossipable, M: Marshaller<T>, S: GossipSet<T>>(
    marshaller: &M,
    set: &S,
    items: Seq<Seq<u8>>,
    outcomes: Seq<Admission>,
    adds: Seq<Option<(Id, T)>>,
) -> bool {
    &&& outcomes.len() == items.len()
    &&& adds.len() == items.len()
    &&& forall|i: int|
        0 <= i < outcomes.len() ==> handled(
            marshaller,
            set,
            items[i],
            #[trigger] outcomes[i],
            adds[i],
        )
}

/// Takes items that a peer pushed: each that is readable is added to the items
/// that are known, and what was added is pushed on.
pub fn app_gossip<T: Gossipable, M: Marshaller<T>, S: GossipSet<T>>(
    marshaller: &M,
    set: &S,
    push: &mut PushQueue<T>,
    msg: &[u8],
    now: u64,
) -> (r: Vec<Admission>)
    requires
        old(push).wf(),
    ensures
        final(push).wf(),
        exists|adds: Seq<Option<(Id, T)>>|
            handled_all(marshaller, set, items_in(msg@), r@, adds) && final(push)@
                == #[trigger] forwarded(old(push)@, adds, now),
{
    let items = gossip_items(msg);
    let n: usize = items.len();
    let ghost all = blobs(items@);
    let ghost start = push@;
    let ghost mut adds: Seq<Option<(Id, T)>> = Seq::empty();
    let mut out: Vec<Admission> = Vec::new();
    let mut i: usize = 0;
    assert(all.len() == n);
    while i < n
        invariant
            i <= n,
            n == items@.len(),
            all == blobs(items@),
            push.wf(),
            handled_all(marshaller, set, all.take(i as int), out@, adds),
            push@ == forwarded(start, adds, now),
        decreases n - i,
    {
        let ghost before = out@;
        let ghost was = adds;
        let ghost queue = push@;
        let ghost mut add: Option<(Id, T)> = None;
        let bytes = items[i].as_slice();
        let a = take_in(marshaller, set, bytes);
        if a == Admission::Admitted {
            match marshaller.unmarshal(bytes) {
                Ok(item) => {
                    push.add(item, now);
                    proof {
                        let id = choose|id: Id|
                            push@ == #[trigger] queue.added(id, item, now) && call_ensures(
                                T::gossip_id,
                                (&item,),
                                id,
                            );
                        add = Some((id, item));
                    }
                },
                Err(_) => {},
            }
        }
        out.push(a);
        proof {
            adds = was.push(add);
            assert(adds.drop_last() =~= was);
            let next = all.take(i + 1);
            assert forall|j: int| 0 <= j < out@.len() implies handled(
                marshaller,
                set,
                next[j],
                #[trigger] out@[j],
                adds[j],
            ) by {
                if j < i {
                    assert(out@[j] == before[j]);
                    assert(next[j] == all.take(i as int)[j]);
                    assert(adds[j] == was[j]);
                } else {
                    assert(taken_in::<T, M, S>(marshaller, set, bytes, out@[j]));
                }
            }
        }
        i += 1;
    }
    assert(all.take(n as int) =~= all);
    out
}

} // verus!
