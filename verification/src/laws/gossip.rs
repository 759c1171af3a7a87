//! Gossip: what is pushed and when, what is remembered, and what is answered.
use vstd::prelude::*;

use crate::ids::Id;
use crate::p2p::error::{Error, Result};
use crate::p2p::gossip::bloom::{bloom_hash, holds, BloomSet};
use crate::p2p::gossip::handler::{answer_pull, answered, asked, is_full, Offer};
use crate::p2p::gossip::pull::{take_in, Admission};
use crate::p2p::gossip::push::{batch_size, due, is_push, noted, pushed, without, Answer, DiscardedCache, PushQueue, PushView, Queued, Sent};
use crate::p2p::gossip::traits::{GossipSet, Gossipable, Marshaller};
use crate::p2p::handler::AppError;
use crate::p2p::pb::{blobs, repeated_field};

verus! {

/// How many bytes the items of a batch take together.
pub open spec fn bytes_in(batch: Seq<Seq<u8>>) -> nat
    decreases batch.len(),
{
    if batch.len() == 0 {
        0
    } else {
        bytes_in(batch.drop_last()) + batch.last().len()
    }
}

proof fn lemma_batch_size(batch: Seq<Seq<u8>>)
    ensures
        batch_size(batch) == bytes_in(batch),
    decreases batch.len(),
{
    if batch.len() > 0 {
        lemma_batch_size(batch.drop_last());
    }
}

/// A new item waits behind the others to be pushed. One that waits already, or
/// was pushed, changes nothing; one that was given up lately counts as just
/// pushed.
pub proof fn a_new_item_waits_to_be_pushed<T>(v: PushView<T>, id: Id, item: T, now: u64)
    ensures
        ({
            let w = v.added(id, item, now);
            &&& w.queued.contains_key(id@)
            &&& v.queued.contains_key(id@) ==> w == v
            &&& !v.queued.contains_key(id@) && !v.discarded.contains(id@) ==> w.to_gossip
                == v.to_gossip.push(Queued { id, item }) && w.to_regossip == v.to_regossip
                && w.discarded == v.discarded
            &&& !v.queued.contains_key(id@) && v.discarded.contains(id@) ==> w.to_regossip
                == v.to_regossip.push(Sent { at: now, id, item }) && w.to_gossip == v.to_gossip
            &&& forall|k: Seq<u8>|
                k != id@ ==> (#[trigger] w.queued.contains_key(k) <==> v.queued.contains_key(k))
        }),
{
}

/// The first item that waits is pushed where it is still known and can be
/// written, and then counts as pushed now; otherwise it is given up, and
/// remembered where it is no longer known.
pub proof fn the_first_item_is_pushed<T>(v: PushView<T>, a: Answer, now: u64)
    requires
        v.to_gossip.len() > 0,
        v.capacity > 0,
        v.discarded.no_duplicates(),
    ensures
        ({
            let q = v.to_gossip[0];
            let (w, b) = v.push_one(a, now);
            &&& w.to_gossip == v.to_gossip.skip(1)
            &&& a.known && a.bytes is Some ==> b == a.bytes && w.to_regossip == v.to_regossip.push(
                Sent { at: now, id: q.id, item: q.item },
            ) && w.queued == v.queued && w.discarded == v.discarded
            &&& !(a.known && a.bytes is Some) ==> b is None && w.to_regossip == v.to_regossip
                && !w.queued.contains_key(q.id@)
            &&& !a.known ==> w.discarded.contains(q.id@)
            &&& a.known ==> w.discarded == v.discarded
        }),
{
    let q = v.to_gossip[0];
    assert(v.to_gossip.drop_first() =~= v.to_gossip.skip(1));
    lemma_noted(v.discarded, q.id@, v.capacity);
}

/// The item that was pushed longest ago is pushed again where it is still known
/// and can be written, and then stands behind the others as pushed now;
/// otherwise it is given up, and remembered where it is no longer known.
pub proof fn the_oldest_item_is_pushed_again<T>(v: PushView<T>, a: Answer, now: u64)
    requires
        v.to_regossip.len() > 0,
        v.capacity > 0,
        v.discarded.no_duplicates(),
    ensures
        ({
            let q = v.to_regossip[0];
            let (w, b) = v.push_again(a, now);
            &&& w.to_gossip == v.to_gossip
            &&& a.known && a.bytes is Some ==> b == a.bytes && w.to_regossip
                == v.to_regossip.skip(1).push(Sent { at: now, id: q.id, item: q.item })
                && w.queued == v.queued && w.discarded == v.discarded
            &&& !(a.known && a.bytes is Some) ==> b is None && w.to_regossip
                == v.to_regossip.skip(1) && !w.queued.contains_key(q.id@)
            &&& !a.known ==> w.discarded.contains(q.id@)
            &&& a.known ==> w.discarded == v.discarded
        }),
{
    let q = v.to_regossip[0];
    assert(v.to_regossip.drop_first() =~= v.to_regossip.skip(1));
    lemma_noted(v.discarded, q.id@, v.capacity);
}

proof fn lemma_noted(s: Seq<Seq<u8>>, id: Seq<u8>, capacity: usize)
    requires
        capacity > 0,
        s.no_duplicates(),
    ensures
        noted(s, id, capacity).contains(id),
{
    let t = without(s, id).push(id);
    if t.len() > capacity {
        assert(t.drop_first()[t.len() - 2] == id);
    } else {
        assert(t[t.len() - 1] == id);
    }
}

/// An item is due again once the period is over since it was pushed, and not
/// before.
pub proof fn items_are_due_after_the_period(now: u64, at: u64, period: u64)
    ensures
        now >= at ==> (due(now, at, period) <==> now - at >= period),
        now < at ==> (due(now, at, period) <==> period == 0),
{
}

proof fn lemma_pushed<T>(v: PushView<T>, answers: Seq<Answer>, now: u64, n: nat)
    requires
        n <= v.to_gossip.len(),
    ensures
        pushed(v, answers, now, n).0.to_gossip == v.to_gossip.skip(n as int),
        pushed(v, answers, now, n).1.len() <= n,
    decreases n,
{
    if n == 0 {
        assert(v.to_gossip.skip(0) =~= v.to_gossip);
    } else {
        lemma_pushed(v, answers, now, (n - 1) as nat);
        assert(v.to_gossip.skip(n - 1).drop_first() =~= v.to_gossip.skip(n as int));
    }
}

proof fn lemma_answers<T>(v: PushView<T>, answers: Seq<Answer>, now: u64, target: usize, n: nat)
    requires
        is_push(v, answers, now, target),
        n <= answers.len(),
    ensures
        n <= v.to_gossip.len(),
    decreases n,
{
    if n > 0 {
        let m = (n - 1) as nat;
        lemma_answers(v, answers, now, target, m);
        lemma_pushed(v, answers, now, m);
        assert(pushed(v, answers, now, m).0.to_gossip.len() > 0);
    }
}

/// Pushing takes items from the front of those that wait, and goes on until none
/// waits or the batch has the bytes that it should have. No more is pushed than
/// was taken.
pub proof fn pushing_takes_from_the_front<T: Gossipable, M: Marshaller<T>, S: GossipSet<T>>(
    q: &mut PushQueue<T>,
    m: &M,
    s: &S,
    target: usize,
    now: u64,
    r: Vec<Vec<u8>>,
)
    requires
        old(q).wf(),
        call_ensures(PushQueue::<T>::drain_push::<M, S>, (q, m, s, target, now), r),
    ensures
        ({
            let before = old(q)@.to_gossip;
            let after = final(q)@.to_gossip;
            &&& after.len() <= before.len()
            &&& after == before.skip(before.len() - after.len())
            &&& r@.len() <= before.len() - after.len()
            &&& after.len() == 0 || bytes_in(Seq::new(r@.len(), |i: int| r@[i]@)) >= target
        }),
{
    let v = old(q)@;
    let answers = choose|answers: Seq<Answer>|
        {
            &&& #[trigger] is_push(v, answers, now, target)
            &&& crate::p2p::gossip::push::told_of_new(m, s, v, answers, now)
            &&& (final(q)@, blobs(r@)) == pushed(v, answers, now, answers.len())
        };
    lemma_answers(v, answers, now, target, answers.len());
    lemma_pushed(v, answers, now, answers.len());
    let batch = Seq::new(r@.len(), |i: int| r@[i]@);
    assert(batch =~= blobs(r@));
    lemma_batch_size(batch);
}

/// An id that was given up is remembered, before all others; one that was
/// touched too. Others are, but for the one that was touched longest ago where
/// there is no room.
pub proof fn given_up_ids_are_remembered(
    c: &mut DiscardedCache,
    id: Id,
    other: Seq<u8>,
)
    requires
        old(c).wf(),
        old(c).limit() > 0,
        old(c)@.no_duplicates(),
        call_ensures(DiscardedCache::insert, (c, id), ()),
    ensures
        final(c)@.contains(id@),
        final(c)@.last() == id@,
        old(c)@.len() < old(c).limit() && old(c)@.contains(other) ==> final(c)@.contains(other),
        final(c)@.contains(other) && other != id@ ==> old(c)@.contains(other),
{
    let s = old(c)@;
    lemma_noted(s, id@, old(c).limit());
    let w = without(s, id@);
    let t = w.push(id@);
    if s.contains(other) && other != id@ {
        let i = s.index_of(other);
        if s.contains(id@) {
            let p = s.index_of(id@);
            let j = if i < p {
                i
            } else {
                i - 1
            };
            assert(w[j] == other);
        }
        assert(w.contains(other));
        let j = w.index_of(other);
        assert(t[j] == other);
    }
    if final(c)@.contains(other) && other != id@ {
        let j = final(c)@.index_of(other);
        assert(t.contains(other)) by {
            if t.len() > old(c).limit() {
                assert(t[j + 1] == other);
            } else {
                assert(t[j] == other);
            }
        }
        let k = t.index_of(other);
        assert(w[k] == other);
        if s.contains(id@) {
            let p = s.index_of(id@);
            if k < p {
                assert(s[k] == other);
            } else {
                assert(s[k + 1] == other);
            }
        }
    }
}

/// What a peer gives is added where it can be read and the set takes it, and
/// what became of it is told.
pub proof fn what_peers_give_is_added<T: Gossipable, M: Marshaller<T>, S: GossipSet<T>>(
    m: &M,
    s: &S,
    bytes: &[u8],
    r: Admission,
)
    requires
        call_ensures(take_in::<T, M, S>, (m, s, bytes), r),
    ensures
        r == Admission::Malformed ==> exists|e: Error| #[trigger]
            call_ensures(M::unmarshal, (m, bytes), Err::<T, Error>(e)),
        r == Admission::Admitted ==> exists|item: T, added: Result<()>|
            call_ensures(M::unmarshal, (m, bytes), Ok::<T, Error>(item)) && #[trigger] call_ensures(
                S::add,
                (s, item),
                added,
            ) && added is Ok,
        r == Admission::Refused ==> exists|item: T, e: Error|
            call_ensures(M::unmarshal, (m, bytes), Ok::<T, Error>(item)) && #[trigger] call_ensures(
                S::add,
                (s, item),
                Err::<(), Error>(e),
            ),
{
    let read = choose|read: Result<T>| #[trigger]
        call_ensures(M::unmarshal, (m, bytes), read) && match read {
            Err(_) => r == Admission::Malformed,
            Ok(item) => exists|added: Result<()>| #[trigger]
                call_ensures(S::add, (s, item), added) && r == if added is Ok {
                    Admission::Admitted
                } else {
                    Admission::Refused
                },
        };
    match read {
        Err(e) => {
            assert(call_ensures(M::unmarshal, (m, bytes), Err::<T, Error>(e)));
        },
        Ok(item) => {
            let added = choose|added: Result<()>| #[trigger]
                call_ensures(S::add, (s, item), added) && r == if added is Ok {
                    Admission::Admitted
                } else {
                    Admission::Refused
                };
            assert(call_ensures(M::unmarshal, (m, bytes), Ok::<T, Error>(item)));
            match added {
                Ok(_) => {},
                Err(e) => {
                    assert(call_ensures(S::add, (s, item), Err::<(), Error>(e)));
                },
            }
        },
    }
}

/// What was added to a set of known items is known, and so is what was known
/// before.
pub proof fn added_items_are_known(
    b: &mut BloomSet,
    after: &BloomSet,
    id: &Id,
    other: &Id,
    was: bool,
    now: bool,
    own: bool,
)
    requires
        old(b).wf(),
        call_ensures(BloomSet::add, (b, id), ()),
        *after == *final(b),
        call_ensures(BloomSet::has, (after, id), own),
        call_ensures(BloomSet::has, (after, other), now),
        was == crate::p2p::gossip::bloom::knows(old(b).filter(), old(b).salted_with(), other@),
    ensures
        own,
        was ==> now,
{
}

proof fn lemma_answer_holds(
    seeds: Seq<u64>,
    entries: Seq<u8>,
    salt: Seq<u8>,
    offers: Seq<Offer>,
    target: usize,
    n: nat,
    i: int,
)
    requires
        0 <= i < n <= offers.len(),
        answered(seeds, entries, salt, offers, target, n) is Some,
        !holds(seeds, entries, bloom_hash(offers[i].id@, salt)),
        !is_full(answered(seeds, entries, salt, offers, target, n)->0, target),
    ensures
        offers[i].bytes is Some,
        (answered(seeds, entries, salt, offers, target, n)->0).contains(offers[i].bytes->0@),
    decreases n,
{
    let m = (n - 1) as nat;
    let before = answered(seeds, entries, salt, offers, target, m)->0;
    let now = answered(seeds, entries, salt, offers, target, n)->0;
    assert(!is_full(before, target)) by {
        if now != before {
            assert(now.drop_last() =~= before);
        }
    }
    if i < m {
        lemma_answer_holds(seeds, entries, salt, offers, target, m, i);
        let x = before.index_of(offers[i].bytes->0@);
        assert(now[x] == before[x]);
    } else {
        assert(now[now.len() - 1] == offers[i].bytes->0@);
    }
}

/// A request that can be read is answered with every item offered that the
/// filter does not hold, unless the answer is large enough before; one that
/// cannot be read is refused.
pub proof fn what_is_missing_is_answered(
    msg: &[u8],
    offers: Vec<Offer>,
    target: usize,
    r: core::result::Result<Vec<u8>, AppError>,
    seeds: Seq<u64>,
    entries: Seq<u8>,
    salt: Seq<u8>,
    batch: Seq<Seq<u8>>,
    i: int,
)
    requires
        call_ensures(answer_pull, (msg, offers, target), r),
        asked(msg@) == Some((seeds, entries, salt)),
        answered(seeds, entries, salt, offers@, target, offers@.len()) == Some(batch),
    ensures
        r is Ok && r->Ok_0@ == repeated_field(1, batch),
        0 <= i < offers@.len() && !holds(seeds, entries, bloom_hash(offers@[i].id@, salt))
            && bytes_in(batch) <= target ==> offers@[i].bytes is Some && batch.contains(
            offers@[i].bytes->0@,
        ),
{
    lemma_batch_size(batch);
    if 0 <= i < offers@.len() && !holds(seeds, entries, bloom_hash(offers@[i].id@, salt))
        && bytes_in(batch) <= target {
        lemma_answer_holds(seeds, entries, salt, offers@, target, offers@.len(), i);
    }
}

/// What is put into the queue waits in it, and whatever waited before still does.
pub proof fn what_is_queued_waits<T>(
    q: &mut PushQueue<T>,
    id: Id,
    item: T,
    now: u64,
    k: Seq<u8>,
)
    requires
        old(q).wf(),
        call_ensures(PushQueue::<T>::enqueue, (q, id, item, now), ()),
    ensures
        final(q).wf(),
        final(q)@.queued.contains_key(id@),
        old(q)@.queued.contains_key(k) ==> final(q)@.queued.contains_key(k),
        !old(q)@.queued.contains_key(id@) && !old(q)@.discarded.contains(id@)
            ==> final(q)@.to_gossip.last() == (Queued { id, item }),
        old(q)@.queued.contains_key(id@) ==> final(q)@ == old(q)@,
{
    a_new_item_waits_to_be_pushed(old(q)@, id, item, now);
}

} // verus!
