//! The items that are pushed to peers, once and then again from time to time.
use std::collections::VecDeque;
use vstd::prelude::*;

use crate::collections::ordmap::{Key, OrdMap};
use crate::ids::Id;
use crate::p2p::error::{Error, Result};
use crate::p2p::gossip::traits::{GossipSet, Gossipable, Marshaller};
use crate::p2p::pb::blobs;

verus! {

/// `s` without `id`.
pub open spec fn without(s: Seq<Seq<u8>>, id: Seq<u8>) -> Seq<Seq<u8>> {
    if s.contains(id) {
        s.remove(s.index_of(id))
    } else {
        s
    }
}

/// `s` with `id` as its last, and without its first where it is too long then.
pub open spec fn noted(s: Seq<Seq<u8>>, id: Seq<u8>, capacity: usize) -> Seq<Seq<u8>> {
    let t = without(s, id).push(id);
    if t.len() > capacity {
        t.drop_first()
    } else {
        t
    }
}

/// `s` with `id` as its last, if it is in there.
pub open spec fn touched(s: Seq<Seq<u8>>, id: Seq<u8>) -> Seq<Seq<u8>> {
    if s.contains(id) {
        without(s, id).push(id)
    } else {
        s
    }
}

/// The ids that were given up last, the one that was touched longest ago first.
pub struct DiscardedCache {
    entries: Vec<Id>,
    capacity: usize,
}

impl View for DiscardedCache {
    type V = Seq<Seq<u8>>;

    closed spec fn view(&self) -> Seq<Seq<u8>> {
        self.entries@.map_values(|x: Id| x@)
    }
}

proof fn lemma_without(s: Seq<Seq<u8>>, id: Seq<u8>)
    requires
        s.no_duplicates(),
    ensures
        without(s, id).no_duplicates(),
        !without(s, id).contains(id),
        forall|k: Seq<u8>|
            k != id ==> (#[trigger] without(s, id).contains(k) <==> s.contains(k)),
        without(s, id).len() <= s.len(),
        s.contains(id) ==> without(s, id).len() == s.len() - 1,
{
    if s.contains(id) {
        let p = s.index_of(id);
        let r = s.remove(p);
        assert forall|i: int, j: int|
            0 <= i < r.len() && 0 <= j < r.len() && i != j implies r[i] != r[j] by {
            let i2 = if i < p {
                i
            } else {
                i + 1
            };
            let j2 = if j < p {
                j
            } else {
                j + 1
            };
            assert(s[i2] != s[j2]);
        }
        if r.contains(id) {
            let i = r.index_of(id);
            let i2 = if i < p {
                i
            } else {
                i + 1
            };
            assert(s[i2] == s[p]);
        }
        assert forall|k: Seq<u8>| k != id implies (#[trigger] r.contains(k) <==> s.contains(k)) by {
            if r.contains(k) {
                let i = r.index_of(k);
                let i2 = if i < p {
                    i
                } else {
                    i + 1
                };
                assert(s[i2] == k);
            }
            if s.contains(k) {
                let i = s.index_of(k);
                let i2 = if i < p {
                    i
                } else {
                    i - 1
                };
                assert(r[i2] == k);
            }
        }
    }
}

proof fn lemma_push_distinct(s: Seq<Seq<u8>>, id: Seq<u8>)
    requires
        s.no_duplicates(),
        !s.contains(id),
    ensures
        s.push(id).no_duplicates(),
        s.push(id).drop_first().no_duplicates(),
{
    let t = s.push(id);
    assert forall|i: int, j: int|
        0 <= i < t.len() && 0 <= j < t.len() && i != j implies t[i] != t[j] by {
        if i == s.len() {
            assert(s[j] != id);
        } else if j == s.len() {
            assert(s[i] != id);
        }
    }
}

impl DiscardedCache {
    /// How many ids are kept at most.
    pub closed spec fn limit(&self) -> usize {
        self.capacity
    }

    /// No id is kept twice, and no more of them than may be.
    pub open spec fn wf(&self) -> bool {
        &&& self@.no_duplicates()
        &&& self@.len() <= self.limit()
        &&& self.limit() >= 1
    }

    /// No ids. At least one can be kept.
    pub fn new(capacity: usize) -> (r: DiscardedCache)
        ensures
            r.wf(),
            r@ == Seq::<Seq<u8>>::empty(),
            r.limit() == if capacity == 0 {
                1
            } else {
                capacity
            },
    {
        let r = DiscardedCache {
            entries: Vec::new(),
            capacity: if capacity == 0 {
                1
            } else {
                capacity
            },
        };
        assert(r@ =~= Seq::empty());
        r
    }

    fn position(&self, id: &Id) -> (r: Option<usize>)
        requires
            self.wf(),
        ensures
            r is Some <==> self@.contains(id@),
            r matches Some(i) ==> i < self@.len() && i == self@.index_of(id@),
    {
        let n: usize = self.entries.len();
        let mut i: usize = 0;
        while i < n
            invariant
                i <= n,
                n == self.entries@.len(),
                self@.no_duplicates(),
                forall|j: int| 0 <= j < i ==> (#[trigger] self@[j]) != id@,
            decreases n - i,
        {
            assert(self@[i as int] == self.entries@[i as int]@);
            if self.entries[i].same(id) {
                assert(self@.contains(id@));
                assert(self@[self@.index_of(id@)] == id@);
                return Some(i);
            }
            i += 1;
        }
        None
    }

    /// Whether `id` is kept. One that is counts as touched.
    pub fn contains(&mut self, id: &Id) -> (r: bool)
        requires
            old(self).wf(),
        ensures
            final(self).wf(),
            final(self).limit() == old(self).limit(),
            r == old(self)@.contains(id@),
            final(self)@ == touched(old(self)@, id@),
    {
        match self.position(id) {
            Some(i) => {
                let ghost before = self@;
                let x = self.entries.remove(i);
                self.entries.push(x);
                proof {
                    lemma_without(before, id@);
                    lemma_push_distinct(without(before, id@), id@);
                    assert(self@ =~= without(before, id@).push(id@));
                }
                true
            },
            None => false,
        }
    }

    /// Keeps `id`, in place of the one that was touched longest ago where there
    /// is no room.
    pub fn insert(&mut self, id: Id)
        requires
            old(self).wf(),
        ensures
            final(self).wf(),
            final(self).limit() == old(self).limit(),
            final(self)@ == noted(old(self)@, id@, old(self).limit()),
    {
        let ghost before = self@;
        proof {
            lemma_without(before, id@);
            lemma_push_distinct(without(before, id@), id@);
        }
        if let Some(i) = self.position(&id) {
            let _ = self.entries.remove(i);
        }
        assert(self@ =~= without(before, id@));
        self.entries.push(id);
        assert(self@ =~= without(before, id@).push(id@));
        if self.entries.len() > self.capacity {
            let _ = self.entries.remove(0);
            assert(self@ =~= without(before, id@).push(id@).drop_first());
        }
    }
}

/// An item that was not pushed yet.
pub struct Queued<T> {
    /// The id of the item.
    pub id: Id,
    /// The item.
    pub item: T,
}

/// An item that was pushed.
pub struct Sent<T> {
    /// When it was pushed last.
    pub at: u64,
    /// The id of the item.
    pub id: Id,
    /// The item.
    pub item: T,
}

/// The items that are pushed to peers.
pub struct PushQueue<T> {
    queued: OrdMap<Id, ()>,
    to_gossip: VecDeque<Queued<T>>,
    to_regossip: VecDeque<Sent<T>>,
    discarded: DiscardedCache,
}

/// What a [`PushQueue`] holds.
#[verifier::ext_equal]
pub struct PushView<T> {
    /// The ids of the items in either queue.
    pub queued: Map<Seq<u8>, ()>,
    /// The items that were not pushed yet, the first one first.
    pub to_gossip: Seq<Queued<T>>,
    /// The items that were pushed, the one that was pushed longest ago first.
    pub to_regossip: Seq<Sent<T>>,
    /// The ids that were given up last.
    pub discarded: Seq<Seq<u8>>,
    /// How many of those are kept.
    pub capacity: usize,
}

/// What those say of an item who keep the items: whether it is known, and its
/// bytes, if it has any.
pub struct Answer {
    /// Whether the item is known.
    pub known: bool,
    /// The bytes of the item, if it can be written.
    pub bytes: Option<Seq<u8>>,
}

impl<T> PushView<T> {
    /// The ids of the items in both queues.
    pub open spec fn ids(self) -> Seq<Seq<u8>> {
        self.to_gossip.map_values(|q: Queued<T>| q.id@) + self.to_regossip.map_values(
            |q: Sent<T>| q.id@,
        )
    }

    /// An item is in one queue, and there once, exactly while its id is noted.
    pub open spec fn consistent(self) -> bool {
        &&& self.ids().no_duplicates()
        &&& forall|k: Seq<u8>| #[trigger] self.queued.contains_key(k) <==> self.ids().contains(k)
    }

    /// With `item`: it is pushed next, unless it is queued already. One that was given
    /// up lately counts as just pushed.
    pub open spec fn added(self, id: Id, item: T, now: u64) -> PushView<T> {
        if self.queued.contains_key(id@) {
            self
        } else if self.discarded.contains(id@) {
            PushView {
                queued: self.queued.insert(id@, ()),
                to_regossip: self.to_regossip.push(Sent { at: now, id, item }),
                discarded: touched(self.discarded, id@),
                ..self
            }
        } else {
            PushView {
                queued: self.queued.insert(id@, ()),
                to_gossip: self.to_gossip.push(Queued { id, item }),
                ..self
            }
        }
    }

    /// Without `id`, which is remembered as given up where it is not `known`.
    pub open spec fn given_up(self, id: Seq<u8>, known: bool) -> PushView<T> {
        PushView {
            queued: self.queued.remove(id),
            discarded: if known {
                self.discarded
            } else {
                noted(self.discarded, id, self.capacity)
            },
            ..self
        }
    }

    /// After the first item was handled that was not pushed yet, and the bytes
    /// to push, if there are any. An item that is no longer known is given up,
    /// and so is one that cannot be written.
    pub open spec fn push_one(self, a: Answer, now: u64) -> (PushView<T>, Option<Seq<u8>>) {
        let q = self.to_gossip[0];
        let rest = PushView { to_gossip: self.to_gossip.drop_first(), ..self };
        if a.known && a.bytes is Some {
            (
                PushView {
                    to_regossip: self.to_regossip.push(Sent { at: now, id: q.id, item: q.item }),
                    ..rest
                },
                a.bytes,
            )
        } else {
            (rest.given_up(q.id@, a.known), None)
        }
    }

    /// After the item was handled that was pushed longest ago, and the bytes to
    /// push again, if there are any.
    pub open spec fn push_again(self, a: Answer, now: u64) -> (PushView<T>, Option<Seq<u8>>) {
        let q = self.to_regossip[0];
        let rest = PushView { to_regossip: self.to_regossip.drop_first(), ..self };
        if a.known && a.bytes is Some {
            (
                PushView {
                    to_regossip: rest.to_regossip.push(
                        Sent { at: now, id: q.id, item: q.item },
                    ),
                    ..rest
                },
                a.bytes,
            )
        } else {
            (rest.given_up(q.id@, a.known), None)
        }
    }
}

/// The batch with the bytes, if there are any.
pub open spec fn with_bytes(batch: Seq<Seq<u8>>, b: Option<Seq<u8>>) -> Seq<Seq<u8>> {
    match b {
        Some(x) => batch.push(x),
        None => batch,
    }
}

/// How many bytes a batch takes.
pub open spec fn batch_size(batch: Seq<Seq<u8>>) -> nat
    decreases batch.len(),
{
    if batch.len() == 0 {
        0
    } else {
        batch_size(batch.drop_last()) + batch.last().len()
    }
}

/// After the first `n` items were handled, with the batch to push.
pub open spec fn pushed<T>(v: PushView<T>, answers: Seq<Answer>, now: u64, n: nat) -> (
    PushView<T>,
    Seq<Seq<u8>>,
)
    decreases n,
{
    if n == 0 {
        (v, Seq::empty())
    } else {
        let (w, batch) = pushed(v, answers, now, (n - 1) as nat);
        let (x, b) = w.push_one(answers[n - 1], now);
        (x, with_bytes(batch, b))
    }
}

/// After `n` items were handled that were pushed before, with the batch to push
/// again.
pub open spec fn pushed_again<T>(v: PushView<T>, answers: Seq<Answer>, now: u64, n: nat) -> (
    PushView<T>,
    Seq<Seq<u8>>,
)
    decreases n,
{
    if n == 0 {
        (v, Seq::empty())
    } else {
        let (w, batch) = pushed_again(v, answers, now, (n - 1) as nat);
        let (x, b) = w.push_again(answers[n - 1], now);
        (x, with_bytes(batch, b))
    }
}

/// Whether an item that was pushed at `at` is to be pushed again.
pub open spec fn due(now: u64, at: u64, period: u64) -> bool {
    (if now < at {
        0
    } else {
        now - at
    }) >= period
}

/// Whether there is more to push: an item waits and the batch is not full.
pub open spec fn goes_on<T>(v: PushView<T>, batch: Seq<Seq<u8>>, target: usize) -> bool {
    v.to_gossip.len() > 0 && batch_size(batch) < target
}

/// Whether there is more to push again: the item that was pushed longest ago is
/// due, and the batch is not full.
pub open spec fn goes_on_again<T>(
    v: PushView<T>,
    batch: Seq<Seq<u8>>,
    target: usize,
    now: u64,
    period: u64,
) -> bool {
    v.to_regossip.len() > 0 && batch_size(batch) < target && due(now, v.to_regossip[0].at, period)
}

/// Whether `answers` are those that a push takes: as long as there is more to
/// push, and no longer.
pub open spec fn is_push<T>(v: PushView<T>, answers: Seq<Answer>, now: u64, target: usize) -> bool {
    &&& forall|n: nat|
        n < answers.len() ==> goes_on(
            (#[trigger] pushed(v, answers, now, n)).0,
            pushed(v, answers, now, n).1,
            target,
        )
    &&& !goes_on(
        pushed(v, answers, now, answers.len()).0,
        pushed(v, answers, now, answers.len()).1,
        target,
    )
}

/// Whether `answers` are those that a push of what was pushed before takes.
pub open spec fn is_push_again<T>(
    v: PushView<T>,
    answers: Seq<Answer>,
    now: u64,
    target: usize,
    period: u64,
) -> bool {
    &&& forall|n: nat|
        n < answers.len() ==> goes_on_again(
            (#[trigger] pushed_again(v, answers, now, n)).0,
            pushed_again(v, answers, now, n).1,
            target,
            now,
            period,
        )
    &&& !goes_on_again(
        pushed_again(v, answers, now, answers.len()).0,
        pushed_again(v, answers, now, answers.len()).1,
        target,
        now,
        period,
    )
}

/// Whether `a` is what `set` and `marshaller` say of an item. One that is not
/// known is not written.
pub open spec fn told_of<T: Gossipable, M: Marshaller<T>, S: GossipSet<T>>(
    marshaller: &M,
    set: &S,
    id: Id,
    item: T,
    a: Answer,
) -> bool {
    &&& call_ensures(S::has, (set, &id), a.known)
    &&& if a.known {
        exists|written: Result<Vec<u8>>| #[trigger]
            call_ensures(M::marshal, (marshaller, &item), written) && a.bytes == match written {
                Ok(b) => Some(b@),
                Err(_) => None,
            }
    } else {
        a.bytes is None
    }
}

/// Whether `marshaller` writes no item as nothing.
pub open spec fn writes_something<T, M: Marshaller<T>>(marshaller: &M) -> bool {
    forall|item: &T, b: Vec<u8>| #[trigger]
        call_ensures(M::marshal, (marshaller, item), Ok::<Vec<u8>, Error>(b)) ==> b@.len() > 0
}

/// Whether `answers` are what `set` and `marshaller` say of the items to push,
/// one after the other.
pub open spec fn told_of_new<T: Gossipable, M: Marshaller<T>, S: GossipSet<T>>(
    marshaller: &M,
    set: &S,
    v: PushView<T>,
    answers: Seq<Answer>,
    now: u64,
) -> bool {
    forall|n: nat|
        n < answers.len() ==> {
            let q = (#[trigger] pushed(v, answers, now, n)).0.to_gossip[0];
            told_of(marshaller, set, q.id, q.item, answers[n as int])
        }
}

/// Whether `answers` are what `set` and `marshaller` say of the items to push
/// again, one after the other.
pub open spec fn told_of_sent<T: Gossipable, M: Marshaller<T>, S: GossipSet<T>>(
    marshaller: &M,
    set: &S,
    v: PushView<T>,
    answers: Seq<Answer>,
    now: u64,
) -> bool {
    forall|n: nat|
        n < answers.len() ==> {
            let q = (#[trigger] pushed_again(v, answers, now, n)).0.to_regossip[0];
            told_of(marshaller, set, q.id, q.item, answers[n as int])
        }
}

proof fn lemma_pushed_prefix<T>(v: PushView<T>, answers: Seq<Answer>, a: Answer, now: u64, n: nat)
    requires
        n <= answers.len(),
    ensures
        pushed(v, answers.push(a), now, n) == pushed(v, answers, now, n),
    decreases n,
{
    if n > 0 {
        lemma_pushed_prefix(v, answers, a, now, (n - 1) as nat);
        assert(answers.push(a)[n - 1] == answers[n - 1]);
    }
}

proof fn lemma_pushed_again_prefix<T>(
    v: PushView<T>,
    answers: Seq<Answer>,
    a: Answer,
    now: u64,
    n: nat,
)
    requires
        n <= answers.len(),
    ensures
        pushed_again(v, answers.push(a), now, n) == pushed_again(v, answers, now, n),
    decreases n,
{
    if n > 0 {
        lemma_pushed_again_prefix(v, answers, a, now, (n - 1) as nat);
        assert(answers.push(a)[n - 1] == answers[n - 1]);
    }
}

/// `a` without its first id, then `b`, then the id again or not at all: no id is
/// there twice, and the first one only if it came again.
proof fn lemma_moved(a: Seq<Seq<u8>>, b: Seq<Seq<u8>>)
    requires
        a.len() > 0,
        (a + b).no_duplicates(),
    ensures
        (a.drop_first() + b).no_duplicates(),
        (a.drop_first() + b.push(a[0])).no_duplicates(),
        forall|k: Seq<u8>| #[trigger]
            (a.drop_first() + b).contains(k) <==> (a + b).contains(k) && k != a[0],
        forall|k: Seq<u8>| #[trigger]
            (a.drop_first() + b.push(a[0])).contains(k) <==> (a + b).contains(k),
{
    let s = a + b;
    let x = a[0];
    let r = a.drop_first() + b;
    assert(s[0] == x);
    assert forall|i: int| 0 <= i < r.len() implies #[trigger] r[i] == s[i + 1] by {
    }
    assert forall|i: int, j: int|
        0 <= i < r.len() && 0 <= j < r.len() && i != j implies r[i] != r[j] by {
        assert(s[i + 1] != s[j + 1]);
    }
    assert(!r.contains(x)) by {
        if r.contains(x) {
            let i = r.index_of(x);
            assert(s[i + 1] == s[0]);
        }
    }
    assert forall|k: Seq<u8>| #[trigger] r.contains(k) <==> s.contains(k) && k != x by {
        if r.contains(k) {
            let i = r.index_of(k);
            assert(s[i + 1] == k);
        }
        if s.contains(k) && k != x {
            let i = s.index_of(k);
            assert(r[i - 1] == k);
        }
    }
    lemma_push_distinct(r, x);
    assert(a.drop_first() + b.push(x) =~= r.push(x));
    assert forall|k: Seq<u8>| #[trigger] r.push(x).contains(k) <==> s.contains(k) by {
        if s.contains(k) {
            if k == x {
                assert(r.push(x)[r.len() as int] == k);
            } else {
                assert(r.contains(k));
                assert(r.push(x)[r.index_of(k)] == k);
            }
        }
        if r.push(x).contains(k) {
            let i = r.push(x).index_of(k);
            if i < r.len() {
                assert(r[i] == k);
                assert(r.contains(k));
            } else {
                assert(s[0] == k);
            }
        }
    }
}

/// Handling an item keeps the queues consistent.
pub proof fn pushing_keeps_the_queues_consistent<T>(v: PushView<T>, a: Answer, now: u64)
    requires
        v.consistent(),
    ensures
        v.to_gossip.len() > 0 ==> v.push_one(a, now).0.consistent(),
        v.to_regossip.len() > 0 ==> v.push_again(a, now).0.consistent(),
{
    let g = v.to_gossip.map_values(|q: Queued<T>| q.id@);
    let s = v.to_regossip.map_values(|q: Sent<T>| q.id@);
    if v.to_gossip.len() > 0 {
        lemma_moved(g, s);
        let w = v.push_one(a, now).0;
        assert(w.to_gossip.map_values(|q: Queued<T>| q.id@) =~= g.drop_first());
        if a.known && a.bytes is Some {
            assert(w.to_regossip.map_values(|q: Sent<T>| q.id@) =~= s.push(g[0]));
            assert(w.ids() == g.drop_first() + s.push(g[0]));
        } else {
            assert(w.ids() == g.drop_first() + s);
        }
        assert forall|k: Seq<u8>| #[trigger] w.queued.contains_key(k) <==> w.ids().contains(
            k,
        ) by {
            assert(v.queued.contains_key(k) <==> v.ids().contains(k));
        }
    }
    if v.to_regossip.len() > 0 {
        // The queues the other way round hold the same ids.
        lemma_turned(g, s);
        lemma_moved(s, g);
        let w = v.push_again(a, now).0;
        assert(w.to_gossip.map_values(|q: Queued<T>| q.id@) =~= g);
        let sent = w.to_regossip.map_values(|q: Sent<T>| q.id@);
        if a.known && a.bytes is Some {
            assert(sent =~= s.drop_first().push(s[0]));
        } else {
            assert(sent =~= s.drop_first());
        }
        lemma_moved(s, g);
        lemma_turned(s.drop_first(), g);
        if a.known && a.bytes is Some {
            assert(!(s.drop_first() + g).contains(s[0]));
            assert(!(g + s.drop_first()).contains(s[0])) by {
                assert((s.drop_first() + g).contains(s[0]) <==> (g + s.drop_first()).contains(
                    s[0],
                ));
            }
            lemma_push_distinct(g + s.drop_first(), s[0]);
            assert(g + s.drop_first().push(s[0]) =~= (g + s.drop_first()).push(s[0]));
        }
        assert(w.ids() == g + sent);
        assert forall|k: Seq<u8>| #[trigger] w.queued.contains_key(k) <==> w.ids().contains(
            k,
        ) by {
            assert(v.queued.contains_key(k) <==> v.ids().contains(k));
            assert((s.drop_first() + g).contains(k) <==> (g + s.drop_first()).contains(k));
            assert((g + s).contains(k) <==> (s + g).contains(k));
            assert((s.drop_first() + g).contains(k) <==> (s + g).contains(k) && k != s[0]);
            if a.known && a.bytes is Some {
                let base = g + s.drop_first();
                if base.contains(k) {
                    assert(base.push(s[0])[base.index_of(k)] == k);
                }
                if k == s[0] {
                    assert(base.push(s[0])[base.len() as int] == k);
                    assert((s + g)[0] == k);
                }
                if base.push(s[0]).contains(k) {
                    let i = base.push(s[0]).index_of(k);
                    if i < base.len() {
                        assert(base[i] == k);
                    }
                }
            }
        }
    }
}

proof fn lemma_turned(a: Seq<Seq<u8>>, b: Seq<Seq<u8>>)
    ensures
        (a + b).no_duplicates() <==> (b + a).no_duplicates(),
        forall|k: Seq<u8>| #[trigger] (a + b).contains(k) <==> (b + a).contains(k),
{
    lemma_turned_one_way(a, b);
    lemma_turned_one_way(b, a);
    assert forall|k: Seq<u8>| #[trigger] (a + b).contains(k) <==> (b + a).contains(k) by {
    }
}

proof fn lemma_turned_one_way(a: Seq<Seq<u8>>, b: Seq<Seq<u8>>)
    ensures
        (a + b).no_duplicates() ==> (b + a).no_duplicates(),
        forall|k: Seq<u8>| #[trigger] (a + b).contains(k) ==> (b + a).contains(k),
{
    let s = a + b;
    let t = b + a;
    let m = a.len() as int;
    let n = b.len() as int;
    if s.no_duplicates() {
        assert forall|i: int, j: int|
            0 <= i < t.len() && 0 <= j < t.len() && i != j implies t[i] != t[j] by {
            let i2 = if i < n {
                i + m
            } else {
                i - n
            };
            let j2 = if j < n {
                j + m
            } else {
                j - n
            };
            assert(s[i2] != s[j2]);
        }
    }
    assert forall|k: Seq<u8>| #[trigger] s.contains(k) implies t.contains(k) by {
        let i = s.index_of(k);
        if i < m {
            assert(t[i + n] == k);
        } else {
            assert(t[i - m] == k);
        }
    }
}

/// Whether the items are in the order in which they were pushed.
pub open spec fn oldest_first<T>(s: Seq<Sent<T>>) -> bool {
    forall|i: int, j: int| 0 <= i < j < s.len() ==> (#[trigger] s[i]).at <= (#[trigger] s[j]).at
}

/// The items that were pushed stay in the order in which they were, as long as
/// time does not run backwards: so where the first one is not due, none is.
pub proof fn resending_keeps_the_order<T>(v: PushView<T>, a: Answer, now: u64, period: u64)
    requires
        oldest_first(v.to_regossip),
        v.to_regossip.len() > 0 ==> v.to_regossip.last().at <= now,
    ensures
        v.to_gossip.len() > 0 ==> oldest_first(v.push_one(a, now).0.to_regossip),
        v.to_regossip.len() > 0 ==> oldest_first(v.push_again(a, now).0.to_regossip),
        v.to_regossip.len() > 0 && !due(now, v.to_regossip[0].at, period) ==> forall|i: int|
            0 <= i < v.to_regossip.len() ==> !due(now, (#[trigger] v.to_regossip[i]).at, period),
{
    let s = v.to_regossip;
    assert forall|i: int| 0 <= i < s.len() implies (#[trigger] s[i]).at <= now by {
        if i < s.len() - 1 {
            assert(s[i].at <= s[s.len() - 1].at);
        }
    }
    if s.len() > 0 && !due(now, s[0].at, period) {
        assert forall|i: int| 0 <= i < s.len() implies !due(
            now,
            (#[trigger] s[i]).at,
            period,
        ) by {
            if i > 0 {
                assert(s[0].at <= s[i].at);
            }
        }
    }
}

impl<T> View for PushQueue<T> {
    type V = PushView<T>;

    closed spec fn view(&self) -> PushView<T> {
        PushView {
            queued: self.queued@,
            to_gossip: self.to_gossip@,
            to_regossip: self.to_regossip@,
            discarded: self.discarded@,
            capacity: self.discarded.limit(),
        }
    }
}

impl<T> PushQueue<T> {
    /// The queues are consistent, and so is what was given up.
    pub closed spec fn wf(&self) -> bool {
        &&& self.discarded.wf()
        &&& self@.consistent()
    }

    /// Empty queues, which remember `capacity` of the items that are given up.
    pub fn new(capacity: usize) -> (r: PushQueue<T>)
        ensures
            r.wf(),
            r@.consistent(),
            r@ == (PushView {
                queued: Map::<Seq<u8>, ()>::empty(),
                to_gossip: Seq::<Queued<T>>::empty(),
                to_regossip: Seq::<Sent<T>>::empty(),
                discarded: Seq::<Seq<u8>>::empty(),
                capacity: if capacity == 0 {
                    1
                } else {
                    capacity
                },
            }),
    {
        let r = PushQueue {
            queued: OrdMap::new(),
            to_gossip: VecDeque::new(),
            to_regossip: VecDeque::new(),
            discarded: DiscardedCache::new(capacity),
        };
        assert(r@.ids() =~= Seq::empty());
        r
    }

    /// Adds an item with the id given, at the time `now`.
    pub fn enqueue(&mut self, id: Id, item: T, now: u64)
        requires
            old(self).wf(),
        ensures
            final(self).wf(),
            final(self)@.consistent(),
            final(self)@ == old(self)@.added(id, item, now),
    {
        if self.queued.contains(&id) {
            return;
        }
        let ghost before = self@;
        let ghost g = before.to_gossip.map_values(|q: Queued<T>| q.id@);
        let ghost s = before.to_regossip.map_values(|q: Sent<T>| q.id@);
        self.queued.insert(id, ());
        if self.discarded.contains(&id) {
            self.to_regossip.push_back(Sent { at: now, id, item });
            proof {
                assert(self@ =~= before.added(id, item, now));
                assert(self@.to_regossip.map_values(|q: Sent<T>| q.id@) =~= s.push(id@));
                assert(self@.to_gossip.map_values(|q: Queued<T>| q.id@) =~= g);
                assert(self@.ids() =~= (g + s).push(id@));
            }
        } else {
            proof {
                assert(touched(before.discarded, id@) == before.discarded);
            }
            self.to_gossip.push_back(Queued { id, item });
            proof {
                assert(self@ =~= before.added(id, item, now));
                assert(self@.to_gossip.map_values(|q: Queued<T>| q.id@) =~= g.push(id@));
                assert(self@.to_regossip.map_values(|q: Sent<T>| q.id@) =~= s);
                lemma_turned(g.push(id@), s);
                assert(s + g.push(id@) =~= (s + g).push(id@));
                lemma_turned(g, s);
            }
        }
        proof {
            assert(!before.ids().contains(id@)) by {
                assert(before.queued.contains_key(id@) <==> before.ids().contains(id@));
            }
            lemma_turned(g, s);
            assert(!(s + g).contains(id@));
            lemma_push_distinct(g + s, id@);
            lemma_push_distinct(s + g, id@);
            assert forall|k: Seq<u8>| #[trigger] self@.queued.contains_key(k)
                <==> self@.ids().contains(k) by {
                assert(before.queued.contains_key(k) <==> before.ids().contains(k));
                lemma_pushed_contains(g + s, id@, k);
                lemma_pushed_contains(s + g, id@, k);
                assert((g + s).contains(k) <==> (s + g).contains(k));
            }
        }
    }

    /// Adds an item at the time `now`.
    pub fn add(&mut self, item: T, now: u64) where T: Gossipable
        requires
            old(self).wf(),
        ensures
            final(self).wf(),
            final(self)@.consistent(),
            exists|id: Id|
                final(self)@ == #[trigger] old(self)@.added(id, item, now) && call_ensures(
                    T::gossip_id,
                    (&item,),
                    id,
                ),
    {
        let id = item.gossip_id();
        self.enqueue(id, item, now);
    }

    /// Takes the batch of items to push at the time `now`: items are taken one
    /// after the other until none is left or the batch has `target` bytes. They
    /// are then among those that were pushed.
    pub fn drain_push<M: Marshaller<T>, S: GossipSet<T>>(
        &mut self,
        marshaller: &M,
        set: &S,
        target: usize,
        now: u64,
    ) -> (r: Vec<Vec<u8>>) where T: Gossipable
        requires
            old(self).wf(),
        ensures
            final(self).wf(),
            final(self)@.consistent(),
            exists|answers: Seq<Answer>|
                {
                    &&& #[trigger] is_push(old(self)@, answers, now, target)
                    &&& told_of_new(marshaller, set, old(self)@, answers, now)
                    &&& (final(self)@, blobs(r@)) == pushed(
                        old(self)@,
                        answers,
                        now,
                        answers.len(),
                    )
                },
    {
        let ghost start = self@;
        let ghost mut answers: Seq<Answer> = Seq::empty();
        let mut batch: Vec<Vec<u8>> = Vec::new();
        let mut sent: usize = 0;
        assert(blobs(batch@) =~= Seq::empty());
        while sent < target && self.to_gossip.len() > 0
            invariant
                start == old(self)@,
                self.wf(),
                sent == if batch_size(blobs(batch@)) > usize::MAX {
                    usize::MAX as nat
                } else {
                    batch_size(blobs(batch@))
                },
                (self@, blobs(batch@)) == pushed(start, answers, now, answers.len()),
                told_of_new(marshaller, set, start, answers, now),
                forall|n: nat|
                    n < answers.len() ==> goes_on(
                        (#[trigger] pushed(start, answers, now, n)).0,
                        pushed(start, answers, now, n).1,
                        target,
                    ),
            decreases self.to_gossip@.len(),
        {
            let ghost before = self@;
            let ghost bb = blobs(batch@);
            let ghost count = answers.len();
            if let Some(q) = self.to_gossip.pop_front() {
                let known = set.has(&q.id);
                let ghost mut ans = Answer { known, bytes: None };
                if !known {
                    self.queued.remove(&q.id);
                    self.discarded.insert(q.id);
                } else {
                    match marshaller.marshal(&q.item) {
                        Ok(bytes) => {
                            let len: usize = bytes.len();
                            sent = match sent.checked_add(len) {
                                Some(x) => x,
                                None => usize::MAX,
                            };
                            proof {
                                ans = Answer { known: true, bytes: Some(bytes@) };
                            }
                            let ghost bv = bytes@;
                            batch.push(bytes);
                            self.to_regossip.push_back(Sent { at: now, id: q.id, item: q.item });
                            proof {
                                assert(blobs(batch@) =~= bb.push(bv));
                                assert(bb.push(bv).drop_last() =~= bb);
                            }
                        },
                        Err(_) => {
                            self.queued.remove(&q.id);
                        },
                    }
                }
                assert(told_of(marshaller, set, q.id, q.item, ans));
                proof {
                    pushing_keeps_the_queues_consistent(before, ans, now);
                    assert(self@ =~= before.push_one(ans, now).0);
                    let next = answers.push(ans);
                    lemma_pushed_prefix(start, answers, ans, now, count);
                    assert(blobs(batch@) == with_bytes(bb, before.push_one(ans, now).1));
                    assert forall|n: nat| n < next.len() implies goes_on(
                        (#[trigger] pushed(start, next, now, n)).0,
                        pushed(start, next, now, n).1,
                        target,
                    ) by {
                        lemma_pushed_prefix(start, answers, ans, now, n);
                    }
                    assert forall|n: nat| n < next.len() implies {
                        let q = (#[trigger] pushed(start, next, now, n)).0.to_gossip[0];
                        told_of(marshaller, set, q.id, q.item, next[n as int])
                    } by {
                        lemma_pushed_prefix(start, answers, ans, now, n);
                    }
                    answers = next;
                }
            }
        }
        assert(is_push(start, answers, now, target));
        batch
    }

    /// Takes the batch of items to push again at the time `now`: those that
    /// were pushed `period` ago or more, one after the other until the next one
    /// is not due or the batch has `target` bytes. With no time between, items
    /// are due again at once, and what fills the batch is their bytes alone.
    pub fn drain_regossip<M: Marshaller<T>, S: GossipSet<T>>(
        &mut self,
        marshaller: &M,
        set: &S,
        target: usize,
        period: u64,
        now: u64,
    ) -> (r: Vec<Vec<u8>>) where T: Gossipable
        requires
            old(self).wf(),
            period > 0 || writes_something::<T, M>(marshaller),
        ensures
            final(self).wf(),
            final(self)@.consistent(),
            exists|answers: Seq<Answer>|
                {
                    &&& #[trigger] is_push_again(old(self)@, answers, now, target, period)
                    &&& told_of_sent(marshaller, set, old(self)@, answers, now)
                    &&& (final(self)@, blobs(r@)) == pushed_again(
                        old(self)@,
                        answers,
                        now,
                        answers.len(),
                    )
                },
    {
        let ghost start = self@;
        let ghost mut answers: Seq<Answer> = Seq::empty();
        let mut batch: Vec<Vec<u8>> = Vec::new();
        let mut sent: usize = 0;
        let ghost mut left: nat = self.to_regossip@.len();
        assert(blobs(batch@) =~= Seq::empty());
        while sent < target && self.to_regossip.len() > 0 && is_due(
            now,
            self.to_regossip[0].at,
            period,
        )
            invariant
                start == old(self)@,
                self.wf(),
                period > 0 || writes_something::<T, M>(marshaller),
                sent == if batch_size(blobs(batch@)) > usize::MAX {
                    usize::MAX as nat
                } else {
                    batch_size(blobs(batch@))
                },
                (self@, blobs(batch@)) == pushed_again(start, answers, now, answers.len()),
                told_of_sent(marshaller, set, start, answers, now),
                forall|n: nat|
                    n < answers.len() ==> goes_on_again(
                        (#[trigger] pushed_again(start, answers, now, n)).0,
                        pushed_again(start, answers, now, n).1,
                        target,
                        now,
                        period,
                    ),
                left <= self.to_regossip@.len(),
                forall|i: int|
                    left <= i < self.to_regossip@.len() ==> (#[trigger] self.to_regossip@[i]).at
                        == now,
            decreases
                    if period > 0 || sent >= target {
                        0
                    } else {
                        target - sent
                    },
                    if period > 0 {
                        left
                    } else {
                        self.to_regossip@.len()
                    },
        {
            let ghost before = self@;
            let ghost bb = blobs(batch@);
            let ghost count = answers.len();
            let ghost queue = self.to_regossip@;
            assert(period > 0 ==> left > 0) by {
                if left == 0 {
                    assert(queue[0].at == now);
                }
            }
            if let Some(q) = self.to_regossip.pop_front() {
                let known = set.has(&q.id);
                let ghost mut ans = Answer { known, bytes: None };
                if !known {
                    self.queued.remove(&q.id);
                    self.discarded.insert(q.id);
                } else {
                    match marshaller.marshal(&q.item) {
                        Ok(bytes) => {
                            let len: usize = bytes.len();
                            sent = match sent.checked_add(len) {
                                Some(x) => x,
                                None => usize::MAX,
                            };
                            proof {
                                ans = Answer { known: true, bytes: Some(bytes@) };
                            }
                            let ghost bv = bytes@;
                            batch.push(bytes);
                            self.to_regossip.push_back(Sent { at: now, id: q.id, item: q.item });
                            proof {
                                assert(blobs(batch@) =~= bb.push(bv));
                                assert(bb.push(bv).drop_last() =~= bb);
                            }
                        },
                        Err(_) => {
                            self.queued.remove(&q.id);
                        },
                    }
                }
                assert(told_of(marshaller, set, q.id, q.item, ans));
                proof {
                    pushing_keeps_the_queues_consistent(before, ans, now);
                    assert(self@ =~= before.push_again(ans, now).0);
                    let next = answers.push(ans);
                    lemma_pushed_again_prefix(start, answers, ans, now, count);
                    assert(blobs(batch@) == with_bytes(bb, before.push_again(ans, now).1));
                    assert forall|n: nat| n < next.len() implies goes_on_again(
                        (#[trigger] pushed_again(start, next, now, n)).0,
                        pushed_again(start, next, now, n).1,
                        target,
                        now,
                        period,
                    ) by {
                        lemma_pushed_again_prefix(start, answers, ans, now, n);
                    }
                    assert forall|n: nat| n < next.len() implies {
                        let q = (#[trigger] pushed_again(start, next, now, n)).0.to_regossip[0];
                        told_of(marshaller, set, q.id, q.item, next[n as int])
                    } by {
                        lemma_pushed_again_prefix(start, answers, ans, now, n);
                    }
                    answers = next;
                    let q2 = self.to_regossip@;
                    if left > 0 {
                        assert forall|i: int| left - 1 <= i < q2.len() implies (
                        #[trigger] q2[i]).at == now by {
                            if i < queue.len() - 1 {
                                assert(q2[i] == queue[i + 1]);
                            }
                        }
                        left = (left - 1) as nat;
                    } else {
                        assert forall|i: int| 0 <= i < q2.len() implies (#[trigger] q2[i]).at
                            == now by {
                            if i < queue.len() - 1 {
                                assert(q2[i] == queue[i + 1]);
                            }
                        }
                    }
                }
            }
        }
        assert(is_push_again(start, answers, now, target, period));
        batch
    }
}

fn is_due(now: u64, at: u64, period: u64) -> (r: bool)
    ensures
        r == due(now, at, period),
{
    if now < at {
        period == 0
    } else {
        now - at >= period
    }
}

proof fn lemma_pushed_contains(s: Seq<Seq<u8>>, x: Seq<u8>, k: Seq<u8>)
    ensures
        s.push(x).contains(k) <==> s.contains(k) || k == x,
{
    if s.contains(k) {
        assert(s.push(x)[s.index_of(k)] == k);
    }
    if k == x {
        assert(s.push(x)[s.len() as int] == k);
    }
    if s.push(x).contains(k) {
        let i = s.push(x).index_of(k);
        if i < s.len() {
            assert(s[i] == k);
        }
    }
}

} // verus!
