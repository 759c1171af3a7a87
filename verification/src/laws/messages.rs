//! Messages between peers: what one writes the other reads.
use vstd::prelude::*;

use crate::ids::Id;
use crate::laws::gossip::bytes_in;
use crate::p2p::gossip::handler::{app_gossip, forwarded, handled_all};
use crate::p2p::gossip::pull::{
    gossip_items,
    handle_response,
    items_in,
    pull_request,
    response_items,
    Admission,
};
use crate::p2p::gossip::push::{
    due,
    is_push_again,
    pushed_again,
    told_of_sent,
    writes_something,
    Answer,
    PushQueue,
    PushView,
};
use crate::p2p::gossip::traits::{GossipSet, Gossipable, Marshaller};
use crate::p2p::handler::{
    err_not_validator,
    err_throttled,
    err_unexpected,
    err_unregistered_handler,
    AppError,
};
use crate::p2p::pb::{
    blobs,
    gossip_round_trip,
    request_round_trip,
    PullGossipRequest,
    PullGossipResponse,
    PushGossip,
};

verus! {

/// A request for what is missing carries the filter and its salt to whoever
/// reads it, each in its own place.
pub proof fn requests_carry_filter_and_salt(
    filter: Vec<u8>,
    salt: Vec<u8>,
    msg: Vec<u8>,
    wire: &[u8],
    read: Option<PullGossipRequest>,
)
    requires
        call_ensures(pull_request, (filter, salt), msg),
        wire@ == msg@,
        call_ensures(PullGossipRequest::decode, (wire,), read),
    ensures
        read is Some,
        read->0.filter@ == filter@,
        read->0.salt@ == salt@,
{
    vstd::std_specs::vec::axiom_spec_len(&filter);
    vstd::std_specs::vec::axiom_spec_len(&salt);
    request_round_trip(salt@, filter@);
}

/// The items that are pushed are those that arrive, in their order, and so are
/// those of an answer. A request that failed brings none.
pub proof fn items_arrive_as_they_were_sent(
    pushed: PushGossip,
    answered: PullGossipResponse,
    a: Vec<u8>,
    b: Vec<u8>,
    wire: &[u8],
    got: Vec<Vec<u8>>,
    answer: Vec<Vec<u8>>,
    failure: AppError,
    nothing: Vec<Vec<u8>>,
)
    requires
        call_ensures(PushGossip::encode_to_vec, (&pushed,), a),
        call_ensures(PullGossipResponse::encode_to_vec, (&answered,), b),
        wire@ == a@,
        call_ensures(gossip_items, (wire,), got),
        call_ensures(response_items, (Ok::<Vec<u8>, AppError>(b),), answer),
        call_ensures(response_items, (Err::<Vec<u8>, AppError>(failure),), nothing),
    ensures
        blobs(got@) == blobs(pushed.gossip@),
        blobs(answer@) == blobs(answered.gossip@),
        nothing@.len() == 0,
{
    lemma_items_are_short(pushed.gossip@);
    lemma_items_are_short(answered.gossip@);
    gossip_round_trip(blobs(pushed.gossip@));
    gossip_round_trip(blobs(answered.gossip@));
    assert(blobs(nothing@).len() == nothing@.len());
}

proof fn lemma_items_are_short(v: Seq<Vec<u8>>)
    ensures
        forall|i: int| 0 <= i < v.len() ==> (#[trigger] blobs(v)[i]).len() <= u64::MAX,
{
    assert forall|i: int| 0 <= i < v.len() implies (#[trigger] blobs(v)[i]).len() <= u64::MAX by {
        vstd::std_specs::vec::axiom_spec_len(&v[i]);
    }
}

/// Of each item that a peer pushes, or answers with, it is told what became of
/// it. Where none is added, none is pushed on.
pub proof fn each_item_is_told_of<T: Gossipable, M: Marshaller<T>, S: GossipSet<T>>(
    m: &M,
    s: &S,
    q: &mut PushQueue<T>,
    msg: &[u8],
    now: u64,
    r: Vec<Admission>,
    items: Vec<Vec<u8>>,
)
    requires
        old(q).wf(),
        call_ensures(app_gossip::<T, M, S>, (m, s, q, msg, now), r),
        call_ensures(gossip_items, (msg,), items),
    ensures
        r@.len() == items@.len(),
        (forall|i: int| 0 <= i < r@.len() ==> #[trigger] r@[i] != Admission::Admitted)
            ==> final(q)@ == old(q)@,
{
    let adds = choose|adds: Seq<Option<(Id, T)>>|
        handled_all(m, s, items_in(msg@), r@, adds) && final(q)@ == #[trigger] forwarded(
            old(q)@,
            adds,
            now,
        );
    assert(blobs(items@).len() == items@.len());
    if forall|i: int| 0 <= i < r@.len() ==> #[trigger] r@[i] != Admission::Admitted {
        assert forall|i: int| 0 <= i < adds.len() implies #[trigger] adds[i] is None by {
            assert(r@[i] != Admission::Admitted);
        }
        lemma_nothing_forwarded(old(q)@, adds, now);
    }
}

proof fn lemma_nothing_forwarded<T>(v: PushView<T>, adds: Seq<Option<(Id, T)>>, now: u64)
    requires
        forall|i: int| 0 <= i < adds.len() ==> #[trigger] adds[i] is None,
    ensures
        forwarded(v, adds, now) == v,
    decreases adds.len(),
{
    if adds.len() > 0 {
        assert(adds.last() == adds[adds.len() - 1]);
        assert forall|i: int| 0 <= i < adds.drop_last().len() implies #[trigger] adds.drop_last()[i] is None by {
            assert(adds[i] is None);
        }
        lemma_nothing_forwarded(v, adds.drop_last(), now);
    }
}

/// Of each item of an answer it is told what became of it, and of an answer
/// that did not come nothing is told.
pub proof fn each_answered_item_is_told_of<T: Gossipable, M: Marshaller<T>, S: GossipSet<T>>(
    m: &M,
    s: &S,
    answer: PullGossipResponse,
    bytes: Vec<u8>,
    failure: AppError,
    r: Vec<Admission>,
    none: Vec<Admission>,
)
    requires
        call_ensures(PullGossipResponse::encode_to_vec, (&answer,), bytes),
        call_ensures(handle_response::<T, M, S>, (m, s, Ok::<Vec<u8>, AppError>(bytes)), r),
        call_ensures(handle_response::<T, M, S>, (m, s, Err::<Vec<u8>, AppError>(failure)), none),
    ensures
        r@.len() == answer.gossip@.len(),
        none@.len() == 0,
{
    lemma_items_are_short(answer.gossip@);
    gossip_round_trip(blobs(answer.gossip@));
    assert(blobs(answer.gossip@).len() == answer.gossip@.len());
}

proof fn lemma_size(batch: Seq<Seq<u8>>)
    ensures
        crate::p2p::gossip::push::batch_size(batch) == bytes_in(batch),
    decreases batch.len(),
{
    if batch.len() > 0 {
        lemma_size(batch.drop_last());
    }
}

proof fn lemma_again<T>(v: PushView<T>, answers: Seq<Answer>, now: u64, n: nat)
    ensures
        pushed_again(v, answers, now, n).0.to_gossip == v.to_gossip,
    decreases n,
{
    if n > 0 {
        lemma_again(v, answers, now, (n - 1) as nat);
    }
}

/// Pushing again leaves alone what still waits for its first push, and goes on
/// until the batch has the bytes that it should have, nothing was pushed, or
/// what was pushed longest ago is not due yet.
pub proof fn pushing_again_stops_at_what_is_not_due<
    T: Gossipable,
    M: Marshaller<T>,
    S: GossipSet<T>,
>(q: &mut PushQueue<T>, m: &M, s: &S, target: usize, period: u64, now: u64, r: Vec<Vec<u8>>)
    requires
        old(q).wf(),
        period > 0 || writes_something::<T, M>(m),
        call_ensures(PushQueue::<T>::drain_regossip::<M, S>, (q, m, s, target, period, now), r),
    ensures
        final(q)@.to_gossip == old(q)@.to_gossip,
        final(q)@.to_regossip.len() == 0 || bytes_in(blobs(r@)) >= target || !due(
            now,
            final(q)@.to_regossip[0].at,
            period,
        ),
        old(q)@.to_regossip.len() == 0 ==> r@.len() == 0,
        old(q)@.to_regossip.len() > 0 && !due(now, old(q)@.to_regossip[0].at, period)
            ==> r@.len() == 0 && final(q)@ == old(q)@,
{
    let v = old(q)@;
    let answers = choose|answers: Seq<Answer>|
        {
            &&& #[trigger] is_push_again(v, answers, now, target, period)
            &&& told_of_sent(m, s, v, answers, now)
            &&& (final(q)@, blobs(r@)) == pushed_again(v, answers, now, answers.len())
        };
    lemma_again(v, answers, now, answers.len());
    lemma_size(blobs(r@));
    assert(blobs(r@).len() == r@.len());
    if v.to_regossip.len() == 0 || !due(now, v.to_regossip[0].at, period) {
        let first = pushed_again(v, answers, now, 0);
        assert(answers.len() == 0) by {
            if answers.len() > 0 {
                assert(first.0 == v);
            }
        }
    }
}

/// Each way to refuse a request has a code of its own, below zero, and the four
/// count down from the first.
pub proof fn refusals_are_told_apart(a: AppError, b: AppError, c: AppError, d: AppError)
    requires
        call_ensures(err_unexpected, (), a),
        call_ensures(err_unregistered_handler, (), b),
        call_ensures(err_not_validator, (), c),
        call_ensures(err_throttled, (), d),
    ensures
        a.code == -1,
        b.code == a.code - 1,
        c.code == b.code - 1,
        d.code == c.code - 1,
{
}

} // verus!
