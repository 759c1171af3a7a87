//! Filters of what is known: what they hold, what they forget, and when they are
//! replaced.
use vstd::arithmetic::div_mod::lemma_mod_bound;
use vstd::prelude::*;

use crate::codec::be_value;
use crate::crypto::sha256_digest;
use crate::ids::Id;
use crate::p2p::error::Result;
use crate::p2p::gossip::bloom::{
    bit_at,
    bit_set,
    filter_round_trip,
    filters_never_forget,
    hash,
    hash_at,
    knows,
    place,
    seed_bytes,
    with_hash,
    BloomSet,
    Filter,
    FilterError,
    FreshFilter,
};

verus! {

/// A filter can be made with one seed to sixteen and at least a byte. It then
/// holds nothing and has counted nothing.
pub proof fn a_new_filter_holds_nothing(
    seeds: Vec<u64>,
    size: usize,
    r: core::result::Result<Filter, FilterError>,
    f: Filter,
    h: u64,
    held: bool,
)
    requires
        call_ensures(Filter::new, (seeds, size), r),
        r is Ok ==> r->Ok_0 == f && call_ensures(Filter::contains, (&f, h), held),
    ensures
        r is Ok <==> 1 <= seeds@.len() <= 16 && 1 <= size <= 0x1fff_ffff_ffff_ffff,
        r is Ok ==> !held && f.count == 0 && f.entries@.len() == size && f.hash_seeds@ == seeds@,
        seeds@.len() == 0 ==> r == Err::<Filter, FilterError>(FilterError::TooFewHashes),
        seeds@.len() > 16 ==> r == Err::<Filter, FilterError>(FilterError::TooManyHashes),
        1 <= seeds@.len() <= 16 && size == 0 ==> r == Err::<Filter, FilterError>(
            FilterError::TooFewEntries,
        ),
{
    if r is Ok {
        let p = place(f.hash_seeds@, h, 0, f.entries@.len());
        let n = f.entries@.len();
        lemma_place(f.hash_seeds@, h, 0, n);
        let k = (p % 8) as u8;
        assert(0 <= p / 8 < n);
        assert(f.entries@[(p / 8) as int] == 0u8);
        assert(!bit_set(0u8, k)) by {
            assert(0u8 & (1u8 << k) == 0) by (bit_vector);
        }
        assert(!bit_at(f.entries@, p));
    }
}

/// What is added to a filter is held from then on, and what was held stays held.
/// The filter counts what it did not hold.
pub proof fn added_hashes_are_held(
    f: &mut Filter,
    h: u64,
    other: u64,
    before: &Filter,
    after: &Filter,
    was: bool,
    now: bool,
    other_was: bool,
    other_now: bool,
)
    requires
        old(f).wf(),
        *before == *old(f),
        call_ensures(Filter::add, (f, h), ()),
        *after == *final(f),
        call_ensures(Filter::contains, (before, h), was),
        call_ensures(Filter::contains, (after, h), now),
        call_ensures(Filter::contains, (before, other), other_was),
        call_ensures(Filter::contains, (after, other), other_now),
    ensures
        now,
        other_was ==> other_now,
        was ==> final(f).count == old(f).count,
        !was && old(f).count < usize::MAX ==> final(f).count == old(f).count + 1,
        final(f).entries@.len() == old(f).entries@.len(),
{
    filters_never_forget(old(f).hash_seeds@, old(f).entries@, h, other);
    lemma_same_size(old(f).hash_seeds@, old(f).entries@, h, old(f).hash_seeds@.len());
}

proof fn lemma_place(seeds: Seq<u64>, h: u64, n: nat, len: nat)
    requires
        len > 0,
    ensures
        place(seeds, h, n, len) / 8 < len,
{
    lemma_mod_bound(hash_at(seeds, h, n + 1) as int, (len * 8) as int);
}

proof fn lemma_same_size(seeds: Seq<u64>, entries: Seq<u8>, h: u64, n: nat)
    requires
        entries.len() > 0,
    ensures
        with_hash(seeds, entries, h, n).len() == entries.len(),
    decreases n,
{
    if n > 0 {
        lemma_same_size(seeds, entries, h, (n - 1) as nat);
        lemma_place(seeds, h, (n - 1) as nat, entries.len());
    }
}

/// A filter that is read holds just what the filter held that was written.
pub proof fn filters_are_read_back(
    f: Filter,
    written: Vec<u8>,
    bytes: &[u8],
    read: core::result::Result<Filter, FilterError>,
    g: Filter,
    h: u64,
    a: bool,
    b: bool,
)
    requires
        f.wf(),
        call_ensures(Filter::marshal, (&f,), written),
        bytes@ == written@,
        call_ensures(Filter::parse, (bytes,), read),
        read is Ok ==> read->Ok_0 == g,
        call_ensures(Filter::contains, (&f, h), a),
        call_ensures(Filter::contains, (&g, h), b),
    ensures
        read is Ok,
        a == b,
        g.hash_seeds@ == f.hash_seeds@ && g.entries@ == f.entries@,
        written@.len() == 1 + 8 * f.hash_seeds@.len() + f.entries@.len(),
        written@[0] as nat == f.hash_seeds@.len(),
{
    filter_round_trip(f.hash_seeds@, f.entries@);
    lemma_seed_size(f.hash_seeds@, f.hash_seeds@.len());
}

proof fn lemma_seed_size(seeds: Seq<u64>, n: nat)
    ensures
        seed_bytes(seeds, n).len() == 8 * n,
    decreases n,
{
    if n > 0 {
        lemma_seed_size(seeds, (n - 1) as nat);
        crate::codec::lemma_be_len(seeds[n - 1] as nat, 8);
    }
}

/// A key is hashed with the salt behind it: the first eight bytes of the digest
/// are the hash, the highest first. A filter holds a key where it holds its hash.
pub proof fn keys_are_hashed_with_salt(
    f: Filter,
    key: &[u8],
    salt: &[u8],
    h: u64,
    held: bool,
    hash_held: bool,
)
    requires
        f.wf(),
        call_ensures(hash, (key, salt), h),
        call_ensures(Filter::contains_key, (&f, key, salt), held),
        call_ensures(Filter::contains, (&f, h), hash_held),
    ensures
        h == be_value(sha256_digest(key@ + salt@).take(8)) as u64,
        held == hash_held,
{
}

/// A set of ids is made anew once its filter has counted more than it may, and
/// not before. It then knows all that it is given; where no new filter could be
/// made it stays as it was.
pub proof fn full_sets_are_made_anew(
    b: &mut BloomSet,
    fresh: core::result::Result<FreshFilter, FilterError>,
    known: &Vec<Id>,
    before: &BloomSet,
    full: bool,
    r: Result<bool>,
    i: int,
)
    requires
        old(b).wf(),
        fresh matches Ok(f) ==> f.filter.wf(),
        *before == *old(b),
        call_ensures(BloomSet::needs_reset, (before,), full),
        call_ensures(BloomSet::reset_if_needed, (b, fresh, known), r),
        0 <= i < known@.len(),
    ensures
        full <==> old(b).filter().count > old(b).limit(),
        !full ==> r == Ok::<bool, crate::p2p::error::Error>(false) && *final(b) == *old(b),
        full && fresh is Err ==> r is Err && *final(b) == *old(b),
        full && fresh is Ok ==> r == Ok::<bool, crate::p2p::error::Error>(true) && knows(
            final(b).filter(),
            final(b).salted_with(),
            known@[i]@,
        ) && final(b).salted_with() == fresh->Ok_0.salt@ && final(b).limit()
            == fresh->Ok_0.max_count,
        final(b).least() == old(b).least(),
{
}

/// A new filter is made for as many items as are known, and no fewer than the
/// set was made for at least.
pub proof fn filters_are_made_large_enough(
    b: BloomSet,
    known: usize,
    wanted: usize,
    r: usize,
    least: usize,
)
    requires
        call_ensures(BloomSet::target_elements, (&b, known), r),
        call_ensures(BloomSet::min_target, (wanted,), least),
    ensures
        r >= known && r >= b.least(),
        r == known || r == b.least(),
        wanted > 0 ==> least == wanted,
        wanted == 0 ==> least == 1000,
{
}

} // verus!
