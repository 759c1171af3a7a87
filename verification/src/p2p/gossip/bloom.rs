//! Filters that tell which items are known, without the items themselves.
use vstd::prelude::*;

use crate::codec::{be, be_value, lemma_be_len, lemma_be_value_be, lemma_pow256, push_u64, read_be};
use crate::crypto::{sha256, sha256_digest};
use crate::error::joined;
use crate::ids::Id;
use crate::order::bytes_copy;
use crate::p2p::error::{Error, Result};

verus! {

/// The least number of items that a filter is made for by default.
pub const DEFAULT_MIN_TARGET_ELEMENTS: usize = 1000;

/// How many hashes a filter has at most.
pub const MAX_HASHES: usize = 16;

/// How many bytes a filter has at most, so that its bits can be counted.
pub const MAX_ENTRIES: u64 = 0x1fff_ffff_ffff_ffff;

/// The next hash: the last one turned, and mixed with a seed.
pub open spec fn mixed(h: u64, seed: u64) -> u64 {
    ((h << 17) | (h >> 47)) ^ seed
}

/// The hash that the `n`-th seed makes of `h`.
pub open spec fn hash_at(seeds: Seq<u64>, h: u64, n: nat) -> u64
    decreases n,
{
    if n == 0 {
        h
    } else {
        mixed(hash_at(seeds, h, (n - 1) as nat), seeds[n - 1])
    }
}

/// The place of the bit that the `n`-th seed chooses.
pub open spec fn place(seeds: Seq<u64>, h: u64, n: nat, len: nat) -> nat {
    hash_at(seeds, h, n + 1) as nat % (len * 8)
}

/// Whether the bit `k` of a byte is set.
pub open spec fn bit_set(b: u8, k: u8) -> bool {
    b & (1u8 << k) != 0
}

/// Whether the bit at `p` is set.
pub open spec fn bit_at(entries: Seq<u8>, p: nat) -> bool {
    bit_set(entries[(p / 8) as int], (p % 8) as u8)
}

/// Whether every bit is set that the first `n` seeds choose.
pub open spec fn holds_upto(seeds: Seq<u64>, entries: Seq<u8>, h: u64, n: nat) -> bool {
    forall|i: nat| i < n ==> bit_at(entries, #[trigger] place(seeds, h, i, entries.len()))
}

/// Whether the filter holds `h`: every bit is set that it chooses.
pub open spec fn holds(seeds: Seq<u64>, entries: Seq<u8>, h: u64) -> bool {
    holds_upto(seeds, entries, h, seeds.len())
}

/// With the bit at `p` set.
pub open spec fn with_bit(entries: Seq<u8>, p: nat) -> Seq<u8> {
    let i = (p / 8) as int;
    entries.update(i, entries[i] | (1u8 << ((p % 8) as u8)))
}

/// With every bit set that the first `n` seeds choose.
pub open spec fn with_hash(seeds: Seq<u64>, entries: Seq<u8>, h: u64, n: nat) -> Seq<u8>
    decreases n,
{
    if n == 0 {
        entries
    } else {
        with_bit(
            with_hash(seeds, entries, h, (n - 1) as nat),
            place(seeds, h, (n - 1) as nat, entries.len()),
        )
    }
}

/// The number that `key` is hashed to with `salt`.
pub open spec fn bloom_hash(key: Seq<u8>, salt: Seq<u8>) -> u64 {
    be_value(sha256_digest(key + salt).take(8)) as u64
}

/// Hashes `key` with `salt`.
pub fn hash(key: &[u8], salt: &[u8]) -> (r: u64)
    ensures
        r == bloom_hash(key@, salt@),
{
    let mut buf = bytes_copy(key);
    buf.extend_from_slice(salt);
    assert(buf@ =~= key@ + salt@);
    let d = sha256(buf.as_slice());
    let r: u64 = read_be(d.as_slice(), 0, 8);
    assert(d@.subrange(0, 8) =~= d@.take(8));
    r
}

proof fn lemma_bits(b: u8, k: u8, j: u8)
    requires
        k < 8,
        j < 8,
    ensures
        bit_set(b | (1u8 << k), j) <==> bit_set(b, j) || j == k,
{
    assert((b | (1u8 << k)) & (1u8 << j) != 0 <==> (b & (1u8 << j) != 0 || j == k))
        by (bit_vector)
        requires
            k < 8,
            j < 8,
    ;
}

proof fn lemma_with_bit(entries: Seq<u8>, p: nat, q: nat)
    requires
        p < entries.len() * 8,
        q < entries.len() * 8,
    ensures
        with_bit(entries, p).len() == entries.len(),
        bit_at(with_bit(entries, p), q) <==> bit_at(entries, q) || p == q,
{
    if p / 8 == q / 8 {
        lemma_bits(entries[(p / 8) as int], (p % 8) as u8, (q % 8) as u8);
    }
}

proof fn lemma_with_hash(seeds: Seq<u64>, entries: Seq<u8>, h: u64, n: nat, q: nat)
    requires
        entries.len() > 0,
        q < entries.len() * 8,
    ensures
        with_hash(seeds, entries, h, n).len() == entries.len(),
        bit_at(entries, q) ==> bit_at(with_hash(seeds, entries, h, n), q),
        bit_at(with_hash(seeds, entries, h, n), q) ==> bit_at(entries, q) || exists|i: nat|
            i < n && #[trigger] place(seeds, h, i, entries.len()) == q,
    decreases n,
{
    if n > 0 {
        let m = (n - 1) as nat;
        lemma_with_hash(seeds, entries, h, m, q);
        let p = place(seeds, h, m, entries.len());
        lemma_with_bit(with_hash(seeds, entries, h, m), p, q);
    }
}

proof fn lemma_hash_is_held(seeds: Seq<u64>, entries: Seq<u8>, h: u64, n: nat)
    requires
        entries.len() > 0,
    ensures
        holds_upto(seeds, with_hash(seeds, entries, h, n), h, n),
    decreases n,
{
    if n > 0 {
        let m = (n - 1) as nat;
        let before = with_hash(seeds, entries, h, m);
        let after = with_hash(seeds, entries, h, n);
        lemma_hash_is_held(seeds, entries, h, m);
        lemma_with_hash(seeds, entries, h, m, 0);
        lemma_with_hash(seeds, entries, h, n, 0);
        assert forall|i: nat| i < n implies bit_at(
            after,
            #[trigger] place(seeds, h, i, after.len()),
        ) by {
            let q = place(seeds, h, i, entries.len());
            let p = place(seeds, h, m, entries.len());
            lemma_with_bit(before, p, q);
            if i < m {
                assert(bit_at(before, place(seeds, h, i, before.len())));
            }
        }
    }
}

/// What was added is held, and stays so whatever else is added: a filter never
/// forgets.
pub proof fn filters_never_forget(seeds: Seq<u64>, entries: Seq<u8>, h: u64, other: u64)
    requires
        entries.len() > 0,
    ensures
        holds(seeds, with_hash(seeds, entries, h, seeds.len()), h),
        holds(seeds, entries, other) ==> holds(
            seeds,
            with_hash(seeds, entries, h, seeds.len()),
            other,
        ),
{
    let after = with_hash(seeds, entries, h, seeds.len());
    lemma_hash_is_held(seeds, entries, h, seeds.len());
    lemma_with_hash(seeds, entries, h, seeds.len(), 0);
    if holds(seeds, entries, other) {
        assert forall|i: nat| i < seeds.len() implies bit_at(
            after,
            #[trigger] place(seeds, other, i, after.len()),
        ) by {
            let q = place(seeds, other, i, entries.len());
            assert(bit_at(entries, q));
            lemma_with_hash(seeds, entries, h, seeds.len(), q);
        }
    }
}

/// A filter.
#[derive(Debug, PartialEq, Eq)]
pub struct Filter {
    /// What the hashes are mixed with.
    pub hash_seeds: Vec<u64>,
    /// The bits.
    pub entries: Vec<u8>,
    /// How many additions changed the filter.
    pub count: usize,
}

/// Why bytes are no filter.
#[derive(Clone, Copy, Debug, PartialEq, Eq, Structural)]
pub enum FilterError {
    /// There are too few hashes.
    TooFewHashes,
    /// There are too many hashes.
    TooManyHashes,
    /// There are too few bits.
    TooFewEntries,
    /// There are too many bits.
    TooManyEntries,
}

impl FilterError {
    /// The text that describes the failure.
    pub open spec fn text(self) -> Seq<char> {
        match self {
            FilterError::TooFewHashes => "too few hashes"@,
            FilterError::TooManyHashes => "too many hashes"@,
            FilterError::TooFewEntries => "too few entries"@,
            FilterError::TooManyEntries => "too many entries"@,
        }
    }

    /// The text that describes the failure.
    pub fn message(self) -> (r: &'static str)
        ensures
            r@ == self.text(),
    {
        match self {
            FilterError::TooFewHashes => "too few hashes",
            FilterError::TooManyHashes => "too many hashes",
            FilterError::TooFewEntries => "too few entries",
            FilterError::TooManyEntries => "too many entries",
        }
    }
}

/// Why a filter of the given size cannot be, if it cannot.
pub open spec fn size_problem(hashes: nat, entries: nat) -> Option<FilterError> {
    if hashes < 1 {
        Some(FilterError::TooFewHashes)
    } else if hashes > MAX_HASHES {
        Some(FilterError::TooManyHashes)
    } else if entries < 1 {
        Some(FilterError::TooFewEntries)
    } else if entries > MAX_ENTRIES {
        Some(FilterError::TooManyEntries)
    } else {
        None
    }
}

/// The bytes of seeds.
pub open spec fn seed_bytes(seeds: Seq<u64>, n: nat) -> Seq<u8>
    decreases n,
{
    if n == 0 {
        Seq::empty()
    } else {
        seed_bytes(seeds, (n - 1) as nat) + be(seeds[n - 1] as nat, 8)
    }
}

/// The bytes of a filter: how many seeds, the seeds and the bits.
pub open spec fn filter_bytes(seeds: Seq<u64>, entries: Seq<u8>) -> Seq<u8> {
    seq![seeds.len() as u8] + seed_bytes(seeds, seeds.len()) + entries
}

/// The seed at the place `i` of the bytes of a filter.
pub open spec fn seed_in(s: Seq<u8>, i: int) -> u64 {
    be_value(s.subrange(1 + 8 * i, 9 + 8 * i)) as u64
}

/// The seeds and the bits of the filter that `s` holds, or why it holds none.
pub open spec fn parsed_filter(s: Seq<u8>) -> core::result::Result<
    (Seq<u64>, Seq<u8>),
    FilterError,
> {
    if s.len() == 0 {
        Err(FilterError::TooFewHashes)
    } else {
        let n = s[0] as int;
        let rest = if s.len() < 1 + 8 * n {
            0
        } else {
            (s.len() - 1 - 8 * n) as nat
        };
        match size_problem(n as nat, rest) {
            Some(e) => Err(e),
            None => Ok((Seq::new(n as nat, |i: int| seed_in(s, i)), s.skip(1 + 8 * n))),
        }
    }
}

/// How much a filter counted once `h` was added to it: one more where `h` was not
/// held, as far as that can be told.
pub open spec fn counted(seeds: Seq<u64>, entries: Seq<u8>, count: usize, h: u64) -> usize {
    if holds(seeds, entries, h) || count == usize::MAX {
        count
    } else {
        (count + 1) as usize
    }
}

/// The bits of a filter, and how much it counted, once the ids were added to it.
pub open spec fn filled(
    seeds: Seq<u64>,
    entries: Seq<u8>,
    count: usize,
    ids: Seq<Id>,
    salt: Seq<u8>,
) -> (Seq<u8>, usize)
    decreases ids.len(),
{
    if ids.len() == 0 {
        (entries, count)
    } else {
        let (e, c) = filled(seeds, entries, count, ids.drop_last(), salt);
        let h = bloom_hash(ids.last()@, salt);
        (with_hash(seeds, e, h, seeds.len()), counted(seeds, e, c, h))
    }
}

impl Filter {
    /// Whether the filter has a size that filters can have.
    pub open spec fn wf(&self) -> bool {
        size_problem(self.hash_seeds@.len(), self.entries@.len()) is None
    }

    /// A filter that holds nothing, with the seeds and the size given.
    pub fn new(hash_seeds: Vec<u64>, num_entries: usize) -> (r: core::result::Result<
        Filter,
        FilterError,
    >)
        ensures
            match size_problem(hash_seeds@.len(), num_entries as nat) {
                Some(e) => r == Err::<Filter, FilterError>(e),
                None => {
                    &&& r is Ok
                    &&& r->Ok_0.wf()
                    &&& r->Ok_0.hash_seeds == hash_seeds
                    &&& r->Ok_0.entries@ == Seq::new(num_entries as nat, |i: int| 0u8)
                    &&& r->Ok_0.count == 0
                },
            },
    {
        let n: usize = hash_seeds.len();
        if n < 1 {
            return Err(FilterError::TooFewHashes);
        }
        if n > MAX_HASHES {
            return Err(FilterError::TooManyHashes);
        }
        if num_entries < 1 {
            return Err(FilterError::TooFewEntries);
        }
        if num_entries as u64 > MAX_ENTRIES {
            return Err(FilterError::TooManyEntries);
        }
        let mut entries: Vec<u8> = Vec::new();
        while entries.len() < num_entries
            invariant
                entries@.len() <= num_entries,
                forall|i: int| 0 <= i < entries@.len() ==> entries@[i] == 0u8,
            decreases num_entries - entries@.len(),
        {
            entries.push(0);
        }
        assert(entries@ =~= Seq::new(num_entries as nat, |i: int| 0u8));
        Ok(Filter { hash_seeds, entries, count: 0 })
    }

    /// Adds `h`. It counts where it was not held.
    pub fn add(&mut self, h: u64)
        requires
            old(self).wf(),
        ensures
            final(self).wf(),
            final(self).hash_seeds == old(self).hash_seeds,
            final(self).entries@ == with_hash(
                old(self).hash_seeds@,
                old(self).entries@,
                h,
                old(self).hash_seeds@.len(),
            ),
            final(self).count == counted(
                old(self).hash_seeds@,
                old(self).entries@,
                old(self).count,
                h,
            ),
    {
        let ghost seeds = self.hash_seeds@;
        let ghost start = self.entries@;
        let n: usize = self.hash_seeds.len();
        let num_bits: u64 = self.entries.len() as u64 * 8;
        let mut hash: u64 = h;
        let mut all_set = true;
        let mut i: usize = 0;
        while i < n
            invariant
                i <= n,
                n == seeds.len(),
                self.hash_seeds@ == seeds,
                self.hash_seeds == old(self).hash_seeds,
                self.count == old(self).count,
                start.len() == self.entries@.len(),
                start.len() > 0,
                num_bits == start.len() * 8,
                start.len() <= MAX_ENTRIES,
                start.len() <= usize::MAX,
                hash == hash_at(seeds, h, i as nat),
                self.entries@ == with_hash(seeds, start, h, i as nat),
                all_set == holds_upto(seeds, start, h, i as nat),
            decreases n - i,
        {
            let seed: u64 = self.hash_seeds[i];
            hash = ((hash << 17) | (hash >> 47)) ^ seed;
            let index: u64 = hash % num_bits;
            let byte: usize = (index / 8) as usize;
            let bit: u8 = (index % 8) as u8;
            let old_byte: u8 = self.entries[byte];
            proof {
                assert(hash == hash_at(seeds, h, (i + 1) as nat));
                assert(index as nat == place(seeds, h, i as nat, start.len()));
                lemma_with_hash(seeds, start, h, i as nat, index as nat);
                assert(bit_set(old_byte, bit) == bit_at(self.entries@, index as nat));
                lemma_all_set(seeds, start, h, i as nat);
            }
            if old_byte & (1u8 << bit) == 0 {
                all_set = false;
            }
            self.entries.set(byte, old_byte | (1u8 << bit));
            proof {
                lemma_with_hash(seeds, start, h, (i + 1) as nat, 0);
            }
            i += 1;
        }
        if !all_set && self.count < usize::MAX {
            self.count = self.count + 1;
        }
    }

    /// Whether the filter holds `h`.
    pub fn contains(&self, h: u64) -> (r: bool)
        requires
            self.wf(),
        ensures
            r == holds(self.hash_seeds@, self.entries@, h),
    {
        let ghost seeds = self.hash_seeds@;
        let ghost entries = self.entries@;
        let n: usize = self.hash_seeds.len();
        let num_bits: u64 = self.entries.len() as u64 * 8;
        let mut hash: u64 = h;
        let mut i: usize = 0;
        while i < n
            invariant
                i <= n,
                n == seeds.len(),
                self.hash_seeds@ == seeds,
                self.entries@ == entries,
                entries.len() > 0,
                num_bits == entries.len() * 8,
                entries.len() <= MAX_ENTRIES,
                entries.len() <= usize::MAX,
                hash == hash_at(seeds, h, i as nat),
                holds_upto(seeds, entries, h, i as nat),
            decreases n - i,
        {
            let seed: u64 = self.hash_seeds[i];
            hash = ((hash << 17) | (hash >> 47)) ^ seed;
            let index: u64 = hash % num_bits;
            let byte: usize = (index / 8) as usize;
            let bit: u8 = (index % 8) as u8;
            proof {
                assert(hash == hash_at(seeds, h, (i + 1) as nat));
                assert(index as nat == place(seeds, h, i as nat, entries.len()));
                lemma_holds_step(seeds, entries, h, i as nat);
            }
            if self.entries[byte] & (1u8 << bit) == 0 {
                assert(!bit_at(entries, place(seeds, h, i as nat, entries.len())));
                return false;
            }
            i += 1;
        }
        true
    }

    /// Whether the filter holds `key`, hashed with `salt`.
    pub fn contains_key(&self, key: &[u8], salt: &[u8]) -> (r: bool)
        requires
            self.wf(),
        ensures
            r == holds(self.hash_seeds@, self.entries@, bloom_hash(key@, salt@)),
    {
        self.contains(hash(key, salt))
    }

    /// The bytes of the filter.
    pub fn marshal(&self) -> (r: Vec<u8>)
        requires
            self.wf(),
        ensures
            r@ == filter_bytes(self.hash_seeds@, self.entries@),
    {
        let n: usize = self.hash_seeds.len();
        let mut out: Vec<u8> = Vec::new();
        out.push(n as u8);
        let ghost head = out@;
        let mut i: usize = 0;
        assert(head + seed_bytes(self.hash_seeds@, 0) =~= head);
        while i < n
            invariant
                i <= n,
                n == self.hash_seeds@.len(),
                out@ == head + seed_bytes(self.hash_seeds@, i as nat),
            decreases n - i,
        {
            let ghost before = out@;
            push_u64(&mut out, self.hash_seeds[i]);
            assert(out@ =~= head + seed_bytes(self.hash_seeds@, (i + 1) as nat));
            i += 1;
        }
        out.extend_from_slice(self.entries.as_slice());
        assert(out@ =~= filter_bytes(self.hash_seeds@, self.entries@));
        out
    }

    /// The filter that `bytes` hold, without what it counted.
    pub fn parse(bytes: &[u8]) -> (r: core::result::Result<Filter, FilterError>)
        ensures
            match parsed_filter(bytes@) {
                Ok((seeds, entries)) => {
                    &&& r is Ok
                    &&& r->Ok_0.wf()
                    &&& r->Ok_0.hash_seeds@ == seeds
                    &&& r->Ok_0.entries@ == entries
                    &&& r->Ok_0.count == 0
                },
                Err(e) => r == Err::<Filter, FilterError>(e),
            },
    {
        let len: usize = bytes.len();
        if len == 0 {
            return Err(FilterError::TooFewHashes);
        }
        let n: usize = bytes[0] as usize;
        if n < 1 {
            return Err(FilterError::TooFewHashes);
        }
        if n > MAX_HASHES {
            return Err(FilterError::TooManyHashes);
        }
        let offset: usize = 1 + 8 * n;
        if len <= offset {
            return Err(FilterError::TooFewEntries);
        }
        if (len - offset) as u64 > MAX_ENTRIES {
            return Err(FilterError::TooManyEntries);
        }
        let mut hash_seeds: Vec<u64> = Vec::new();
        let mut i: usize = 0;
        while i < n
            invariant
                i <= n,
                n <= MAX_HASHES,
                bytes@.len() == len,
                len > 1 + 8 * n,
                hash_seeds@.len() == i,
                forall|j: int| 0 <= j < i ==> hash_seeds@[j] == seed_in(bytes@, j),
            decreases n - i,
        {
            let seed: u64 = read_be(bytes, 1 + 8 * i, 8);
            hash_seeds.push(seed);
            i += 1;
        }
        let entries = bytes_copy(vstd::slice::slice_subrange(bytes, offset, len));
        proof {
            assert(hash_seeds@ =~= Seq::new(n as nat, |j: int| seed_in(bytes@, j)));
            assert(entries@ =~= bytes@.skip(offset as int));
        }
        Ok(Filter { hash_seeds, entries, count: 0 })
    }
}

proof fn lemma_holds_step(seeds: Seq<u64>, entries: Seq<u8>, h: u64, n: nat)
    ensures
        holds_upto(seeds, entries, h, n + 1) <==> holds_upto(seeds, entries, h, n) && bit_at(
            entries,
            place(seeds, h, n, entries.len()),
        ),
{
    if holds_upto(seeds, entries, h, n) && bit_at(entries, place(seeds, h, n, entries.len())) {
        assert forall|i: nat| i < n + 1 implies bit_at(
            entries,
            #[trigger] place(seeds, h, i, entries.len()),
        ) by {
            if i < n {
                assert(bit_at(entries, place(seeds, h, i, entries.len())));
            }
        }
    }
    if holds_upto(seeds, entries, h, n + 1) {
        assert(bit_at(entries, place(seeds, h, n, entries.len())));
        assert forall|i: nat| i < n implies bit_at(
            entries,
            #[trigger] place(seeds, h, i, entries.len()),
        ) by {
            assert(i < n + 1);
        }
    }
}

/// While bits are being set, a bit that is found set was set before or is one
/// of those chosen already: as long as all were set before, it makes no
/// difference.
proof fn lemma_all_set(seeds: Seq<u64>, start: Seq<u8>, h: u64, n: nat)
    requires
        start.len() > 0,
    ensures
        ({
            let now = with_hash(seeds, start, h, n);
            let p = place(seeds, h, n, start.len());
            holds_upto(seeds, start, h, n + 1) <==> holds_upto(seeds, start, h, n) && bit_at(
                now,
                p,
            )
        }),
{
    let now = with_hash(seeds, start, h, n);
    let p = place(seeds, h, n, start.len());
    lemma_holds_step(seeds, start, h, n);
    lemma_with_hash(seeds, start, h, n, p);
    if holds_upto(seeds, start, h, n) && bit_at(now, p) && !bit_at(start, p) {
        let i = choose|i: nat| i < n && #[trigger] place(seeds, h, i, start.len()) == p;
        assert(bit_at(start, place(seeds, h, i, start.len())));
    }
}

proof fn lemma_seed_bytes(seeds: Seq<u64>, n: nat, i: int)
    requires
        0 <= i < n <= seeds.len(),
    ensures
        seed_bytes(seeds, n).len() == 8 * n,
        seed_bytes(seeds, n).subrange(8 * i, 8 * i + 8) == be(seeds[i] as nat, 8),
    decreases n,
{
    lemma_be_len(seeds[n - 1] as nat, 8);
    if n == 1 {
        assert(seed_bytes(seeds, 0).len() == 0);
        assert(seed_bytes(seeds, 1) =~= be(seeds[0] as nat, 8));
        assert(seed_bytes(seeds, n).subrange(0, 8) =~= be(seeds[0] as nat, 8));
    } else {
        let m = (n - 1) as nat;
        let j = if i < m {
            i
        } else {
            0
        };
        lemma_seed_bytes(seeds, m, j);
        let a = seed_bytes(seeds, m);
        let b = be(seeds[n - 1] as nat, 8);
        if i < m {
            assert((a + b).subrange(8 * i, 8 * i + 8) =~= a.subrange(8 * i, 8 * i + 8));
        } else {
            assert((a + b).subrange(8 * i, 8 * i + 8) =~= b);
        }
    }
}

/// A filter that was written is read back.
pub proof fn filter_round_trip(seeds: Seq<u64>, entries: Seq<u8>)
    requires
        size_problem(seeds.len(), entries.len()) is None,
    ensures
        parsed_filter(filter_bytes(seeds, entries)) == Ok::<(Seq<u64>, Seq<u8>), FilterError>(
            (seeds, entries),
        ),
{
    let s = filter_bytes(seeds, entries);
    let n = seeds.len() as int;
    lemma_pow256();
    lemma_seed_bytes(seeds, seeds.len(), 0);
    let sb = seed_bytes(seeds, seeds.len());
    assert(s[0] == seeds.len() as u8);
    assert(s.len() == 1 + 8 * n + entries.len());
    assert forall|i: int| 0 <= i < n implies seed_in(s, i) == seeds[i] by {
        lemma_seed_bytes(seeds, seeds.len(), i);
        assert(s.subrange(1 + 8 * i, 9 + 8 * i) =~= sb.subrange(8 * i, 8 * i + 8));
        lemma_be_value_be(seeds[i] as nat, 8);
    }
    assert(Seq::new(n as nat, |i: int| seed_in(s, i)) =~= seeds);
    assert(s.skip(1 + 8 * n) =~= entries);
}

/// A new filter, with what it is salted with and how much it may count before
/// it is replaced.
#[derive(Debug, PartialEq, Eq)]
pub struct FreshFilter {
    /// The filter.
    pub filter: Filter,
    /// What it is salted with.
    pub salt: [u8; 32],
    /// How much it may count.
    pub max_count: usize,
}

/// The ids that are known, as a filter.
#[derive(Debug, PartialEq, Eq)]
pub struct BloomSet {
    bloom: Filter,
    salt: [u8; 32],
    max_count: usize,
    min_target_elements: usize,
}

/// Whether a filter, salted with `salt`, holds `id`.
pub open spec fn knows(f: Filter, salt: Seq<u8>, id: Seq<u8>) -> bool {
    holds(f.hash_seeds@, f.entries@, bloom_hash(id, salt))
}

impl BloomSet {
    /// The filter.
    pub closed spec fn filter(&self) -> Filter {
        self.bloom
    }

    /// What the filter is salted with.
    pub closed spec fn salted_with(&self) -> Seq<u8> {
        self.salt@
    }

    /// How much the filter may count before it is replaced.
    pub closed spec fn limit(&self) -> usize {
        self.max_count
    }

    /// The least number of items that a filter is made for.
    pub closed spec fn least(&self) -> usize {
        self.min_target_elements
    }

    /// Whether the filter has a size that filters can have.
    pub open spec fn wf(&self) -> bool {
        self.filter().wf()
    }

    /// The least number of items that a filter is made for, where `wanted` is
    /// asked for.
    pub fn min_target(wanted: usize) -> (r: usize)
        ensures
            r == if wanted == 0 {
                DEFAULT_MIN_TARGET_ELEMENTS
            } else {
                wanted
            },
    {
        if wanted == 0 {
            DEFAULT_MIN_TARGET_ELEMENTS
        } else {
            wanted
        }
    }

    /// No ids are known yet. `fresh` is made for the number of items that
    /// [`BloomSet::min_target`] gives.
    pub fn new(min_target_elements: usize, fresh: FreshFilter) -> (r: BloomSet)
        requires
            fresh.filter.wf(),
        ensures
            r.wf(),
            r.filter() == fresh.filter,
            r.salted_with() == fresh.salt@,
            r.limit() == fresh.max_count,
            r.least() == if min_target_elements == 0 {
                DEFAULT_MIN_TARGET_ELEMENTS
            } else {
                min_target_elements
            },
    {
        BloomSet {
            bloom: fresh.filter,
            salt: fresh.salt,
            max_count: fresh.max_count,
            min_target_elements: BloomSet::min_target(min_target_elements),
        }
    }

    /// `id` is known from now on.
    pub fn add(&mut self, id: &Id)
        requires
            old(self).wf(),
        ensures
            final(self).wf(),
            final(self).salted_with() == old(self).salted_with(),
            final(self).limit() == old(self).limit(),
            final(self).least() == old(self).least(),
            final(self).filter().hash_seeds == old(self).filter().hash_seeds,
            final(self).filter().entries@ == with_hash(
                old(self).filter().hash_seeds@,
                old(self).filter().entries@,
                bloom_hash(id@, old(self).salted_with()),
                old(self).filter().hash_seeds@.len(),
            ),
            final(self).filter().count == counted(
                old(self).filter().hash_seeds@,
                old(self).filter().entries@,
                old(self).filter().count,
                bloom_hash(id@, old(self).salted_with()),
            ),
            knows(final(self).filter(), final(self).salted_with(), id@),
            forall|other: Seq<u8>| #[trigger]
                knows(old(self).filter(), old(self).salted_with(), other) ==> knows(
                    final(self).filter(),
                    final(self).salted_with(),
                    other,
                ),
    {
        let h: u64 = hash(id.as_bytes(), self.salt.as_slice());
        let ghost seeds = self.bloom.hash_seeds@;
        let ghost entries = self.bloom.entries@;
        self.bloom.add(h);
        proof {
            filters_never_forget(seeds, entries, h, h);
            assert forall|other: Seq<u8>| #[trigger]
                knows(old(self).filter(), old(self).salted_with(), other) implies knows(
                self.filter(),
                self.salted_with(),
                other,
            ) by {
                filters_never_forget(seeds, entries, h, bloom_hash(other, self.salt@));
            }
        }
    }

    /// Whether `id` is known. One that is not may be taken for one that is.
    pub fn has(&self, id: &Id) -> (r: bool)
        requires
            self.wf(),
        ensures
            r == knows(self.filter(), self.salted_with(), id@),
    {
        self.bloom.contains_key(id.as_bytes(), self.salt.as_slice())
    }

    /// The bytes of the filter, and what it is salted with.
    pub fn marshal(&self) -> (r: (Vec<u8>, Vec<u8>))
        requires
            self.wf(),
        ensures
            r.0@ == filter_bytes(self.filter().hash_seeds@, self.filter().entries@),
            r.1@ == self.salted_with(),
    {
        (self.bloom.marshal(), bytes_copy(self.salt.as_slice()))
    }

    /// Whether the filter counted more than it may.
    pub fn needs_reset(&self) -> (r: bool)
        ensures
            r == (self.filter().count > self.limit()),
    {
        self.bloom.count > self.max_count
    }

    /// How many items a new filter is made for, where `count_hint` are known.
    pub fn target_elements(&self, count_hint: usize) -> (r: usize)
        ensures
            r == if count_hint < self.least() {
                self.least()
            } else {
                count_hint
            },
    {
        if count_hint < self.min_target_elements {
            self.min_target_elements
        } else {
            count_hint
        }
    }

    /// Replaces the filter by `fresh`, which then holds all of `known`, where it
    /// counted more than it may. Where there is no new filter the old one stays.
    pub fn reset_if_needed(
        &mut self,
        fresh: core::result::Result<FreshFilter, FilterError>,
        known: &Vec<Id>,
    ) -> (r: Result<bool>)
        requires
            old(self).wf(),
            fresh matches Ok(f) ==> f.filter.wf(),
        ensures
            final(self).wf(),
            final(self).least() == old(self).least(),
            if old(self).filter().count <= old(self).limit() {
                r == Ok::<bool, Error>(false) && *final(self) == *old(self)
            } else {
                match fresh {
                    Err(e) => {
                        &&& r matches Err(Error::KnownSet(s)) && s@
                            == "creating new bloom filter: "@ + e.text()
                        &&& *final(self) == *old(self)
                    },
                    Ok(f) => {
                        &&& r == Ok::<bool, Error>(true)
                        &&& final(self).salted_with() == f.salt@
                        &&& final(self).limit() == f.max_count
                        &&& final(self).filter().hash_seeds == f.filter.hash_seeds
                        &&& (final(self).filter().entries@, final(self).filter().count) == filled(
                            f.filter.hash_seeds@,
                            f.filter.entries@,
                            f.filter.count,
                            known@,
                            f.salt@,
                        )
                        &&& forall|i: int|
                            0 <= i < known@.len() ==> knows(
                                final(self).filter(),
                                final(self).salted_with(),
                                (#[trigger] known@[i])@,
                            )
                    },
                }
            },
    {
        if !self.needs_reset() {
            return Ok(false);
        }
        let fresh = match fresh {
            Ok(f) => f,
            Err(e) => {
                return Err(Error::KnownSet(joined("creating new bloom filter: ", e.message())));
            },
        };
        self.bloom = fresh.filter;
        self.salt = fresh.salt;
        self.max_count = fresh.max_count;
        let n: usize = known.len();
        let mut i: usize = 0;
        assert(known@.take(0) =~= Seq::empty());
        while i < n
            invariant
                i <= n,
                n == known@.len(),
                self.wf(),
                self.salted_with() == fresh.salt@,
                self.limit() == fresh.max_count,
                self.least() == old(self).least(),
                self.filter().hash_seeds == fresh.filter.hash_seeds,
                (self.filter().entries@, self.filter().count) == filled(
                    fresh.filter.hash_seeds@,
                    fresh.filter.entries@,
                    fresh.filter.count,
                    known@.take(i as int),
                    fresh.salt@,
                ),
                forall|j: int|
                    0 <= j < i ==> knows(
                        self.filter(),
                        self.salted_with(),
                        (#[trigger] known@[j])@,
                    ),
            decreases n - i,
        {
            self.add(&known[i]);
            assert(known@.take(i + 1).drop_last() =~= known@.take(i as int));
            assert(known@.take(i + 1).last() == known@[i as int]);
            i += 1;
        }
        assert(known@.take(n as int) =~= known@);
        Ok(true)
    }
}

/// What a set knows, a peer that reads its filter finds too.
pub proof fn peers_read_the_same_filter(f: Filter, salt: Seq<u8>, id: Seq<u8>)
    requires
        f.wf(),
    ensures
        parsed_filter(filter_bytes(f.hash_seeds@, f.entries@)) == Ok::<
            (Seq<u64>, Seq<u8>),
            FilterError,
        >((f.hash_seeds@, f.entries@)),
        knows(f, salt, id) == holds(f.hash_seeds@, f.entries@, bloom_hash(id, salt)),
{
    filter_round_trip(f.hash_seeds@, f.entries@);
}

} // verus!
