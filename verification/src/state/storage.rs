//! Byte-valued key spaces, each behind a cache of what was touched last.
use vstd::prelude::*;

use crate::codec::{be, u64_bytes};
use crate::collections::ordmap::{Key, OrdMap};
use crate::error::{not_found, DbError, Error, Result};
use crate::order::{bytes_copy, bytes_eq, bytes_lt};

verus! {

impl Key for Vec<u8> {
    open spec fn rank(&self) -> Seq<u8> {
        self@
    }

    fn precedes(&self, other: &Vec<u8>) -> (r: bool) {
        bytes_lt(self.as_slice(), other.as_slice())
    }

    fn same(&self, other: &Vec<u8>) -> (r: bool) {
        bytes_eq(self.as_slice(), other.as_slice())
    }

    fn copied(&self) -> (r: Vec<u8>) {
        bytes_copy(self.as_slice())
    }
}

impl Key for u64 {
    open spec fn rank(&self) -> Seq<u8> {
        be(*self as nat, 8)
    }

    fn precedes(&self, other: &u64) -> (r: bool) {
        let a = u64_bytes(*self);
        let b = u64_bytes(*other);
        bytes_lt(a.as_slice(), b.as_slice())
    }

    fn same(&self, other: &u64) -> (r: bool) {
        let a = u64_bytes(*self);
        let b = u64_bytes(*other);
        bytes_eq(a.as_slice(), b.as_slice())
    }

    fn copied(&self) -> (r: u64) {
        *self
    }
}

/// The number of entries that a cache holds at most.
pub const CACHE_SIZE: usize = 8_192;

/// A cache that lets go of the entry that was touched longest ago.
#[verifier::external_type_specification]
#[verifier::external_body]
#[verifier::reject_recursive_types(K)]
#[verifier::reject_recursive_types(V)]
#[verifier::reject_recursive_types(S)]
pub struct ExLruCache<K, V, S>(lru::LruCache<K, V, S>);

/// How the cache hashes its keys.
#[verifier::external_type_specification]
#[verifier::external_body]
pub struct ExDefaultHasher(lru::DefaultHasher);

/// What a cache holds.
pub uninterp spec fn cached(c: lru::LruCache<Vec<u8>, Vec<u8>>) -> Map<Seq<u8>, Seq<u8>>;

/// How many entries a cache holds at most.
pub uninterp spec fn capacity(c: lru::LruCache<Vec<u8>, Vec<u8>>) -> nat;

/// `lru::LruCache::new`: the cache starts out empty, and holds `cap` entries at
/// most.
#[verifier::external_body]
fn lru_new(cap: usize) -> (c: lru::LruCache<Vec<u8>, Vec<u8>>)
    requires
        cap > 0,
    ensures
        cached(c).dom() == Set::<Seq<u8>>::empty(),
        capacity(c) == cap,
{
    lru::LruCache::new(std::num::NonZeroUsize::new(cap).unwrap())
}

/// `lru::LruCache::peek`: the value held for `key`, if there is one.
#[verifier::external_body]
fn lru_peek(c: &lru::LruCache<Vec<u8>, Vec<u8>>, key: &[u8]) -> (r: Option<Vec<u8>>)
    ensures
        r is Some <==> cached(*c).contains_key(key@),
        r matches Some(v) ==> v@ == cached(*c)[key@],
{
    c.peek(key).cloned()
}

/// `lru::LruCache::get`: the value held for `key`, if there is one. The entry
/// becomes the one touched last; what the cache holds stays.
#[verifier::external_body]
fn lru_get(c: &mut lru::LruCache<Vec<u8>, Vec<u8>>, key: &[u8]) -> (r: Option<Vec<u8>>)
    ensures
        r is Some <==> cached(*old(c)).contains_key(key@),
        r matches Some(v) ==> v@ == cached(*old(c))[key@],
        cached(*final(c)) == cached(*old(c)),
        capacity(*final(c)) == capacity(*old(c)),
{
    c.get(key).cloned()
}

/// `lru::LruCache::put`: `key` is now held with `value`. Where it is a new key and
/// the cache is full, one other entry is let go, the one that was touched longest
/// ago; which one that is, is left open here. All others keep their values.
#[verifier::external_body]
fn lru_put(c: &mut lru::LruCache<Vec<u8>, Vec<u8>>, key: Vec<u8>, value: Vec<u8>)
    ensures
        capacity(*final(c)) == capacity(*old(c)),
        if cached(*old(c)).contains_key(key@) || cached(*old(c)).dom().len() < capacity(*old(c)) {
            cached(*final(c)) == cached(*old(c)).insert(key@, value@)
        } else {
            exists|gone: Seq<u8>| #[trigger]
                cached(*old(c)).contains_key(gone) && cached(*final(c)) == cached(*old(c)).remove(
                    gone,
                ).insert(key@, value@)
        },
{
    let _ = c.put(key, value);
}

/// `lru::LruCache::pop`: `key` is no longer held; everything else is.
#[verifier::external_body]
fn lru_pop(c: &mut lru::LruCache<Vec<u8>, Vec<u8>>, key: &[u8])
    ensures
        cached(*final(c)) == cached(*old(c)).remove(key@),
        capacity(*final(c)) == capacity(*old(c)),
{
    let _ = c.pop(key);
}

/// A key space: what is stored, and the cache in front of it.
pub struct ByteSpace {
    db: OrdMap<Vec<u8>, Vec<u8>>,
    cache: lru::LruCache<Vec<u8>, Vec<u8>>,
}

impl View for ByteSpace {
    type V = Map<Seq<u8>, Seq<u8>>;

    closed spec fn view(&self) -> Map<Seq<u8>, Seq<u8>> {
        self.db@
    }
}

impl ByteSpace {
    /// Whatever the cache holds is what is stored.
    pub closed spec fn wf(&self) -> bool {
        forall|k: Seq<u8>| #[trigger]
            cached(self.cache).contains_key(k) ==> self.db@.contains_key(k) && self.db@[k] == cached(
                self.cache,
            )[k]
    }

    /// An empty key space.
    pub fn new() -> (r: ByteSpace)
        ensures
            r.wf(),
            r@ == Map::<Seq<u8>, Seq<u8>>::empty(),
    {
        ByteSpace { db: OrdMap::new(), cache: lru_new(CACHE_SIZE) }
    }

    /// The value stored under `key`. The cache is asked first.
    pub fn get(&self, key: &[u8]) -> (r: Result<Vec<u8>>)
        requires
            self.wf(),
        ensures
            r is Ok <==> self@.contains_key(key@),
            r matches Ok(v) ==> v@ == self@[key@],
            r matches Err(e) ==> e == not_found(),
    {
        if let Some(v) = lru_peek(&self.cache, key) {
            return Ok(v);
        }
        let k = bytes_copy(key);
        match self.db.get(&k) {
            Some(v) => Ok(bytes_copy(v.as_slice())),
            None => Err(Error::Database(DbError::NotFound)),
        }
    }

    /// The value stored under `key`, which the cache now holds.
    pub fn fetch(&mut self, key: &[u8]) -> (r: Result<Vec<u8>>)
        requires
            old(self).wf(),
        ensures
            final(self).wf(),
            final(self)@ == old(self)@,
            r is Ok <==> old(self)@.contains_key(key@),
            r matches Ok(v) ==> v@ == old(self)@[key@],
            r matches Err(e) ==> e == not_found(),
    {
        if let Some(v) = lru_get(&mut self.cache, key) {
            return Ok(v);
        }
        let k = bytes_copy(key);
        match self.db.get(&k) {
            Some(v) => {
                let v = bytes_copy(v.as_slice());
                let w = bytes_copy(v.as_slice());
                lru_put(&mut self.cache, k, w);
                Ok(v)
            },
            None => Err(Error::Database(DbError::NotFound)),
        }
    }

    /// Stores `value` under `key`.
    pub fn put(&mut self, key: &[u8], value: &[u8])
        requires
            old(self).wf(),
        ensures
            final(self).wf(),
            final(self)@ == old(self)@.insert(key@, value@),
    {
        let k = bytes_copy(key);
        let v = bytes_copy(value);
        self.db.insert(k, v);
        let k = bytes_copy(key);
        let v = bytes_copy(value);
        lru_put(&mut self.cache, k, v);
    }

    /// A key space of its own that holds the same values.
    pub fn copy(&self) -> (r: ByteSpace)
        ensures
            r.wf(),
            r@ == self@,
    {
        ByteSpace { db: self.db.dup(), cache: lru_new(CACHE_SIZE) }
    }

    /// Removes `key`.
    pub fn delete(&mut self, key: &[u8])
        requires
            old(self).wf(),
        ensures
            final(self).wf(),
            final(self)@ == old(self)@.remove(key@),
    {
        let k = bytes_copy(key);
        self.db.remove(&k);
        lru_pop(&mut self.cache, key);
    }
}

} // verus!
