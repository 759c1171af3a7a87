//! The linear codec: big-endian integers, fixed-size fields and byte strings
//! with a length in front.
use vstd::prelude::*;

use crate::ids::{Id, NodeId};
use crate::order::{bytes_copy, lemma_lex_leading_block, lemma_lex_shared_prefix, lex_lt, splits_at};

verus! {

/// Why bytes could not be decoded, or a value could not be encoded.
#[derive(Clone, Copy, Debug, PartialEq, Eq, Structural)]
pub enum CodecError {
    /// The version is not a registered one.
    UnknownVersion,
    /// Bytes are left over behind the value.
    ExtraSpace,
    /// The bytes end inside the value.
    InsufficientLength,
    /// The type id is not a registered one.
    UnknownTypeId,
    /// A length does not fit its field.
    LengthOverflow,
    /// The bytes are more than the codec takes.
    TooBig,
    /// The bytes of a text encode none.
    NotText,
}

/// `256` to the power `n`.
pub open spec fn pow256(n: nat) -> nat
    decreases n,
{
    if n == 0 {
        1
    } else {
        256 * pow256((n - 1) as nat)
    }
}

/// The low `n` base-256 digits of `v`, most significant first.
pub open spec fn be(v: nat, n: nat) -> Seq<u8>
    decreases n,
{
    if n == 0 {
        Seq::empty()
    } else {
        be(v / 256, (n - 1) as nat).push((v % 256) as u8)
    }
}

/// The number whose base-256 digits are `s`, most significant first.
pub open spec fn be_value(s: Seq<u8>) -> nat
    decreases s.len(),
{
    if s.len() == 0 {
        0
    } else {
        be_value(s.drop_last()) * 256 + s.last() as nat
    }
}

/// A byte string behind its length as a big-endian `u32`.
pub open spec fn prefixed(s: Seq<u8>) -> Seq<u8> {
    be(s.len(), 4) + s
}

/// Byte strings can be joined in any grouping.
pub proof fn lemma_concat(a: Seq<u8>, b: Seq<u8>, c: Seq<u8>)
    ensures
        (a + b) + c == a + (b + c),
{
    assert((a + b) + c =~= a + (b + c));
}

/// A number of `n` digits has `n` bytes.
pub proof fn lemma_be_len(v: nat, n: nat)
    ensures
        be(v, n).len() == n,
    decreases n,
{
    if n > 0 {
        lemma_be_len(v / 256, (n - 1) as nat);
    }
}

/// The powers that the widths of numbers need.
pub proof fn lemma_pow256()
    ensures
        pow256(0) == 1,
        pow256(1) == 0x100,
        pow256(2) == 0x1_0000,
        pow256(3) == 0x100_0000,
        pow256(4) == 0x1_0000_0000,
        pow256(5) == 0x100_0000_0000,
        pow256(6) == 0x1_0000_0000_0000,
        pow256(7) == 0x100_0000_0000_0000,
        pow256(8) == 0x1_0000_0000_0000_0000,
{
    reveal_with_fuel(pow256, 9);
}

/// What `n` bytes hold is below `256` to the power `n`.
pub proof fn lemma_be_value_bound(s: Seq<u8>)
    ensures
        be_value(s) < pow256(s.len()),
    decreases s.len(),
{
    if s.len() > 0 {
        lemma_be_value_bound(s.drop_last());
    }
}

/// Reading back what was written gives the number.
pub proof fn lemma_be_value_be(v: nat, n: nat)
    requires
        v < pow256(n),
    ensures
        be_value(be(v, n)) == v,
    decreases n,
{
    if n > 0 {
        let m = (n - 1) as nat;
        assert(v / 256 < pow256(m)) by {
            assert(v < 256 * pow256(m));
        }
        lemma_be_value_be(v / 256, m);
        assert(be(v, n).drop_last() =~= be(v / 256, m));
        assert(be(v, n).last() == (v % 256) as u8);
    }
}

/// Writing what was read gives the bytes.
pub proof fn lemma_be_be_value(s: Seq<u8>)
    ensures
        be(be_value(s), s.len()) == s,
    decreases s.len(),
{
    if s.len() > 0 {
        let w = be_value(s.drop_last());
        lemma_be_be_value(s.drop_last());
        assert((w * 256 + s.last() as nat) / 256 == w);
        assert((w * 256 + s.last() as nat) % 256 == s.last());
        assert(s =~= s.drop_last().push(s.last()));
    } else {
        assert(s =~= Seq::empty());
    }
}

/// The order of big-endian numbers is the order of their bytes.
pub proof fn lemma_be_ordered(v: nat, w: nat, n: nat)
    requires
        v < w < pow256(n),
    ensures
        lex_lt(be(v, n), be(w, n)),
    decreases n,
{
    let m = (n - 1) as nat;
    lemma_be_len(v / 256, m);
    lemma_be_len(w / 256, m);
    let a = be(v / 256, m);
    let b = be(w / 256, m);
    let p = seq![(v % 256) as u8];
    let q = seq![(w % 256) as u8];
    assert(be(v, n) =~= a + p);
    assert(be(w, n) =~= b + q);
    if v / 256 < w / 256 {
        assert(w / 256 < pow256(m)) by {
            assert(w < 256 * pow256(m));
        }
        lemma_be_ordered(v / 256, w / 256, m);
        lemma_lex_leading_block(a, b, p, q);
    } else {
        assert(v % 256 < w % 256);
        assert(splits_at(p, q, 0));
        lemma_lex_shared_prefix(a, p, q);
    }
}

/// Appends the low `n` bytes of `v`, most significant first.
pub fn push_be(out: &mut Vec<u8>, v: u64, n: usize)
    requires
        n <= 8,
    ensures
        final(out)@ == old(out)@ + be(v as nat, n as nat),
    decreases n,
{
    if n == 0 {
        assert(out@ =~= out@ + be(v as nat, 0));
    } else {
        push_be(out, v / 256, n - 1);
        let b: u8 = (v % 256) as u8;
        out.push(b);
        assert(out@ =~= old(out)@ + be(v as nat, n as nat));
    }
}

/// Appends a big-endian `u16`.
pub fn push_u16(out: &mut Vec<u8>, v: u16)
    ensures
        final(out)@ == old(out)@ + be(v as nat, 2),
{
    push_be(out, v as u64, 2);
}

/// Appends a big-endian `u32`.
pub fn push_u32(out: &mut Vec<u8>, v: u32)
    ensures
        final(out)@ == old(out)@ + be(v as nat, 4),
{
    push_be(out, v as u64, 4);
}

/// Appends a big-endian `u64`.
pub fn push_u64(out: &mut Vec<u8>, v: u64)
    ensures
        final(out)@ == old(out)@ + be(v as nat, 8),
{
    push_be(out, v, 8);
}

/// Appends `s`.
pub fn push_fixed(out: &mut Vec<u8>, s: &[u8])
    ensures
        final(out)@ == old(out)@ + s@,
{
    out.extend_from_slice(s);
    assert(out@ =~= old(out)@ + s@);
}

/// Appends `s` behind its length.
pub fn push_bytes(out: &mut Vec<u8>, s: &[u8])
    requires
        s@.len() <= u32::MAX,
    ensures
        final(out)@ == old(out)@ + prefixed(s@),
{
    push_be(out, s.len() as u64, 4);
    push_fixed(out, s);
    assert(out@ =~= old(out)@ + prefixed(s@));
}

/// The bytes of `v` as a big-endian `u64`.
pub fn u64_bytes(v: u64) -> (r: Vec<u8>)
    ensures
        r@ == be(v as nat, 8),
{
    let mut out: Vec<u8> = Vec::new();
    push_u64(&mut out, v);
    assert(out@ =~= be(v as nat, 8));
    out
}

/// The number held big-endian by the `n` bytes at `at`.
pub fn read_be(s: &[u8], at: usize, n: usize) -> (r: u64)
    requires
        n <= 8,
        at + n <= s@.len(),
    ensures
        r == be_value(s@.subrange(at as int, at + n)),
        r < pow256(n as nat),
{
    let len: usize = s.len();
    let mut acc: u64 = 0;
    let mut i: usize = 0;
    while i < n
        invariant
            i <= n <= 8,
            at + n <= len,
            len == s@.len(),
            acc == be_value(s@.subrange(at as int, at + i)),
        decreases n - i,
    {
        let ghost part = s@.subrange(at as int, at + i + 1);
        proof {
            assert(part.drop_last() =~= s@.subrange(at as int, at + i));
            assert(part.last() == s@[at + i]);
            lemma_be_value_bound(part);
            lemma_pow256();
        }
        acc = acc * 256 + s[at + i] as u64;
        i += 1;
    }
    proof {
        lemma_be_value_bound(s@.subrange(at as int, at + n));
    }
    acc
}

/// The big-endian number of `n` bytes at the start of `s`, and what follows.
pub open spec fn rd_be(s: Seq<u8>, n: nat) -> Option<(nat, Seq<u8>)> {
    if s.len() < n {
        None
    } else {
        Some((be_value(s.take(n as int)), s.skip(n as int)))
    }
}

/// The `n` bytes at the start of `s`, and what follows.
pub open spec fn rd_fixed(s: Seq<u8>, n: nat) -> Option<(Seq<u8>, Seq<u8>)> {
    if s.len() < n {
        None
    } else {
        Some((s.take(n as int), s.skip(n as int)))
    }
}

/// The byte string behind its length at the start of `s`, and what follows.
pub open spec fn rd_bytes(s: Seq<u8>) -> Option<(Seq<u8>, Seq<u8>)> {
    match rd_be(s, 4) {
        None => None,
        Some((n, t)) => rd_fixed(t, n),
    }
}

/// What is read is what was written in front of the rest.
pub proof fn lemma_rd_be_sound(s: Seq<u8>, n: nat)
    ensures
        rd_be(s, n) matches Some((v, t)) ==> s == be(v, n) + t && v < pow256(n),
{
    if s.len() >= n {
        lemma_be_be_value(s.take(n as int));
        lemma_be_value_bound(s.take(n as int));
        assert(s =~= s.take(n as int) + s.skip(n as int));
    }
}

/// What was written is read.
pub proof fn lemma_rd_be(v: nat, n: nat, t: Seq<u8>)
    requires
        v < pow256(n),
    ensures
        rd_be(be(v, n) + t, n) == Some((v, t)),
{
    lemma_be_len(v, n);
    lemma_be_value_be(v, n);
    assert((be(v, n) + t).take(n as int) =~= be(v, n));
    assert((be(v, n) + t).skip(n as int) =~= t);
}

/// What is read is what was written in front of the rest.
pub proof fn lemma_rd_fixed_sound(s: Seq<u8>, n: nat)
    ensures
        rd_fixed(s, n) matches Some((v, t)) ==> s == v + t && v.len() == n,
{
    if s.len() >= n {
        assert(s =~= s.take(n as int) + s.skip(n as int));
    }
}

/// What was written is read.
pub proof fn lemma_rd_fixed(v: Seq<u8>, t: Seq<u8>)
    ensures
        rd_fixed(v + t, v.len()) == Some((v, t)),
{
    assert((v + t).take(v.len() as int) =~= v);
    assert((v + t).skip(v.len() as int) =~= t);
}

/// What is read is what was written in front of the rest.
pub proof fn lemma_rd_bytes_sound(s: Seq<u8>)
    ensures
        rd_bytes(s) matches Some((v, t)) ==> s == prefixed(v) + t && v.len() <= u32::MAX,
{
    lemma_pow256();
    lemma_rd_be_sound(s, 4);
    if let Some((n, t)) = rd_be(s, 4) {
        lemma_rd_fixed_sound(t, n);
        if let Some((v, u)) = rd_fixed(t, n) {
            assert(s =~= prefixed(v) + u);
        }
    }
}

/// What was written is read.
pub proof fn lemma_rd_bytes(v: Seq<u8>, t: Seq<u8>)
    requires
        v.len() <= u32::MAX,
    ensures
        rd_bytes(prefixed(v) + t) == Some((v, t)),
{
    lemma_pow256();
    lemma_rd_be(v.len(), 4, v + t);
    assert(prefixed(v) + t =~= be(v.len(), 4) + (v + t));
    lemma_rd_fixed(v, t);
}

/// A cursor over bytes that are being decoded.
pub struct Reader<'a> {
    data: &'a [u8],
    at: usize,
}

impl<'a> Reader<'a> {
    /// The bytes that are left.
    pub closed spec fn rest(&self) -> Seq<u8> {
        self.data@.skip(self.at as int)
    }

    #[verifier::type_invariant]
    spec fn inv(&self) -> bool {
        self.at <= self.data@.len()
    }

    /// A cursor at the start of `data`.
    pub fn new(data: &'a [u8]) -> (r: Reader<'a>)
        ensures
            r.rest() == data@,
    {
        let r = Reader { data, at: 0 };
        assert(r.rest() =~= data@);
        r
    }

    /// Whether nothing is left.
    pub fn done(&self) -> (r: bool)
        ensures
            r == (self.rest().len() == 0),
    {
        proof {
            use_type_invariant(self);
        }
        self.at == self.data.len()
    }

    /// The number of bytes left.
    pub fn left(&self) -> (r: usize)
        ensures
            r == self.rest().len(),
    {
        proof {
            use_type_invariant(self);
        }
        self.data.len() - self.at
    }

    fn take_be(&mut self, n: usize) -> (r: Option<u64>)
        requires
            n <= 8,
        ensures
            match rd_be(old(self).rest(), n as nat) {
                Some((v, t)) => r is Some && r->0 == v && v < pow256(n as nat) && final(self).rest()
                    == t,
                None => r is None,
            },
    {
        proof {
            use_type_invariant(&*self);
        }
        if self.data.len() - self.at < n {
            return None;
        }
        let v: u64 = read_be(self.data, self.at, n);
        proof {
            assert(self.data@.subrange(self.at as int, self.at + n) =~= self.rest().take(n as int));
            assert(self.rest().skip(n as int) =~= self.data@.skip(self.at + n));
        }
        self.at = self.at + n;
        Some(v)
    }

    /// Reads a big-endian `u16`.
    pub fn take_u16(&mut self) -> (r: Option<u16>)
        ensures
            match rd_be(old(self).rest(), 2) {
                Some((v, t)) => r is Some && r->0 == v && final(self).rest() == t,
                None => r is None,
            },
    {
        proof {
            lemma_pow256();
        }
        match self.take_be(2) {
            Some(v) => Some(v as u16),
            None => None,
        }
    }

    /// Reads a big-endian `u32`.
    pub fn take_u32(&mut self) -> (r: Option<u32>)
        ensures
            match rd_be(old(self).rest(), 4) {
                Some((v, t)) => r is Some && r->0 == v && final(self).rest() == t,
                None => r is None,
            },
    {
        proof {
            lemma_pow256();
        }
        match self.take_be(4) {
            Some(v) => Some(v as u32),
            None => None,
        }
    }

    /// Reads a big-endian `u64`.
    pub fn take_u64(&mut self) -> (r: Option<u64>)
        ensures
            match rd_be(old(self).rest(), 8) {
                Some((v, t)) => r is Some && r->0 == v && final(self).rest() == t,
                None => r is None,
            },
    {
        self.take_be(8)
    }

    /// Reads the next `n` bytes.
    pub fn take(&mut self, n: usize) -> (r: Option<&'a [u8]>)
        ensures
            match rd_fixed(old(self).rest(), n as nat) {
                Some((v, t)) => r is Some && r->0@ == v && v.len() == n && final(self).rest() == t,
                None => r is None,
            },
    {
        proof {
            use_type_invariant(&*self);
        }
        if self.data.len() - self.at < n {
            return None;
        }
        let from: usize = self.at;
        let to: usize = from + n;
        let part = vstd::slice::slice_subrange(self.data, from, to);
        proof {
            assert(part@ =~= self.rest().take(n as int));
            assert(self.rest().skip(n as int) =~= self.data@.skip(to as int));
        }
        self.at = to;
        Some(part)
    }

    /// Reads the next 32 bytes as an id.
    pub fn take_id(&mut self) -> (r: Option<Id>)
        ensures
            match rd_fixed(old(self).rest(), 32) {
                Some((v, t)) => r is Some && r->0@ == v && final(self).rest() == t,
                None => r is None,
            },
    {
        match self.take(32) {
            Some(s) => Id::from_slice(s),
            None => None,
        }
    }

    /// Reads the next 20 bytes as a node id.
    pub fn take_node_id(&mut self) -> (r: Option<NodeId>)
        ensures
            match rd_fixed(old(self).rest(), 20) {
                Some((v, t)) => r is Some && r->0@ == v && final(self).rest() == t,
                None => r is None,
            },
    {
        match self.take(20) {
            Some(s) => NodeId::from_slice(s),
            None => None,
        }
    }

    /// Reads a byte string behind its length.
    pub fn take_bytes(&mut self) -> (r: Option<Vec<u8>>)
        ensures
            match rd_bytes(old(self).rest()) {
                Some((v, t)) => r is Some && r->0@ == v && v.len() <= u32::MAX
                    && final(self).rest() == t,
                None => r is None,
            },
    {
        let n: u32 = match self.take_u32() {
            Some(n) => n,
            None => {
                return None;
            },
        };
        match self.take(n as usize) {
            Some(part) => Some(bytes_copy(part)),
            None => None,
        }
    }
}

} // verus!
