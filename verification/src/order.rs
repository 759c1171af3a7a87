//! The lexicographic order on byte strings, which every ordered collection of
//! this library is sorted by.
use vstd::prelude::*;

verus! {

/// `a` and `b` agree below `i`, and at `i` either `a` has ended or its byte is
/// the smaller one.
pub open spec fn splits_at(a: Seq<u8>, b: Seq<u8>, i: int) -> bool {
    &&& 0 <= i <= a.len()
    &&& i < b.len()
    &&& forall|j: int| 0 <= j < i ==> a[j] == b[j]
    &&& (i == a.len() || a[i] < b[i])
}

/// `a` comes strictly before `b`.
pub open spec fn lex_lt(a: Seq<u8>, b: Seq<u8>) -> bool {
    exists|i: int| splits_at(a, b, i)
}

/// No byte string comes before itself, and no two come before each other.
pub proof fn lemma_lex_antisymmetric(a: Seq<u8>, b: Seq<u8>)
    requires
        lex_lt(a, b),
    ensures
        a != b,
        !lex_lt(b, a),
{
    let i = choose|i: int| splits_at(a, b, i);
    assert(a != b);
    if lex_lt(b, a) {
        let j = choose|j: int| splits_at(b, a, j);
        assert(a[i] == a[i] && b[j] == b[j]);
    }
}

/// The order is transitive.
pub proof fn lemma_lex_transitive(a: Seq<u8>, b: Seq<u8>, c: Seq<u8>)
    requires
        lex_lt(a, b),
        lex_lt(b, c),
    ensures
        lex_lt(a, c),
{
    let i = choose|i: int| splits_at(a, b, i);
    let j = choose|j: int| splits_at(b, c, j);
    let k = if i <= j { i } else { j };
    assert(splits_at(a, c, k));
}

proof fn lemma_lex_total_from(a: Seq<u8>, b: Seq<u8>, i: int)
    requires
        0 <= i <= a.len(),
        i <= b.len(),
        forall|j: int| 0 <= j < i ==> a[j] == b[j],
    ensures
        a == b || lex_lt(a, b) || lex_lt(b, a),
    decreases a.len() - i,
{
    if i == a.len() && i == b.len() {
        assert(a =~= b);
    } else if i == a.len() {
        assert(splits_at(a, b, i));
    } else if i == b.len() {
        assert(splits_at(b, a, i));
    } else if a[i] < b[i] {
        assert(splits_at(a, b, i));
    } else if b[i] < a[i] {
        assert(splits_at(b, a, i));
    } else {
        lemma_lex_total_from(a, b, i + 1);
    }
}

/// Any two byte strings are equal or ordered.
pub proof fn lemma_lex_total(a: Seq<u8>, b: Seq<u8>)
    ensures
        a == b || lex_lt(a, b) || lex_lt(b, a),
{
    lemma_lex_total_from(a, b, 0);
}

/// A shared prefix does not matter to the order.
pub proof fn lemma_lex_shared_prefix(p: Seq<u8>, a: Seq<u8>, b: Seq<u8>)
    ensures
        lex_lt(p + a, p + b) <==> lex_lt(a, b),
{
    if lex_lt(a, b) {
        let i = choose|i: int| splits_at(a, b, i);
        assert(splits_at(p + a, p + b, p.len() + i));
    }
    if lex_lt(p + a, p + b) {
        let i = choose|i: int| splits_at(p + a, p + b, i);
        assert(i >= p.len()) by {
            if i < p.len() {
                assert((p + a)[i] == p[i] && (p + b)[i] == p[i]);
            }
        }
        let k = i - p.len();
        assert forall|j: int| 0 <= j < k implies a[j] == b[j] by {
            assert((p + a)[p.len() + j] == a[j]);
            assert((p + b)[p.len() + j] == b[j]);
        }
        if k < a.len() {
            assert((p + a)[i] == a[k]);
        }
        assert((p + b)[i] == b[k]);
        assert(splits_at(a, b, k));
    }
}

/// Between strings that start with blocks of one length, the blocks decide
/// where they differ.
pub proof fn lemma_lex_leading_block(p: Seq<u8>, q: Seq<u8>, a: Seq<u8>, b: Seq<u8>)
    requires
        p.len() == q.len(),
        lex_lt(p, q),
    ensures
        lex_lt(p + a, q + b),
{
    let i = choose|i: int| splits_at(p, q, i);
    assert(splits_at(p + a, q + b, i));
}

/// Between two strings that start with `p`, every string starts with `p`.
pub proof fn lemma_prefix_is_convex(p: Seq<u8>, a: Seq<u8>, b: Seq<u8>, c: Seq<u8>)
    requires
        !lex_lt(b, a),
        lex_lt(b, c),
        a.len() >= p.len(),
        c.len() >= p.len(),
        b.len() >= p.len(),
        a.take(p.len() as int) == p,
        c.take(p.len() as int) == p,
    ensures
        b.take(p.len() as int) == p,
{
    let n = p.len() as int;
    let q = b.take(n);
    if q != p {
        lemma_lex_total(q, p);
        assert(a =~= p + a.skip(n));
        assert(b =~= q + b.skip(n));
        assert(c =~= p + c.skip(n));
        if lex_lt(q, p) {
            lemma_lex_leading_block(q, p, b.skip(n), a.skip(n));
        } else {
            lemma_lex_leading_block(p, q, c.skip(n), b.skip(n));
            lemma_lex_antisymmetric(b, c);
        }
    }
}

/// Whether `a` comes strictly before `b`.
pub fn bytes_lt(a: &[u8], b: &[u8]) -> (r: bool)
    ensures
        r == lex_lt(a@, b@),
{
    let mut i: usize = 0;
    while i < a.len() && i < b.len() && a[i] == b[i]
        invariant
            i <= a.len(),
            i <= b.len(),
            forall|j: int| 0 <= j < i ==> a[j] == b[j],
        decreases a.len() - i,
    {
        i += 1;
    }
    if i < b.len() && (i == a.len() || a[i] < b[i]) {
        assert(splits_at(a@, b@, i as int));
        true
    } else {
        proof {
            if i == a.len() && i == b.len() {
                assert(a@ =~= b@);
            } else {
                assert(splits_at(b@, a@, i as int));
            }
            if lex_lt(a@, b@) {
                lemma_lex_antisymmetric(a@, b@);
            }
        }
        false
    }
}

/// Whether `a` and `b` hold the same bytes.
pub fn bytes_eq(a: &[u8], b: &[u8]) -> (r: bool)
    ensures
        r == (a@ == b@),
{
    if a.len() != b.len() {
        return false;
    }
    let mut i: usize = 0;
    while i < a.len()
        invariant
            a.len() == b.len(),
            i <= a.len(),
            forall|j: int| 0 <= j < i ==> a[j] == b[j],
        decreases a.len() - i,
    {
        if a[i] != b[i] {
            return false;
        }
        i += 1;
    }
    assert(a@ =~= b@);
    true
}

/// A fresh copy of `a`.
pub fn bytes_copy(a: &[u8]) -> (r: Vec<u8>)
    ensures
        r@ == a@,
{
    let mut r: Vec<u8> = Vec::new();
    r.extend_from_slice(a);
    assert(r@ =~= a@);
    r
}

} // verus!
