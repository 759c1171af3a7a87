//! Numbers of variable length: seven bits a byte, the lowest first.
use vstd::prelude::*;

verus! {

/// The bytes of `n`: each but the last has its highest bit set.
pub open spec fn varint(n: nat) -> Seq<u8>
    decreases n,
{
    if n < 128 {
        seq![n as u8]
    } else {
        seq![(n % 128 + 128) as u8] + varint(n / 128)
    }
}

/// The number at the start of `s`, and how many bytes it takes: `room` at most.
/// A number that does not fit 64 bits is none.
pub open spec fn rd_varint_within(s: Seq<u8>, room: nat) -> Option<(nat, nat)>
    decreases room,
{
    if room == 0 || s.len() == 0 {
        None
    } else if s[0] < 128 {
        if room == 1 && s[0] >= 2 {
            None
        } else {
            Some((s[0] as nat, 1))
        }
    } else {
        match rd_varint_within(s.drop_first(), (room - 1) as nat) {
            Some((v, n)) => Some(((s[0] - 128 + 128 * v) as nat, n + 1)),
            None => None,
        }
    }
}

/// The number at the start of `s`, and what follows it.
pub open spec fn rd_varint(s: Seq<u8>) -> Option<(nat, Seq<u8>)> {
    match rd_varint_within(s, 10) {
        Some((v, n)) => Some((v, s.skip(n as int))),
        None => None,
    }
}

/// `prost::encoding::encode_varint` on a vector: the bytes of `n` follow what
/// was there.
#[verifier::external_body]
pub(crate) fn push_varint(out: &mut Vec<u8>, n: u64)
    ensures
        final(out)@ == old(out)@ + varint(n as nat),
{
    prost::encoding::encode_varint(n, out)
}

/// `prost::encoding::decode_varint` on a slice: the number at its start and
/// what follows it, if there is one of ten bytes at most that fits 64 bits.
#[verifier::external_body]
pub(crate) fn read_varint(s: &[u8]) -> (r: Option<(u64, &[u8])>)
    ensures
        match rd_varint(s@) {
            Some((v, t)) => r is Some && (r->0).0 == v && (r->0).1@ == t,
            None => r is None,
        },
{
    let mut rest: &[u8] = s;
    match prost::encoding::decode_varint(&mut rest) {
        Ok(v) => Some((v, rest)),
        Err(_) => None,
    }
}

/// The least number that does not fit `room` bytes, of which the tenth holds one
/// bit.
spec fn limit(room: nat) -> nat
    decreases room,
{
    if room <= 1 {
        2
    } else {
        128 * limit((room - 1) as nat)
    }
}

proof fn lemma_within(n: nat, t: Seq<u8>, room: nat)
    requires
        1 <= room <= 10,
        n < limit(room),
    ensures
        varint(n).len() >= 1,
        rd_varint_within(varint(n) + t, room) == Some((n, varint(n).len())),
    decreases room,
{
    let s = varint(n) + t;
    if n < 128 {
        assert(s[0] == n as u8);
    } else {
        assert(room > 1) by {
            if room == 1 {
                assert(limit(1) == 2);
            }
        }
        let q = n / 128;
        assert(q < limit((room - 1) as nat));
        lemma_within(q, t, (room - 1) as nat);
        assert(s[0] == (n % 128 + 128) as u8);
        assert(s.drop_first() =~= varint(q) + t);
        assert(n == n % 128 + 128 * q);
    }
}

/// A number that was written is read back, whatever follows it.
pub proof fn varint_round_trip(n: u64, t: Seq<u8>)
    ensures
        rd_varint(varint(n as nat) + t) == Some((n as nat, t)),
        varint(n as nat).len() >= 1,
{
    reveal_with_fuel(limit, 11);
    assert(limit(10) == 0x1_0000_0000_0000_0000);
    lemma_within(n as nat, t, 10);
    assert((varint(n as nat) + t).skip(varint(n as nat).len() as int) =~= t);
}

proof fn lemma_within_bounds(s: Seq<u8>, room: nat)
    requires
        room <= 10,
    ensures
        rd_varint_within(s, room) matches Some((v, n)) ==> 1 <= n <= s.len() && n <= room && v
            < limit(room),
    decreases room,
{
    if room > 0 && s.len() > 0 && s[0] >= 128 {
        lemma_within_bounds(s.drop_first(), (room - 1) as nat);
        if let Some((v, n)) = rd_varint_within(s.drop_first(), (room - 1) as nat) {
            if room == 1 {
                assert(rd_varint_within(s.drop_first(), 0) is None);
            } else {
                assert(v < limit((room - 1) as nat));
                assert(limit(room) == 128 * limit((room - 1) as nat));
            }
        }
    } else if room > 1 && s.len() > 0 {
        lemma_limit_large(room);
    }
}

proof fn lemma_limit_large(room: nat)
    requires
        room > 1,
    ensures
        limit(room) >= 256,
    decreases room,
{
    if room > 2 {
        lemma_limit_large((room - 1) as nat);
    } else {
        assert(limit(1) == 2);
    }
}

/// Reading a number takes at least one byte, and the number fits 64 bits.
pub proof fn lemma_rd_varint(s: Seq<u8>)
    ensures
        rd_varint(s) matches Some((v, t)) ==> t.len() < s.len() && v <= u64::MAX,
{
    reveal_with_fuel(limit, 11);
    assert(limit(10) == 0x1_0000_0000_0000_0000);
    lemma_within_bounds(s, 10);
}

} // verus!
