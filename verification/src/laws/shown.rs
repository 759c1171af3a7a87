//! Texts and keys: what is shown of bytes, and what is read of what is shown.
use vstd::prelude::*;

use crate::crypto::{verify_pop, PublicKey};
use crate::error::Result;
use crate::ids::{Id, NodeId};
use crate::signer::{ProofOfPossession, Signer};
use crate::text::{
    find_char,
    format_timestamp,
    hex_digit,
    hex_nc,
    hex_text,
    id_string,
    lowered,
    node_id_string,
    parse_id,
    parse_node_id,
    trim_bounds,
    white,
    with_checksum,
};

verus! {

/// The number that a digit to the base sixteen stands for.
pub open spec fn hex_value(c: char) -> int {
    if '0' <= c <= '9' {
        c as int - '0' as int
    } else {
        c as int - 'a' as int + 10
    }
}

proof fn lemma_hex_pairs(b: Seq<u8>)
    ensures
        hex_text(b).len() == 2 * b.len(),
        forall|i: int|
            0 <= i < b.len() ==> 16 * hex_value(#[trigger] hex_text(b)[2 * i]) + hex_value(
                hex_text(b)[2 * i + 1],
            ) == b[i],
    decreases b.len(),
{
    if b.len() > 0 {
        lemma_hex_pairs(b.drop_last());
        let n = b.len() - 1;
        assert(hex_text(b)[2 * n] == hex_digit(b.last() as nat / 16));
        assert(hex_text(b)[2 * n + 1] == hex_digit(b.last() as nat % 16));
        assert forall|i: int| 0 <= i < b.len() implies 16 * hex_value(
            #[trigger] hex_text(b)[2 * i],
        ) + hex_value(hex_text(b)[2 * i + 1]) == b[i] by {
            if i < n {
                assert(hex_text(b)[2 * i] == hex_text(b.drop_last())[2 * i]);
                assert(hex_text(b)[2 * i + 1] == hex_text(b.drop_last())[2 * i + 1]);
                assert(b.drop_last()[i] == b[i]);
            }
        }
    }
}

/// Bytes are shown behind `0x`, each as two digits to the base sixteen, the
/// higher one first.
pub proof fn bytes_are_shown_in_pairs(bytes: &[u8], shown: String, i: int)
    requires
        call_ensures(hex_nc, (bytes,), shown),
        0 <= i < bytes@.len(),
    ensures
        shown@.len() == 2 + 2 * bytes@.len(),
        shown@[0] == '0' && shown@[1] == 'x',
        16 * hex_value(shown@[2 + 2 * i]) + hex_value(shown@[3 + 2 * i]) == bytes@[i],
{
    reveal_strlit("0x");
    lemma_hex_pairs(bytes@);
    assert(hex_text(bytes@)[2 * i] == shown@[2 + 2 * i]);
    assert(hex_text(bytes@)[2 * i + 1] == shown@[3 + 2 * i]);
}

/// An id that is shown is read back, and so is a node.
pub proof fn shown_ids_are_read_back(
    id: Id,
    node: NodeId,
    shown: String,
    node_shown: String,
    text: &str,
    node_text: &str,
    read: Option<Id>,
    node_read: Option<NodeId>,
)
    requires
        call_ensures(id_string, (&id,), shown),
        call_ensures(node_id_string, (&node,), node_shown),
        text@ == shown@,
        node_text@ == node_shown@,
        call_ensures(parse_id, (text,), read),
        call_ensures(parse_node_id, (node_text,), node_read),
    ensures
        read is Some && read->0@ == id@,
        node_read is Some && node_read->0@ == node@,
        node_shown@.len() >= 7 && node_shown@.take(7) == "NodeID-"@,
{
    reveal_strlit("NodeID-");
    assert(crate::text::id_text(id@) == text@);
    assert(crate::text::node_text(node@) == node_text@);
    assert(node_shown@.take(7) =~= "NodeID-"@);
}

/// What is checked keeps its bytes, with four more behind them that depend on
/// them alone.
pub proof fn checksums_follow(bytes: &[u8], again: &[u8], r: Vec<u8>, s: Vec<u8>)
    requires
        call_ensures(with_checksum, (bytes,), r),
        call_ensures(with_checksum, (again,), s),
        again@ == bytes@,
    ensures
        r@.len() == bytes@.len() + 4,
        r@.take(bytes@.len() as int) == bytes@,
        r@ == s@,
        r@.skip(bytes@.len() as int) == crate::crypto::sha256_digest(bytes@).skip(
            crate::crypto::sha256_digest(bytes@).len() - 4,
        ),
{
    assert(r@.take(bytes@.len() as int) =~= bytes@);
    assert(r@.skip(bytes@.len() as int) =~= crate::text::checksum_of(bytes@));
}

/// In lower case no letter from A to Z is left, each has become the letter 32
/// places on, and nothing else has changed.
pub proof fn lower_case_leaves_no_capitals(s: Seq<char>, i: int)
    requires
        0 <= i < s.len(),
    ensures
        lowered(s).len() == s.len(),
        !('A' <= lowered(s)[i] <= 'Z'),
        'A' <= s[i] <= 'Z' ==> lowered(s)[i] as int == s[i] as int + 32,
        !('A' <= s[i] <= 'Z') ==> lowered(s)[i] == s[i],
{
}

/// A character is found at its first place, and at the end where it has none.
pub proof fn characters_are_found_first(s: Vec<char>, c: char, r: usize, i: int)
    requires
        call_ensures(find_char, (&s, c), r),
        0 <= i < r,
    ensures
        r <= s@.len(),
        r < s@.len() ==> s@[r as int] == c,
        s@[i] != c,
{
    lemma_place_of(s@, c, i);
}

proof fn lemma_place_of(s: Seq<char>, c: char, i: int)
    requires
        0 <= i < crate::text::place_of(s, c),
    ensures
        crate::text::place_of(s, c) <= s.len(),
        crate::text::place_of(s, c) < s.len() ==> s[crate::text::place_of(s, c) as int] == c,
        i < s.len() && s[i] != c,
    decreases s.len(),
{
    lemma_place_bound(s, c);
    if i > 0 {
        lemma_place_of(s.drop_first(), c, i - 1);
    }
}

proof fn lemma_place_bound(s: Seq<char>, c: char)
    ensures
        crate::text::place_of(s, c) <= s.len(),
        crate::text::place_of(s, c) < s.len() ==> s[crate::text::place_of(s, c) as int] == c,
    decreases s.len(),
{
    if s.len() > 0 && s[0] != c {
        lemma_place_bound(s.drop_first(), c);
    }
}

proof fn lemma_trimmed(s: Seq<char>)
    ensures
        ({
            let t = crate::text::trimmed(s);
            t.len() > 0 ==> !white(t[0]) && !white(t.last())
        }),
        (forall|i: int| 0 <= i < s.len() ==> !white(#[trigger] s[i])) ==> crate::text::trimmed(s)
            == s,
{
    lemma_start(s);
    let t = s.skip(crate::text::blank_start(s) as int);
    lemma_end(t);
    if forall|i: int| 0 <= i < s.len() ==> !white(#[trigger] s[i]) {
        assert(t =~= s);
        assert(crate::text::trimmed(s) =~= s);
    }
}

proof fn lemma_start(s: Seq<char>)
    ensures
        crate::text::blank_start(s) <= s.len(),
        crate::text::blank_start(s) < s.len() ==> !white(s[crate::text::blank_start(s) as int]),
    decreases s.len(),
{
    if s.len() > 0 && white(s[0]) {
        lemma_start(s.drop_first());
    }
}

proof fn lemma_end(s: Seq<char>)
    ensures
        crate::text::blank_end(s) <= s.len(),
        crate::text::blank_end(s) < s.len() ==> !white(s[s.len() - 1 - crate::text::blank_end(s)]),
    decreases s.len(),
{
    if s.len() > 0 && white(s.last()) {
        lemma_end(s.drop_last());
    }
}

/// What is left once white space is cut off neither starts nor ends with any,
/// and a text without any is left whole.
pub proof fn trimming_cuts_white_space(s: Vec<char>, from: usize, to: usize, r: (usize, usize))
    requires
        from <= to <= s@.len(),
        call_ensures(trim_bounds, (&s, from, to), r),
    ensures
        from <= r.0 <= r.1 <= to,
        r.0 < r.1 ==> !white(s@[r.0 as int]) && !white(s@[r.1 - 1]),
        (forall|i: int| from <= i < to ==> !white(#[trigger] s@[i])) ==> r.1 - r.0 == to - from,
{
    let part = s@.subrange(from as int, to as int);
    lemma_trimmed(part);
    let t = s@.subrange(r.0 as int, r.1 as int);
    if r.0 < r.1 {
        assert(t[0] == s@[r.0 as int]);
        assert(t.last() == s@[r.1 - 1]);
    }
    if forall|i: int| from <= i < to ==> !white(#[trigger] s@[i]) {
        assert forall|i: int| 0 <= i < part.len() implies !white(#[trigger] part[i]) by {
            assert(part[i] == s@[from + i]);
        }
    }
}

/// The start of 1970 is shown, and so is, in its place, what cannot be shown.
pub proof fn times_are_shown(secs: u64, far: u64, shown: String, far_shown: String)
    requires
        call_ensures(format_timestamp, (secs,), shown),
        call_ensures(format_timestamp, (far,), far_shown),
        far > i64::MAX,
    ensures
        far_shown@ == "1970-01-01T00:00:00Z"@,
        secs <= i64::MAX && crate::text::rfc3339_text(secs as int) is Some ==> Some(shown@)
            == crate::text::rfc3339_text(secs as int),
{
}

/// A validator may declare no key, and has none. One that declares a key has that
/// key wherever the declaration is valid.
pub proof fn declared_keys_are_proved(
    s: Signer,
    valid: Result<()>,
    key: Result<Option<PublicKey>>,
    declared: bool,
)
    requires
        call_ensures(Signer::verify, (&s,), valid),
        call_ensures(Signer::key, (&s,), key),
        call_ensures(Signer::has_key, (&s,), declared),
    ensures
        declared <==> s is ProofOfPossession,
        !declared ==> valid is Ok && key is Ok && key->Ok_0 is None,
        declared && valid is Ok ==> key is Ok && key->Ok_0 is Some,
        declared && key is Ok ==> key->Ok_0 is Some,
        s matches Signer::ProofOfPossession(p) ==> (key matches Ok(Some(k)) ==> k.compressed
            == p.public_key),
{
    if let Signer::ProofOfPossession(p) = s {
        if let Ok(Some(k)) = key {
            assert(k.compressed@ =~= p.public_key@);
            assert(k.compressed =~= p.public_key);
        }
    }
}

/// A proof of possession is valid where its key can be read and has signed
/// itself, and only there.
pub proof fn keys_sign_themselves(
    p: ProofOfPossession,
    message: &[u8],
    valid: Result<()>,
    key: Option<PublicKey>,
    signed: bool,
)
    requires
        message@ == p.public_key@,
        call_ensures(ProofOfPossession::verify, (&p,), valid),
        call_ensures(PublicKey::from_compressed, (&p.public_key,), key),
        call_ensures(verify_pop, (&p.public_key, &p.proof, message), signed),
    ensures
        valid is Ok <==> key is Some && signed,
{
}

/// A key keeps the form that it was read from.
pub proof fn keys_keep_their_forms(
    compressed: [u8; 48],
    bytes: &[u8],
    a: Option<PublicKey>,
    b: Option<PublicKey>,
)
    requires
        call_ensures(PublicKey::from_compressed, (&compressed,), a),
        call_ensures(PublicKey::from_uncompressed, (bytes,), b),
    ensures
        a matches Some(k) ==> k.compressed@ == compressed@,
        b matches Some(k) ==> k.uncompressed@ == bytes@,
        bytes@.len() != 96 ==> b is None,
{
}

} // verus!
