//! Texts: comparing, cutting and making them.
use vstd::prelude::*;
use vstd::string::*;
use vstd::utf8::{char_is_scalar, encode_scalar, encode_utf8, encode_utf8_decode_utf8, encode_utf8_valid_utf8, has_width_1_encoding};

use crate::crypto::{sha256, sha256_digest};
use crate::error::joined;
use crate::ids::{Id, NodeId};
use crate::order::{bytes_copy, bytes_eq};
use crate::wire::text_of;

verus! {

/// Whether two texts are the same.
pub fn str_eq(a: &str, b: &str) -> (r: bool)
    ensures
        r == (a@ == b@),
{
    let r = bytes_eq(a.as_bytes(), b.as_bytes());
    proof {
        encode_utf8_decode_utf8(a@);
        encode_utf8_decode_utf8(b@);
    }
    r
}

/// The lower case form of a letter from A to Z; any other character itself.
pub open spec fn lower(c: char) -> char {
    if 'A' <= c <= 'Z' {
        ((c as u8) + 32) as u8 as char
    } else {
        c
    }
}

/// The text with its letters from A to Z in lower case.
pub open spec fn lowered(s: Seq<char>) -> Seq<char> {
    s.map_values(|c: char| lower(c))
}

/// The byte of the lower case form of a letter from A to Z; any other byte
/// itself.
spec fn lower_byte(b: u8) -> u8 {
    if 0x41 <= b <= 0x5a {
        (b + 32) as u8
    } else {
        b
    }
}

/// No byte of a character beyond ASCII is a letter.
proof fn lemma_lower_scalar(c: char)
    ensures
        encode_scalar(lower(c) as u32) == encode_scalar(c as u32).map_values(
            |b: u8| lower_byte(b),
        ),
{
    let x = c as u32;
    char_is_scalar(c);
    let bytes = encode_scalar(x);
    if has_width_1_encoding(x) {
        assert(forall|y: u32| #![auto] y <= 0x7f ==> (y & 0x7f) as u8 == y as u8)
            by (bit_vector);
        let l = lower(c) as u32;
        assert(l <= 0x7f);
        assert(encode_scalar(l) =~= seq![l as u8]);
        assert(bytes =~= seq![x as u8]);
    } else {
        assert(forall|y: u32| #![auto] (0xc0 | ((y >> 6) & 0x1f) as u8) >= 0x80u8)
            by (bit_vector);
        assert(forall|y: u32| #![auto] (0xe0 | ((y >> 12) & 0x0f) as u8) >= 0x80u8)
            by (bit_vector);
        assert(forall|y: u32| #![auto] (0xf0 | ((y >> 18) & 0x07) as u8) >= 0x80u8)
            by (bit_vector);
        assert(forall|y: u32| #![auto] (0x80 | (y & 0x3f) as u8) >= 0x80u8) by (bit_vector);
        assert(forall|y: u32| #![auto] (0x80 | ((y >> 6) & 0x3f) as u8) >= 0x80u8)
            by (bit_vector);
        assert(forall|y: u32| #![auto] (0x80 | ((y >> 12) & 0x3f) as u8) >= 0x80u8)
            by (bit_vector);
        assert(forall|i: int| 0 <= i < bytes.len() ==> #[trigger] bytes[i] >= 0x80);
        assert(bytes =~= bytes.map_values(|b: u8| lower_byte(b)));
    }
}

proof fn lemma_lower_bytes(s: Seq<char>)
    ensures
        encode_utf8(lowered(s)) == encode_utf8(s).map_values(|b: u8| lower_byte(b)),
    decreases s.len(),
{
    if s.len() == 0 {
        assert(lowered(s) =~= s);
        assert(encode_utf8(s).map_values(|b: u8| lower_byte(b)) =~= encode_utf8(s));
    } else {
        lemma_lower_bytes(s.drop_first());
        lemma_lower_scalar(s[0]);
        assert(lowered(s).drop_first() =~= lowered(s.drop_first()));
        assert((encode_scalar(s[0] as u32) + encode_utf8(s.drop_first())).map_values(
            |b: u8| lower_byte(b),
        ) =~= encode_scalar(s[0] as u32).map_values(|b: u8| lower_byte(b)) + encode_utf8(
            s.drop_first(),
        ).map_values(|b: u8| lower_byte(b)));
    }
}

/// The text with its letters from A to Z in lower case.
pub(crate) fn to_lower(s: &str) -> (r: String)
    ensures
        r@ == lowered(s@),
{
    let bytes = s.as_bytes();
    let n: usize = bytes.len();
    let mut out: Vec<u8> = Vec::new();
    let mut i: usize = 0;
    while i < n
        invariant
            i <= n,
            n == bytes@.len(),
            out@ == bytes@.take(i as int).map_values(|b: u8| lower_byte(b)),
        decreases n - i,
    {
        let b: u8 = bytes[i];
        if 0x41 <= b && b <= 0x5a {
            out.push(b + 32);
        } else {
            out.push(b);
        }
        assert(out@ =~= bytes@.take(i + 1).map_values(|b: u8| lower_byte(b)));
        i += 1;
    }
    proof {
        assert(bytes@.take(n as int) =~= bytes@);
        lemma_lower_bytes(s@);
        encode_utf8_valid_utf8(lowered(s@));
        encode_utf8_decode_utf8(lowered(s@));
    }
    match text_of(out) {
        Some(t) => t,
        None => s.to_owned(),
    }
}

/// Whether `c` is white space.
pub uninterp spec fn white(c: char) -> bool;

/// `char::is_whitespace`: whether `c` is white space, which depends on `c`
/// alone.
#[verifier::external_body]
fn is_white(c: char) -> (r: bool)
    ensures
        r == white(c),
{
    c.is_whitespace()
}

/// Whether `c` is an upper case letter.
pub uninterp spec fn upper(c: char) -> bool;

/// `char::is_uppercase`: whether `c` is an upper case letter, which depends on
/// `c` alone.
#[verifier::external_body]
pub(crate) fn is_upper(c: char) -> (r: bool)
    ensures
        r == upper(c),
{
    c.is_uppercase()
}

/// The upper case form of `c`, which may be more than one character.
pub uninterp spec fn raised(c: char) -> Seq<char>;

/// `char::to_uppercase`: the upper case form of `c`, which depends on `c`
/// alone.
#[verifier::external_body]
pub(crate) fn raise(c: char) -> (r: String)
    ensures
        r@ == raised(c),
{
    c.to_uppercase().to_string()
}

/// The digits of `n` to the base ten.
pub open spec fn decimal_text(n: nat) -> Seq<char>
    decreases n,
{
    if n < 10 {
        seq![(('0' as u8) + n) as u8 as char]
    } else {
        decimal_text(n / 10).push((('0' as u8) + n % 10) as u8 as char)
    }
}

/// The digits of `n` to the base ten, without leading zeros.
pub(crate) fn decimal(n: u64) -> (r: String)
    ensures
        r@ == decimal_text(n as nat),
    decreases n,
{
    let d: usize = (n % 10) as usize;
    proof {
        reveal_strlit("0123456789");
    }
    let digit = "0123456789".substring_char(d, d + 1);
    proof {
        assert(digit@ =~= seq![(('0' as u8) + n % 10) as u8 as char]);
    }
    if n < 10 {
        digit.to_owned()
    } else {
        let head = decimal(n / 10);
        let r = joined(head.as_str(), digit);
        assert(r@ =~= decimal_text(n as nat));
        r
    }
}

/// The digit that stands for `n` to the base sixteen.
pub open spec fn hex_digit(n: nat) -> char {
    if n < 10 {
        (('0' as u8) + n) as u8 as char
    } else {
        (('a' as u8) + n - 10) as u8 as char
    }
}

/// The bytes to the base sixteen, two digits each.
pub open spec fn hex_text(bytes: Seq<u8>) -> Seq<char>
    decreases bytes.len(),
{
    if bytes.len() == 0 {
        Seq::empty()
    } else {
        hex_text(bytes.drop_last()).push(hex_digit(bytes.last() as nat / 16)).push(
            hex_digit(bytes.last() as nat % 16),
        )
    }
}

/// `hex::encode`: the bytes to the base sixteen, two digits each, with lower
/// case letters.
#[verifier::external_body]
pub(crate) fn hex_encode(bytes: &[u8]) -> (r: String)
    ensures
        r@ == hex_text(bytes@),
{
    hex::encode(bytes)
}

/// The bytes to the base sixteen, behind `0x`.
pub fn hex_nc(bytes: &[u8]) -> (r: String)
    ensures
        r@ == "0x"@ + hex_text(bytes@),
{
    let h = hex_encode(bytes);
    joined("0x", h.as_str())
}

/// What `bytes` end with once they are checked: the last four bytes of their
/// digest.
pub open spec fn checksum_of(bytes: Seq<u8>) -> Seq<u8> {
    let d = sha256_digest(bytes);
    d.skip(d.len() - 4)
}

/// `bytes`, and behind them the last four bytes of their digest.
pub fn with_checksum(bytes: &[u8]) -> (r: Vec<u8>)
    ensures
        r@ == bytes@ + checksum_of(bytes@),
        r@.len() == bytes@.len() + 4,
{
    let d = sha256(bytes);
    let mut out = bytes_copy(bytes);
    out.push(d[28]);
    out.push(d[29]);
    out.push(d[30]);
    out.push(d[31]);
    assert(d@.skip(28) =~= seq![d[28], d[29], d[30], d[31]]);
    assert(out@ =~= bytes@ + checksum_of(bytes@));
    out
}

/// The bytes to the base fifty-eight.
pub uninterp spec fn base58_text(bytes: Seq<u8>) -> Seq<char>;

/// `bs58::encode`, then `into_string`: the bytes to the base fifty-eight, which
/// depends on them alone.
#[verifier::external_body]
fn base58(bytes: &[u8]) -> (r: String)
    ensures
        r@ == base58_text(bytes@),
{
    bs58::encode(bytes).into_string()
}

/// The text that an id is shown as.
pub open spec fn id_text(id: Seq<u8>) -> Seq<char> {
    base58_text(id + checksum_of(id))
}

/// The text that `id` is shown as: its bytes and their checksum.
pub fn id_string(id: &Id) -> (r: String)
    ensures
        r@ == id_text(id@),
{
    let b = with_checksum(id.as_bytes());
    base58(b.as_slice())
}

/// The bytes that a text stands for to the base fifty-eight, if it does.
pub uninterp spec fn base58_bytes(text: Seq<char>) -> Option<Seq<u8>>;

/// `bs58::decode`, then `into_vec`: the bytes that the text stands for to the base
/// fifty-eight, if it does, which depends on the text alone. Of bytes that were
/// written so, it gives the bytes back.
#[verifier::external_body]
fn base58_decode(text: &str) -> (r: Option<Vec<u8>>)
    ensures
        match base58_bytes(text@) {
            Some(b) => r is Some && r->0@ == b,
            None => r is None,
        },
        forall|b: Seq<u8>| #[trigger] base58_text(b) == text@ ==> r is Some && r->0@ == b,
{
    match bs58::decode(text).into_vec() {
        Ok(b) => Some(b),
        Err(_) => None,
    }
}

/// The `n` bytes that a text stands for, if their checksum stands behind them.
pub open spec fn checked_bytes(text: Seq<char>, n: nat) -> Option<Seq<u8>> {
    match base58_bytes(text) {
        Some(b) => if b.len() == n + 4 && b.skip(n as int) == checksum_of(b.take(n as int)) {
            Some(b.take(n as int))
        } else {
            None
        },
        None => None,
    }
}

/// The `n` bytes that `text` stands for, if their checksum stands behind them.
fn read_checked(text: &str, n: usize) -> (r: Option<Vec<u8>>)
    requires
        n <= 32,
    ensures
        match checked_bytes(text@, n as nat) {
            Some(b) => r is Some && r->0@ == b,
            None => r is None,
        },
        forall|b: Seq<u8>|
            b.len() == n && #[trigger] base58_text(b + checksum_of(b)) == text@ ==> r is Some
                && r->0@ == b,
{
    let b = match base58_decode(text) {
        Some(b) => b,
        None => {
            return None;
        },
    };
    if b.len() < n {
        return None;
    }
    let mut head = bytes_copy(b.as_slice());
    head.truncate(n);
    let again = with_checksum(head.as_slice());
    let same = bytes_eq(b.as_slice(), again.as_slice());
    proof {
        assert(head@ =~= b@.take(n as int));
        assert(again@.skip(n as int) =~= checksum_of(head@));
        assert(b@ =~= b@.take(n as int) + b@.skip(n as int));
        assert forall|x: Seq<u8>|
            x.len() == n && #[trigger] base58_text(x + checksum_of(x)) == text@ implies same
            && head@ == x by {
            assert((x + checksum_of(x)).take(n as int) =~= x);
        }
    }
    if same {
        Some(head)
    } else {
        None
    }
}

/// The id that `text` shows, if it shows one: its bytes with their checksum. What
/// an id is shown as is read back.
pub fn parse_id(text: &str) -> (r: Option<Id>)
    ensures
        match checked_bytes(text@, 32) {
            Some(b) => r is Some && r->0@ == b,
            None => r is None,
        },
        forall|id: Seq<u8>| id.len() == 32 && #[trigger] id_text(id) == text@ ==> r is Some
            && r->0@ == id,
{
    match read_checked(text, 32) {
        Some(b) => {
            assert(checked_bytes(text@, 32)->0.len() == 32);
            Id::from_slice(b.as_slice())
        },
        None => None,
    }
}

/// The text that a node is shown as.
pub open spec fn node_text(id: Seq<u8>) -> Seq<char> {
    "NodeID-"@ + base58_text(id + checksum_of(id))
}

/// The text that `id` is shown as: its bytes and their checksum, behind `NodeID-`.
pub fn node_id_string(id: &NodeId) -> (r: String)
    ensures
        r@ == node_text(id@),
{
    let b = with_checksum(id.as_bytes());
    let t = base58(b.as_slice());
    joined("NodeID-", t.as_str())
}

/// The node that `text` shows, if it shows one. What a node is shown as is read
/// back.
pub fn parse_node_id(text: &str) -> (r: Option<NodeId>)
    ensures
        if text@.len() >= 7 && text@.take(7) == "NodeID-"@ {
            match checked_bytes(text@.skip(7), 20) {
                Some(b) => r is Some && r->0@ == b,
                None => r is None,
            }
        } else {
            r is None
        },
        forall|id: Seq<u8>| id.len() == 20 && #[trigger] node_text(id) == text@ ==> r is Some
            && r->0@ == id,
{
    let chars = chars_of(text);
    let n: usize = chars.len();
    proof {
        reveal_strlit("NodeID-");
        assert forall|id: Seq<u8>| id.len() == 20 && #[trigger] node_text(id) == text@ implies
            text@.len() >= 7 && text@.take(7) == "NodeID-"@ && text@.skip(7) == base58_text(
            id + checksum_of(id),
        ) by {
            assert(text@.take(7) =~= "NodeID-"@);
            assert(text@.skip(7) =~= base58_text(id + checksum_of(id)));
        }
    }
    if n < 7 {
        return None;
    }
    let head = text.substring_char(0, 7);
    let tail = text.substring_char(7, n);
    assert(text@.subrange(0, 7) =~= text@.take(7));
    assert(text@.subrange(7, n as int) =~= text@.skip(7));
    if !str_eq(head, "NodeID-") {
        return None;
    }
    match read_checked(tail, 20) {
        Some(b) => {
            assert(checked_bytes(tail@, 20)->0.len() == 20);
            NodeId::from_slice(b.as_slice())
        },
        None => None,
    }
}

/// The text that an address is shown as, behind `hrp`, or why there is none.
pub uninterp spec fn bech32_text(hrp: Seq<char>, data: Seq<u8>) -> Result<Seq<char>, Seq<char>>;

/// `bech32::Hrp::parse`, then `bech32::encode` with the first checksum: the
/// text for `data` behind `hrp`, or why there is none, which depends on the two
/// alone.
#[verifier::external_body]
pub(crate) fn bech32(hrp: &str, data: &[u8]) -> (r: Result<String, String>)
    ensures
        match bech32_text(hrp@, data@) {
            Ok(s) => r is Ok && r->Ok_0@ == s,
            Err(e) => r is Err && r->Err_0@ == e,
        },
{
    match bech32::Hrp::parse(hrp) {
        Ok(h) => match bech32::encode::<bech32::Bech32>(h, data) {
            Ok(s) => Ok(s),
            Err(e) => Err(e.to_string()),
        },
        Err(e) => Err(e.to_string()),
    }
}

/// The text of a moment, if it can be shown.
pub uninterp spec fn rfc3339_text(secs: int) -> Option<Seq<char>>;

/// `chrono::DateTime::from_timestamp`, then `to_rfc3339_opts` to the second:
/// the text of the moment `secs` seconds from the start of 1970, if it can be
/// shown, which depends on `secs` alone. The start itself can be.
#[verifier::external_body]
fn rfc3339(secs: i64) -> (r: Option<String>)
    ensures
        r is Some <==> rfc3339_text(secs as int) is Some,
        r matches Some(s) ==> rfc3339_text(secs as int) == Some(s@),
        secs == 0 ==> r is Some && r->0@ == "1970-01-01T00:00:00Z"@,
{
    match chrono::DateTime::<chrono::Utc>::from_timestamp(secs, 0) {
        Some(d) => Some(d.to_rfc3339_opts(chrono::SecondsFormat::Secs, true)),
        None => None,
    }
}

/// The text that a time is shown as. One that cannot be shown is shown as the
/// start of 1970.
pub open spec fn time_text(secs: u64) -> Seq<char> {
    if secs <= i64::MAX && rfc3339_text(secs as int) is Some {
        rfc3339_text(secs as int)->0
    } else {
        "1970-01-01T00:00:00Z"@
    }
}

/// The text that the time `secs`, in Unix seconds, is shown as.
pub fn format_timestamp(secs: u64) -> (r: String)
    ensures
        r@ == time_text(secs),
{
    if secs <= 0x7fff_ffff_ffff_ffff {
        if let Some(s) = rfc3339(secs as i64) {
            return s;
        }
    }
    "1970-01-01T00:00:00Z".to_owned()
}

/// The place of the first `c` in `s`, or the length where there is none.
pub open spec fn place_of(s: Seq<char>, c: char) -> nat
    decreases s.len(),
{
    if s.len() == 0 || s[0] == c {
        0
    } else {
        1 + place_of(s.drop_first(), c)
    }
}

/// The characters of `s`.
pub fn chars_of(s: &str) -> (r: Vec<char>)
    ensures
        r@ == s@,
{
    let n: usize = s.unicode_len();
    let mut out: Vec<char> = Vec::new();
    let mut i: usize = 0;
    while i < n
        invariant
            i <= n,
            n == s@.len(),
            out@ == s@.take(i as int),
        decreases n - i,
    {
        out.push(s.get_char(i));
        assert(out@ =~= s@.take(i + 1));
        i += 1;
    }
    assert(out@ =~= s@);
    out
}

/// The place of the first `c` in `s`, or the length where there is none.
pub fn find_char(s: &Vec<char>, c: char) -> (r: usize)
    ensures
        r == place_of(s@, c),
        r <= s@.len(),
        r < s@.len() <==> s@.contains(c),
{
    let n: usize = s.len();
    let mut i: usize = 0;
    assert(s@.skip(0) =~= s@);
    while i < n
        invariant
            i <= n,
            n == s@.len(),
            place_of(s@, c) == i + place_of(s@.skip(i as int), c),
            forall|j: int| 0 <= j < i ==> s@[j] != c,
        decreases n - i,
    {
        if s[i] == c {
            assert(s@.skip(i as int)[0] == c);
            assert(s@.contains(c));
            return i;
        }
        assert(s@.skip(i as int).drop_first() =~= s@.skip(i + 1));
        i += 1;
    }
    assert(s@.skip(n as int).len() == 0);
    n
}

/// Where the white space at the start of `s` ends.
pub open spec fn blank_start(s: Seq<char>) -> nat
    decreases s.len(),
{
    if s.len() > 0 && white(s[0]) {
        1 + blank_start(s.drop_first())
    } else {
        0
    }
}

/// How much white space there is at the end of `s`.
pub open spec fn blank_end(s: Seq<char>) -> nat
    decreases s.len(),
{
    if s.len() > 0 && white(s.last()) {
        1 + blank_end(s.drop_last())
    } else {
        0
    }
}

/// `s` without white space at its start and its end.
pub open spec fn trimmed(s: Seq<char>) -> Seq<char> {
    let t = s.skip(blank_start(s) as int);
    t.take(t.len() - blank_end(t))
}

proof fn lemma_blank_start(s: Seq<char>)
    ensures
        blank_start(s) <= s.len(),
    decreases s.len(),
{
    if s.len() > 0 && white(s[0]) {
        lemma_blank_start(s.drop_first());
    }
}

/// Where the text between `from` and `to` starts and ends once white space is
/// cut off.
pub fn trim_bounds(s: &Vec<char>, from: usize, to: usize) -> (r: (usize, usize))
    requires
        from <= to <= s@.len(),
    ensures
        from <= r.0 <= r.1 <= to,
        s@.subrange(r.0 as int, r.1 as int) == trimmed(s@.subrange(from as int, to as int)),
{
    let ghost all = s@.subrange(from as int, to as int);
    let mut a: usize = from;
    assert(all.skip(0) =~= all);
    while a < to && is_white(s[a])
        invariant
            from <= a <= to <= s@.len(),
            all == s@.subrange(from as int, to as int),
            blank_start(all) == (a - from) + blank_start(all.skip(a - from)),
        decreases to - a,
    {
        assert(all.skip(a - from)[0] == s@[a as int]);
        assert(all.skip(a - from).drop_first() =~= all.skip(a + 1 - from));
        a += 1;
    }
    proof {
        if a < to {
            assert(all.skip(a - from)[0] == s@[a as int]);
        }
        assert(blank_start(all.skip(a - from)) == 0);
    }
    let ghost t = all.skip(a - from);
    let mut b: usize = to;
    assert(t.take(t.len() as int) =~= t);
    while a < b && is_white(s[b - 1])
        invariant
            from <= a <= b <= to <= s@.len(),
            all == s@.subrange(from as int, to as int),
            t == all.skip(a - from),
            blank_end(t) == (to - b) + blank_end(t.take(b - a)),
        decreases b - a,
    {
        assert(t.take(b - a).last() == s@[b - 1]);
        assert(t.take(b - a).drop_last() =~= t.take(b - 1 - a));
        b -= 1;
    }
    proof {
        if a < b {
            assert(t.take(b - a).last() == s@[b - 1]);
        }
        assert(blank_end(t.take(b - a)) == 0);
        assert(s@.subrange(a as int, b as int) =~= trimmed(all));
    }
    (a, b)
}

} // verus!
