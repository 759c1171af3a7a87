//! How bytes are written in answers, and how heights are asked for.
use vstd::prelude::*;

use crate::error::joined;
use crate::jsonrpc::{RpcError, BAD_PARAMS, SERVER};
use crate::text::{chars_of, checksum_of, hex_nc, hex_text, str_eq, with_checksum};

verus! {

/// What `bytes` are written as, and the name of how they are: with their
/// checksum by default. What is refused has a code and a message.
pub open spec fn encoded(bytes: Seq<u8>, encoding: Seq<char>) -> Result<
    (Seq<char>, Seq<char>),
    (i32, Seq<char>),
> {
    if encoding == ""@ || encoding == "hex"@ {
        Ok(("0x"@ + hex_text(bytes + checksum_of(bytes)), "hex"@))
    } else if encoding == "hexnc"@ {
        Ok(("0x"@ + hex_text(bytes), "hexnc"@))
    } else if encoding == "json"@ {
        Err((
            SERVER,
            "json encoding is not yet supported (deferred: typed tx/block JSON shapes, M8.23)"@,
        ))
    } else {
        Err((BAD_PARAMS, "invalid encoding: "@ + encoding))
    }
}

/// Writes `bytes` as `encoding` asks, and gives the name of how they are
/// written.
pub fn encode_reply_bytes(bytes: &[u8], encoding: &str) -> (r: Result<(String, String), RpcError>)
    ensures
        match encoded(bytes@, encoding@) {
            Ok((text, name)) => r is Ok && r->Ok_0.0@ == text && r->Ok_0.1@ == name,
            Err((code, message)) => r is Err && r->Err_0.says(code, message),
        },
{
    if str_eq(encoding, "") || str_eq(encoding, "hex") {
        let b = with_checksum(bytes);
        Ok((hex_nc(b.as_slice()), "hex".to_owned()))
    } else if str_eq(encoding, "hexnc") {
        Ok((hex_nc(bytes), "hexnc".to_owned()))
    } else if str_eq(encoding, "json") {
        let message = "json encoding is not yet supported (deferred: typed tx/block JSON shapes, M8.23)";
        Err(RpcError::server(message.to_owned()))
    } else {
        Err(RpcError::invalid_params(joined("invalid encoding: ", encoding)))
    }
}

/// A height, or another number, as it is asked for.
pub enum HeightArg {
    /// A number, if it is in range.
    Number(Option<u64>),
    /// A text.
    Text(String),
    /// Anything else.
    Other,
}

/// Why a height or another number is not one.
#[derive(Clone, Copy, Debug, PartialEq, Eq, Structural)]
pub enum HeightError {
    /// The number does not fit.
    OutOfRange,
    /// The text is no number that fits.
    NotANumber,
    /// It is neither a number nor a text.
    WrongShape,
}

/// Whether `c` is a digit.
pub open spec fn is_digit(c: char) -> bool {
    '0' <= c <= '9'
}

/// The number that the digits `s` stand for.
pub open spec fn digits_value(s: Seq<char>) -> nat
    decreases s.len(),
{
    if s.len() == 0 {
        0
    } else {
        digits_value(s.drop_last()) * 10 + (s.last() as nat - '0' as nat) as nat
    }
}

/// What is left of `s` behind a plus sign, if it starts with one.
pub open spec fn unsigned_part(s: Seq<char>) -> Seq<char> {
    if s.len() > 0 && s[0] == '+' {
        s.drop_first()
    } else {
        s
    }
}

/// The number that `s` stands for: digits, which a plus sign may precede.
pub open spec fn number_of(s: Seq<char>) -> Option<nat> {
    let d = unsigned_part(s);
    if d.len() > 0 && (forall|i: int| 0 <= i < d.len() ==> is_digit(#[trigger] d[i])) {
        Some(digits_value(d))
    } else {
        None
    }
}

proof fn lemma_digits_grow(s: Seq<char>, n: int)
    requires
        0 <= n <= s.len(),
    ensures
        digits_value(s.take(n)) <= digits_value(s),
    decreases s.len() - n,
{
    if n < s.len() {
        assert(s.take(n + 1).drop_last() =~= s.take(n));
        lemma_digits_grow(s, n + 1);
    } else {
        assert(s.take(n) =~= s);
    }
}

/// The number that `s` stands for to the base ten, if it fits.
pub fn parse_u64(s: &str) -> (r: Option<u64>)
    ensures
        match number_of(s@) {
            Some(n) => if n <= u64::MAX {
                r == Some(n as u64)
            } else {
                r is None
            },
            None => r is None,
        },
{
    let chars = chars_of(s);
    let n: usize = chars.len();
    let start: usize = if n > 0 && chars[0] == '+' {
        1
    } else {
        0
    };
    let ghost d = unsigned_part(s@);
    assert(d =~= chars@.skip(start as int));
    if start == n {
        return None;
    }
    let mut v: u64 = 0;
    let mut i: usize = start;
    assert(d.take(0) =~= Seq::empty());
    while i < n
        invariant
            start <= i <= n,
            n == chars@.len(),
            chars@ == s@,
            d == unsigned_part(s@),
            d == chars@.skip(start as int),
            forall|j: int| 0 <= j < i - start ==> is_digit(#[trigger] d[j]),
            v == digits_value(d.take(i - start)),
        decreases n - i,
    {
        let c = chars[i];
        assert(d[i - start] == c);
        if c < '0' || c > '9' {
            return None;
        }
        let x: u64 = (c as u64) - ('0' as u64);
        proof {
            assert(d.take(i + 1 - start).drop_last() =~= d.take(i - start));
            assert(d.take(i + 1 - start).last() == c);
            lemma_digits_grow(d, i + 1 - start);
        }
        if v > (0xffff_ffff_ffff_ffff - x) / 10 {
            assert(digits_value(d.take(i + 1 - start)) > u64::MAX);
            return None;
        }
        v = v * 10 + x;
        i += 1;
    }
    assert(d.take(n - start) =~= d);
    Some(v)
}

/// The height that is asked for: a number, a text of one, or the text
/// `proposed`, which stands for the largest there can be.
pub fn height_of(arg: HeightArg) -> (r: Result<u64, HeightError>)
    ensures
        match arg {
            HeightArg::Number(Some(n)) => r == Ok::<u64, HeightError>(n),
            HeightArg::Number(None) => r == Err::<u64, HeightError>(HeightError::OutOfRange),
            HeightArg::Text(s) => if s@ == "proposed"@ {
                r == Ok::<u64, HeightError>(u64::MAX)
            } else {
                match number_of(s@) {
                    Some(n) => if n <= u64::MAX {
                        r == Ok::<u64, HeightError>(n as u64)
                    } else {
                        r == Err::<u64, HeightError>(HeightError::NotANumber)
                    },
                    None => r == Err::<u64, HeightError>(HeightError::NotANumber),
                }
            },
            HeightArg::Other => r == Err::<u64, HeightError>(HeightError::WrongShape),
        },
{
    match arg {
        HeightArg::Number(Some(n)) => Ok(n),
        HeightArg::Number(None) => Err(HeightError::OutOfRange),
        HeightArg::Text(s) => if str_eq(s.as_str(), "proposed") {
            Ok(u64::MAX)
        } else {
            match parse_u64(s.as_str()) {
                Some(n) => Ok(n),
                None => Err(HeightError::NotANumber),
            }
        },
        HeightArg::Other => Err(HeightError::WrongShape),
    }
}

/// The number that is asked for: a number, or a text of one.
pub fn deserialize_lenient_u64(arg: HeightArg) -> (r: Result<u64, HeightError>)
    ensures
        match arg {
            HeightArg::Number(Some(n)) => r == Ok::<u64, HeightError>(n),
            HeightArg::Number(None) => r == Err::<u64, HeightError>(HeightError::OutOfRange),
            HeightArg::Text(s) => match number_of(s@) {
                Some(n) => if n <= u64::MAX {
                    r == Ok::<u64, HeightError>(n as u64)
                } else {
                    r == Err::<u64, HeightError>(HeightError::NotANumber)
                },
                None => r == Err::<u64, HeightError>(HeightError::NotANumber),
            },
            HeightArg::Other => r == Err::<u64, HeightError>(HeightError::WrongShape),
        },
{
    match arg {
        HeightArg::Number(Some(n)) => Ok(n),
        HeightArg::Number(None) => Err(HeightError::OutOfRange),
        HeightArg::Text(s) => match parse_u64(s.as_str()) {
            Some(n) => Ok(n),
            None => Err(HeightError::NotANumber),
        },
        HeightArg::Other => Err(HeightError::WrongShape),
    }
}

} // verus!
