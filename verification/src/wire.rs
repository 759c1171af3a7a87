//! Values that the linear codec writes and reads.
use vstd::prelude::*;
use vstd::utf8::{decode_utf8, decode_utf8_encode_utf8, encode_utf8, encode_utf8_decode_utf8, encode_utf8_valid_utf8, valid_utf8};

use crate::codec::{be, lemma_pow256, lemma_rd_be, lemma_rd_be_sound, lemma_rd_bytes, lemma_rd_bytes_sound, lemma_rd_fixed, lemma_rd_fixed_sound, prefixed, push_bytes, push_fixed, push_u16, push_u32, push_u64, rd_be, rd_bytes, rd_fixed, CodecError, Reader};
use crate::collections::ordmap::Dup;
use crate::ids::{Id, NodeId, ShortId};
use crate::order::bytes_copy;

verus! {

/// What reading gives: the value and what follows it, or why there is none.
pub type Read<V> = Result<(V, Seq<u8>), CodecError>;

/// A value with an encoding. What was written is read back, and bytes that are
/// read as a value are the ones that it is written as.
pub trait Wire: View + Sized {
    /// Whether the value can be written: every length fits its field.
    spec fn fits(v: Self::V) -> bool;

    /// The bytes that the value is written as.
    spec fn ser(v: Self::V) -> Seq<u8>;

    /// The value at the start of `s`, and what follows.
    spec fn de(s: Seq<u8>) -> Read<Self::V>;

    /// What was written is read back.
    proof fn round_trip(v: Self::V, t: Seq<u8>)
        requires
            Self::fits(v),
        ensures
            Self::de(Self::ser(v) + t) == Ok::<(Self::V, Seq<u8>), CodecError>((v, t)),
    ;

    /// What is read is what was written in front of the rest.
    proof fn canonical(s: Seq<u8>)
        ensures
            Self::de(s) matches Ok((v, t)) ==> Self::fits(v) && s == Self::ser(v) + t,
    ;

    /// Whether the value can be written.
    fn can_write(&self) -> (r: bool)
        ensures
            r == Self::fits(self@),
    ;

    /// Writes the value.
    fn write(&self, out: &mut Vec<u8>)
        requires
            Self::fits(self@),
        ensures
            final(out)@ == old(out)@ + Self::ser(self@),
    ;

    /// Reads a value.
    fn read(p: &mut Reader<'_>) -> (r: Result<Self, CodecError>)
        ensures
            match Self::de(old(p).rest()) {
                Ok((v, t)) => r is Ok && r->Ok_0@ == v && final(p).rest() == t,
                Err(e) => r is Err && r->Err_0 == e,
            },
    ;
}

/// The `n` bytes at the start of `s`.
pub open spec fn de_fixed(s: Seq<u8>, n: nat) -> Read<Seq<u8>> {
    match rd_fixed(s, n) {
        Some((v, t)) => Ok((v, t)),
        None => Err(CodecError::InsufficientLength),
    }
}

impl Wire for u8 {
    open spec fn fits(v: u8) -> bool {
        true
    }

    open spec fn ser(v: u8) -> Seq<u8> {
        seq![v]
    }

    open spec fn de(s: Seq<u8>) -> Read<u8> {
        match rd_fixed(s, 1) {
            Some((v, t)) => Ok((v[0], t)),
            None => Err(CodecError::InsufficientLength),
        }
    }

    proof fn round_trip(v: u8, t: Seq<u8>) {
        lemma_rd_fixed(seq![v], t);
    }

    proof fn canonical(s: Seq<u8>) {
        lemma_rd_fixed_sound(s, 1);
        if let Some((v, t)) = rd_fixed(s, 1) {
            assert(v =~= seq![v[0]]);
        }
    }

    fn can_write(&self) -> (r: bool) {
        true
    }

    fn write(&self, out: &mut Vec<u8>) {
        out.push(*self);
        assert(out@ =~= old(out)@ + seq![*self]);
    }

    fn read(p: &mut Reader<'_>) -> (r: Result<u8, CodecError>) {
        match p.take(1) {
            Some(s) => Ok(s[0]),
            None => Err(CodecError::InsufficientLength),
        }
    }
}

impl Wire for u32 {
    open spec fn fits(v: u32) -> bool {
        true
    }

    open spec fn ser(v: u32) -> Seq<u8> {
        be(v as nat, 4)
    }

    open spec fn de(s: Seq<u8>) -> Read<u32> {
        match rd_be(s, 4) {
            Some((v, t)) => Ok((v as u32, t)),
            None => Err(CodecError::InsufficientLength),
        }
    }

    proof fn round_trip(v: u32, t: Seq<u8>) {
        lemma_pow256();
        lemma_rd_be(v as nat, 4, t);
    }

    proof fn canonical(s: Seq<u8>) {
        lemma_pow256();
        lemma_rd_be_sound(s, 4);
    }

    fn can_write(&self) -> (r: bool) {
        true
    }

    fn write(&self, out: &mut Vec<u8>) {
        push_u32(out, *self);
    }

    fn read(p: &mut Reader<'_>) -> (r: Result<u32, CodecError>) {
        match p.take_u32() {
            Some(v) => Ok(v),
            None => Err(CodecError::InsufficientLength),
        }
    }
}

impl Wire for u64 {
    open spec fn fits(v: u64) -> bool {
        true
    }

    open spec fn ser(v: u64) -> Seq<u8> {
        be(v as nat, 8)
    }

    open spec fn de(s: Seq<u8>) -> Read<u64> {
        match rd_be(s, 8) {
            Some((v, t)) => Ok((v as u64, t)),
            None => Err(CodecError::InsufficientLength),
        }
    }

    proof fn round_trip(v: u64, t: Seq<u8>) {
        lemma_pow256();
        lemma_rd_be(v as nat, 8, t);
    }

    proof fn canonical(s: Seq<u8>) {
        lemma_pow256();
        lemma_rd_be_sound(s, 8);
    }

    fn can_write(&self) -> (r: bool) {
        true
    }

    fn write(&self, out: &mut Vec<u8>) {
        push_u64(out, *self);
    }

    fn read(p: &mut Reader<'_>) -> (r: Result<u64, CodecError>) {
        match p.take_u64() {
            Some(v) => Ok(v),
            None => Err(CodecError::InsufficientLength),
        }
    }
}

impl Wire for Id {
    open spec fn fits(v: Seq<u8>) -> bool {
        v.len() == 32
    }

    open spec fn ser(v: Seq<u8>) -> Seq<u8> {
        v
    }

    open spec fn de(s: Seq<u8>) -> Read<Seq<u8>> {
        de_fixed(s, 32)
    }

    proof fn round_trip(v: Seq<u8>, t: Seq<u8>) {
        lemma_rd_fixed(v, t);
    }

    proof fn canonical(s: Seq<u8>) {
        lemma_rd_fixed_sound(s, 32);
    }

    fn can_write(&self) -> (r: bool) {
        true
    }

    fn write(&self, out: &mut Vec<u8>) {
        push_fixed(out, self.as_bytes());
    }

    fn read(p: &mut Reader<'_>) -> (r: Result<Id, CodecError>) {
        match p.take_id() {
            Some(v) => Ok(v),
            None => Err(CodecError::InsufficientLength),
        }
    }
}

impl Wire for NodeId {
    open spec fn fits(v: Seq<u8>) -> bool {
        v.len() == 20
    }

    open spec fn ser(v: Seq<u8>) -> Seq<u8> {
        v
    }

    open spec fn de(s: Seq<u8>) -> Read<Seq<u8>> {
        de_fixed(s, 20)
    }

    proof fn round_trip(v: Seq<u8>, t: Seq<u8>) {
        lemma_rd_fixed(v, t);
    }

    proof fn canonical(s: Seq<u8>) {
        lemma_rd_fixed_sound(s, 20);
    }

    fn can_write(&self) -> (r: bool) {
        true
    }

    fn write(&self, out: &mut Vec<u8>) {
        push_fixed(out, self.as_bytes());
    }

    fn read(p: &mut Reader<'_>) -> (r: Result<NodeId, CodecError>) {
        match p.take_node_id() {
            Some(v) => Ok(v),
            None => Err(CodecError::InsufficientLength),
        }
    }
}

impl Wire for ShortId {
    open spec fn fits(v: Seq<u8>) -> bool {
        v.len() == 20
    }

    open spec fn ser(v: Seq<u8>) -> Seq<u8> {
        v
    }

    open spec fn de(s: Seq<u8>) -> Read<Seq<u8>> {
        de_fixed(s, 20)
    }

    proof fn round_trip(v: Seq<u8>, t: Seq<u8>) {
        lemma_rd_fixed(v, t);
    }

    proof fn canonical(s: Seq<u8>) {
        lemma_rd_fixed_sound(s, 20);
    }

    fn can_write(&self) -> (r: bool) {
        true
    }

    fn write(&self, out: &mut Vec<u8>) {
        push_fixed(out, self.bytes.as_slice());
    }

    fn read(p: &mut Reader<'_>) -> (r: Result<ShortId, CodecError>) {
        match p.take_node_id() {
            Some(v) => Ok(ShortId { bytes: v.bytes }),
            None => Err(CodecError::InsufficientLength),
        }
    }
}

impl Wire for Vec<u8> {
    open spec fn fits(v: Seq<u8>) -> bool {
        v.len() <= u32::MAX
    }

    open spec fn ser(v: Seq<u8>) -> Seq<u8> {
        prefixed(v)
    }

    open spec fn de(s: Seq<u8>) -> Read<Seq<u8>> {
        match rd_bytes(s) {
            Some((v, t)) => Ok((v, t)),
            None => Err(CodecError::InsufficientLength),
        }
    }

    proof fn round_trip(v: Seq<u8>, t: Seq<u8>) {
        lemma_rd_bytes(v, t);
    }

    proof fn canonical(s: Seq<u8>) {
        lemma_rd_bytes_sound(s);
    }

    fn can_write(&self) -> (r: bool) {
        self.len() <= 0xffff_ffff
    }

    fn write(&self, out: &mut Vec<u8>) {
        push_bytes(out, self.as_slice());
    }

    fn read(p: &mut Reader<'_>) -> (r: Result<Vec<u8>, CodecError>) {
        match p.take_bytes() {
            Some(v) => Ok(v),
            None => Err(CodecError::InsufficientLength),
        }
    }
}

/// `String::from_utf8`: the text that the bytes encode, where they encode one.
#[verifier::external_body]
pub(crate) fn text_of(bytes: Vec<u8>) -> (r: Option<String>)
    ensures
        r is Some <==> valid_utf8(bytes@),
        r matches Some(s) ==> s@ == decode_utf8(bytes@),
{
    match String::from_utf8(bytes) {
        Ok(s) => Some(s),
        Err(_) => None,
    }
}

impl Dup for String {
    fn dup(&self) -> (r: String) {
        self.as_str().to_owned()
    }
}

/// A text is written as its bytes, behind their number as a `u16`.
impl Wire for String {
    open spec fn fits(v: Seq<char>) -> bool {
        encode_utf8(v).len() <= u16::MAX
    }

    open spec fn ser(v: Seq<char>) -> Seq<u8> {
        be(encode_utf8(v).len(), 2) + encode_utf8(v)
    }

    open spec fn de(s: Seq<u8>) -> Read<Seq<char>> {
        match rd_be(s, 2) {
            None => Err(CodecError::InsufficientLength),
            Some((n, t)) => match de_fixed(t, n) {
                Err(e) => Err(e),
                Ok((b, u)) => if valid_utf8(b) {
                    Ok((decode_utf8(b), u))
                } else {
                    Err(CodecError::NotText)
                },
            },
        }
    }

    proof fn round_trip(v: Seq<char>, t: Seq<u8>) {
        let b = encode_utf8(v);
        lemma_pow256();
        lemma_rd_be(b.len(), 2, b + t);
        assert(be(b.len(), 2) + b + t =~= be(b.len(), 2) + (b + t));
        lemma_rd_fixed(b, t);
        encode_utf8_valid_utf8(v);
        encode_utf8_decode_utf8(v);
    }

    proof fn canonical(s: Seq<u8>) {
        lemma_pow256();
        lemma_rd_be_sound(s, 2);
        if let Some((n, t)) = rd_be(s, 2) {
            lemma_rd_fixed_sound(t, n);
            if let Some((b, u)) = rd_fixed(t, n) {
                assert(s =~= be(b.len(), 2) + b + u);
                if valid_utf8(b) {
                    decode_utf8_encode_utf8(b);
                }
            }
        }
    }

    fn can_write(&self) -> (r: bool) {
        self.as_str().as_bytes().len() <= 0xffff
    }

    fn write(&self, out: &mut Vec<u8>) {
        let b = self.as_str().as_bytes();
        push_u16(out, b.len() as u16);
        push_fixed(out, b);
        assert(out@ =~= old(out)@ + Self::ser(self@));
    }

    fn read(p: &mut Reader<'_>) -> (r: Result<String, CodecError>) {
        match p.take_u16() {
            Some(n) => match p.take(n as usize) {
                Some(s) => match text_of(bytes_copy(s)) {
                    Some(t) => Ok(t),
                    None => Err(CodecError::NotText),
                },
                None => Err(CodecError::InsufficientLength),
            },
            None => Err(CodecError::InsufficientLength),
        }
    }
}

/// A list of values, written behind their number.
#[derive(Debug, PartialEq, Eq)]
pub struct List<T> {
    /// The values.
    pub items: Vec<T>,
}

impl<T: View> View for List<T> {
    type V = Seq<T::V>;

    open spec fn view(&self) -> Seq<T::V> {
        self.items@.map_values(|x: T| x@)
    }
}

impl<T: Dup> Dup for List<T> {
    fn dup(&self) -> (r: List<T>) {
        let mut items: Vec<T> = Vec::new();
        let n: usize = self.items.len();
        let mut i: usize = 0;
        while i < n
            invariant
                i <= n,
                n == self.items@.len(),
                items@.len() == i,
                forall|j: int| 0 <= j < i ==> (#[trigger] items@[j])@ == self.items@[j]@,
            decreases n - i,
        {
            items.push(self.items[i].dup());
            i += 1;
        }
        let r = List { items };
        assert(r@ =~= self@);
        r
    }
}

/// The values of `vs`, one after the other.
pub open spec fn ser_all<T: Wire>(vs: Seq<T::V>) -> Seq<u8>
    decreases vs.len(),
{
    if vs.len() == 0 {
        Seq::empty()
    } else {
        T::ser(vs[0]) + ser_all::<T>(vs.skip(1))
    }
}

/// The `n` values at the start of `s`, one after the other.
pub open spec fn de_all<T: Wire>(s: Seq<u8>, n: nat) -> Read<Seq<T::V>>
    decreases n,
{
    if n == 0 {
        Ok((Seq::empty(), s))
    } else {
        match T::de(s) {
            Err(e) => Err(e),
            Ok((v, t)) => match de_all::<T>(t, (n - 1) as nat) {
                Err(e) => Err(e),
                Ok((vs, u)) => Ok((seq![v] + vs, u)),
            },
        }
    }
}

proof fn lemma_all_round_trip<T: Wire>(vs: Seq<T::V>, t: Seq<u8>)
    requires
        forall|i: int| 0 <= i < vs.len() ==> T::fits(#[trigger] vs[i]),
    ensures
        de_all::<T>(ser_all::<T>(vs) + t, vs.len()) == Ok::<(Seq<T::V>, Seq<u8>), CodecError>(
            (vs, t),
        ),
    decreases vs.len(),
{
    if vs.len() == 0 {
        assert(ser_all::<T>(vs) + t =~= t);
        assert(vs =~= Seq::empty());
    } else {
        let rest = vs.skip(1);
        assert forall|i: int| 0 <= i < rest.len() implies T::fits(#[trigger] rest[i]) by {
            assert(rest[i] == vs[i + 1]);
        }
        lemma_all_round_trip::<T>(rest, t);
        assert(ser_all::<T>(vs) + t =~= T::ser(vs[0]) + (ser_all::<T>(rest) + t));
        T::round_trip(vs[0], ser_all::<T>(rest) + t);
        assert(seq![vs[0]] + rest =~= vs);
    }
}

proof fn lemma_all_canonical<T: Wire>(s: Seq<u8>, n: nat)
    ensures
        de_all::<T>(s, n) matches Ok((vs, t)) ==> {
            &&& vs.len() == n
            &&& forall|i: int| 0 <= i < vs.len() ==> T::fits(#[trigger] vs[i])
            &&& s == ser_all::<T>(vs) + t
        },
    decreases n,
{
    if n == 0 {
        assert(ser_all::<T>(Seq::<T::V>::empty()) + s =~= s);
    } else {
        T::canonical(s);
        if let Ok((v, t)) = T::de(s) {
            lemma_all_canonical::<T>(t, (n - 1) as nat);
            if let Ok((vs, u)) = de_all::<T>(t, (n - 1) as nat) {
                let all = seq![v] + vs;
                assert(all.skip(1) =~= vs);
                assert(all[0] == v);
                assert forall|i: int| 0 <= i < all.len() implies T::fits(#[trigger] all[i]) by {
                    if i > 0 {
                        assert(all[i] == vs[i - 1]);
                    }
                }
                assert(s =~= ser_all::<T>(all) + u);
            }
        }
    }
}

proof fn lemma_ser_all_push<T: Wire>(vs: Seq<T::V>, v: T::V)
    ensures
        ser_all::<T>(vs.push(v)) == ser_all::<T>(vs) + T::ser(v),
    decreases vs.len(),
{
    if vs.len() == 0 {
        let none = Seq::<T::V>::empty();
        assert(vs.push(v).skip(1) =~= none);
        assert(ser_all::<T>(none) =~= Seq::empty());
        assert(vs =~= none);
        assert(ser_all::<T>(vs.push(v)) =~= ser_all::<T>(vs) + T::ser(v));
    } else {
        assert(vs.push(v).skip(1) =~= vs.skip(1).push(v));
        lemma_ser_all_push::<T>(vs.skip(1), v);
        assert(vs.push(v)[0] == vs[0]);
        assert(ser_all::<T>(vs.push(v)) =~= ser_all::<T>(vs) + T::ser(v));
    }
}

impl<T: Wire> Wire for List<T> {
    open spec fn fits(v: Seq<T::V>) -> bool {
        v.len() <= u32::MAX && forall|i: int| 0 <= i < v.len() ==> T::fits(#[trigger] v[i])
    }

    open spec fn ser(v: Seq<T::V>) -> Seq<u8> {
        be(v.len(), 4) + ser_all::<T>(v)
    }

    open spec fn de(s: Seq<u8>) -> Read<Seq<T::V>> {
        match rd_be(s, 4) {
            None => Err(CodecError::InsufficientLength),
            Some((n, t)) => de_all::<T>(t, n),
        }
    }

    proof fn round_trip(v: Seq<T::V>, t: Seq<u8>) {
        lemma_pow256();
        lemma_rd_be(v.len(), 4, ser_all::<T>(v) + t);
        assert(Self::ser(v) + t =~= be(v.len(), 4) + (ser_all::<T>(v) + t));
        lemma_all_round_trip::<T>(v, t);
    }

    proof fn canonical(s: Seq<u8>) {
        lemma_pow256();
        lemma_rd_be_sound(s, 4);
        if let Some((n, t)) = rd_be(s, 4) {
            lemma_all_canonical::<T>(t, n);
            if let Ok((vs, u)) = de_all::<T>(t, n) {
                assert(s =~= Self::ser(vs) + u);
            }
        }
    }

    fn can_write(&self) -> (r: bool) {
        let n: usize = self.items.len();
        let mut i: usize = 0;
        while i < n
            invariant
                i <= n,
                n == self.items@.len(),
                forall|j: int| 0 <= j < i ==> T::fits(#[trigger] self@[j]),
            decreases n - i,
        {
            assert(self@[i as int] == self.items@[i as int]@);
            if !self.items[i].can_write() {
                return false;
            }
            i += 1;
        }
        n <= 0xffff_ffff
    }

    fn write(&self, out: &mut Vec<u8>) {
        let n: usize = self.items.len();
        push_u32(out, n as u32);
        let ghost head = out@;
        let mut i: usize = 0;
        assert(self@.take(0) =~= Seq::empty());
        assert(out@ =~= head + ser_all::<T>(self@.take(0)));
        while i < n
            invariant
                i <= n,
                n == self.items@.len(),
                Self::fits(self@),
                out@ == head + ser_all::<T>(self@.take(i as int)),
            decreases n - i,
        {
            assert(self@[i as int] == self.items@[i as int]@);
            self.items[i].write(out);
            proof {
                lemma_ser_all_push::<T>(self@.take(i as int), self@[i as int]);
                assert(self@.take(i + 1) =~= self@.take(i as int).push(self@[i as int]));
                assert(out@ =~= head + ser_all::<T>(self@.take(i + 1)));
            }
            i += 1;
        }
        assert(self@.take(n as int) =~= self@);
        assert(out@ =~= old(out)@ + Self::ser(self@));
    }

    fn read(p: &mut Reader<'_>) -> (r: Result<List<T>, CodecError>) {
        let n: u32 = match p.take_u32() {
            Some(n) => n,
            None => {
                return Err(CodecError::InsufficientLength);
            },
        };
        let ghost start = p.rest();
        let mut items: Vec<T> = Vec::new();
        let mut i: u32 = 0;
        assert(items@.map_values(|x: T| x@) =~= Seq::empty());
        while i < n
            invariant
                i <= n,
                items@.len() == i,
                rd_be(old(p).rest(), 4) == Some((n as nat, start)),
                match de_all::<T>(p.rest(), (n - i) as nat) {
                    Ok((vs, t)) => de_all::<T>(start, n as nat) == Ok::<
                        (Seq<T::V>, Seq<u8>),
                        CodecError,
                    >((items@.map_values(|x: T| x@) + vs, t)),
                    Err(e) => de_all::<T>(start, n as nat) == Err::<
                        (Seq<T::V>, Seq<u8>),
                        CodecError,
                    >(e),
                },
            decreases n - i,
        {
            let ghost before = items@.map_values(|x: T| x@);
            let ghost s = p.rest();
            match T::read(p) {
                Ok(x) => {
                    let ghost xv = x@;
                    items.push(x);
                    proof {
                        assert(items@.map_values(|x: T| x@) =~= before.push(xv));
                        match de_all::<T>(p.rest(), (n - i - 1) as nat) {
                            Ok((vs, t)) => {
                                assert(before + (seq![xv] + vs) =~= before.push(xv) + vs);
                            },
                            Err(e) => {},
                        }
                    }
                },
                Err(e) => {
                    return Err(e);
                },
            }
            i += 1;
        }
        let r = List { items };
        assert(r@ + Seq::<T::V>::empty() =~= r@);
        Ok(r)
    }
}

/// A codec: what it writes and reads is bounded in size.
#[derive(Clone, Copy, Debug)]
pub struct Manager {
    /// The number of bytes that a value may take.
    pub max_size: usize,
}

/// The version that values are written under.
pub const CODEC_VERSION: u16 = 0;

/// A value behind its version.
pub open spec fn versioned<T: Wire>(v: T::V) -> Seq<u8> {
    be(CODEC_VERSION as nat, 2) + T::ser(v)
}

/// The value that `bytes` hold behind its version, or why they hold none.
pub open spec fn unversioned<T: Wire>(max_size: nat, bytes: Seq<u8>) -> Result<T::V, CodecError> {
    if bytes.len() > max_size {
        Err(CodecError::TooBig)
    } else {
        match rd_be(bytes, 2) {
            None => Err(CodecError::InsufficientLength),
            Some((version, s)) => if version != CODEC_VERSION {
                Err(CodecError::UnknownVersion)
            } else {
                match T::de(s) {
                    Err(e) => Err(e),
                    Ok((v, t)) => if t.len() != 0 {
                        Err(CodecError::ExtraSpace)
                    } else {
                        Ok(v)
                    },
                }
            },
        }
    }
}

/// A value that was written is read back.
pub proof fn versioned_round_trip<T: Wire>(max_size: nat, v: T::V)
    requires
        T::fits(v),
        versioned::<T>(v).len() <= max_size,
    ensures
        unversioned::<T>(max_size, versioned::<T>(v)) == Ok::<T::V, CodecError>(v),
{
    lemma_pow256();
    let e = Seq::<u8>::empty();
    lemma_rd_be(CODEC_VERSION as nat, 2, T::ser(v));
    assert(T::ser(v) + e =~= T::ser(v));
    T::round_trip(v, e);
}

/// Bytes that are read as a value are the ones that it is written as.
pub proof fn versioned_bytes_are_canonical<T: Wire>(max_size: nat, bytes: Seq<u8>)
    ensures
        unversioned::<T>(max_size, bytes) matches Ok(v) ==> T::fits(v) && bytes == versioned::<T>(
            v,
        ),
{
    if let Ok(v) = unversioned::<T>(max_size, bytes) {
        lemma_rd_be_sound(bytes, 2);
        let s = (rd_be(bytes, 2)->0).1;
        T::canonical(s);
        let t = (T::de(s)->Ok_0).1;
        assert(t =~= Seq::empty());
        assert(bytes =~= versioned::<T>(v));
    }
}

impl Manager {
    /// Writes `value` behind its version. A value with a length that does not
    /// fit its field is refused, and so is one that takes too many bytes.
    pub fn marshal<T: Wire>(&self, value: &T) -> (r: Result<Vec<u8>, CodecError>)
        ensures
            r is Ok <==> T::fits(value@) && versioned::<T>(value@).len() <= self.max_size,
            r matches Ok(b) ==> b@ == versioned::<T>(value@),
            r matches Err(e) ==> e == if T::fits(value@) {
                CodecError::TooBig
            } else {
                CodecError::LengthOverflow
            },
    {
        if !value.can_write() {
            return Err(CodecError::LengthOverflow);
        }
        let mut out: Vec<u8> = Vec::new();
        push_u16(&mut out, CODEC_VERSION);
        value.write(&mut out);
        assert(out@ =~= versioned::<T>(value@));
        if out.len() > self.max_size {
            return Err(CodecError::TooBig);
        }
        Ok(out)
    }

    /// Reads the value that `bytes` hold behind its version.
    pub fn unmarshal<T: Wire>(&self, bytes: &[u8]) -> (r: Result<T, CodecError>)
        ensures
            match unversioned::<T>(self.max_size as nat, bytes@) {
                Ok(v) => r is Ok && r->Ok_0@ == v,
                Err(e) => r is Err && r->Err_0 == e,
            },
    {
        if bytes.len() > self.max_size {
            return Err(CodecError::TooBig);
        }
        let mut p = Reader::new(bytes);
        match p.take_u16() {
            None => {
                return Err(CodecError::InsufficientLength);
            },
            Some(version) => {
                if version != CODEC_VERSION {
                    return Err(CodecError::UnknownVersion);
                }
            },
        }
        match T::read(&mut p) {
            Ok(v) => if p.done() {
                Ok(v)
            } else {
                Err(CodecError::ExtraSpace)
            },
            Err(e) => Err(e),
        }
    }
}

/// The codec of transactions and blocks.
pub fn default_codec() -> (r: Manager)
    ensures
        r.max_size == 262_144,
{
    Manager { max_size: 262_144 }
}

/// The codec of the genesis state and of stored records, which may be large.
pub fn genesis_codec() -> (r: Manager)
    ensures
        r.max_size == 0x7fff_ffff,
{
    Manager { max_size: 0x7fff_ffff }
}

} // verus!
