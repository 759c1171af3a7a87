//! Numbers of any size.
use num_bigint::BigUint;
use vstd::prelude::*;

verus! {

/// The number with the given digits to the base 2^32, the lowest first.
pub open spec fn big_value(digits: Seq<u32>) -> nat
    decreases digits.len(),
{
    if digits.len() == 0 {
        0
    } else {
        digits[0] as nat + 0x1_0000_0000 * big_value(digits.drop_first())
    }
}

/// The number with the given digits to the base 2^64, the lowest first.
pub open spec fn wide_value(digits: Seq<u64>) -> nat
    decreases digits.len(),
{
    if digits.len() == 0 {
        0
    } else {
        digits[0] as nat + 0x1_0000_0000_0000_0000 * wide_value(digits.drop_first())
    }
}

/// `BigUint::from` on a `u64`, as its digits: they make up the same number.
#[verifier::external_body]
pub(crate) fn big(n: u64) -> (r: Vec<u32>)
    ensures
        big_value(r@) == n,
{
    BigUint::from(n).to_u32_digits()
}

/// `+` on two `BigUint`s, which are read from their digits and written to
/// digits: their sum.
#[verifier::external_body]
pub(crate) fn big_sum(a: &Vec<u32>, b: &Vec<u32>) -> (r: Vec<u32>)
    ensures
        big_value(r@) == big_value(a@) + big_value(b@),
{
    (BigUint::from_slice(a) + BigUint::from_slice(b)).to_u32_digits()
}

/// `*` on two `BigUint`s, which are read from their digits and written to
/// digits: their product.
#[verifier::external_body]
pub(crate) fn big_product(a: &Vec<u32>, b: &Vec<u32>) -> (r: Vec<u32>)
    ensures
        big_value(r@) == big_value(a@) * big_value(b@),
{
    (BigUint::from_slice(a) * BigUint::from_slice(b)).to_u32_digits()
}

/// `/` on two `BigUint`s, which are read from their digits and written to
/// digits: how often the second, which is not zero, goes into the first.
#[verifier::external_body]
pub(crate) fn big_quotient(a: &Vec<u32>, b: &Vec<u32>) -> (r: Vec<u32>)
    requires
        big_value(b@) != 0,
    ensures
        big_value(r@) == big_value(a@) / big_value(b@),
{
    (BigUint::from_slice(a) / BigUint::from_slice(b)).to_u32_digits()
}

/// `BigUint::to_u64_digits`: the same number with digits to the base 2^64, of
/// which the highest is not zero.
#[verifier::external_body]
fn wide_digits(a: &Vec<u32>) -> (r: Vec<u64>)
    ensures
        wide_value(r@) == big_value(a@),
        r@.len() > 0 ==> r@.last() != 0,
{
    BigUint::from_slice(a).to_u64_digits()
}

proof fn lemma_wide_value_is_wide(d: Seq<u64>)
    requires
        d.len() > 0,
        d.last() != 0,
    ensures
        wide_value(d) > 0,
        d.len() > 1 ==> wide_value(d) > u64::MAX,
    decreases d.len(),
{
    if d.len() > 1 {
        assert(d.drop_first().last() == d.last());
        lemma_wide_value_is_wide(d.drop_first());
    }
}

/// The number, if it fits.
pub fn biguint_to_u64(n: &Vec<u32>) -> (r: Option<u64>)
    ensures
        r is Some <==> big_value(n@) <= u64::MAX,
        r matches Some(v) ==> v == big_value(n@),
{
    let digits = wide_digits(n);
    let len: usize = digits.len();
    if len == 0 {
        Some(0)
    } else if len == 1 {
        assert(digits@.drop_first().len() == 0);
        assert(wide_value(digits@.drop_first()) == 0);
        Some(digits[0])
    } else {
        proof {
            lemma_wide_value_is_wide(digits@);
        }
        None
    }
}

} // verus!
