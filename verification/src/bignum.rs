//! Trusted boundary to the arbitrary-precision integer arithmetic of the
//! `num-bigint` crate. Every wrapper's contract is stated over `nat_of`,
//! the mathematical value an opaque `BigUint` denotes; the library's own
//! logic is verified against these contracts and never re-implements the
//! arithmetic.
use vstd::prelude::*;
use vstd::arithmetic::power::pow;
use crate::digits::{is_dec_bytes, dec_value, dec_chars, hex_chars, be_value};

verus! {

#[verifier::external_type_specification]
#[verifier::external_body]
pub struct ExBigUint(num_bigint::BigUint);

/// The non-negative integer a `BigUint` holds.
pub uninterp spec fn nat_of(x: num_bigint::BigUint) -> nat;

/// Relies on `<num_bigint::BigUint as From<u64>>::from`: the exact value.
#[verifier::external_body]
pub(crate) fn big_from_u64(v: u64) -> (r: num_bigint::BigUint)
    ensures
        nat_of(r) == v as nat,
{
    num_bigint::BigUint::from(v)
}

/// Relies on `num_bigint::BigUint::parse_bytes` with radix 10: on a
/// non-empty all-digit input it returns the decimal value.
#[verifier::external_body]
pub(crate) fn big_from_decimal(b: &[u8]) -> (r: num_bigint::BigUint)
    requires
        is_dec_bytes(b@),
    ensures
        nat_of(r) == dec_value(b@),
{
    num_bigint::BigUint::parse_bytes(b, 10).unwrap()
}

/// Relies on `num_bigint::BigUint::from_bytes_be`: the big-endian value
/// of the bytes.
#[verifier::external_body]
pub(crate) fn big_from_bytes_be(b: &[u8]) -> (r: num_bigint::BigUint)
    ensures
        nat_of(r) == be_value(b@),
{
    num_bigint::BigUint::from_bytes_be(b)
}

/// Relies on `num_bigint::BigUint::to_str_radix`: canonical lowercase
/// digits, no leading zeros, `"0"` for zero.
#[verifier::external_body]
pub(crate) fn big_to_radix(x: &num_bigint::BigUint, radix: u32) -> (r: String)
    requires
        radix == 10 || radix == 16,
    ensures
        radix == 10 ==> r@ == dec_chars(nat_of(*x)),
        radix == 16 ==> r@ == hex_chars(nat_of(*x)),
{
    x.to_str_radix(radix)
}

/// Relies on `num_bigint::BigUint::modpow`: returns
/// `(self ^ exponent) % modulus`; panics only on a zero modulus, which the
/// precondition excludes.
#[verifier::external_body]
pub(crate) fn big_modpow(
    b: &num_bigint::BigUint,
    e: &num_bigint::BigUint,
    m: &num_bigint::BigUint,
) -> (r: num_bigint::BigUint)
    requires
        nat_of(*m) >= 2,
    ensures
        nat_of(r) == pow(nat_of(*b) as int, nat_of(*e)) % (nat_of(*m) as int),
{
    b.modpow(e, m)
}

/// Relies on `<&BigUint as Mul>::mul`: the exact product.
#[verifier::external_body]
pub(crate) fn big_mul(a: &num_bigint::BigUint, b: &num_bigint::BigUint) -> (r:
    num_bigint::BigUint)
    ensures
        nat_of(r) == nat_of(*a) * nat_of(*b),
{
    a * b
}

/// Relies on `<&BigUint as Rem>::rem`: the exact remainder; panics only on
/// a zero divisor, which the precondition excludes.
#[verifier::external_body]
pub(crate) fn big_rem(a: &num_bigint::BigUint, m: &num_bigint::BigUint) -> (r:
    num_bigint::BigUint)
    requires
        nat_of(*m) >= 1,
    ensures
        nat_of(r) == nat_of(*a) % nat_of(*m),
{
    a % m
}

/// Relies on `<&BigUint as Sub<u32>>::sub`: the exact difference; panics
/// only on underflow, which the precondition excludes.
#[verifier::external_body]
pub(crate) fn big_sub_u32(a: &num_bigint::BigUint, v: u32) -> (r: num_bigint::BigUint)
    requires
        nat_of(*a) >= v,
    ensures
        nat_of(r) == nat_of(*a) - v,
{
    a - v
}

/// Relies on `<&BigUint as Add<u32>>::add`: the exact sum.
#[verifier::external_body]
pub(crate) fn big_add_u32(a: &num_bigint::BigUint, v: u32) -> (r: num_bigint::BigUint)
    ensures
        nat_of(r) == nat_of(*a) + v,
{
    a + v
}

/// Relies on `<BigUint as PartialEq>::eq`: equality of the denoted values.
#[verifier::external_body]
pub(crate) fn big_eq(a: &num_bigint::BigUint, b: &num_bigint::BigUint) -> (r: bool)
    ensures
        r == (nat_of(*a) == nat_of(*b)),
{
    a == b
}

/// Relies on `<BigUint as PartialOrd>::lt`: order of the denoted values.
#[verifier::external_body]
pub(crate) fn big_lt(a: &num_bigint::BigUint, b: &num_bigint::BigUint) -> (r: bool)
    ensures
        r == (nat_of(*a) < nat_of(*b)),
{
    a < b
}

/// Relies on `num_bigint::BigUint::bit` with index 0: the low bit, i.e.
/// the parity.
#[verifier::external_body]
pub(crate) fn big_is_odd(a: &num_bigint::BigUint) -> (r: bool)
    ensures
        r == (nat_of(*a) % 2 == 1),
{
    a.bit(0)
}

/// Relies on `<&BigUint as Shr<u32>>::shr` by one: division by two.
#[verifier::external_body]
pub(crate) fn big_half(a: &num_bigint::BigUint) -> (r: num_bigint::BigUint)
    ensures
        nat_of(r) == nat_of(*a) / 2,
{
    a >> 1u32
}

/// Relies on `<BigUint as Clone>::clone`: the same denoted value.
#[verifier::external_body]
pub(crate) fn big_clone(a: &num_bigint::BigUint) -> (r: num_bigint::BigUint)
    ensures
        nat_of(r) == nat_of(*a),
{
    a.clone()
}

} // verus!
