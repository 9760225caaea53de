//! Trusted boundary around `num_bigint::BigInt`.
//!
//! The verified layer treats a `BigInt` as an opaque carrier of the
//! mathematical integer `big_value(..)`; each wrapper below performs one
//! arithmetic operation of the outside crate and states its effect on that
//! value.

use vstd::arithmetic::power2::pow2;
use vstd::prelude::*;

use crate::model::be_bytes_value;
use num_bigint::{BigInt, Sign, UniformBigInt};
use num_integer::Integer;
use rand::distributions::uniform::UniformSampler;

verus! {

#[verifier::external_type_specification]
#[verifier::external_body]
pub struct ExBigInt(BigInt);

/// The mathematical integer held by a `BigInt`.
pub uninterp spec fn big_value(b: BigInt) -> int;

/// Relies on `Clone for BigInt`: cloning keeps the numeric value.
#[verifier::external_body]
pub(crate) fn big_clone(a: &BigInt) -> (r: BigInt)
    ensures
        big_value(r) == big_value(*a),
{
    a.clone()
}

/// Relies on `From<u64> for BigInt`: the conversion is value-preserving.
#[verifier::external_body]
pub(crate) fn big_from_u64(x: u64) -> (r: BigInt)
    ensures
        big_value(r) == x,
{
    BigInt::from(x)
}

/// Relies on `Neg for &BigInt`: arithmetic negation.
#[verifier::external_body]
pub(crate) fn big_neg(a: &BigInt) -> (r: BigInt)
    ensures
        big_value(r) == -big_value(*a),
{
    -a
}

/// Relies on `Add for &BigInt`: exact integer addition.
#[verifier::external_body]
pub(crate) fn big_add(a: &BigInt, b: &BigInt) -> (r: BigInt)
    ensures
        big_value(r) == big_value(*a) + big_value(*b),
{
    a + b
}

/// Relies on `Sub for &BigInt`: exact integer subtraction.
#[verifier::external_body]
pub(crate) fn big_sub(a: &BigInt, b: &BigInt) -> (r: BigInt)
    ensures
        big_value(r) == big_value(*a) - big_value(*b),
{
    a - b
}

/// Relies on `Mul for &BigInt`: exact integer multiplication.
#[verifier::external_body]
pub(crate) fn big_mul(a: &BigInt, b: &BigInt) -> (r: BigInt)
    ensures
        big_value(r) == big_value(*a) * big_value(*b),
{
    a * b
}

/// Relies on `num_integer::Integer::mod_floor` for `BigInt`: for a positive
/// modulus the result is the nonnegative remainder, which is the Euclidean
/// remainder `%` of the specification language.
#[verifier::external_body]
pub(crate) fn big_mod_floor(a: &BigInt, m: &BigInt) -> (r: BigInt)
    requires
        big_value(*m) > 0,
    ensures
        big_value(r) == big_value(*a) % big_value(*m),
{
    a.mod_floor(m)
}

/// Relies on `num_integer::Integer::div_floor` for `BigInt`: for a positive
/// divisor, floor division, which is the Euclidean quotient `/` of the
/// specification language.
#[verifier::external_body]
pub(crate) fn big_div_floor(a: &BigInt, m: &BigInt) -> (r: BigInt)
    requires
        big_value(*m) > 0,
    ensures
        big_value(r) == big_value(*a) / big_value(*m),
{
    a.div_floor(m)
}

/// Relies on `PartialEq for BigInt`: equality of the numeric values.
#[verifier::external_body]
pub(crate) fn big_eq(a: &BigInt, b: &BigInt) -> (r: bool)
    ensures
        r == (big_value(*a) == big_value(*b)),
{
    a == b
}

/// Relies on `PartialOrd for BigInt`: numeric order.
#[verifier::external_body]
pub(crate) fn big_lt(a: &BigInt, b: &BigInt) -> (r: bool)
    ensures
        r == (big_value(*a) < big_value(*b)),
{
    a < b
}

/// Relies on `BigInt::bits`: the fewest bits needed for the magnitude, so for
/// a positive value `v` it returns the unique `r` with
/// `pow2(r - 1) <= v < pow2(r)`, and `0` for zero.
#[verifier::external_body]
pub(crate) fn big_bits(a: &BigInt) -> (r: u64)
    requires
        big_value(*a) >= 0,
    ensures
        big_value(*a) < pow2(r as nat),
        r > 0 ==> pow2((r - 1) as nat) <= big_value(*a),
        r == 0 ==> big_value(*a) == 0,
{
    a.bits()
}

/// Relies on `BigInt::bit`: for a nonnegative value, whether binary digit `i`
/// is set.
#[verifier::external_body]
pub(crate) fn big_bit(a: &BigInt, i: u64) -> (r: bool)
    requires
        big_value(*a) >= 0,
    ensures
        r == ((big_value(*a) / pow2(i as nat) as int) % 2 == 1),
{
    a.bit(i)
}

/// Relies on `BigInt::to_bytes_be`: the big-endian magnitude bytes, which for
/// a nonnegative value form its minimal base-256 encoding (`[0]` for zero).
#[verifier::external_body]
pub(crate) fn big_to_bytes_be(a: &BigInt) -> (r: Vec<u8>)
    requires
        big_value(*a) >= 0,
    ensures
        be_bytes_value(r@) == big_value(*a),
        r@.len() >= 1,
        big_value(*a) > 0 ==> r@[0] != 0,
        big_value(*a) == 0 ==> r@.len() == 1,
{
    a.to_bytes_be().1
}

/// Relies on `BigInt::from_bytes_be` with a plus sign: the value is the
/// big-endian base-256 value of the bytes.
#[verifier::external_body]
pub(crate) fn big_from_bytes_be(b: &[u8]) -> (r: BigInt)
    ensures
        big_value(r) == be_bytes_value(b@),
{
    BigInt::from_bytes_be(Sign::Plus, b)
}

/// Relies on `UniformBigInt::new_inclusive` and `sample` with
/// `rand::thread_rng`: a value drawn from the closed interval
/// `[low, high_inclusive]`. Nothing more is promised of a random draw.
/// Aborts only if the process-wide secure randomness source fails.
#[verifier::external_body]
pub(crate) fn gen_random_bigint(low: &BigInt, high_inclusive: &BigInt) -> (r: BigInt)
    requires
        big_value(*low) <= big_value(*high_inclusive),
    ensures
        big_value(*low) <= big_value(r) <= big_value(*high_inclusive),
{
    let mut rng = rand::thread_rng();
    UniformBigInt::new_inclusive(low, high_inclusive).sample(&mut rng)
}

/// Relies on `Display for BigInt` (via `format!`) to render the operands of a
/// failed inverse into the error message.
#[verifier::external_body]
pub(crate) fn inverse_failure_msg(a: &BigInt, n: &BigInt) -> String {
    format!("a: {a}, n: {n}")
}

} // verus!
