//! Trusted boundary around `num_bigint::BigUint`, the arbitrary-precision
//! unsigned integers the engine computes with. Verus sees a `BigUint` as an
//! opaque value whose mathematical content is given by `big_value`; each
//! wrapper states what one arithmetic operation of the crate does to that
//! content.

use num_bigint::BigUint;
use num_traits::One;
use num_traits::Zero;
use vstd::prelude::*;

verus! {

#[verifier::external_type_specification]
#[verifier::external_body]
pub struct ExBigUint(BigUint);

/// The non-negative integer a `BigUint` holds. A `BigUint` is a pure value
/// (a normalized digit vector), so its content is a function of the value
/// alone; the wrappers below say how each operation acts on it.
pub uninterp spec fn big_value(b: BigUint) -> nat;

/// Relies on `num_traits::Zero::zero` for `BigUint`: the value zero.
#[verifier::external_body]
pub(crate) fn big_zero() -> (r: BigUint)
    ensures
        big_value(r) == 0,
{
    BigUint::zero()
}

/// Relies on `num_traits::One::one` for `BigUint`: the value one.
#[verifier::external_body]
pub(crate) fn big_one() -> (r: BigUint)
    ensures
        big_value(r) == 1,
{
    BigUint::one()
}

/// Relies on `Add for &BigUint` in num-bigint: exact addition.
#[verifier::external_body]
pub(crate) fn big_add(a: &BigUint, b: &BigUint) -> (r: BigUint)
    ensures
        big_value(r) == big_value(*a) + big_value(*b),
{
    a + b
}

/// Relies on `Sub for &BigUint` in num-bigint: exact subtraction. The crate
/// panics when the subtrahend is larger, so that case is required away.
#[verifier::external_body]
pub(crate) fn big_sub(a: &BigUint, b: &BigUint) -> (r: BigUint)
    requires
        big_value(*b) <= big_value(*a),
    ensures
        big_value(r) + big_value(*b) == big_value(*a),
{
    a - b
}

/// Relies on `Mul for &BigUint` in num-bigint: exact multiplication.
#[verifier::external_body]
pub(crate) fn big_mul(a: &BigUint, b: &BigUint) -> (r: BigUint)
    ensures
        big_value(r) == big_value(*a) * big_value(*b),
{
    a * b
}

/// Relies on `Shl<u32> for &BigUint` in num-bigint: a left shift by one bit
/// doubles the value.
#[verifier::external_body]
pub(crate) fn big_double(a: &BigUint) -> (r: BigUint)
    ensures
        big_value(r) == 2 * big_value(*a),
{
    a << 1u32
}

/// Relies on `Clone for BigUint` in num-bigint: the copy holds the same value.
#[verifier::external_body]
pub(crate) fn big_clone(a: &BigUint) -> (r: BigUint)
    ensures
        big_value(r) == big_value(*a),
{
    a.clone()
}

} // verus!
