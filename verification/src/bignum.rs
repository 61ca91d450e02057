//! Unbounded naturals, as `num_bigint::BigUint` provides them.
//!
//! Nothing in this module is proved. Each function hands one operation to
//! `num_bigint` and states, over [`biguint_value`], the arithmetic that the
//! operation is documented to perform.

use num_bigint::BigUint;
use num_bigint::ToBigUint;
use num_traits::Pow;
use vstd::arithmetic::power::pow;
use vstd::prelude::*;

verus! {

/// `num_bigint::BigUint`, an unsigned integer of any size. Nothing is known
/// of its inside: [`biguint_value`] names the number it holds.
#[verifier::external_type_specification]
#[verifier::external_body]
pub struct ExBigUint(BigUint);

/// The natural number that a `BigUint` holds.
pub uninterp spec fn biguint_value(n: BigUint) -> nat;

/// `ToBigUint::to_biguint` on a `u128`: always `Some`, as for every unsigned
/// machine integer, and the `BigUint` holds the same number.
#[verifier::external_body]
pub(crate) fn to_biguint(x: u128) -> (r: Option<BigUint>)
    ensures
        r is Some,
        biguint_value(r->0) == x,
{
    x.to_biguint()
}

/// `Pow::pow` of a `BigUint` to a `usize` exponent: the base multiplied by
/// itself `exponent` times, one for exponent zero.
#[verifier::external_body]
pub(crate) fn biguint_pow(base: BigUint, exponent: usize) -> (r: BigUint)
    ensures
        biguint_value(r) == pow(biguint_value(base) as int, exponent as nat),
{
    Pow::pow(base, exponent)
}

/// `BigUint * BigUint`: the product of the two numbers.
#[verifier::external_body]
pub(crate) fn biguint_mul(a: BigUint, b: BigUint) -> (r: BigUint)
    ensures
        biguint_value(r) == biguint_value(a) * biguint_value(b),
{
    a * b
}

/// `BigUint += BigUint`: the accumulator grows by the addend.
#[verifier::external_body]
pub(crate) fn biguint_add_assign(acc: &mut BigUint, addend: BigUint)
    ensures
        biguint_value(*final(acc)) == biguint_value(*old(acc)) + biguint_value(addend),
{
    *acc += addend;
}

} // verus!
