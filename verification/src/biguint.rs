//! The arbitrary-precision integers the curve constants are materialized into.
//!
//! `num::BigUint` is opaque to the verifier. Everything the rest of the crate knows about
//! it is stated here: its mathematical value, and how the handful of operations used by
//! the limb codec and the gadgets act on that value. None of it is proved.

use num::BigUint;
use num::Zero;
use vstd::arithmetic::power2::pow2;
use vstd::prelude::*;

verus! {

/// Declares `num::BigUint` as a type whose inside the verifier does not see.
#[verifier::external_type_specification]
#[verifier::external_body]
pub struct ExBigUint(BigUint);

/// The natural number a `BigUint` holds.
pub uninterp spec fn biguint_value(n: BigUint) -> nat;

/// Largest shift distance handed to [`shift_left`]. Every shift the limb codec performs
/// stays far below it; the bound keeps the allocation of the result small.
pub const SHIFT_LIMIT: usize = 65536;

/// `BigUint::zero()`: the integer zero.
#[verifier::external_body]
pub(crate) fn zero() -> (r: BigUint)
    ensures
        biguint_value(r) == 0,
{
    BigUint::zero()
}

/// `BigUint::from(u16)`: the integer with the value of `limb`.
#[verifier::external_body]
pub(crate) fn from_u16(limb: u16) -> (r: BigUint)
    ensures
        biguint_value(r) == limb,
{
    BigUint::from(limb)
}

/// `BigUint::from(u32)`: the integer with the value of `n`.
#[verifier::external_body]
pub(crate) fn from_u32(n: u32) -> (r: BigUint)
    ensures
        biguint_value(r) == n,
{
    BigUint::from(n)
}

/// `BigUint << usize`: multiplication by `2^bits`.
#[verifier::external_body]
pub(crate) fn shift_left(n: BigUint, bits: usize) -> (r: BigUint)
    requires
        bits <= SHIFT_LIMIT,
    ensures
        biguint_value(r) == biguint_value(n) * pow2(bits as nat),
{
    n << bits
}

/// `BigUint += BigUint`: the accumulator grows by the value of `n`.
#[verifier::external_body]
pub(crate) fn add_assign(acc: &mut BigUint, n: BigUint)
    ensures
        biguint_value(*final(acc)) == biguint_value(*old(acc)) + biguint_value(n),
{
    *acc += n;
}

/// `BigUint::clone`: a second integer with the same value.
pub assume_specification[ <BigUint as Clone>::clone ](n: &BigUint) -> (r: BigUint)
    ensures
        biguint_value(r) == biguint_value(*n),
;

} // verus!
