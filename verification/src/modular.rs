//! Congruences modulo a positive integer, and multiplicative inverses.

use crate::constraint::{invertible, is_inverse};
use vstd::arithmetic::div_mod::{
    lemma_add_mod_noop, lemma_fundamental_div_mod, lemma_mod_multiples_vanish, lemma_mod_twice,
    lemma_mul_mod_noop_general, lemma_small_mod, lemma_sub_mod_noop,
};
use vstd::prelude::*;

verus! {

/// `a` and `b` leave the same remainder modulo `m`.
pub open spec fn congruent(a: int, b: int, m: int) -> bool {
    a % m == b % m
}

pub proof fn lemma_congruent_add(a: int, a2: int, b: int, b2: int, m: int)
    requires
        m > 0,
        congruent(a, a2, m),
        congruent(b, b2, m),
    ensures
        congruent(a + b, a2 + b2, m),
{
    lemma_add_mod_noop(a, b, m);
    lemma_add_mod_noop(a2, b2, m);
}

pub proof fn lemma_congruent_sub(a: int, a2: int, b: int, b2: int, m: int)
    requires
        m > 0,
        congruent(a, a2, m),
        congruent(b, b2, m),
    ensures
        congruent(a - b, a2 - b2, m),
{
    lemma_sub_mod_noop(a, b, m);
    lemma_sub_mod_noop(a2, b2, m);
}

pub proof fn lemma_congruent_mul(a: int, a2: int, b: int, b2: int, m: int)
    requires
        m > 0,
        congruent(a, a2, m),
        congruent(b, b2, m),
    ensures
        congruent(a * b, a2 * b2, m),
{
    lemma_mul_mod_noop_general(a, b, m);
    lemma_mul_mod_noop_general(a2, b2, m);
}

/// A remainder is congruent to the number it was taken from.
pub proof fn lemma_congruent_reduce(a: int, m: int)
    requires
        m > 0,
    ensures
        congruent(a % m, a, m),
{
    lemma_mod_twice(a, m);
}

/// Canonical residues that are congruent are equal.
pub proof fn lemma_congruent_canonical(a: int, b: int, m: int)
    requires
        0 <= a < m,
        0 <= b < m,
        congruent(a, b, m),
    ensures
        a == b,
{
    lemma_small_mod(a as nat, m as nat);
    lemma_small_mod(b as nat, m as nat);
}

/// Numbers that differ by a multiple of `m` are congruent.
pub proof fn lemma_congruent_multiple(a: int, b: int, k: int, m: int)
    requires
        m > 0,
        a - b == m * k,
    ensures
        congruent(a, b, m),
{
    lemma_mod_multiples_vanish(k, b, m);
}

/// Only a modulus greater than one admits inverses.
pub proof fn lemma_invertible_modulus(b: int, m: int)
    requires
        invertible(b, m),
    ensures
        m > 1,
{
    let inv = choose|inv: int| is_inverse(b, inv, m);
    if m == 1 {
        assert((b * inv) % 1 == 0);
    }
}

/// A factor with an inverse can be cancelled from a product congruent to zero.
pub proof fn lemma_cancel_invertible(z: int, d: int, m: int)
    requires
        invertible(d, m),
        congruent(z * d, 0, m),
    ensures
        congruent(z, 0, m),
{
    let inv = choose|inv: int| is_inverse(d, inv, m);
    lemma_invertible_modulus(d, m);
    lemma_small_mod(1, m as nat);
    lemma_congruent_mul(z, z, d * inv, 1, m);
    lemma_congruent_mul(z * d, 0, inv, inv, m);
    assert(z * (d * inv) == (z * d) * inv) by (nonlinear_arith);
    assert(0 * inv == 0);
    assert(z * 1 == z);
}

/// The inverse of a number, when it has one, is unique.
pub proof fn lemma_inverse_unique(b: int, inv1: int, inv2: int, m: int)
    requires
        is_inverse(b, inv1, m),
        is_inverse(b, inv2, m),
    ensures
        inv1 == inv2,
{
    lemma_invertible_modulus(b, m);
    lemma_small_mod(1, m as nat);
    // inv1 == inv1 * (b * inv2) == (inv1 * b) * inv2 == inv2, modulo m
    lemma_congruent_mul(inv1, inv1, b * inv2, 1, m);
    lemma_congruent_mul(b * inv1, 1, inv2, inv2, m);
    assert(inv1 * (b * inv2) == (b * inv1) * inv2) by (nonlinear_arith);
    assert(inv1 * 1 == inv1);
    assert(1 * inv2 == inv2);
    lemma_congruent_canonical(inv1, inv2, m);
}

/// Having an inverse depends only on the residue class.
pub proof fn lemma_inverse_congruent(b: int, b2: int, inv: int, m: int)
    requires
        m > 0,
        congruent(b, b2, m),
        is_inverse(b, inv, m),
    ensures
        is_inverse(b2, inv, m),
{
    lemma_congruent_mul(b, b2, inv, inv, m);
}

/// The product of two invertible numbers is invertible.
pub proof fn lemma_invertible_product(a: int, b: int, m: int)
    requires
        invertible(a, m),
        invertible(b, m),
    ensures
        invertible(a * b, m),
{
    let inv_a = choose|inv: int| is_inverse(a, inv, m);
    let inv_b = choose|inv: int| is_inverse(b, inv, m);
    let inv = (inv_a * inv_b) % m;
    lemma_invertible_modulus(a, m);
    lemma_small_mod(1, m as nat);
    lemma_congruent_mul(a * inv_a, 1, b * inv_b, 1, m);
    assert((a * inv_a) * (b * inv_b) == (a * b) * (inv_a * inv_b)) by (nonlinear_arith);
    lemma_congruent_reduce(inv_a * inv_b, m);
    lemma_congruent_mul(a * b, a * b, inv, inv_a * inv_b, m);
    assert(1 * 1 == 1);
    assert(is_inverse(a * b, inv, m));
}

/// `m` is a prime number.
pub open spec fn is_prime(m: int) -> bool {
    m > 1 && forall|d: int| 1 < d < m ==> #[trigger] (m % d) != 0
}

/// Modulo a prime, every canonical residue but zero has an inverse.
pub proof fn lemma_prime_has_inverses(b: int, m: int)
    requires
        is_prime(m),
        0 < b < m,
    ensures
        invertible(b, m),
    decreases b,
{
    lemma_small_mod(1, m as nat);
    if b == 1 {
        assert(is_inverse(1, 1, m)) by {
            assert(1 * 1 == 1);
        }
    } else {
        // m == q * b + r with 0 < r < b, so an inverse of r gives one of b
        let q = m / b;
        let r = m % b;
        lemma_fundamental_div_mod(m, b);
        lemma_prime_has_inverses(r, m);
        let inv_r = choose|inv: int| is_inverse(r, inv, m);
        let inv = (-(q * inv_r)) % m;
        assert(b * (-(q * inv_r)) - r * inv_r == m * (-inv_r)) by (nonlinear_arith)
            requires
                m == b * q + r,
        ;
        lemma_congruent_multiple(b * (-(q * inv_r)), r * inv_r, -inv_r, m);
        lemma_congruent_reduce(-(q * inv_r), m);
        lemma_congruent_mul(b, b, inv, -(q * inv_r), m);
        assert(is_inverse(b, inv, m));
    }
}

/// Modulo a prime, the difference of two distinct canonical residues has an inverse.
pub proof fn lemma_prime_difference_invertible(x1: int, x2: int, m: int)
    requires
        is_prime(m),
        0 <= x1 < m,
        0 <= x2 < m,
        x1 != x2,
    ensures
        invertible(x2 - x1, m),
{
    let d = (x2 - x1) % m;
    lemma_congruent_reduce(x2 - x1, m);
    if d == 0 {
        lemma_congruent_add(x2 - x1, 0, x1, x1, m);
        lemma_congruent_canonical(x2, x1, m);
    }
    lemma_prime_has_inverses(d, m);
    let inv = choose|inv: int| is_inverse(d, inv, m);
    lemma_inverse_congruent(d, x2 - x1, inv, m);
}

} // verus!
