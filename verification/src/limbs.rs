//! Limb codec: fixed-width little-endian base-65536 arrays and the integers they denote.

use crate::biguint::{add_assign, biguint_value, from_u16, shift_left, zero};
use num::BigUint;
use vstd::arithmetic::div_mod::{
    lemma_breakdown, lemma_fundamental_div_mod, lemma_fundamental_div_mod_converse,
    lemma_mod_multiples_vanish, lemma_small_mod,
};
use vstd::arithmetic::power2::{lemma2_to64, lemma_pow2_adds, lemma_pow2_pos, pow2};
use vstd::prelude::*;

verus! {

/// Number of limbs in every field element and curve constant.
pub const MAX_NB_LIMBS: usize = 32;

/// The integer denoted by a little-endian sequence of 16-bit limbs:
/// the sum of `limbs[i] * 65536^i`.
pub open spec fn limbs_value(limbs: Seq<u16>) -> nat
    decreases limbs.len(),
{
    if limbs.len() == 0 {
        0
    } else {
        limbs_value(limbs.drop_last()) + limbs.last() as nat * pow2(
            (16 * (limbs.len() - 1)) as nat,
        )
    }
}

/// The `len` low limbs of `n`: limb `i` is the `i`-th digit of `n` in base 65536.
pub open spec fn limbs_of(n: nat, len: nat) -> Seq<u16> {
    Seq::new(len, |i: int| ((n / pow2((16 * i) as nat)) % 65536) as u16)
}

/// The limbs of `n` denote `n` up to the capacity of the limbs.
pub proof fn lemma_limbs_of_value(n: nat, len: nat)
    ensures
        limbs_value(limbs_of(n, len)) == n % pow2(16 * len),
    decreases len,
{
    lemma2_to64();
    if len == 0 {
        assert(pow2(0) == 1);
    } else {
        let low = (len - 1) as nat;
        let weight = pow2(16 * low);
        let limbs = limbs_of(n, len);
        lemma_limbs_of_value(n, low);
        assert(limbs.drop_last() == limbs_of(n, low));
        assert(limbs.last() == ((n / weight) % 65536) as u16);
        lemma_pow2_pos(16 * low);
        lemma_pow2_adds(16 * low, 16);
        assert(16 * low + 16 == 16 * len);
        lemma_breakdown(n as int, weight as int, 65536);
    }
}

/// Round trip: a limb array filled with the limbs of an integer below
/// `2^(16 * MAX_NB_LIMBS)` denotes that integer.
pub proof fn lemma_limbs_round_trip(n: nat)
    requires
        n < pow2(16 * MAX_NB_LIMBS as nat),
    ensures
        limbs_value(limbs_of(n, MAX_NB_LIMBS as nat)) == n,
{
    lemma_limbs_of_value(n, MAX_NB_LIMBS as nat);
    lemma_small_mod(n, pow2(16 * MAX_NB_LIMBS as nat));
}

/// The value of `len` limbs stays below `65536^len`.
pub proof fn lemma_limbs_value_bound(limbs: Seq<u16>)
    ensures
        limbs_value(limbs) < pow2(16 * limbs.len()),
    decreases limbs.len(),
{
    lemma2_to64();
    if limbs.len() > 0 {
        let low = (limbs.len() - 1) as nat;
        let weight = pow2(16 * low);
        let top = limbs.last() as nat;
        lemma_limbs_value_bound(limbs.drop_last());
        lemma_pow2_adds(16 * low, 16);
        assert(16 * low + 16 == 16 * limbs.len());
        assert(top * weight <= 65535 * weight) by (nonlinear_arith)
            requires
                top <= 65535,
        ;
    }
}

/// Lossless: the limbs of the value of a limb sequence are that sequence, so distinct
/// sequences of one length denote distinct integers.
pub proof fn lemma_limbs_of_limbs_value(limbs: Seq<u16>)
    ensures
        limbs_of(limbs_value(limbs), limbs.len()) == limbs,
    decreases limbs.len(),
{
    lemma2_to64();
    let len = limbs.len();
    let n = limbs_value(limbs);
    if len > 0 {
        let low = (len - 1) as nat;
        let weight = pow2(16 * low);
        let top = limbs.last() as nat;
        let rest = limbs_value(limbs.drop_last());
        lemma_limbs_of_limbs_value(limbs.drop_last());
        lemma_limbs_value_bound(limbs.drop_last());
        assert forall|i: int| 0 <= i < len implies limbs_of(n, len)[i] == limbs[i] by {
            let unit = pow2((16 * i) as nat);
            lemma_pow2_pos((16 * i) as nat);
            if i == low {
                lemma_fundamental_div_mod_converse(
                    n as int,
                    weight as int,
                    top as int,
                    rest as int,
                );
            } else {
                // n == rest + unit * (65536 * k): the limbs above `i` do not reach digit `i`
                let gap = (16 * (low - i - 1)) as nat;
                let k = top * pow2(gap);
                lemma_pow2_adds((16 * i) as nat, 16);
                lemma_pow2_adds((16 * i + 16) as nat, gap);
                assert(16 * i + 16 + gap == 16 * low);
                assert(top * weight == unit * (65536 * k)) by (nonlinear_arith)
                    requires
                        weight == unit * 65536 * pow2(gap),
                        k == top * pow2(gap),
                ;
                lemma_fundamental_div_mod(rest as int, unit as int);
                assert(n == (rest / unit + 65536 * k) * unit + rest % unit) by (nonlinear_arith)
                    requires
                        n == rest + unit * (65536 * k),
                        rest == unit * (rest / unit) + rest % unit,
                ;
                lemma_fundamental_div_mod_converse(
                    n as int,
                    unit as int,
                    (rest / unit + 65536 * k) as int,
                    (rest % unit) as int,
                );
                lemma_mod_multiples_vanish(k as int, (rest / unit) as int, 65536);
                assert(limbs_of(rest, low)[i] == limbs.drop_last()[i]);
            }
        }
        assert(limbs_of(n, len) =~= limbs);
    } else {
        assert(limbs_of(n, len) =~= limbs);
    }
}

/// Materializes a limb array into an arbitrary-precision integer.
pub fn limbs_to_integer(limbs: &[u16; MAX_NB_LIMBS]) -> (r: BigUint)
    ensures
        biguint_value(r) == limbs_value(limbs@),
{
    let mut acc: BigUint = zero();
    let mut i: usize = 0;
    while i < MAX_NB_LIMBS
        invariant
            i <= MAX_NB_LIMBS,
            biguint_value(acc) == limbs_value(limbs@.take(i as int)),
        decreases MAX_NB_LIMBS - i,
    {
        let term: BigUint = shift_left(from_u16(limbs[i]), 16 * i);
        add_assign(&mut acc, term);
        proof {
            let next = limbs@.take(i + 1);
            assert(next.drop_last() == limbs@.take(i as int));
            assert(next.last() == limbs[i as int]);
        }
        i = i + 1;
    }
    proof {
        assert(limbs@.take(MAX_NB_LIMBS as int) == limbs@);
    }
    acc
}

} // verus!
