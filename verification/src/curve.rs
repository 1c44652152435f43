//! The group law of a short Weierstrass curve over the integers modulo `m`.
//!
//! Points are pairs of integers. Nothing here is executable: these are the formulas the
//! gadgets are measured against, and the facts about them that hold in every field.

use crate::constraint::{invertible, is_inverse};
use crate::modular::{
    congruent, lemma_cancel_invertible, lemma_congruent_add, lemma_congruent_canonical,
    lemma_congruent_mul, lemma_congruent_reduce, lemma_congruent_sub, lemma_invertible_modulus,
};
use vstd::arithmetic::div_mod::lemma_small_mod;
use vstd::prelude::*;

verus! {

/// Right-hand side of the curve equation, `x^3 + a*x + b`.
pub open spec fn curve_rhs(x: int, a: int, b: int) -> int {
    x * x * x + a * x + b
}

/// The point `p` satisfies `y^2 = x^3 + a*x + b` modulo `m`.
pub open spec fn on_curve(p: (int, int), a: int, b: int, m: int) -> bool {
    congruent(p.1 * p.1, curve_rhs(p.0, a, b), m)
}

/// The canonical inverse of `b` modulo `m`, where `b` has one.
pub open spec fn field_inverse(b: int, m: int) -> int {
    choose|inv: int| is_inverse(b, inv, m)
}

/// The quotient `a / b` in the integers modulo `m`.
pub open spec fn field_div(a: int, b: int, m: int) -> int {
    (a * field_inverse(b, m)) % m
}

/// Slope of the line through `p` and `q`.
pub open spec fn secant_slope(p: (int, int), q: (int, int), m: int) -> int {
    field_div(q.1 - p.1, q.0 - p.0, m)
}

/// Slope of the tangent at `p` to the curve with coefficient `a`.
pub open spec fn tangent_slope(p: (int, int), a: int, m: int) -> int {
    field_div(3 * (p.0 * p.0) + a, 2 * p.1, m)
}

/// Reflection of the third point in which the line through `p` with the given slope
/// meets the curve, when the second point has x-coordinate `qx`.
pub open spec fn third_point(p: (int, int), qx: int, slope: int, m: int) -> (int, int) {
    let x3 = (slope * slope - p.0 - qx) % m;
    (x3, (slope * (p.0 - x3) - p.1) % m)
}

/// Sum of two points with different x-coordinates: the chord rule.
pub open spec fn chord_add(p: (int, int), q: (int, int), m: int) -> (int, int) {
    third_point(p, q.0, secant_slope(p, q, m), m)
}

/// Double of a point: the tangent rule.
pub open spec fn tangent_double(p: (int, int), a: int, m: int) -> (int, int) {
    third_point(p, p.0, tangent_slope(p, a, m), m)
}

/// Height of the line through `p` with the given slope, at abscissa `x`.
pub open spec fn line_at(x: int, p: (int, int), slope: int) -> int {
    slope * (x - p.0) + p.1
}

/// The cubic whose roots are the abscissas where the line meets the curve.
pub open spec fn intersection_cubic(x: int, p: (int, int), slope: int, a: int, b: int) -> int {
    curve_rhs(x, a, b) - line_at(x, p, slope) * line_at(x, p, slope)
}

/// A quotient times its divisor gives back the dividend.
pub proof fn lemma_field_div_times_divisor(a: int, b: int, m: int)
    requires
        invertible(b, m),
    ensures
        congruent(field_div(a, b, m) * b, a, m),
        0 <= field_div(a, b, m) < m,
{
    let inv = field_inverse(b, m);
    lemma_invertible_modulus(b, m);
    lemma_small_mod(1, m as nat);
    lemma_congruent_reduce(a * inv, m);
    lemma_congruent_mul(field_div(a, b, m), a * inv, b, b, m);
    lemma_congruent_mul(a, a, b * inv, 1, m);
    assert((a * inv) * b == a * (b * inv)) by (nonlinear_arith);
    assert(a * 1 == a);
}

/// The cubic, expanded around the abscissa of `p`.
proof fn lemma_cubic_expansion(p: (int, int), slope: int, a: int, b: int, t: int)
    ensures
        intersection_cubic(p.0 + t, p, slope, a, b) == intersection_cubic(p.0, p, slope, a, b) + (3
            * (p.0 * p.0) + a - 2 * (slope * p.1)) * t + (3 * p.0 - slope * slope) * (t * t) + t
            * t * t,
{
    let x = p.0;
    let y = p.1;
    assert(line_at(x + t, p, slope) == slope * t + y);
    assert(line_at(x, p, slope) == y) by {
        assert(slope * 0 == 0);
    }
    assert((x + t) * (x + t) * (x + t) == x * x * x + 3 * (x * x) * t + 3 * x * (t * t) + t * t
        * t) by (nonlinear_arith);
    assert((slope * t + y) * (slope * t + y) == (slope * slope) * (t * t) + 2 * (slope * y) * t
        + y * y) by (nonlinear_arith);
    assert(a * (x + t) == a * x + a * t) by (nonlinear_arith);
    assert((3 * (x * x) + a - 2 * (slope * y)) * t == 3 * (x * x) * t + a * t - 2 * (slope * y)
        * t) by (nonlinear_arith);
    assert((3 * x - slope * slope) * (t * t) == 3 * x * (t * t) - (slope * slope) * (t * t))
        by (nonlinear_arith);
}

/// The line through two points meets the curve a third time at `slope^2 - p.x - qx`:
/// the cubic there is a combination of its values at the two points.
proof fn lemma_third_root_of_chord(p: (int, int), qx: int, slope: int, a: int, b: int)
    ensures
        ({
            let c = slope * slope - p.0 - qx;
            intersection_cubic(c, p, slope, a, b) * (qx - p.0) == intersection_cubic(
                p.0,
                p,
                slope,
                a,
                b,
            ) * (qx - c) + intersection_cubic(qx, p, slope, a, b) * (c - p.0)
        }),
{
    let c = slope * slope - p.0 - qx;
    let d = qx - p.0;
    let e = c - p.0;
    let c0 = intersection_cubic(p.0, p, slope, a, b);
    let c1 = 3 * (p.0 * p.0) + a - 2 * (slope * p.1);
    let c2 = 3 * p.0 - slope * slope;
    let fq = intersection_cubic(qx, p, slope, a, b);
    let fc = intersection_cubic(c, p, slope, a, b);
    lemma_cubic_expansion(p, slope, a, b, d);
    lemma_cubic_expansion(p, slope, a, b, e);
    assert(p.0 + d == qx);
    assert(p.0 + e == c);
    assert(c2 == -(d + e));
    assert(c2 * (d * d) + d * d * d == -(e * (d * d))) by (nonlinear_arith)
        requires
            c2 == -(d + e),
    ;
    assert(c2 * (e * e) + e * e * e == -(d * (e * e))) by (nonlinear_arith)
        requires
            c2 == -(d + e),
    ;
    assert(fq * e == c0 * e + (c1 * d) * e - (e * (d * d)) * e) by (nonlinear_arith)
        requires
            fq == c0 + c1 * d - e * (d * d),
    ;
    assert(fc * d == c0 * d + (c1 * e) * d - (d * (e * e)) * d) by (nonlinear_arith)
        requires
            fc == c0 + c1 * e - d * (e * e),
    ;
    assert((c1 * e) * d == (c1 * d) * e) by (nonlinear_arith);
    assert((d * (e * e)) * d == (e * (d * d)) * e) by (nonlinear_arith);
    assert(c0 * (d - e) == c0 * d - c0 * e) by (nonlinear_arith);
}

/// The tangent at a point meets the curve again at `slope^2 - 2 * p.x`.
proof fn lemma_third_root_of_tangent(p: (int, int), slope: int, a: int, b: int)
    ensures
        ({
            let c = slope * slope - p.0 - p.0;
            intersection_cubic(c, p, slope, a, b) == intersection_cubic(p.0, p, slope, a, b) + (3
                * (p.0 * p.0) + a - 2 * (slope * p.1)) * (c - p.0)
        }),
{
    let c = slope * slope - p.0 - p.0;
    let t = c - p.0;
    let c2 = 3 * p.0 - slope * slope;
    lemma_cubic_expansion(p, slope, a, b, t);
    assert(p.0 + t == c);
    assert(c2 * (t * t) + t * t * t == 0) by (nonlinear_arith)
        requires
            c2 == -t,
    ;
}

/// If the cubic vanishes at `slope^2 - p.x - qx`, the third point lies on the curve.
proof fn lemma_third_point_on_curve(p: (int, int), qx: int, slope: int, a: int, b: int, m: int)
    requires
        m > 0,
        congruent(intersection_cubic(slope * slope - p.0 - qx, p, slope, a, b), 0, m),
    ensures
        on_curve(third_point(p, qx, slope, m), a, b, m),
{
    let c = slope * slope - p.0 - qx;
    let r = third_point(p, qx, slope, m);
    let x3 = r.0;
    let y3 = r.1;
    let l = line_at(c, p, slope);
    lemma_congruent_reduce(c, m);
    // the right-hand side of the curve at x3 and at c
    lemma_congruent_mul(x3, c, x3, c, m);
    lemma_congruent_mul(x3 * x3, c * c, x3, c, m);
    lemma_congruent_mul(a, a, x3, c, m);
    lemma_congruent_add(x3 * x3 * x3, c * c * c, a * x3, a * c, m);
    lemma_congruent_add(x3 * x3 * x3 + a * x3, c * c * c + a * c, b, b, m);
    assert(congruent(curve_rhs(x3, a, b), curve_rhs(c, a, b), m));
    // y3 is the opposite of the height of the line at c
    lemma_congruent_reduce(slope * (p.0 - x3) - p.1, m);
    lemma_congruent_sub(p.0, p.0, x3, c, m);
    lemma_congruent_mul(slope, slope, p.0 - x3, p.0 - c, m);
    lemma_congruent_sub(slope * (p.0 - x3), slope * (p.0 - c), p.1, p.1, m);
    assert(slope * (p.0 - c) - p.1 == -l) by (nonlinear_arith)
        requires
            l == slope * (c - p.0) + p.1,
    ;
    lemma_congruent_mul(y3, -l, y3, -l, m);
    assert((-l) * (-l) == l * l) by (nonlinear_arith);
    // the cubic vanishes at c
    lemma_congruent_add(curve_rhs(c, a, b) - l * l, 0, l * l, l * l, m);
}

/// The chord rule maps two points of the curve to a point of the curve.
pub proof fn lemma_chord_add_on_curve(p: (int, int), q: (int, int), a: int, b: int, m: int)
    requires
        invertible(q.0 - p.0, m),
        on_curve(p, a, b, m),
        on_curve(q, a, b, m),
    ensures
        on_curve(chord_add(p, q, m), a, b, m),
{
    let slope = secant_slope(p, q, m);
    let c = slope * slope - p.0 - q.0;
    let fp = intersection_cubic(p.0, p, slope, a, b);
    let fq = intersection_cubic(q.0, p, slope, a, b);
    let fc = intersection_cubic(c, p, slope, a, b);
    lemma_invertible_modulus(q.0 - p.0, m);
    lemma_field_div_times_divisor(q.1 - p.1, q.0 - p.0, m);
    // the cubic vanishes at p.x
    assert(line_at(p.0, p, slope) == p.1) by {
        assert(slope * 0 == 0);
    }
    lemma_congruent_sub(curve_rhs(p.0, a, b), p.1 * p.1, p.1 * p.1, p.1 * p.1, m);
    assert(congruent(fp, 0, m));
    // the cubic vanishes at q.x
    let lq = line_at(q.0, p, slope);
    lemma_congruent_add(slope * (q.0 - p.0), q.1 - p.1, p.1, p.1, m);
    lemma_congruent_mul(lq, q.1, lq, q.1, m);
    lemma_congruent_sub(curve_rhs(q.0, a, b), q.1 * q.1, lq * lq, q.1 * q.1, m);
    assert(congruent(fq, 0, m));
    // hence at the third abscissa
    lemma_third_root_of_chord(p, q.0, slope, a, b);
    lemma_congruent_mul(fp, 0, q.0 - c, q.0 - c, m);
    lemma_congruent_mul(fq, 0, c - p.0, c - p.0, m);
    lemma_congruent_add(fp * (q.0 - c), 0 * (q.0 - c), fq * (c - p.0), 0 * (c - p.0), m);
    assert(0 * (q.0 - c) + 0 * (c - p.0) == 0);
    lemma_cancel_invertible(fc, q.0 - p.0, m);
    lemma_third_point_on_curve(p, q.0, slope, a, b, m);
}

/// The tangent rule maps a point of the curve to a point of the curve.
pub proof fn lemma_tangent_double_on_curve(p: (int, int), a: int, b: int, m: int)
    requires
        invertible(2 * p.1, m),
        on_curve(p, a, b, m),
    ensures
        on_curve(tangent_double(p, a, m), a, b, m),
{
    let slope = tangent_slope(p, a, m);
    let c = slope * slope - p.0 - p.0;
    let fp = intersection_cubic(p.0, p, slope, a, b);
    let c1 = 3 * (p.0 * p.0) + a - 2 * (slope * p.1);
    lemma_invertible_modulus(2 * p.1, m);
    lemma_field_div_times_divisor(3 * (p.0 * p.0) + a, 2 * p.1, m);
    assert(slope * (2 * p.1) == 2 * (slope * p.1)) by (nonlinear_arith);
    // the cubic and its derivative vanish at p.x
    assert(line_at(p.0, p, slope) == p.1) by {
        assert(slope * 0 == 0);
    }
    lemma_congruent_sub(curve_rhs(p.0, a, b), p.1 * p.1, p.1 * p.1, p.1 * p.1, m);
    assert(congruent(fp, 0, m));
    lemma_congruent_sub(
        3 * (p.0 * p.0) + a,
        3 * (p.0 * p.0) + a,
        2 * (slope * p.1),
        3 * (p.0 * p.0) + a,
        m,
    );
    assert(congruent(c1, 0, m));
    // hence the cubic vanishes at the third abscissa
    lemma_third_root_of_tangent(p, slope, a, b);
    lemma_congruent_mul(c1, 0, c - p.0, c - p.0, m);
    lemma_congruent_add(fp, 0, c1 * (c - p.0), 0 * (c - p.0), m);
    assert(0 + 0 * (c - p.0) == 0);
    lemma_third_point_on_curve(p, p.0, slope, a, b, m);
}

/// The opposite of an invertible number is invertible.
pub proof fn lemma_invertible_negation(d: int, m: int)
    requires
        invertible(d, m),
    ensures
        invertible(-d, m),
{
    let inv = field_inverse(d, m);
    let neg = (-inv) % m;
    lemma_invertible_modulus(d, m);
    lemma_congruent_reduce(-inv, m);
    lemma_congruent_mul(-d, -d, neg, -inv, m);
    assert((-d) * (-inv) == d * inv) by (nonlinear_arith);
    assert(is_inverse(-d, neg, m));
}

/// The chord rule does not depend on the order of its operands.
pub proof fn lemma_chord_add_commutes(p: (int, int), q: (int, int), m: int)
    requires
        invertible(q.0 - p.0, m),
    ensures
        chord_add(p, q, m) == chord_add(q, p, m),
{
    let d = q.0 - p.0;
    let n = q.1 - p.1;
    let s = secant_slope(p, q, m);
    let s2 = secant_slope(q, p, m);
    lemma_invertible_modulus(d, m);
    lemma_invertible_negation(d, m);
    assert(p.0 - q.0 == -d);
    assert(p.1 - q.1 == -n);
    lemma_field_div_times_divisor(n, d, m);
    lemma_field_div_times_divisor(-n, -d, m);
    // both slopes solve `slope * d == n`, so they agree
    assert(s2 * d == 0 - s2 * (-d)) by (nonlinear_arith);
    lemma_congruent_sub(0, 0, s2 * (-d), -n, m);
    assert(congruent(s2 * d, n, m));
    lemma_congruent_sub(s * d, n, s2 * d, n, m);
    assert((s - s2) * d == s * d - s2 * d) by (nonlinear_arith);
    lemma_cancel_invertible(s - s2, d, m);
    lemma_congruent_add(s - s2, 0, s2, s2, m);
    lemma_congruent_canonical(s, s2, m);
    // same abscissa; the ordinates differ by `n - s * d`
    let x3 = (s * s - p.0 - q.0) % m;
    assert(s * s - q.0 - p.0 == s * s - p.0 - q.0);
    let yp = s * (p.0 - x3) - p.1;
    let yq = s * (q.0 - x3) - q.1;
    assert(yp - yq == n - s * d) by (nonlinear_arith)
        requires
            yp == s * (p.0 - x3) - p.1,
            yq == s * (q.0 - x3) - q.1,
            d == q.0 - p.0,
            n == q.1 - p.1,
    ;
    lemma_congruent_sub(n, n, s * d, n, m);
    lemma_congruent_add(yp - yq, 0, yq, yq, m);
    assert(congruent(yp, yq, m));
}

} // verus!
