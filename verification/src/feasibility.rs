//! The values a prover fills in, and the proof that they satisfy what the gadgets emit.
//!
//! Soundness says what every satisfying witness holds. The statements here are the
//! converse: wherever the chord or the tangent rule is defined, a satisfied system stays
//! satisfiable after the gadget has run, by the witness that is written out below.

use crate::constraint::{
    constraint_in_scope, invertible, is_inverse, lemma_well_scoped_append, row_holds, satisfies,
    well_scoped, Constraint,
};
use crate::curve::{field_inverse, secant_slope, tangent_slope};
use crate::group::{add_constraints, double_constraints, third_point_constraints};
use crate::modular::{
    congruent, is_prime, lemma_congruent_add, lemma_congruent_mul, lemma_congruent_reduce,
    lemma_inverse_congruent, lemma_invertible_modulus, lemma_invertible_product,
    lemma_prime_difference_invertible, lemma_prime_has_inverses,
};
use crate::slope::{slope_constraints, tangent_constraints};
use crate::soundness::point_at;
use crate::{ec_double_constraints, ec_generator_constraints};
use vstd::prelude::*;

verus! {

/// Values of the three registers of the slope gadget on the points `p` and `q`.
pub open spec fn slope_values(p: (int, int), q: (int, int), m: int) -> Seq<int> {
    seq![(q.1 - p.1) % m, (q.0 - p.0) % m, secant_slope(p, q, m)]
}

/// Values of the five registers of the tangent gadget on the point `p`, where the
/// registers of the coefficient and of the constant hold `a` and 3.
pub open spec fn tangent_values(p: (int, int), a: int, m: int) -> Seq<int> {
    let x_sq = (p.0 * p.0) % m;
    let x_sq_3 = (x_sq * 3) % m;
    seq![x_sq, x_sq_3, (x_sq_3 + a) % m, (p.1 + p.1) % m, tangent_slope(p, a, m)]
}

/// Values of the six registers of the third-point constraints.
pub open spec fn third_point_values(p: (int, int), qx: int, slope: int, m: int) -> Seq<int> {
    let slope_squared = (slope * slope) % m;
    let x_3_plus_qx = (slope_squared - p.0) % m;
    let x_3 = (x_3_plus_qx - qx) % m;
    let x_diff = (p.0 - x_3) % m;
    let y_3_plus_py = (slope * x_diff) % m;
    seq![slope_squared, x_3_plus_qx, x_3, x_diff, y_3_plus_py, (y_3_plus_py - p.1) % m]
}

/// Values of the nine registers of the addition gadget.
pub open spec fn add_values(p: (int, int), q: (int, int), m: int) -> Seq<int> {
    slope_values(p, q, m) + third_point_values(p, q.0, secant_slope(p, q, m), m)
}

/// Values of the eleven registers of the doubling gadget.
pub open spec fn double_values(p: (int, int), a: int, m: int) -> Seq<int> {
    tangent_values(p, a, m) + third_point_values(p, p.0, tangent_slope(p, a, m), m)
}

/// Values of the thirteen registers of `ec_double`.
pub open spec fn ec_double_values(p: (int, int), a: int, m: int) -> Seq<int> {
    seq![a, 3] + double_values(p, a, m)
}

/// Row `j` of the appended constraints holds under the extended witness.
pub open spec fn appended_row_holds(
    prefix: Seq<Constraint>,
    extra: Seq<Constraint>,
    w: Seq<int>,
    values: Seq<int>,
    m: int,
    j: int,
) -> bool {
    row_holds(prefix + extra, prefix.len() + j, w + values, m)
}

/// Appending rows that hold to a satisfied, well-scoped system gives a satisfied system.
pub proof fn lemma_extend(
    prefix: Seq<Constraint>,
    extra: Seq<Constraint>,
    w: Seq<int>,
    values: Seq<int>,
    m: int,
)
    requires
        well_scoped(prefix),
        satisfies(prefix, w, m),
        extra.len() == values.len(),
        forall|j: int|
            0 <= j < extra.len() ==> #[trigger] appended_row_holds(prefix, extra, w, values, m, j),
    ensures
        satisfies(prefix + extra, w + values, m),
{
    let system = prefix + extra;
    let w2 = w + values;
    assert forall|i: int| 0 <= i < system.len() implies #[trigger] row_holds(system, i, w2, m) by {
        if i < prefix.len() {
            assert(row_holds(prefix, i, w, m));
            assert(constraint_in_scope(prefix[i], i));
            assert(system[i] == prefix[i]);
            assert(w2[i] == w[i]);
            match prefix[i] {
                Constraint::Free => {},
                Constraint::Constant(_) => {},
                Constraint::Add(a, b) => {
                    assert(w2[a] == w[a] && w2[b] == w[b]);
                },
                Constraint::Sub(a, b) => {
                    assert(w2[a] == w[a] && w2[b] == w[b]);
                },
                Constraint::Mul(a, b) => {
                    assert(w2[a] == w[a] && w2[b] == w[b]);
                },
                Constraint::Div(a, b) => {
                    assert(w2[a] == w[a] && w2[b] == w[b]);
                    let inv = choose|inv: int| #[trigger]
                        is_inverse(w[b], inv, m) && w[i] == (w[a] * inv) % m;
                    assert(is_inverse(w2[b], inv, m) && w2[i] == (w2[a] * inv) % m);
                },
            }
        } else {
            assert(appended_row_holds(prefix, extra, w, values, m, i - prefix.len()));
        }
    }
}

/// A division row holds when it is filled with the quotient of the field.
proof fn lemma_div_row(num: int, den: int, a: int, b: int, m: int)
    requires
        invertible(b, m),
        congruent(num, a, m),
        congruent(den, b, m),
    ensures
        is_inverse(den, field_inverse(b, m), m),
        (a * field_inverse(b, m)) % m == (num * field_inverse(b, m)) % m,
{
    lemma_invertible_modulus(b, m);
    lemma_inverse_congruent(b, den, field_inverse(b, m), m);
    lemma_congruent_mul(num, a, field_inverse(b, m), field_inverse(b, m), m);
}

/// The third-point constraints, appended to a satisfied system whose registers `p`,
/// `qx` and `slope` exist, are satisfied by the values of the third point.
pub proof fn lemma_third_point_feasible(
    prefix: Seq<Constraint>,
    p: (int, int),
    qx: int,
    slope: int,
    w: Seq<int>,
    m: int,
)
    requires
        well_scoped(prefix),
        satisfies(prefix, w, m),
        0 <= p.0 < prefix.len(),
        0 <= p.1 < prefix.len(),
        0 <= qx < prefix.len(),
        0 <= slope < prefix.len(),
    ensures
        satisfies(
            prefix + third_point_constraints(p, qx, slope, prefix.len() as int),
            w + third_point_values(point_at(w, p), w[qx], w[slope], m),
            m,
        ),
        well_scoped(prefix + third_point_constraints(p, qx, slope, prefix.len() as int)),
{
    let base = prefix.len() as int;
    let extra = third_point_constraints(p, qx, slope, base);
    let values = third_point_values(point_at(w, p), w[qx], w[slope], m);
    let system = prefix + extra;
    let w2 = w + values;
    assert(row_holds(prefix, p.0, w, m));
    assert(m > 0);
    assert forall|j: int| 0 <= j < extra.len() implies #[trigger] appended_row_holds(
        prefix,
        extra,
        w,
        values,
        m,
        j,
    ) by {
        assert(system[base + j] == extra[j]);
        assert(w2[base + j] == values[j]);
        assert(w2[p.0] == w[p.0] && w2[p.1] == w[p.1] && w2[qx] == w[qx] && w2[slope]
            == w[slope]);
        assert(forall|k: int| 0 <= k < 6 ==> w2[base + k] == values[k]);
    }
    lemma_extend(prefix, extra, w, values, m);
    lemma_well_scoped_append(prefix, extra);
}

/// The slope constraints, appended to a satisfied system that holds two points with
/// invertible difference of abscissas, are satisfied by the values of the slope.
pub proof fn lemma_slope_feasible(
    prefix: Seq<Constraint>,
    p: (int, int),
    q: (int, int),
    w: Seq<int>,
    m: int,
)
    requires
        well_scoped(prefix),
        satisfies(prefix, w, m),
        0 <= p.0 < prefix.len(),
        0 <= p.1 < prefix.len(),
        0 <= q.0 < prefix.len(),
        0 <= q.1 < prefix.len(),
        invertible(w[q.0] - w[p.0], m),
    ensures
        satisfies(
            prefix + slope_constraints(p, q, prefix.len() as int),
            w + slope_values(point_at(w, p), point_at(w, q), m),
            m,
        ),
        well_scoped(prefix + slope_constraints(p, q, prefix.len() as int)),
{
    let base = prefix.len() as int;
    let extra = slope_constraints(p, q, base);
    let values = slope_values(point_at(w, p), point_at(w, q), m);
    let system = prefix + extra;
    let w2 = w + values;
    let inv = field_inverse(w[q.0] - w[p.0], m);
    lemma_invertible_modulus(w[q.0] - w[p.0], m);
    lemma_congruent_reduce(w[q.1] - w[p.1], m);
    lemma_congruent_reduce(w[q.0] - w[p.0], m);
    lemma_div_row(values[0], values[1], w[q.1] - w[p.1], w[q.0] - w[p.0], m);
    assert forall|j: int| 0 <= j < extra.len() implies #[trigger] appended_row_holds(
        prefix,
        extra,
        w,
        values,
        m,
        j,
    ) by {
        assert(system[base + j] == extra[j]);
        assert(w2[p.0] == w[p.0] && w2[p.1] == w[p.1] && w2[q.0] == w[q.0] && w2[q.1]
            == w[q.1]);
        assert(forall|k: int| 0 <= k < 3 ==> w2[base + k] == values[k]);
        if j == 2 {
            assert(is_inverse(w2[base + 1], inv, m) && w2[base + 2] == (w2[base] * inv) % m);
        }
    }
    lemma_extend(prefix, extra, w, values, m);
    lemma_well_scoped_append(prefix, extra);
}

/// The tangent constraints, appended to a satisfied system that holds a point with
/// invertible doubled ordinate, the coefficient and the constant 3, are satisfied by
/// the values of the tangent.
pub proof fn lemma_tangent_feasible(
    prefix: Seq<Constraint>,
    p: (int, int),
    a: int,
    three: int,
    w: Seq<int>,
    m: int,
)
    requires
        well_scoped(prefix),
        satisfies(prefix, w, m),
        0 <= p.0 < prefix.len(),
        0 <= p.1 < prefix.len(),
        0 <= a < prefix.len(),
        0 <= three < prefix.len(),
        w[three] == 3,
        invertible(2 * w[p.1], m),
    ensures
        satisfies(
            prefix + tangent_constraints(p, a, three, prefix.len() as int),
            w + tangent_values(point_at(w, p), w[a], m),
            m,
        ),
        well_scoped(prefix + tangent_constraints(p, a, three, prefix.len() as int)),
{
    let base = prefix.len() as int;
    let extra = tangent_constraints(p, a, three, base);
    let values = tangent_values(point_at(w, p), w[a], m);
    let system = prefix + extra;
    let w2 = w + values;
    let x = w[p.0];
    let y = w[p.1];
    let inv = field_inverse(2 * y, m);
    lemma_invertible_modulus(2 * y, m);
    // numerator and denominator are reduced copies of those of the tangent formula
    lemma_congruent_reduce(x * x, m);
    lemma_congruent_mul(values[0], x * x, 3, 3, m);
    lemma_congruent_reduce(values[0] * 3, m);
    lemma_congruent_add(values[1], (x * x) * 3, w[a], w[a], m);
    lemma_congruent_reduce(values[1] + w[a], m);
    assert((x * x) * 3 == 3 * (x * x));
    lemma_congruent_reduce(y + y, m);
    assert(y + y == 2 * y);
    lemma_div_row(values[2], values[3], 3 * (x * x) + w[a], 2 * y, m);
    assert forall|j: int| 0 <= j < extra.len() implies #[trigger] appended_row_holds(
        prefix,
        extra,
        w,
        values,
        m,
        j,
    ) by {
        assert(system[base + j] == extra[j]);
        assert(w2[p.0] == w[p.0] && w2[p.1] == w[p.1] && w2[a] == w[a] && w2[three]
            == w[three]);
        assert(forall|k: int| 0 <= k < 5 ==> w2[base + k] == values[k]);
        if j == 4 {
            assert(is_inverse(w2[base + 3], inv, m) && w2[base + 4] == (w2[base + 2] * inv) % m);
        }
    }
    lemma_extend(prefix, extra, w, values, m);
    lemma_well_scoped_append(prefix, extra);
}

/// The constraints of the addition gadget, appended to a satisfied system that holds
/// two points with invertible difference of abscissas, are satisfied by the values of
/// the chord rule.
pub proof fn lemma_add_feasible(
    prefix: Seq<Constraint>,
    p: (int, int),
    q: (int, int),
    w: Seq<int>,
    m: int,
)
    requires
        well_scoped(prefix),
        satisfies(prefix, w, m),
        0 <= p.0 < prefix.len(),
        0 <= p.1 < prefix.len(),
        0 <= q.0 < prefix.len(),
        0 <= q.1 < prefix.len(),
        invertible(w[q.0] - w[p.0], m),
    ensures
        satisfies(
            prefix + add_constraints(p, q, prefix.len() as int),
            w + add_values(point_at(w, p), point_at(w, q), m),
            m,
        ),
        well_scoped(prefix + add_constraints(p, q, prefix.len() as int)),
{
    let base = prefix.len() as int;
    let first = slope_constraints(p, q, base);
    let second = third_point_constraints(p, q.0, base + 2, base + 3);
    let first_values = slope_values(point_at(w, p), point_at(w, q), m);
    let slope = secant_slope(point_at(w, p), point_at(w, q), m);
    let second_values = third_point_values(point_at(w, p), w[q.0], slope, m);
    let w1 = w + first_values;
    lemma_slope_feasible(prefix, p, q, w, m);
    assert(w1[p.0] == w[p.0] && w1[p.1] == w[p.1] && w1[q.0] == w[q.0]);
    assert(w1[base + 2] == first_values[2]);
    lemma_third_point_feasible(prefix + first, p, q.0, base + 2, w1, m);
    assert((prefix + first) + second =~= prefix + (first + second));
    assert(w1 + second_values =~= w + (first_values + second_values));
}

/// The constraints of the doubling gadget, appended to a satisfied system that holds a
/// point with invertible doubled ordinate, the coefficient and the constant 3, are
/// satisfied by the values of the tangent rule.
pub proof fn lemma_double_feasible(
    prefix: Seq<Constraint>,
    p: (int, int),
    a: int,
    three: int,
    w: Seq<int>,
    m: int,
)
    requires
        well_scoped(prefix),
        satisfies(prefix, w, m),
        0 <= p.0 < prefix.len(),
        0 <= p.1 < prefix.len(),
        0 <= a < prefix.len(),
        0 <= three < prefix.len(),
        w[three] == 3,
        invertible(2 * w[p.1], m),
    ensures
        satisfies(
            prefix + double_constraints(p, a, three, prefix.len() as int),
            w + double_values(point_at(w, p), w[a], m),
            m,
        ),
        well_scoped(prefix + double_constraints(p, a, three, prefix.len() as int)),
{
    let base = prefix.len() as int;
    let first = tangent_constraints(p, a, three, base);
    let second = third_point_constraints(p, p.0, base + 4, base + 5);
    let first_values = tangent_values(point_at(w, p), w[a], m);
    let slope = tangent_slope(point_at(w, p), w[a], m);
    let second_values = third_point_values(point_at(w, p), w[p.0], slope, m);
    let w1 = w + first_values;
    lemma_tangent_feasible(prefix, p, a, three, w, m);
    assert(w1[p.0] == w[p.0] && w1[p.1] == w[p.1]);
    assert(w1[base + 4] == first_values[4]);
    lemma_third_point_feasible(prefix + first, p, p.0, base + 4, w1, m);
    assert((prefix + first) + second =~= prefix + (first + second));
    assert(w1 + second_values =~= w + (first_values + second_values));
}

/// Scope: `ec_add` on registered points keeps every operand before the row that uses it.
pub proof fn lemma_ec_add_well_scoped(prefix: Seq<Constraint>, p: (int, int), q: (int, int))
    requires
        well_scoped(prefix),
        0 <= p.0 < prefix.len(),
        0 <= p.1 < prefix.len(),
        0 <= q.0 < prefix.len(),
        0 <= q.1 < prefix.len(),
    ensures
        well_scoped(prefix + add_constraints(p, q, prefix.len() as int)),
{
    lemma_well_scoped_append(prefix, add_constraints(p, q, prefix.len() as int));
}

/// Scope: `ec_double` on a registered point keeps every operand before the row that
/// uses it.
pub proof fn lemma_ec_double_well_scoped(prefix: Seq<Constraint>, p: (int, int), a: nat)
    requires
        well_scoped(prefix),
        0 <= p.0 < prefix.len(),
        0 <= p.1 < prefix.len(),
    ensures
        well_scoped(prefix + ec_double_constraints(p, a, prefix.len() as int)),
{
    lemma_well_scoped_append(prefix, ec_double_constraints(p, a, prefix.len() as int));
}

/// Scope: `ec_generator` refers to no register at all.
pub proof fn lemma_ec_generator_well_scoped(prefix: Seq<Constraint>, g: (nat, nat))
    requires
        well_scoped(prefix),
    ensures
        well_scoped(prefix + ec_generator_constraints(g)),
{
    lemma_well_scoped_append(prefix, ec_generator_constraints(g));
}

/// Addition over a prime field: after `ec_add` on two registered points with different
/// abscissas, a satisfied system is satisfied by the witness extended with the values
/// of the chord rule.
pub proof fn lemma_ec_add_feasible(
    prefix: Seq<Constraint>,
    p: (int, int),
    q: (int, int),
    w: Seq<int>,
    m: int,
)
    requires
        is_prime(m),
        well_scoped(prefix),
        satisfies(prefix, w, m),
        0 <= p.0 < prefix.len(),
        0 <= p.1 < prefix.len(),
        0 <= q.0 < prefix.len(),
        0 <= q.1 < prefix.len(),
        w[p.0] != w[q.0],
    ensures
        satisfies(
            prefix + add_constraints(p, q, prefix.len() as int),
            w + add_values(point_at(w, p), point_at(w, q), m),
            m,
        ),
        well_scoped(prefix + add_constraints(p, q, prefix.len() as int)),
{
    assert(row_holds(prefix, p.0, w, m));
    assert(row_holds(prefix, q.0, w, m));
    lemma_prime_difference_invertible(w[p.0], w[q.0], m);
    lemma_add_feasible(prefix, p, q, w, m);
}

/// Doubling over a prime field greater than 3: after `ec_double` on a registered point
/// with non-zero ordinate, on a curve whose coefficient is canonical, a satisfied system
/// is satisfied by the witness extended with the values of the tangent rule.
pub proof fn lemma_ec_double_feasible(
    prefix: Seq<Constraint>,
    p: (int, int),
    a: nat,
    w: Seq<int>,
    m: int,
)
    requires
        is_prime(m),
        3 < m,
        a < m,
        well_scoped(prefix),
        satisfies(prefix, w, m),
        0 <= p.0 < prefix.len(),
        0 <= p.1 < prefix.len(),
        w[p.1] != 0,
    ensures
        satisfies(
            prefix + ec_double_constraints(p, a, prefix.len() as int),
            w + ec_double_values(point_at(w, p), a as int, m),
            m,
        ),
        well_scoped(prefix + ec_double_constraints(p, a, prefix.len() as int)),
{
    let base = prefix.len() as int;
    let constants = seq![Constraint::Constant(a), Constraint::Constant(3)];
    let constant_values = seq![a as int, 3];
    let gadget = double_constraints(p, base, base + 1, base + 2);
    let gadget_values = double_values(point_at(w, p), a as int, m);
    let w1 = w + constant_values;
    assert forall|j: int| 0 <= j < constants.len() implies #[trigger] appended_row_holds(
        prefix,
        constants,
        w,
        constant_values,
        m,
        j,
    ) by {
        assert((prefix + constants)[base + j] == constants[j]);
        assert(w1[base + j] == constant_values[j]);
    }
    lemma_extend(prefix, constants, w, constant_values, m);
    lemma_well_scoped_append(prefix, constants);
    assert(row_holds(prefix, p.1, w, m));
    lemma_prime_has_inverses(2, m);
    lemma_prime_has_inverses(w[p.1], m);
    lemma_invertible_product(2, w[p.1], m);
    assert(w1[p.0] == w[p.0] && w1[p.1] == w[p.1]);
    assert(w1[base] == a && w1[base + 1] == 3);
    lemma_double_feasible(prefix + constants, p, base, base + 1, w1, m);
    assert((prefix + constants) + gadget =~= prefix + (constants + gadget));
    assert(w1 + gadget_values =~= w + (constant_values + gadget_values));
}

/// Generator: after `ec_generator` for canonical coordinates, a satisfied system is
/// satisfied by the witness extended with those coordinates.
pub proof fn lemma_ec_generator_feasible(
    prefix: Seq<Constraint>,
    g: (nat, nat),
    w: Seq<int>,
    m: int,
)
    requires
        well_scoped(prefix),
        satisfies(prefix, w, m),
        g.0 < m,
        g.1 < m,
    ensures
        satisfies(prefix + ec_generator_constraints(g), w + seq![g.0 as int, g.1 as int], m),
        well_scoped(prefix + ec_generator_constraints(g)),
{
    let base = prefix.len() as int;
    let extra = ec_generator_constraints(g);
    let values = seq![g.0 as int, g.1 as int];
    assert forall|j: int| 0 <= j < extra.len() implies #[trigger] appended_row_holds(
        prefix,
        extra,
        w,
        values,
        m,
        j,
    ) by {
        assert((prefix + extra)[base + j] == extra[j]);
        assert((w + values)[base + j] == values[j]);
    }
    lemma_extend(prefix, extra, w, values, m);
    lemma_well_scoped_append(prefix, extra);
}

} // verus!
