//! What a satisfying witness holds in the registers of each gadget.
//!
//! The gadgets only emit constraints. The statements here say what those constraints
//! force: in every witness that satisfies a system containing them, the result registers
//! hold the values of the chord-and-tangent formulas on the values of the operand
//! registers.

use crate::constraint::{
    emitted_at, invertible, is_inverse, lemma_emitted_row, lemma_emitted_split, satisfies,
    Constraint,
};
use crate::curve::{
    chord_add, field_div, field_inverse, lemma_chord_add_commutes, lemma_chord_add_on_curve,
    lemma_tangent_double_on_curve, on_curve, secant_slope, tangent_double, tangent_slope,
    third_point,
};
use crate::group::{
    add_constraints, add_registers, double_constraints, double_registers, third_point_constraints,
    third_point_registers,
};
use crate::modular::{
    congruent, lemma_congruent_add, lemma_congruent_mul, lemma_congruent_reduce,
    lemma_congruent_sub, lemma_inverse_congruent, lemma_inverse_unique,
};
use crate::slope::{slope_constraints, tangent_constraints};
use crate::{
    ec_double_constraints, ec_double_registers, ec_generator_constraints, ec_generator_registers,
};
use vstd::prelude::*;

verus! {

/// The values a witness gives to a pair of registers.
pub open spec fn point_at(w: Seq<int>, r: (int, int)) -> (int, int) {
    (w[r.0], w[r.1])
}

/// A division constraint computes the quotient of the field, also when its operands hold
/// reduced copies of other numbers.
proof fn lemma_div_constraint(num: int, den: int, inv: int, a: int, b: int, m: int)
    requires
        m > 0,
        congruent(num, a, m),
        congruent(den, b, m),
        is_inverse(den, inv, m),
    ensures
        invertible(b, m),
        (num * inv) % m == field_div(a, b, m),
{
    lemma_inverse_congruent(den, b, inv, m);
    lemma_inverse_unique(b, inv, field_inverse(b, m), m);
    lemma_congruent_mul(num, a, inv, inv, m);
}

/// The slope gadget forces its operands to have different abscissas and its result to
/// be the slope of the line through them.
pub proof fn lemma_slope_gadget(
    system: Seq<Constraint>,
    base: int,
    p: (int, int),
    q: (int, int),
    w: Seq<int>,
    m: int,
)
    requires
        satisfies(system, w, m),
        emitted_at(system, base, slope_constraints(p, q, base)),
    ensures
        invertible(w[q.0] - w[p.0], m),
        w[base + 2] == secant_slope(point_at(w, p), point_at(w, q), m),
{
    let constraints = slope_constraints(p, q, base);
    lemma_emitted_row(system, base, constraints, 0, w, m);
    lemma_emitted_row(system, base, constraints, 1, w, m);
    lemma_emitted_row(system, base, constraints, 2, w, m);
    let inv = choose|inv: int| #[trigger]
        is_inverse(w[base + 1], inv, m) && w[base + 2] == (w[base] * inv) % m;
    lemma_congruent_reduce(w[q.1] - w[p.1], m);
    lemma_congruent_reduce(w[q.0] - w[p.0], m);
    lemma_div_constraint(w[base], w[base + 1], inv, w[q.1] - w[p.1], w[q.0] - w[p.0], m);
}

/// The tangent gadget, given a register that holds 3, forces the ordinate of its operand
/// to be invertible when doubled and its result to be the slope of the tangent.
pub proof fn lemma_tangent_gadget(
    system: Seq<Constraint>,
    base: int,
    p: (int, int),
    a: int,
    three: int,
    w: Seq<int>,
    m: int,
)
    requires
        satisfies(system, w, m),
        emitted_at(system, base, tangent_constraints(p, a, three, base)),
        w[three] == 3,
    ensures
        invertible(2 * w[p.1], m),
        w[base + 4] == tangent_slope(point_at(w, p), w[a], m),
{
    let constraints = tangent_constraints(p, a, three, base);
    lemma_emitted_row(system, base, constraints, 0, w, m);
    lemma_emitted_row(system, base, constraints, 1, w, m);
    lemma_emitted_row(system, base, constraints, 2, w, m);
    lemma_emitted_row(system, base, constraints, 3, w, m);
    lemma_emitted_row(system, base, constraints, 4, w, m);
    let x = w[p.0];
    let y = w[p.1];
    let inv = choose|inv: int| #[trigger]
        is_inverse(w[base + 3], inv, m) && w[base + 4] == (w[base + 2] * inv) % m;
    // numerator
    lemma_congruent_reduce(x * x, m);
    lemma_congruent_mul(w[base], x * x, 3, 3, m);
    lemma_congruent_reduce(w[base] * 3, m);
    lemma_congruent_add(w[base + 1], (x * x) * 3, w[a], w[a], m);
    lemma_congruent_reduce(w[base + 1] + w[a], m);
    assert((x * x) * 3 == 3 * (x * x));
    // denominator
    lemma_congruent_reduce(y + y, m);
    assert(y + y == 2 * y);
    lemma_div_constraint(w[base + 2], w[base + 3], inv, 3 * (x * x) + w[a], 2 * y, m);
}

/// The third-point constraints force their result to be the reflected third point of the line.
pub proof fn lemma_third_point_gadget(
    system: Seq<Constraint>,
    base: int,
    p: (int, int),
    qx: int,
    slope: int,
    w: Seq<int>,
    m: int,
)
    requires
        satisfies(system, w, m),
        emitted_at(system, base, third_point_constraints(p, qx, slope, base)),
    ensures
        point_at(w, third_point_registers(base)) == third_point(
            point_at(w, p),
            w[qx],
            w[slope],
            m,
        ),
{
    let constraints = third_point_constraints(p, qx, slope, base);
    lemma_emitted_row(system, base, constraints, 0, w, m);
    lemma_emitted_row(system, base, constraints, 1, w, m);
    lemma_emitted_row(system, base, constraints, 2, w, m);
    lemma_emitted_row(system, base, constraints, 3, w, m);
    lemma_emitted_row(system, base, constraints, 4, w, m);
    lemma_emitted_row(system, base, constraints, 5, w, m);
    let s = w[slope];
    let x1 = w[p.0];
    let y1 = w[p.1];
    let x3 = w[base + 2];
    // abscissa
    lemma_congruent_reduce(s * s, m);
    lemma_congruent_sub(w[base], s * s, x1, x1, m);
    lemma_congruent_reduce(w[base] - x1, m);
    lemma_congruent_sub(w[base + 1], s * s - x1, w[qx], w[qx], m);
    assert(x3 == (s * s - x1 - w[qx]) % m);
    // ordinate
    lemma_congruent_reduce(x1 - x3, m);
    lemma_congruent_mul(s, s, w[base + 3], x1 - x3, m);
    lemma_congruent_reduce(s * w[base + 3], m);
    lemma_congruent_sub(w[base + 4], s * (x1 - x3), y1, y1, m);
    assert(w[base + 5] == (s * (x1 - x3) - y1) % m);
}

/// The addition gadget forces its operands to have different abscissas and its result to
/// be their sum by the chord rule.
pub proof fn lemma_add_gadget(
    system: Seq<Constraint>,
    base: int,
    p: (int, int),
    q: (int, int),
    w: Seq<int>,
    m: int,
)
    requires
        satisfies(system, w, m),
        emitted_at(system, base, add_constraints(p, q, base)),
    ensures
        invertible(w[q.0] - w[p.0], m),
        point_at(w, add_registers(base)) == chord_add(point_at(w, p), point_at(w, q), m),
{
    lemma_emitted_split(
        system,
        base,
        slope_constraints(p, q, base),
        third_point_constraints(p, q.0, base + 2, base + 3),
    );
    lemma_slope_gadget(system, base, p, q, w, m);
    lemma_third_point_gadget(system, base + 3, p, q.0, base + 2, w, m);
}

/// The doubling gadget, given a register that holds 3, forces the ordinate of its
/// operand to be invertible when doubled and its result to be the double by the tangent
/// rule on the curve whose coefficient the register `a` holds.
pub proof fn lemma_double_gadget(
    system: Seq<Constraint>,
    base: int,
    p: (int, int),
    a: int,
    three: int,
    w: Seq<int>,
    m: int,
)
    requires
        satisfies(system, w, m),
        emitted_at(system, base, double_constraints(p, a, three, base)),
        w[three] == 3,
    ensures
        invertible(2 * w[p.1], m),
        point_at(w, double_registers(base)) == tangent_double(point_at(w, p), w[a], m),
{
    lemma_emitted_split(
        system,
        base,
        tangent_constraints(p, a, three, base),
        third_point_constraints(p, p.0, base + 4, base + 5),
    );
    lemma_tangent_gadget(system, base, p, a, three, w, m);
    lemma_third_point_gadget(system, base + 5, p, p.0, base + 4, w, m);
}

/// Addition: in every witness of a system that contains the constraints of `ec_add`, the
/// result registers hold the chord-rule sum of the operands. The sum does not depend on
/// the order of the operands, and lies on the curve whenever both operands do.
pub proof fn lemma_ec_add_sound(
    system: Seq<Constraint>,
    base: int,
    p: (int, int),
    q: (int, int),
    w: Seq<int>,
    a: int,
    b: int,
    m: int,
)
    requires
        satisfies(system, w, m),
        emitted_at(system, base, add_constraints(p, q, base)),
    ensures
        point_at(w, add_registers(base)) == chord_add(point_at(w, p), point_at(w, q), m),
        chord_add(point_at(w, p), point_at(w, q), m) == chord_add(
            point_at(w, q),
            point_at(w, p),
            m,
        ),
        on_curve(point_at(w, p), a, b, m) && on_curve(point_at(w, q), a, b, m) ==> on_curve(
            point_at(w, add_registers(base)),
            a,
            b,
            m,
        ),
{
    lemma_add_gadget(system, base, p, q, w, m);
    lemma_chord_add_commutes(point_at(w, p), point_at(w, q), m);
    if on_curve(point_at(w, p), a, b, m) && on_curve(point_at(w, q), a, b, m) {
        lemma_chord_add_on_curve(point_at(w, p), point_at(w, q), a, b, m);
    }
}

/// Addition of two points that share an abscissa: no witness satisfies a system that
/// contains the constraints of `ec_add` for them.
pub proof fn lemma_ec_add_rejects_equal_abscissas(
    system: Seq<Constraint>,
    base: int,
    p: (int, int),
    q: (int, int),
    w: Seq<int>,
    m: int,
)
    requires
        emitted_at(system, base, add_constraints(p, q, base)),
        congruent(w[p.0], w[q.0], m),
    ensures
        !satisfies(system, w, m),
{
    if satisfies(system, w, m) {
        lemma_add_gadget(system, base, p, q, w, m);
        let d = w[q.0] - w[p.0];
        let inv = field_inverse(d, m);
        lemma_congruent_sub(w[q.0], w[p.0], w[p.0], w[p.0], m);
        lemma_congruent_mul(d, 0, inv, inv, m);
        assert(0 * inv == 0);
        assert(false);
    }
}

/// Doubling: every witness of a system that contains the constraints of `ec_double` for the
/// coefficient `a` has `a` and 3 below the modulus, and holds in the result registers
/// the tangent-rule double of the operand. The double lies on the curve whenever the
/// operand does.
pub proof fn lemma_ec_double_sound(
    system: Seq<Constraint>,
    base: int,
    p: (int, int),
    w: Seq<int>,
    a: nat,
    b: int,
    m: int,
)
    requires
        satisfies(system, w, m),
        emitted_at(system, base, ec_double_constraints(p, a, base)),
    ensures
        a < m,
        3 < m,
        invertible(2 * w[p.1], m),
        point_at(w, ec_double_registers(base)) == tangent_double(point_at(w, p), a as int, m),
        on_curve(point_at(w, p), a as int, b, m) ==> on_curve(
            point_at(w, ec_double_registers(base)),
            a as int,
            b,
            m,
        ),
{
    let constants = seq![Constraint::Constant(a), Constraint::Constant(3)];
    lemma_emitted_split(system, base, constants, double_constraints(p, base, base + 1, base + 2));
    lemma_emitted_row(system, base, constants, 0, w, m);
    lemma_emitted_row(system, base, constants, 1, w, m);
    lemma_double_gadget(system, base + 2, p, base, base + 1, w, m);
    if on_curve(point_at(w, p), a as int, b, m) {
        lemma_tangent_double_on_curve(point_at(w, p), a as int, b, m);
    }
}

/// Generator: every witness of a system that contains the constraints of `ec_generator` holds
/// the declared coordinates in the result registers.
pub proof fn lemma_ec_generator_sound(
    system: Seq<Constraint>,
    base: int,
    g: (nat, nat),
    w: Seq<int>,
    m: int,
)
    requires
        satisfies(system, w, m),
        emitted_at(system, base, ec_generator_constraints(g)),
    ensures
        point_at(w, ec_generator_registers(base)) == (g.0 as int, g.1 as int),
        g.0 < m,
        g.1 < m,
{
    lemma_emitted_row(system, base, ec_generator_constraints(g), 0, w, m);
    lemma_emitted_row(system, base, ec_generator_constraints(g), 1, w, m);
}

/// Generator: however often `ec_generator` is called while one system is built, all
/// the points it returns hold the same coordinates.
pub proof fn lemma_ec_generator_repeatable(
    system: Seq<Constraint>,
    first: int,
    second: int,
    g: (nat, nat),
    w: Seq<int>,
    m: int,
)
    requires
        satisfies(system, w, m),
        emitted_at(system, first, ec_generator_constraints(g)),
        emitted_at(system, second, ec_generator_constraints(g)),
    ensures
        point_at(w, ec_generator_registers(first)) == point_at(
            w,
            ec_generator_registers(second),
        ),
{
    lemma_ec_generator_sound(system, first, g, w, m);
    lemma_ec_generator_sound(system, second, g, w, m);
}

} // verus!
