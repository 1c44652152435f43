//! What a constraint system built from field instructions means.
//!
//! A system is a table of constraints. The constraint at position `i` ties register `i`
//! to registers at other positions. A witness assigns an integer to every register; it
//! satisfies the system modulo `m` when every register holds a canonical residue, that
//! is a value in `[0, m)`, and every constraint holds.
//!
//! Nothing is rejected while a system is built. A constant that is not canonical, or a
//! division by a register without inverse, shows as a system that no witness satisfies.

use vstd::prelude::*;

verus! {

/// The constraint placed on one register.
pub enum Constraint {
    /// No constraint beyond canonicity: a value supplied by the prover.
    Free,
    /// The register is pinned to a fixed integer. Unsatisfiable where the integer is not
    /// below the modulus.
    Constant(nat),
    /// Sum of two registers.
    Add(int, int),
    /// Difference of two registers.
    Sub(int, int),
    /// Product of two registers.
    Mul(int, int),
    /// Quotient of two registers; the divisor must have an inverse.
    Div(int, int),
}

/// `inv` is the canonical multiplicative inverse of `b` modulo `m`.
pub open spec fn is_inverse(b: int, inv: int, m: int) -> bool {
    0 <= inv < m && (b * inv) % m == 1
}

/// `b` has a multiplicative inverse modulo `m`.
pub open spec fn invertible(b: int, m: int) -> bool {
    exists|inv: int| is_inverse(b, inv, m)
}

/// `out` is the product of `num` with an inverse of `den`, reduced modulo `m`.
pub open spec fn is_quotient(out: int, num: int, den: int, m: int) -> bool {
    exists|inv: int| #[trigger] is_inverse(den, inv, m) && out == (num * inv) % m
}

/// The constraint `g`, placed at position `out`, holds under the witness `w` modulo `m`.
pub open spec fn constraint_holds(g: Constraint, out: int, w: Seq<int>, m: int) -> bool {
    match g {
        Constraint::Free => true,
        Constraint::Constant(value) => w[out] == value,
        Constraint::Add(a, b) => w[out] == (w[a] + w[b]) % m,
        Constraint::Sub(a, b) => w[out] == (w[a] - w[b]) % m,
        Constraint::Mul(a, b) => w[out] == (w[a] * w[b]) % m,
        Constraint::Div(a, b) => is_quotient(w[out], w[a], w[b], m),
    }
}

/// Register `i` holds a canonical residue and its constraint holds.
pub open spec fn row_holds(constraints: Seq<Constraint>, i: int, w: Seq<int>, m: int) -> bool {
    0 <= w[i] < m && constraint_holds(constraints[i], i, w, m)
}

/// The witness `w` satisfies the whole system modulo `m`.
pub open spec fn satisfies(constraints: Seq<Constraint>, w: Seq<int>, m: int) -> bool {
    &&& w.len() == constraints.len()
    &&& forall|i: int| 0 <= i < constraints.len() ==> #[trigger] row_holds(constraints, i, w, m)
}

/// The system holds the constraints `constraints` in consecutive rows starting at `base`.
pub open spec fn emitted_at(
    system: Seq<Constraint>,
    base: int,
    constraints: Seq<Constraint>,
) -> bool {
    &&& 0 <= base
    &&& base + constraints.len() <= system.len()
    &&& forall|j: int| 0 <= j < constraints.len() ==> system[base + j] == #[trigger] constraints[j]
}

/// What was appended to a table stays where it was put, whatever is appended later.
pub proof fn lemma_emitted_stays(
    prefix: Seq<Constraint>,
    constraints: Seq<Constraint>,
    suffix: Seq<Constraint>,
)
    ensures
        emitted_at(prefix + constraints + suffix, prefix.len() as int, constraints),
{
}

/// A run of constraints contains each of its two halves.
pub proof fn lemma_emitted_split(
    system: Seq<Constraint>,
    base: int,
    first: Seq<Constraint>,
    second: Seq<Constraint>,
)
    requires
        emitted_at(system, base, first + second),
    ensures
        emitted_at(system, base, first),
        emitted_at(system, base + first.len(), second),
{
    assert forall|j: int| 0 <= j < first.len() implies system[base + j] == #[trigger] first[j] by {
        assert((first + second)[j] == first[j]);
    }
    assert forall|j: int| 0 <= j < second.len() implies system[base + first.len() + j]
        == #[trigger] second[j] by {
        assert((first + second)[first.len() + j] == second[j]);
    }
}

/// In a satisfied system, each emitted constraint holds on a canonical register.
pub proof fn lemma_emitted_row(
    system: Seq<Constraint>,
    base: int,
    constraints: Seq<Constraint>,
    j: int,
    w: Seq<int>,
    m: int,
)
    requires
        satisfies(system, w, m),
        emitted_at(system, base, constraints),
        0 <= j < constraints.len(),
    ensures
        0 <= w[base + j] < m,
        constraint_holds(constraints[j], base + j, w, m),
{
    assert(row_holds(system, base + j, w, m));
    assert(system[base + j] == constraints[j]);
}

/// Every operand of `g` is a register allocated before position `out`.
pub open spec fn constraint_in_scope(g: Constraint, out: int) -> bool {
    match g {
        Constraint::Free => true,
        Constraint::Constant(_) => true,
        Constraint::Add(a, b) => 0 <= a < out && 0 <= b < out,
        Constraint::Sub(a, b) => 0 <= a < out && 0 <= b < out,
        Constraint::Mul(a, b) => 0 <= a < out && 0 <= b < out,
        Constraint::Div(a, b) => 0 <= a < out && 0 <= b < out,
    }
}

/// Every constraint refers only to registers allocated before it.
pub open spec fn well_scoped(constraints: Seq<Constraint>) -> bool {
    forall|i: int| 0 <= i < constraints.len() ==> #[trigger] constraint_in_scope(constraints[i], i)
}

/// Appending rows whose operands are in scope keeps a system well-scoped.
pub proof fn lemma_well_scoped_append(prefix: Seq<Constraint>, extra: Seq<Constraint>)
    requires
        well_scoped(prefix),
        forall|j: int|
            0 <= j < extra.len() ==> constraint_in_scope(#[trigger] extra[j], prefix.len() + j),
    ensures
        well_scoped(prefix + extra),
{
    let system = prefix + extra;
    assert forall|i: int| 0 <= i < system.len() implies #[trigger] constraint_in_scope(
        system[i],
        i,
    ) by {
        if i < prefix.len() {
            assert(system[i] == prefix[i]);
        } else {
            assert(system[i] == extra[i - prefix.len()]);
        }
    }
}

} // verus!
