//! Chord-and-tangent gadgets: point addition and doubling.

use crate::builder::AirBuilder;
use crate::constraint::Constraint;
use crate::field::{FieldParameters, FieldRegister};
use crate::point::AffinePointRegister;
use crate::slope::{slope_constraints, tangent_constraints};
use crate::{SWCurve, WeierstrassParameters};
use vstd::prelude::*;

verus! {

/// Constraints of the third intersection point of a line of given slope with the curve,
/// reflected: `x3 = slope^2 - p.x - q.x`, `y3 = slope * (p.x - x3) - p.y`.
/// Emitted from position `base`.
pub open spec fn third_point_constraints(
    p: (int, int),
    qx: int,
    slope: int,
    base: int,
) -> Seq<Constraint> {
    seq![
        Constraint::Mul(slope, slope),
        Constraint::Sub(base, p.0),
        Constraint::Sub(base + 1, qx),
        Constraint::Sub(p.0, base + 2),
        Constraint::Mul(slope, base + 3),
        Constraint::Sub(base + 4, p.1),
    ]
}

/// Where the coordinates of the third point sit when its constraints start at `base`.
pub open spec fn third_point_registers(base: int) -> (int, int) {
    (base + 2, base + 5)
}

/// Everything the addition gadget emits from position `base`.
pub open spec fn add_constraints(p: (int, int), q: (int, int), base: int) -> Seq<Constraint> {
    slope_constraints(p, q, base) + third_point_constraints(p, q.0, base + 2, base + 3)
}

/// Where the coordinates of the sum sit when the addition gadget starts at `base`.
pub open spec fn add_registers(base: int) -> (int, int) {
    third_point_registers(base + 3)
}

/// Everything the doubling gadget emits from position `base`, given the registers that
/// hold the coefficient `a` and the constant `3`.
pub open spec fn double_constraints(
    p: (int, int),
    a: int,
    three: int,
    base: int,
) -> Seq<Constraint> {
    tangent_constraints(p, a, three, base) + third_point_constraints(p, p.0, base + 4, base + 5)
}

/// Where the coordinates of the double sit when the doubling gadget starts at `base`.
pub open spec fn double_registers(base: int) -> (int, int) {
    third_point_registers(base + 5)
}

impl<P: FieldParameters> AirBuilder<P> {
    /// Given the slope of a line through `p` and the point with x-coordinate `q_x`,
    /// computes the reflection of the third point where the line meets the curve.
    fn sw_third_point<E: WeierstrassParameters<BaseField = P>>(
        &mut self,
        p: &AffinePointRegister<SWCurve<E>>,
        q_x: &FieldRegister<P>,
        slope: &FieldRegister<P>,
    ) -> (r: AffinePointRegister<SWCurve<E>>)
        ensures
            final(self)@ == old(self)@ + third_point_constraints(
                p@,
                q_x@,
                slope@,
                old(self)@.len() as int,
            ),
            r@ == third_point_registers(old(self)@.len() as int),
    {
        let slope_squared = self.fp_mul(slope, slope);
        let x_3_plus_q_x = self.fp_sub(&slope_squared, &p.x);
        let x_3 = self.fp_sub(&x_3_plus_q_x, q_x);
        let x_diff = self.fp_sub(&p.x, &x_3);
        let y_3_plus_p_y = self.fp_mul(slope, &x_diff);
        let y_3 = self.fp_sub(&y_3_plus_p_y, &p.y);
        assert(self@ =~= old(self)@ + third_point_constraints(
            p@,
            q_x@,
            slope@,
            old(self)@.len() as int,
        ));
        AffinePointRegister::new(x_3, y_3)
    }

    /// Adds two points by the chord rule.
    ///
    /// The points must have different x-coordinates; for any other pair the emitted
    /// system has no satisfying witness.
    pub fn sw_add<E: WeierstrassParameters<BaseField = P>>(
        &mut self,
        p: &AffinePointRegister<SWCurve<E>>,
        q: &AffinePointRegister<SWCurve<E>>,
    ) -> (r: AffinePointRegister<SWCurve<E>>)
        ensures
            final(self)@ == old(self)@ + add_constraints(p@, q@, old(self)@.len() as int),
            r@ == add_registers(old(self)@.len() as int),
    {
        let slope = self.sw_slope::<E>(p, q);
        let r = self.sw_third_point::<E>(p, &q.x, &slope);
        assert(self@ =~= old(self)@ + add_constraints(p@, q@, old(self)@.len() as int));
        r
    }

    /// Doubles a point by the tangent rule, from registers holding the curve coefficient
    /// `a` and the constant `3`.
    pub fn sw_double<E: WeierstrassParameters<BaseField = P>>(
        &mut self,
        p: &AffinePointRegister<SWCurve<E>>,
        a: &FieldRegister<P>,
        three: &FieldRegister<P>,
    ) -> (r: AffinePointRegister<SWCurve<E>>)
        ensures
            final(self)@ == old(self)@ + double_constraints(
                p@,
                a@,
                three@,
                old(self)@.len() as int,
            ),
            r@ == double_registers(old(self)@.len() as int),
    {
        let slope = self.sw_tangent::<E>(p, a, three);
        let r = self.sw_third_point::<E>(p, &p.x, &slope);
        assert(self@ =~= old(self)@ + double_constraints(p@, a@, three@, old(self)@.len() as int));
        r
    }
}

} // verus!
