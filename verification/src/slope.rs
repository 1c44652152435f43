//! Slope gadgets: the line through two points, and the tangent at one point.

use crate::builder::AirBuilder;
use crate::constraint::Constraint;
use crate::field::{FieldParameters, FieldRegister};
use crate::point::AffinePointRegister;
use crate::{SWCurve, WeierstrassParameters};
use vstd::prelude::*;

verus! {

/// Constraints of the secant slope `(q.y - p.y) / (q.x - p.x)`, emitted from position `base`.
/// The slope is the register at `base + 2`.
pub open spec fn slope_constraints(p: (int, int), q: (int, int), base: int) -> Seq<Constraint> {
    seq![Constraint::Sub(q.1, p.1), Constraint::Sub(q.0, p.0), Constraint::Div(base, base + 1)]
}

/// Constraints of the tangent slope `(3 * p.x^2 + a) / (2 * p.y)`, emitted from position `base`.
/// The slope is the register at `base + 4`.
pub open spec fn tangent_constraints(
    p: (int, int),
    a: int,
    three: int,
    base: int,
) -> Seq<Constraint> {
    seq![
        Constraint::Mul(p.0, p.0),
        Constraint::Mul(base, three),
        Constraint::Add(base + 1, a),
        Constraint::Add(p.1, p.1),
        Constraint::Div(base + 2, base + 3),
    ]
}

impl<P: FieldParameters> AirBuilder<P> {
    /// Given two points `p` and `q`, computes the slope of the line passing through them.
    ///
    /// The division constrains `q.x - p.x` to be invertible: for points that share an
    /// x-coordinate the emitted system has no satisfying witness.
    pub fn sw_slope<E: WeierstrassParameters<BaseField = P>>(
        &mut self,
        p: &AffinePointRegister<SWCurve<E>>,
        q: &AffinePointRegister<SWCurve<E>>,
    ) -> (slope: FieldRegister<P>)
        ensures
            final(self)@ == old(self)@ + slope_constraints(p@, q@, old(self)@.len() as int),
            slope@ == old(self)@.len() + 2,
    {
        let slope_numerator = self.fp_sub(&q.y, &p.y);
        let slope_denominator = self.fp_sub(&q.x, &p.x);
        let slope = self.fp_div(&slope_numerator, &slope_denominator);
        assert(self@ =~= old(self)@ + slope_constraints(p@, q@, old(self)@.len() as int));
        slope
    }

    /// Given a point `p`, computes the slope of the tangent line at `p`, from registers
    /// holding the curve coefficient `a` and the constant `3`.
    pub fn sw_tangent<E: WeierstrassParameters<BaseField = P>>(
        &mut self,
        p: &AffinePointRegister<SWCurve<E>>,
        a: &FieldRegister<P>,
        three: &FieldRegister<P>,
    ) -> (slope: FieldRegister<P>)
        ensures
            final(self)@ == old(self)@ + tangent_constraints(
                p@,
                a@,
                three@,
                old(self)@.len() as int,
            ),
            slope@ == old(self)@.len() + 4,
    {
        let x_sq = self.fp_mul(&p.x, &p.x);
        let x_sq_3 = self.fp_mul(&x_sq, three);
        let slope_numerator = self.fp_add(&x_sq_3, a);
        let slope_denominator = self.fp_add(&p.y, &p.y);
        let slope = self.fp_div(&slope_numerator, &slope_denominator);
        assert(self@ =~= old(self)@ + tangent_constraints(p@, a@, three@, old(self)@.len() as int));
        slope
    }
}

} // verus!
