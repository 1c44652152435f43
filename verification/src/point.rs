//! Affine points: as integer coordinates, and as pairs of field registers.

use crate::biguint::biguint_value;
use crate::builder::AirBuilder;
use crate::field::{FieldParameters, FieldRegister};
use num::BigUint;
use std::marker::PhantomData;
use vstd::prelude::*;

verus! {

/// A curve names the field its coordinates live in.
pub trait EllipticCurveParameters: Sized {
    /// The field of the coordinates.
    type BaseField: FieldParameters;
}

/// An affine point given by its integer coordinates.
#[derive(Debug, PartialEq, Eq)]
pub struct AffinePoint<E: EllipticCurveParameters> {
    pub x: BigUint,
    pub y: BigUint,
    pub marker: PhantomData<E>,
}

impl<E: EllipticCurveParameters> View for AffinePoint<E> {
    type V = (nat, nat);

    open spec fn view(&self) -> (nat, nat) {
        (biguint_value(self.x), biguint_value(self.y))
    }
}

impl<E: EllipticCurveParameters> Clone for AffinePoint<E> {
    fn clone(&self) -> (r: Self)
        ensures
            r@ == self@,
    {
        AffinePoint { x: self.x.clone(), y: self.y.clone(), marker: PhantomData }
    }
}

impl<E: EllipticCurveParameters> AffinePoint<E> {
    /// The point with the given coordinates.
    pub fn new(x: BigUint, y: BigUint) -> (p: Self)
        ensures
            p.x == x,
            p.y == y,
    {
        AffinePoint { x, y, marker: PhantomData }
    }
}

/// An affine point given by the registers that hold its coordinates.
#[derive(Debug, PartialEq, Eq)]
pub struct AffinePointRegister<E: EllipticCurveParameters> {
    pub x: FieldRegister<E::BaseField>,
    pub y: FieldRegister<E::BaseField>,
}

impl<E: EllipticCurveParameters> View for AffinePointRegister<E> {
    type V = (int, int);

    open spec fn view(&self) -> (int, int) {
        (self.x@, self.y@)
    }
}

impl<E: EllipticCurveParameters> Clone for AffinePointRegister<E> {
    fn clone(&self) -> (r: Self)
        ensures
            r == *self,
    {
        AffinePointRegister { x: self.x, y: self.y }
    }
}

impl<E: EllipticCurveParameters> Copy for AffinePointRegister<E> {

}

impl<E: EllipticCurveParameters> AffinePointRegister<E> {
    /// The point whose coordinates the given registers hold.
    pub fn new(x: FieldRegister<E::BaseField>, y: FieldRegister<E::BaseField>) -> (p: Self)
        ensures
            p.x == x,
            p.y == y,
    {
        AffinePointRegister { x, y }
    }
}

/// Where the registers `r` sit relative to a table that grew from `before` to `after`
/// rows: both were allocated by the growth.
pub open spec fn allocated_between(r: (int, int), before: nat, after: nat) -> bool {
    before <= r.0 < after && before <= r.1 < after
}

/// The group operations a curve offers to curve-agnostic circuits.
///
/// Each operation only appends to the builder's table and returns registers that it
/// allocated itself.
pub trait EllipticCurve: EllipticCurveParameters {
    /// Emits the sum of two points.
    fn ec_add(
        builder: &mut AirBuilder<Self::BaseField>,
        p: &AffinePointRegister<Self>,
        q: &AffinePointRegister<Self>,
    ) -> (r: AffinePointRegister<Self>)
        ensures
            old(builder)@.is_prefix_of(final(builder)@),
            allocated_between(r@, old(builder)@.len(), final(builder)@.len()),
    ;

    /// Emits the double of a point.
    fn ec_double(builder: &mut AirBuilder<Self::BaseField>, p: &AffinePointRegister<Self>) -> (r:
        AffinePointRegister<Self>)
        ensures
            old(builder)@.is_prefix_of(final(builder)@),
            allocated_between(r@, old(builder)@.len(), final(builder)@.len()),
    ;

    /// Emits the generator of the curve.
    fn ec_generator(builder: &mut AirBuilder<Self::BaseField>) -> (r: AffinePointRegister<Self>)
        ensures
            old(builder)@.is_prefix_of(final(builder)@),
            allocated_between(r@, old(builder)@.len(), final(builder)@.len()),
    ;
}

} // verus!
