//! Short Weierstrass curves `y^2 = x^3 + a*x + b` as constraint-system gadgets.

use crate::biguint::{biguint_value, from_u32};
use crate::builder::AirBuilder;
use crate::constraint::Constraint;
use crate::field::FieldParameters;
use crate::group::{add_constraints, add_registers, double_constraints, double_registers};
use crate::limbs::{limbs_to_integer, limbs_value, MAX_NB_LIMBS};
use crate::point::{AffinePoint, AffinePointRegister, EllipticCurve, EllipticCurveParameters};
use num::BigUint;
use vstd::prelude::*;

pub mod biguint;
pub mod builder;
pub mod constraint;
pub mod curve;
pub mod feasibility;
pub mod field;
pub mod group;
pub mod limbs;
pub mod modular;
pub mod point;
pub mod slope;
pub mod soundness;

verus! {

/// Parameters that specify a short Weierstrass curve : y^2 = x^3 + ax + b.
///
/// A descriptor declares its constants as limb arrays: little-endian, base 65536,
/// zero-padded, each below the modulus of the base field.
pub trait WeierstrassParameters: EllipticCurveParameters {
    /// The coefficient `a`.
    const A: [u16; MAX_NB_LIMBS];

    /// The coefficient `b`.
    const B: [u16; MAX_NB_LIMBS];

    /// The x-coordinate of the generator.
    const GENERATOR_X: [u16; MAX_NB_LIMBS];

    /// The y-coordinate of the generator.
    const GENERATOR_Y: [u16; MAX_NB_LIMBS];

    /// The generator as a point with integer coordinates.
    fn generator() -> (g: AffinePoint<Self>)
        ensures
            g@ == (limbs_value(Self::GENERATOR_X@), limbs_value(Self::GENERATOR_Y@)),
    {
        AffinePoint::new(limbs_to_integer(&Self::GENERATOR_X), limbs_to_integer(&Self::GENERATOR_Y))
    }

    /// The prime order of the subgroup that the generator spans.
    fn prime_group_order() -> BigUint;

    /// The coefficient `a` as an integer.
    fn a_int() -> (a: BigUint)
        ensures
            biguint_value(a) == limbs_value(Self::A@),
    {
        limbs_to_integer(&Self::A)
    }

    /// The coefficient `b` as an integer.
    fn b_int() -> (b: BigUint)
        ensures
            biguint_value(b) == limbs_value(Self::B@),
    {
        limbs_to_integer(&Self::B)
    }

    /// An upper bound on the bit length of scalars: the capacity of the base field's
    /// limbs, not the bit length of the group order.
    fn nb_scalar_bits() -> (bits: usize)
        requires
            <Self::BaseField as FieldParameters>::NB_LIMBS * 16 <= usize::MAX,
        ensures
            bits == <Self::BaseField as FieldParameters>::NB_LIMBS * 16,
    {
        <Self::BaseField as FieldParameters>::NB_LIMBS * 16
    }
}

/// The generator that `E` declares.
pub open spec fn generator_of<E: WeierstrassParameters>() -> (nat, nat) {
    (limbs_value(E::GENERATOR_X@), limbs_value(E::GENERATOR_Y@))
}

/// The curve that the descriptor `E` specifies, as seen by curve-agnostic circuits.
#[derive(Debug, Clone, Copy, PartialEq, Eq)]
pub struct SWCurve<E>(pub E);

impl<E: WeierstrassParameters> EllipticCurveParameters for SWCurve<E> {
    type BaseField = E::BaseField;
}

impl<E: WeierstrassParameters> SWCurve<E> {
    /// The generator that `E` declares, as a point of this curve.
    pub fn generator() -> (g: AffinePoint<SWCurve<E>>)
        ensures
            g@ == generator_of::<E>(),
    {
        let point = E::generator();
        AffinePoint::new(point.x, point.y)
    }

    /// The coefficient `a` as an integer.
    pub fn a_int() -> (a: BigUint)
        ensures
            biguint_value(a) == limbs_value(E::A@),
    {
        E::a_int()
    }

    /// The coefficient `b` as an integer.
    pub fn b_int() -> (b: BigUint)
        ensures
            biguint_value(b) == limbs_value(E::B@),
    {
        E::b_int()
    }
}

/// Everything `ec_double` emits from position `base` on a curve with coefficient `a`:
/// the constants `a` and `3`, then the doubling gadget.
pub open spec fn ec_double_constraints(p: (int, int), a: nat, base: int) -> Seq<Constraint> {
    seq![Constraint::Constant(a), Constraint::Constant(3)] + double_constraints(
        p,
        base,
        base + 1,
        base + 2,
    )
}

/// Where the coordinates of the double sit when `ec_double` starts at `base`.
pub open spec fn ec_double_registers(base: int) -> (int, int) {
    double_registers(base + 2)
}

/// Everything `ec_generator` emits for a generator with coordinates `g`.
pub open spec fn ec_generator_constraints(g: (nat, nat)) -> Seq<Constraint> {
    seq![Constraint::Constant(g.0), Constraint::Constant(g.1)]
}

/// Where the coordinates of the generator sit when `ec_generator` starts at `base`.
pub open spec fn ec_generator_registers(base: int) -> (int, int) {
    (base, base + 1)
}

impl<E: WeierstrassParameters> EllipticCurve for SWCurve<E> {
    /// Chord rule. For operands that share an abscissa the emitted system has no
    /// satisfying witness; such pairs belong to `ec_double` or have no affine sum.
    fn ec_add(
        builder: &mut AirBuilder<E::BaseField>,
        p: &AffinePointRegister<Self>,
        q: &AffinePointRegister<Self>,
    ) -> (r: AffinePointRegister<Self>)
        ensures
            final(builder)@ == old(builder)@ + add_constraints(p@, q@, old(builder)@.len() as int),
            r@ == add_registers(old(builder)@.len() as int),
    {
        builder.sw_add::<E>(p, q)
    }

    /// Tangent rule. Injects the coefficient `a` and the constant 3 anew on every call.
    fn ec_double(builder: &mut AirBuilder<E::BaseField>, p: &AffinePointRegister<Self>) -> (r:
        AffinePointRegister<Self>)
        ensures
            final(builder)@ == old(builder)@ + ec_double_constraints(
                p@,
                limbs_value(E::A@),
                old(builder)@.len() as int,
            ),
            r@ == ec_double_registers(old(builder)@.len() as int),
    {
        let a = builder.fp_constant(&E::a_int());
        let three = builder.fp_constant(&from_u32(3));
        let r = builder.sw_double::<E>(p, &a, &three);
        assert(builder@ =~= old(builder)@ + ec_double_constraints(
            p@,
            limbs_value(E::A@),
            old(builder)@.len() as int,
        ));
        r
    }

    /// Injects the coordinates of the generator as constants.
    fn ec_generator(builder: &mut AirBuilder<E::BaseField>) -> (r: AffinePointRegister<Self>)
        ensures
            final(builder)@ == old(builder)@ + ec_generator_constraints(generator_of::<E>()),
            r@ == ec_generator_registers(old(builder)@.len() as int),
    {
        let generator = E::generator();
        let x = builder.fp_constant(&generator.x);
        let y = builder.fp_constant(&generator.y);
        assert(builder@ =~= old(builder)@ + ec_generator_constraints(generator_of::<E>()));
        AffinePointRegister::new(x, y)
    }
}

} // verus!
