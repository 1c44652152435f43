//! The constraint builder: an append-only table of field instructions.

use crate::biguint::biguint_value;
use crate::constraint::{satisfies, Constraint};
use crate::field::{modulus_of, FieldParameters, FieldRegister};
use crate::point::{AffinePointRegister, EllipticCurveParameters};
use num::BigUint;
use std::marker::PhantomData;
use vstd::prelude::*;

verus! {

/// One row of the builder's table. The row at position `i` defines register `i`;
/// operands are positions of earlier rows.
#[derive(Debug, Clone, PartialEq, Eq)]
pub enum FieldInstruction {
    /// A register whose value the prover supplies.
    Witness,
    /// A register pinned to a constant.
    Constant(BigUint),
    /// The sum of two registers.
    Add(usize, usize),
    /// The first register minus the second.
    Sub(usize, usize),
    /// The product of two registers.
    Mul(usize, usize),
    /// The first register divided by the second.
    Div(usize, usize),
}

impl View for FieldInstruction {
    type V = Constraint;

    open spec fn view(&self) -> Constraint {
        match *self {
            FieldInstruction::Witness => Constraint::Free,
            FieldInstruction::Constant(value) => Constraint::Constant(biguint_value(value)),
            FieldInstruction::Add(a, b) => Constraint::Add(a as int, b as int),
            FieldInstruction::Sub(a, b) => Constraint::Sub(a as int, b as int),
            FieldInstruction::Mul(a, b) => Constraint::Mul(a as int, b as int),
            FieldInstruction::Div(a, b) => Constraint::Div(a as int, b as int),
        }
    }
}

/// Builds the constraint system of a circuit over the field `P`.
pub struct AirBuilder<P: FieldParameters> {
    instructions: Vec<FieldInstruction>,
    _marker: PhantomData<P>,
}

impl<P: FieldParameters> View for AirBuilder<P> {
    type V = Seq<Constraint>;

    /// The constraints emitted so far, in order.
    closed spec fn view(&self) -> Seq<Constraint> {
        self.instructions@.map_values(|i: FieldInstruction| i@)
    }
}

impl<P: FieldParameters> AirBuilder<P> {
    /// The witness `w` satisfies everything emitted so far, over the field `P`.
    pub open spec fn satisfied_by(&self, w: Seq<int>) -> bool {
        satisfies(self@, w, modulus_of::<P>() as int)
    }

    /// A builder with no registers and no constraints.
    pub fn new() -> (builder: Self)
        ensures
            builder@ == Seq::<Constraint>::empty(),
    {
        AirBuilder { instructions: Vec::new(), _marker: PhantomData }
    }

    /// The table built so far.
    pub fn instructions(&self) -> (table: &Vec<FieldInstruction>)
        ensures
            table@.len() == self@.len(),
            forall|i: int| 0 <= i < table@.len() ==> (#[trigger] table@[i])@ == self@[i],
    {
        &self.instructions
    }

    /// Appends one row and returns the register it defines.
    fn emit(&mut self, instruction: FieldInstruction) -> (r: FieldRegister<P>)
        ensures
            final(self)@ == old(self)@.push(instruction@),
            r@ == old(self)@.len(),
    {
        let index: usize = self.instructions.len();
        self.instructions.push(instruction);
        assert(self@ =~= old(self)@.push(instruction@));
        FieldRegister::at(index)
    }

    /// Allocates a register for a value supplied by the prover.
    pub fn alloc_field_register(&mut self) -> (r: FieldRegister<P>)
        ensures
            final(self)@ == old(self)@.push(Constraint::Free),
            r@ == old(self)@.len(),
    {
        self.emit(FieldInstruction::Witness)
    }

    /// Allocates a point whose coordinates the prover supplies.
    pub fn alloc_ec_point<E: EllipticCurveParameters<BaseField = P>>(&mut self) -> (r:
        AffinePointRegister<E>)
        ensures
            final(self)@ == old(self)@ + seq![Constraint::Free, Constraint::Free],
            r@ == (old(self)@.len() as int, old(self)@.len() as int + 1),
    {
        let x = self.alloc_field_register();
        let y = self.alloc_field_register();
        assert(self@ =~= old(self)@ + seq![Constraint::Free, Constraint::Free]);
        AffinePointRegister::new(x, y)
    }

    /// Injects `value` as a register pinned to it.
    pub fn fp_constant(&mut self, value: &BigUint) -> (r: FieldRegister<P>)
        ensures
            final(self)@ == old(self)@.push(Constraint::Constant(biguint_value(*value))),
            r@ == old(self)@.len(),
    {
        self.emit(FieldInstruction::Constant(value.clone()))
    }

    /// Emits `a + b`.
    pub fn fp_add(&mut self, a: &FieldRegister<P>, b: &FieldRegister<P>) -> (r: FieldRegister<P>)
        ensures
            final(self)@ == old(self)@.push(Constraint::Add(a@, b@)),
            r@ == old(self)@.len(),
    {
        self.emit(FieldInstruction::Add(a.index(), b.index()))
    }

    /// Emits `a - b`.
    pub fn fp_sub(&mut self, a: &FieldRegister<P>, b: &FieldRegister<P>) -> (r: FieldRegister<P>)
        ensures
            final(self)@ == old(self)@.push(Constraint::Sub(a@, b@)),
            r@ == old(self)@.len(),
    {
        self.emit(FieldInstruction::Sub(a.index(), b.index()))
    }

    /// Emits `a * b`.
    pub fn fp_mul(&mut self, a: &FieldRegister<P>, b: &FieldRegister<P>) -> (r: FieldRegister<P>)
        ensures
            final(self)@ == old(self)@.push(Constraint::Mul(a@, b@)),
            r@ == old(self)@.len(),
    {
        self.emit(FieldInstruction::Mul(a.index(), b.index()))
    }

    /// Emits `a / b`. The constraint cannot be satisfied where `b` has no inverse.
    pub fn fp_div(&mut self, a: &FieldRegister<P>, b: &FieldRegister<P>) -> (r: FieldRegister<P>)
        ensures
            final(self)@ == old(self)@.push(Constraint::Div(a@, b@)),
            r@ == old(self)@.len(),
    {
        self.emit(FieldInstruction::Div(a.index(), b.index()))
    }
}

} // verus!
