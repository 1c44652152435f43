//! Base-field parameters and the handles of field elements inside a constraint system.

use crate::biguint::biguint_value;
use crate::limbs::{limbs_to_integer, limbs_value, MAX_NB_LIMBS};
use num::BigUint;
use std::marker::PhantomData;
use vstd::prelude::*;

verus! {

/// Description of a prime field whose elements are stored as `MAX_NB_LIMBS` 16-bit limbs.
pub trait FieldParameters: Sized {
    /// Number of limbs that a canonical element occupies.
    const NB_LIMBS: usize;

    /// The field's modulus, little-endian, zero-padded.
    const MODULUS: [u16; MAX_NB_LIMBS];

    /// The modulus as an integer.
    fn modulus() -> (r: BigUint)
        ensures
            biguint_value(r) == limbs_value(Self::MODULUS@),
    {
        limbs_to_integer(&Self::MODULUS)
    }
}

/// The modulus that `P` declares.
pub open spec fn modulus_of<P: FieldParameters>() -> nat {
    limbs_value(P::MODULUS@)
}

/// Handle of one field element of the field `P` in a constraint system.
#[derive(Debug, PartialEq, Eq)]
pub struct FieldRegister<P: FieldParameters> {
    index: usize,
    _marker: PhantomData<P>,
}

impl<P: FieldParameters> View for FieldRegister<P> {
    type V = int;

    /// Position of the register in the builder's table.
    closed spec fn view(&self) -> int {
        self.index as int
    }
}

impl<P: FieldParameters> Clone for FieldRegister<P> {
    fn clone(&self) -> (r: Self)
        ensures
            r == *self,
    {
        FieldRegister { index: self.index, _marker: PhantomData }
    }
}

impl<P: FieldParameters> Copy for FieldRegister<P> {

}

impl<P: FieldParameters> FieldRegister<P> {
    /// Position of the register in the builder's table.
    pub fn index(&self) -> (i: usize)
        ensures
            i == self@,
    {
        self.index
    }

    pub(crate) fn at(index: usize) -> (r: Self)
        ensures
            r@ == index,
    {
        FieldRegister { index, _marker: PhantomData }
    }
}

} // verus!
