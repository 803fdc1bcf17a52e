//! Values held in the layout views and the equality under which a new set of
//! values counts as unchanged.
use std::sync::Arc;

use vstd::prelude::*;

use crate::float_bits::{F64Bits, value_eq};

verus! {

/// A value that the layout views hold, compared the way the views compare it
/// to decide whether a new set of values differs from the one they hold.
pub trait ViewValue: Sized {
    /// The two values count as equal.
    spec fn same_as(self, other: Self) -> bool;

    /// Every value counts as equal to itself.
    proof fn lemma_same_as_reflexive(self)
        ensures
            self.same_as(self),
    ;

    /// Compares two values.
    fn equals(&self, other: &Self) -> (r: bool)
        ensures
            r == self.same_as(*other),
    ;
}

impl ViewValue for F64Bits {
    open spec fn same_as(self, other: Self) -> bool {
        value_eq(self.bits, other.bits)
    }

    proof fn lemma_same_as_reflexive(self) {
    }

    fn equals(&self, other: &Self) -> (r: bool) {
        self.same_value(other)
    }
}

impl ViewValue for bool {
    open spec fn same_as(self, other: Self) -> bool {
        self == other
    }

    proof fn lemma_same_as_reflexive(self) {
    }

    fn equals(&self, other: &Self) -> (r: bool) {
        *self == *other
    }
}

impl ViewValue for Arc<String> {
    open spec fn same_as(self, other: Self) -> bool {
        (*self)@ == (*other)@
    }

    proof fn lemma_same_as_reflexive(self) {
    }

    fn equals(&self, other: &Self) -> (r: bool) {
        let a: &String = self;
        let b: &String = other;
        *a == *b
    }
}

} // verus!
