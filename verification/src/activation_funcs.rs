use vstd::prelude::*;

use crate::scalar::Scalar;

verus! {

/// A pure one-method numeric capability: maps a scalar to a scalar.
///
/// Every layer applies one of these to each neuron's weighted sum. The
/// `spec_f` member pins down the mathematical function an implementation
/// computes, so that whole-network evaluation has a deterministic meaning.
pub trait Activation<T>: Sized {
    /// Mathematical meaning of `f`.
    spec fn spec_f(&self, x: T) -> T;

    fn f(&self, x: T) -> (r: T)
        ensures
            r == self.spec_f(x),
    ;
}

/// `f(x) = x`.
#[derive(Clone, Copy)]
pub struct Identity;

impl<T> Activation<T> for Identity {
    open spec fn spec_f(&self, x: T) -> T {
        x
    }

    fn f(&self, x: T) -> (r: T) {
        x
    }
}

/// `f(x) = max(x, 0)`; an input equal to zero is kept at zero.
#[derive(Clone, Copy)]
pub struct Relu;

impl<T: Scalar> Activation<T> for Relu {
    open spec fn spec_f(&self, x: T) -> T {
        if x.spec_is_lt(T::spec_zero()) {
            T::spec_zero()
        } else {
            x
        }
    }

    fn f(&self, x: T) -> (r: T) {
        let z = T::zero();
        if x.scalar_lt(z) {
            z
        } else {
            x
        }
    }
}

/// At the boundary the rectifier returns zero, for every scalar type:
/// whichever branch is taken on the input zero, the result is zero.
pub proof fn lemma_relu_at_zero<T: Scalar>(a: Relu)
    ensures
        a.spec_f(T::spec_zero()) == T::spec_zero(),
{
}

} // verus!
