use vstd::prelude::*;

verus! {

/// The numeric capability the network is built over.
///
/// A neuron only ever adds, multiplies and compares its scalars against zero,
/// so the whole composition logic can be verified once, for every scalar type
/// that provides these operations together with their mathematical meaning.
/// Callers outside the verified core (for instance a 64-bit floating point
/// instantiation) supply their own implementation.
pub trait Scalar: Sized + Copy {
    /// Mathematical meaning of `scalar_add`.
    spec fn spec_sum(self, rhs: Self) -> Self;

    /// Mathematical meaning of `scalar_mul`.
    spec fn spec_prod(self, rhs: Self) -> Self;

    /// Mathematical meaning of `zero`.
    spec fn spec_zero() -> Self;

    /// Mathematical meaning of `scalar_lt`.
    spec fn spec_is_lt(self, rhs: Self) -> bool;

    fn scalar_add(self, rhs: Self) -> (r: Self)
        ensures
            r == self.spec_sum(rhs),
    ;

    fn scalar_mul(self, rhs: Self) -> (r: Self)
        ensures
            r == self.spec_prod(rhs),
    ;

    fn zero() -> (r: Self)
        ensures
            r == Self::spec_zero(),
    ;

    fn scalar_lt(self, rhs: Self) -> (r: bool)
        ensures
            r == self.spec_is_lt(rhs),
    ;
}

/// Clamps a mathematical integer into the `i64` range.
pub open spec fn clip_to_i64(v: int) -> i64 {
    if v > i64::MAX as int {
        i64::MAX
    } else if v < i64::MIN as int {
        i64::MIN
    } else {
        v as i64
    }
}

/// Saturating 64-bit integer arithmetic: a fully verified scalar instance.
impl Scalar for i64 {
    open spec fn spec_sum(self, rhs: Self) -> Self {
        clip_to_i64(self + rhs)
    }

    open spec fn spec_prod(self, rhs: Self) -> Self {
        clip_to_i64(self * rhs)
    }

    open spec fn spec_zero() -> Self {
        0i64
    }

    open spec fn spec_is_lt(self, rhs: Self) -> bool {
        self < rhs
    }

    fn scalar_add(self, rhs: Self) -> (r: Self) {
        if rhs >= 0 && self > i64::MAX - rhs {
            i64::MAX
        } else if rhs < 0 && self < i64::MIN - rhs {
            i64::MIN
        } else {
            self + rhs
        }
    }

    fn scalar_mul(self, rhs: Self) -> (r: Self) {
        let a = self as i128;
        let b = rhs as i128;
        proof {
            assert(a * b <= i128::MAX && a * b >= i128::MIN) by (nonlinear_arith)
                requires
                    i64::MIN as i128 <= a <= i64::MAX as i128,
                    i64::MIN as i128 <= b <= i64::MAX as i128,
            ;
        }
        let p = a * b;
        if p > i64::MAX as i128 {
            i64::MAX
        } else if p < (i64::MIN as i128) {
            i64::MIN
        } else {
            p as i64
        }
    }

    fn zero() -> (r: Self) {
        0i64
    }

    fn scalar_lt(self, rhs: Self) -> (r: bool) {
        self < rhs
    }
}

} // verus!
