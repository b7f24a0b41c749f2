use neural::activation_funcs::{Activation, Identity, Relu};
use neural::scalar::Scalar;

/// 64-bit floating point scalars, the numeric domain the network is
/// ordinarily run over.
#[derive(Clone, Copy, Debug, PartialEq)]
struct Val(f64);

impl Scalar for Val {
    // Outside verification the trait's spec members are plain functions;
    // they carry the same meaning as their executable counterparts.
    fn spec_sum(self, rhs: Self) -> Self {
        Val(self.0 + rhs.0)
    }

    fn spec_prod(self, rhs: Self) -> Self {
        Val(self.0 * rhs.0)
    }

    fn spec_zero() -> Self {
        Val(0.)
    }

    fn spec_is_lt(self, rhs: Self) -> bool {
        self.0 < rhs.0
    }

    fn scalar_add(self, rhs: Self) -> Self {
        Val(self.0 + rhs.0)
    }

    fn scalar_mul(self, rhs: Self) -> Self {
        Val(self.0 * rhs.0)
    }

    fn zero() -> Self {
        Val(0.)
    }

    fn scalar_lt(self, rhs: Self) -> bool {
        self.0 < rhs.0
    }
}

// Relu tests
#[test]
fn relu_gt_0() {
    assert_eq!(Relu.f(Val(1.)).0, 1.);
}

#[test]
fn relu_eq_0() {
    assert_eq!(Relu.f(Val(0.)).0, 0.);
}

#[test]
fn relu_lt_0() {
    assert_eq!(Relu.f(Val(-1.)).0, 0.);
}

// Identity tests
#[test]
fn identity_gt_0() {
    assert_eq!(Identity.f(Val(1.)).0, 1.);
}

#[test]
fn identity_eq_0() {
    assert_eq!(Identity.f(Val(0.)).0, 0.);
}

#[test]
fn identity_lt_0() {
    assert_eq!(Identity.f(Val(-1.)).0, -1.);
}
