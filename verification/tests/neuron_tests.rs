use neural::activation_funcs::Identity;
use neural::neuron::{InputWeightLengthsMismatchError, Neuron};
use neural::scalar::Scalar;

/// 64-bit floating point scalars.
#[derive(Clone, Copy, Debug, PartialEq)]
struct Val(f64);

impl Scalar for Val {
    // Outside verification the trait's spec members are plain functions;
    // they carry the same meaning as their executable counterparts.
    fn spec_sum(self, rhs: Self) -> Self {
        Val(self.0 + rhs.0)
    }

    fn spec_prod(self, rhs: Self) -> Self {
        Val(self.0 * rhs.0)
    }

    fn spec_zero() -> Self {
        Val(0.)
    }

    fn spec_is_lt(self, rhs: Self) -> bool {
        self.0 < rhs.0
    }

    fn scalar_add(self, rhs: Self) -> Self {
        Val(self.0 + rhs.0)
    }

    fn scalar_mul(self, rhs: Self) -> Self {
        Val(self.0 * rhs.0)
    }

    fn zero() -> Self {
        Val(0.)
    }

    fn scalar_lt(self, rhs: Self) -> bool {
        self.0 < rhs.0
    }
}

#[test]
fn should_return_error() -> Result<(), String> {
    let n = Neuron { weights: vec![], bias: Val(1.) };
    let r = n.activate(&vec![Val(1.)], &Identity);
    match r {
        Ok(_) => Err(String::from(
            "Should error with InputWeightLengthsMismatchError",
        )),
        Err(_) => Ok(()),
    }
}

#[test]
fn should_not_return_error() -> Result<(), InputWeightLengthsMismatchError> {
    let n = Neuron { weights: vec![], bias: Val(1.) };
    let r = n.activate(&vec![], &Identity);
    match r {
        Ok(_) => Ok(()),
        Err(err) => Err(err),
    }
}

#[test]
fn should_add_bias() -> Result<(), InputWeightLengthsMismatchError> {
    let n = Neuron { weights: vec![], bias: Val(1.) };
    let r = n.activate(&vec![], &Identity)?;
    assert_eq!(r.0, 1.);
    Ok(())
}

#[test]
fn should_sum_inputs() -> Result<(), InputWeightLengthsMismatchError> {
    let len = 10;
    let n = Neuron {
        weights: vec![Val(1.); len],
        bias: Val(0.),
    };
    let r = n.activate(&vec![Val(1.); len], &Identity)?;
    assert_eq!(r.0, 10.);
    Ok(())
}

#[test]
fn mismatch_error_reports_both_lengths() {
    let n = Neuron {
        weights: vec![Val(1.), Val(2.)],
        bias: Val(0.),
    };
    let r = n.activate(&vec![Val(1.)], &Identity);
    match r {
        Ok(_) => panic!("expected a length mismatch"),
        Err(e) => {
            assert_eq!(e.inputs_length, 1);
            assert_eq!(e.weights_length, 2);
        }
    }
}

#[test]
fn weights_length_reports_arity() {
    let n = Neuron {
        weights: vec![Val(1.), Val(2.), Val(3.)],
        bias: Val(0.),
    };
    assert_eq!(n.weights_length(), 3);
}
