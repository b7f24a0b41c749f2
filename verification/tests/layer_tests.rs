use neural::activation_funcs::{Identity, Relu};
use neural::init::{ConstInitializer, ScriptedInitializer};
use neural::layer::{Layer, LayerError, Types};
use neural::neuron::Neuron;
use neural::scalar::Scalar;

/// 64-bit floating point scalars.
#[derive(Clone, Copy, Debug, PartialEq)]
struct Val(f64);

impl Scalar for Val {
    // Outside verification the trait's spec members are plain functions;
    // they carry the same meaning as their executable counterparts.
    fn spec_sum(self, rhs: Self) -> Self {
        Val(self.0 + rhs.0)
    }

    fn spec_prod(self, rhs: Self) -> Self {
        Val(self.0 * rhs.0)
    }

    fn spec_zero() -> Self {
        Val(0.)
    }

    fn spec_is_lt(self, rhs: Self) -> bool {
        self.0 < rhs.0
    }

    fn scalar_add(self, rhs: Self) -> Self {
        Val(self.0 + rhs.0)
    }

    fn scalar_mul(self, rhs: Self) -> Self {
        Val(self.0 * rhs.0)
    }

    fn zero() -> Self {
        Val(0.)
    }

    fn scalar_lt(self, rhs: Self) -> bool {
        self.0 < rhs.0
    }
}

#[test]
fn one_on_one_count_mismatch_fails() {
    let mut init = ConstInitializer::new(Val(0.5));
    let r = Layer::<Val, Identity>::new(2, 3, Types::OneOnOne, Identity, &mut init);
    match r {
        Ok(_) => panic!("expected a one-on-one mismatch"),
        Err(LayerError::InputOneOnOneError(e)) => {
            assert_eq!(e.num_inputs, 3);
            assert_eq!(e.expected_num_inputs, 2);
        }
        Err(_) => panic!("wrong error kind"),
    }
}

#[test]
fn one_on_one_zero_units_succeeds() {
    let mut init = ConstInitializer::new(Val(0.5));
    let l = Layer::<Val, Identity>::new(0, 0, Types::OneOnOne, Identity, &mut init).unwrap();
    assert_eq!(l.neurons.len(), 0);
    let out = l.input(&vec![]).unwrap();
    assert_eq!(out.len(), 0);
}

#[test]
fn fully_count_mismatch_succeeds() {
    let mut init = ConstInitializer::new(Val(0.5));
    let l = Layer::<Val, Identity>::new(2, 3, Types::Fully, Identity, &mut init).unwrap();
    assert_eq!(l.neurons.len(), 2);
    assert_eq!(l.neurons[0].weights_length(), 3);
}

#[test]
fn output_length_equals_unit_count_one_on_one() {
    let mut init = ConstInitializer::new(Val(1.));
    let l = Layer::<Val, Identity>::new(3, 3, Types::OneOnOne, Identity, &mut init).unwrap();
    let out = l.input(&vec![Val(1.), Val(2.), Val(3.)]).unwrap();
    assert_eq!(out.len(), 3);
}

#[test]
fn output_length_equals_unit_count_fully() {
    let mut init = ConstInitializer::new(Val(1.));
    let l = Layer::<Val, Identity>::new(2, 3, Types::Fully, Identity, &mut init).unwrap();
    let out = l.input(&vec![Val(1.), Val(2.), Val(3.)]).unwrap();
    assert_eq!(out.len(), 2);
}

#[test]
fn one_on_one_rechecks_width_on_evaluation() {
    let mut init = ConstInitializer::new(Val(1.));
    let l = Layer::<Val, Identity>::new(2, 2, Types::OneOnOne, Identity, &mut init).unwrap();
    let r = l.input(&vec![Val(1.), Val(2.), Val(3.)]);
    match r {
        Ok(_) => panic!("expected a one-on-one mismatch"),
        Err(LayerError::InputOneOnOneError(e)) => {
            assert_eq!(e.num_inputs, 3);
            assert_eq!(e.expected_num_inputs, 2);
        }
        Err(_) => panic!("wrong error kind"),
    }
}

#[test]
fn first_failing_neuron_is_reported() {
    let l = Layer {
        neurons: vec![
            Neuron { weights: vec![Val(1.)], bias: Val(0.) },
            Neuron { weights: vec![], bias: Val(0.) },
        ],
        layer_type: Types::Fully,
        f: Identity,
    };
    let r = l.input(&vec![Val(1.)]);
    match r {
        Ok(_) => panic!("expected a neuron activation failure"),
        Err(LayerError::NeuronActivationError(e)) => {
            assert_eq!(e.neuron_index, 1);
            let source = e.source.unwrap();
            assert_eq!(source.inputs_length, 1);
            assert_eq!(source.weights_length, 0);
        }
        Err(_) => panic!("wrong error kind"),
    }
}

#[test]
fn count_of_weights_excludes_biases() {
    let mut init = ConstInitializer::new(Val(0.5));
    let l = Layer::<Val, Identity>::new(1, 2, Types::Fully, Identity, &mut init).unwrap();
    assert_eq!(l.count_of_weights(), 2);
}

#[test]
fn construction_draws_weights_then_bias_per_unit() {
    let script = vec![Val(1.), Val(2.), Val(3.), Val(4.), Val(5.), Val(6.)];
    let mut init = ScriptedInitializer::new(script, Val(9.));
    let l = Layer::<Val, Identity>::new(2, 2, Types::Fully, Identity, &mut init).unwrap();
    assert_eq!(l.neurons[0].weights[0].0, 1.);
    assert_eq!(l.neurons[0].weights[1].0, 2.);
    assert_eq!(l.neurons[0].bias.0, 3.);
    assert_eq!(l.neurons[1].weights[0].0, 4.);
    assert_eq!(l.neurons[1].weights[1].0, 5.);
    assert_eq!(l.neurons[1].bias.0, 6.);
}

#[test]
fn relu_layer_clamps_negative_sums() {
    let l = Layer {
        neurons: vec![
            Neuron { weights: vec![Val(-1.)], bias: Val(0.) },
            Neuron { weights: vec![Val(1.)], bias: Val(0.) },
        ],
        layer_type: Types::Fully,
        f: Relu,
    };
    let out = l.input(&vec![Val(2.)]).unwrap();
    assert_eq!(out[0].0, 0.);
    assert_eq!(out[1].0, 2.);
}
