use vstd::prelude::*;

use crate::activation_funcs::Activation;
use crate::scalar::Scalar;

verus! {

/// One unit of a layer: a fixed-length weight vector and a bias.
///
/// The weight vector's length, set at construction, is the required input
/// arity of the neuron and never changes afterwards.
#[derive(Debug)]
pub struct Neuron<T> {
    pub weights: Vec<T>,
    pub bias: T,
}

/// Returned by `Neuron::activate` when the input length disagrees with the
/// weight vector's length; reports both lengths.
#[derive(Debug)]
pub struct InputWeightLengthsMismatchError {
    pub inputs_length: usize,
    pub weights_length: usize,
}

/// `bias + weights[0] * input[0] + ... + weights[n-1] * input[n-1]`,
/// accumulated left to right in the scalar's own arithmetic.
pub open spec fn weighted_sum_prefix<T: Scalar>(weights: Seq<T>, input: Seq<T>, bias: T, n: int) -> T
    decreases n,
{
    if n <= 0 {
        bias
    } else {
        weighted_sum_prefix(weights, input, bias, n - 1).spec_sum(weights[n - 1].spec_prod(input[n - 1]))
    }
}

/// The full weighted sum of a neuron over an input of matching length.
pub open spec fn weighted_sum<T: Scalar>(weights: Seq<T>, input: Seq<T>, bias: T) -> T {
    weighted_sum_prefix(weights, input, bias, weights.len() as int)
}

impl<T: Scalar> Neuron<T> {
    /// Applies the activation to the weighted sum of the input, or fails with
    /// a length report when the input arity disagrees with the weights:
    /// exactly when `input.len() != weights.len()`, and never otherwise.
    pub fn activate<A: Activation<T>>(
        &self,
        input: &Vec<T>,
        f: &A,
    ) -> (r: Result<T, InputWeightLengthsMismatchError>)
        ensures
            r is Ok <==> input@.len() == self.weights@.len(),
            r matches Ok(y) ==> y == f.spec_f(weighted_sum(self.weights@, input@, self.bias)),
            r matches Err(e) ==> {
                &&& e.inputs_length == input@.len()
                &&& e.weights_length == self.weights@.len()
            },
    {
        if input.len() != self.weights.len() {
            return Err(InputWeightLengthsMismatchError {
                inputs_length: input.len(),
                weights_length: self.weights.len(),
            });
        }
        let mut sum = self.bias;
        for i in 0..input.len()
            invariant
                input@.len() == self.weights@.len(),
                sum == weighted_sum_prefix(self.weights@, input@, self.bias, i as int),
        {
            sum = sum.scalar_add(self.weights[i].scalar_mul(input[i]));
        }
        let output = f.f(sum);
        Ok(output)
    }

    pub fn weights_length(&self) -> (r: usize)
        ensures
            r == self.weights@.len(),
    {
        self.weights.len()
    }
}

} // verus!
