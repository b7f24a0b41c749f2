use vstd::prelude::*;

use crate::activation_funcs::Activation;
use crate::init::Initializer;
use crate::layer::{layer_weight_total, InputOneOnOneError, Layer, LayerError, Types};
use crate::scalar::Scalar;

verus! {

/// A feedforward neural network: an ordered stack of layers, built
/// incrementally and immutable once built.
pub struct FNN<T, A> {
    pub layers: Vec<Layer<T, A>>,
}

/// Threading `xs` through `layers` front to back succeeds at every layer.
pub open spec fn net_ok<T: Scalar, A: Activation<T>>(layers: Seq<Layer<T, A>>, xs: Seq<T>) -> bool
    decreases layers.len(),
{
    layers.len() == 0 || (layers[0].evaluates_ok(xs) && net_ok(
        layers.skip(1),
        layers[0].outputs(xs),
    ))
}

/// The vector that falls out of the last layer when threading succeeds.
pub open spec fn net_out<T: Scalar, A: Activation<T>>(layers: Seq<Layer<T, A>>, xs: Seq<T>) -> Seq<T>
    decreases layers.len(),
{
    if layers.len() == 0 {
        xs
    } else {
        net_out(layers.skip(1), layers[0].outputs(xs))
    }
}

/// The first error met while threading, when threading fails; the failing
/// layer's own report, with no layer index added.
pub open spec fn net_err<T: Scalar, A: Activation<T>>(
    layers: Seq<Layer<T, A>>,
    xs: Seq<T>,
) -> LayerError
    decreases layers.len(),
{
    if layers.len() == 0 {
        arbitrary()
    } else if !layers[0].evaluates_ok(xs) {
        layers[0].first_error(xs)
    } else {
        net_err(layers.skip(1), layers[0].outputs(xs))
    }
}

/// The whole contract of `FNN::input`: success exactly when every layer
/// accepts its vector, the final vector on success, and the first error met
/// on failure.
pub open spec fn input_post<T: Scalar, A: Activation<T>>(
    layers: Seq<Layer<T, A>>,
    xs: Seq<T>,
    r: Result<Vec<T>, LayerError>,
) -> bool {
    &&& r is Ok <==> net_ok(layers, xs)
    &&& (r matches Ok(v) ==> v@ == net_out(layers, xs))
    &&& (r matches Err(e) ==> e == net_err(layers, xs))
}

/// Evaluation is a pure function of the network and its input: any two
/// results that `FNN::input` may return for the same network and the same
/// input are identical, success or failure alike.
pub proof fn lemma_input_deterministic<T: Scalar, A: Activation<T>>(
    layers: Seq<Layer<T, A>>,
    xs: Seq<T>,
    r1: Result<Vec<T>, LayerError>,
    r2: Result<Vec<T>, LayerError>,
)
    requires
        input_post(layers, xs, r1),
        input_post(layers, xs, r2),
    ensures
        r1 is Ok <==> r2 is Ok,
        r1 matches Ok(v1) ==> (r2 matches Ok(v2) ==> v1@ == v2@),
        r1 matches Err(e1) ==> (r2 matches Err(e2) ==> e1 == e2),
{
}

/// Whatever falls out of a non-empty stack of layers has one entry per
/// neuron of the last layer, whichever connectivity modes are involved.
pub proof fn lemma_net_out_length<T: Scalar, A: Activation<T>>(layers: Seq<Layer<T, A>>, xs: Seq<T>)
    requires
        layers.len() > 0,
    ensures
        net_out(layers, xs).len() == layers.last().neurons@.len(),
    decreases layers.len(),
{
    assert(net_out(layers, xs) == net_out(layers.skip(1), layers[0].outputs(xs)));
    if layers.len() == 1 {
        assert(layers.skip(1) =~= Seq::<Layer<T, A>>::empty());
        assert(net_out(layers.skip(1), layers[0].outputs(xs)) == layers[0].outputs(xs));
        assert(layers[0].outputs(xs).len() == layers[0].neurons@.len());
        assert(layers.last() == layers[0]);
    } else {
        lemma_net_out_length(layers.skip(1), layers[0].outputs(xs));
        assert(layers.skip(1).last() == layers.last());
    }
}

/// The expected input width of the next layer: the unit count of the current
/// last layer, or the new layer's own unit count if there is none.
pub open spec fn next_input_width<T, A>(layers: Seq<Layer<T, A>>, num_neurons: usize) -> usize {
    if layers.len() > 0 {
        layers.last().neurons@.len() as usize
    } else {
        num_neurons
    }
}

/// The total number of weights over all layers, biases excluded.
pub open spec fn net_weight_total<T, A>(layers: Seq<Layer<T, A>>) -> nat
    decreases layers.len(),
{
    if layers.len() == 0 {
        0
    } else {
        net_weight_total(layers.drop_last()) + layer_weight_total(layers.last().neurons@)
    }
}

/// Unfolds the network weight total by one layer at the end of a prefix.
proof fn lemma_net_weight_step<T, A>(layers: Seq<Layer<T, A>>, i: int)
    requires
        0 <= i < layers.len(),
    ensures
        net_weight_total(layers.take(i + 1)) == net_weight_total(layers.take(i))
            + layer_weight_total(layers[i].neurons@),
{
    assert(layers.take(i + 1).drop_last() =~= layers.take(i));
    assert(layers.take(i + 1).last() == layers[i]);
}

/// A prefix never carries more weights than the whole stack.
proof fn lemma_net_weight_prefix_le<T, A>(layers: Seq<Layer<T, A>>, i: int)
    requires
        0 <= i <= layers.len(),
    ensures
        net_weight_total(layers.take(i)) <= net_weight_total(layers),
    decreases layers.len() - i,
{
    if i < layers.len() {
        lemma_net_weight_step(layers, i);
        lemma_net_weight_prefix_le(layers, i + 1);
    } else {
        assert(layers.take(i) =~= layers);
    }
}

impl<T: Scalar, A: Activation<T>> FNN<T, A> {
    /// Seeds the network with one layer whose unit count equals its input
    /// width, so the one-on-one constraint holds trivially and construction
    /// cannot fail.
    pub fn new<I: Initializer<T>>(new_inputs: usize, t: Types, f: A, initializer: &mut I) -> (r:
        Self)
        ensures
            r.layers@.len() == 1,
            r.layers@[0].constructed(
                new_inputs,
                new_inputs,
                t,
                f,
                old(initializer).produced(),
                final(initializer).produced(),
            ),
    {
        let seed = match Layer::new(new_inputs, new_inputs, t, f, initializer) {
            Ok(l) => l,
            Err(_) => unreached(),
        };
        FNN { layers: vec![seed] }
    }

    /// Appends a layer whose input width is the unit count of the current
    /// last layer, handing ownership of the extended network back; fails
    /// exactly when the new layer's one-on-one constraint is violated, and
    /// then propagates the construction error.
    pub fn add_layer<I: Initializer<T>>(
        self,
        num_neurons: usize,
        t: Types,
        f: A,
        initializer: &mut I,
    ) -> (r: Result<Self, LayerError>)
        ensures
            r is Ok <==> !(num_neurons != next_input_width(self.layers@, num_neurons)
                && t is OneOnOne),
            r matches Ok(n) ==> {
                &&& n.layers@.len() == self.layers@.len() + 1
                &&& forall|i: int| 0 <= i < self.layers@.len() ==> n.layers@[i] == self.layers@[i]
                &&& n.layers@.last().constructed(
                    num_neurons,
                    next_input_width(self.layers@, num_neurons),
                    t,
                    f,
                    old(initializer).produced(),
                    final(initializer).produced(),
                )
            },
            r matches Err(e) ==> {
                &&& e == LayerError::InputOneOnOneError(InputOneOnOneError {
                    num_inputs: next_input_width(self.layers@, num_neurons),
                    expected_num_inputs: num_neurons,
                })
                &&& final(initializer).produced() == old(initializer).produced()
            },
    {
        let num_inputs: usize = if self.layers.len() > 0 {
            self.layers[self.layers.len() - 1].neurons.len()
        } else {
            num_neurons
        };
        match Layer::new(num_neurons, num_inputs, t, f, initializer) {
            Ok(l) => {
                let mut extended = self;
                extended.layers.push(l);
                Ok(extended)
            },
            Err(e) => Err(e),
        }
    }

    /// Threads the input through the layers strictly in order, each layer's
    /// output becoming the next layer's input, and stops at the first error.
    #[verifier::loop_isolation(false)]
    pub fn input(&self, inputs: Vec<T>) -> (r: Result<Vec<T>, LayerError>)
        ensures
            input_post(self.layers@, inputs@, r),
    {
        let ghost xs0 = inputs@;
        let mut cur = inputs;
        proof {
            assert(self.layers@.skip(0) =~= self.layers@);
        }
        for i in 0..self.layers.len()
            invariant
                net_ok(self.layers@, xs0) == net_ok(self.layers@.skip(i as int), cur@),
                net_out(self.layers@, xs0) == net_out(self.layers@.skip(i as int), cur@),
                !net_ok(self.layers@, xs0) ==> net_err(self.layers@, xs0) == net_err(
                    self.layers@.skip(i as int),
                    cur@,
                ),
        {
            proof {
                assert(self.layers@.skip(i as int)[0] == self.layers@[i as int]);
                assert(self.layers@.skip(i as int).skip(1) =~= self.layers@.skip(i as int + 1));
            }
            match self.layers[i].input(&cur) {
                Ok(v) => {
                    cur = v;
                },
                Err(e) => {
                    proof {
                        assert(!net_ok(self.layers@.skip(i as int), cur@));
                        assert(net_err(self.layers@.skip(i as int), cur@) == e);
                    }
                    return Err(e);
                },
            }
        }
        proof {
            assert(self.layers@.skip(self.layers@.len() as int) =~= Seq::<Layer<T, A>>::empty());
        }
        Ok(cur)
    }

    /// The number of weight parameters over all layers; biases are
    /// deliberately excluded from this count.
    pub fn parameter_count(&self) -> (r: usize)
        requires
            net_weight_total(self.layers@) <= usize::MAX,
        ensures
            r == net_weight_total(self.layers@),
    {
        let mut sum: usize = 0;
        for i in 0..self.layers.len()
            invariant
                net_weight_total(self.layers@) <= usize::MAX,
                sum == net_weight_total(self.layers@.take(i as int)),
        {
            proof {
                lemma_net_weight_step(self.layers@, i as int);
                lemma_net_weight_prefix_le(self.layers@, i + 1);
            }
            sum = sum + self.layers[i].count_of_weights();
        }
        proof {
            assert(self.layers@.take(self.layers@.len() as int) =~= self.layers@);
        }
        sum
    }
}

} // verus!
