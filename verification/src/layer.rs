use vstd::prelude::*;

use crate::activation_funcs::Activation;
use crate::init::Initializer;
use crate::neuron::{weighted_sum, InputWeightLengthsMismatchError, Neuron};
use crate::scalar::Scalar;

verus! {

/// Either failure mode of a layer: a neuron rejected its input, or a
/// one-on-one layer was given a vector of the wrong width.
#[derive(Debug)]
pub enum LayerError {
    NeuronActivationError(NeuronActivationError),
    InputOneOnOneError(InputOneOnOneError),
}

/// A one-on-one layer requires exactly one input per neuron; reports the
/// offered and the expected width.
#[derive(Debug)]
pub struct InputOneOnOneError {
    pub num_inputs: usize,
    pub expected_num_inputs: usize,
}

/// A neuron failed to activate; reports its position in the layer and wraps
/// the underlying length mismatch.
#[derive(Debug)]
pub struct NeuronActivationError {
    pub source: Option<InputWeightLengthsMismatchError>,
    pub neuron_index: usize,
}

/// How a layer routes its input vector to its neurons.
pub enum Types {
    /// Neuron `i` receives the singleton vector `[xs[i]]`.
    OneOnOne,
    /// Every neuron receives the entire input vector.
    Fully,
}

/// An ordered collection of neurons sharing one connectivity mode and one
/// activation function.
pub struct Layer<T, A> {
    pub neurons: Vec<Neuron<T>>,
    pub layer_type: Types,
    pub f: A,
}

/// How many weights each neuron of a layer carries: one for a one-on-one
/// layer, the full input width for a fully connected one.
pub open spec fn weights_per_unit(t: Types, num_inputs: usize) -> nat {
    match t {
        Types::OneOnOne => 1,
        Types::Fully => num_inputs as nat,
    }
}

/// Neuron `i` of `neurons` was filled from the producer history `after`:
/// its `w` weights sit at `base + i * (w + 1)`, followed by its bias.
pub open spec fn unit_from<T>(neurons: Seq<Neuron<T>>, w: int, base: int, after: Seq<T>, i: int) -> bool {
    let start = base + i * (w + 1);
    &&& neurons[i].weights@.len() == w
    &&& (forall|k: int| 0 <= k < w ==> neurons[i].weights@[k] == after[start + k])
    &&& neurons[i].bias == after[start + w]
}

impl<T: Scalar, A: Activation<T>> Layer<T, A> {
    /// The layer that `Layer::new(num_neuron, num_inputs, t, f, _)` builds,
    /// given the initializer's history `before` the call and `after` it:
    /// `num_neuron` neurons, each drawing its weights and then its bias from
    /// the producer, unit by unit, so the whole construction is reproducible
    /// from the produced values alone.
    pub open spec fn constructed(
        &self,
        num_neuron: usize,
        num_inputs: usize,
        t: Types,
        f: A,
        before: Seq<T>,
        after: Seq<T>,
    ) -> bool {
        let w = weights_per_unit(t, num_inputs) as int;
        &&& self.layer_type == t
        &&& self.f == f
        &&& self.neurons@.len() == num_neuron
        &&& after.len() == before.len() + num_neuron * (w + 1)
        &&& after.take(before.len() as int) == before
        &&& forall|i: int|
            0 <= i < num_neuron ==> #[trigger] unit_from(self.neurons@, w, before.len() as int, after, i)
    }

    /// Builds `num_neuron` neurons, drawing one value per weight slot and one
    /// per bias slot from the initializer, in unit order. Fails (before
    /// drawing anything) exactly when a one-on-one layer's neuron count
    /// disagrees with its input width.
    pub fn new<I: Initializer<T>>(
        num_neuron: usize,
        num_inputs: usize,
        layer_type: Types,
        f: A,
        initializer: &mut I,
    ) -> (r: Result<Self, LayerError>)
        ensures
            r is Ok <==> !(num_neuron != num_inputs && layer_type is OneOnOne),
            r matches Ok(l) ==> l.constructed(
                num_neuron,
                num_inputs,
                layer_type,
                f,
                old(initializer).produced(),
                final(initializer).produced(),
            ),
            r matches Err(e) ==> {
                &&& e == LayerError::InputOneOnOneError(InputOneOnOneError {
                    num_inputs,
                    expected_num_inputs: num_neuron,
                })
                &&& final(initializer).produced() == old(initializer).produced()
            },
    {
        if num_neuron != num_inputs && matches!(layer_type, Types::OneOnOne) {
            return Err(LayerError::InputOneOnOneError(InputOneOnOneError {
                num_inputs,
                expected_num_inputs: num_neuron,
            }));
        }
        let w: usize = match layer_type {
            Types::OneOnOne => 1,
            Types::Fully => num_inputs,
        };
        let ghost before = initializer.produced();
        let mut neurons: Vec<Neuron<T>> = Vec::new();
        for u in 0..num_neuron
            invariant
                w == weights_per_unit(layer_type, num_inputs),
                neurons@.len() == u,
                initializer.produced().len() == before.len() + u * (w + 1),
                forall|j: int| 0 <= j < before.len() ==> initializer.produced()[j] == before[j],
                forall|i: int|
                    0 <= i < u ==> #[trigger] unit_from(
                        neurons@,
                        w as int,
                        before.len() as int,
                        initializer.produced(),
                        i,
                    ),
        {
            let ghost seg_base = initializer.produced().len() as int;
            let mut ws: Vec<T> = Vec::new();
            for k in 0..w
                invariant
                    ws@.len() == k,
                    initializer.produced().len() == seg_base + k,
                    seg_base == before.len() + u * (w as int + 1),
                    forall|j: int| 0 <= j < before.len() ==> initializer.produced()[j] == before[j],
                    forall|i: int|
                        0 <= i < u ==> #[trigger] unit_from(
                            neurons@,
                            w as int,
                            before.len() as int,
                            initializer.produced(),
                            i,
                        ),
                    forall|j: int| 0 <= j < k ==> ws@[j] == initializer.produced()[seg_base + j],
            {
                let ghost p_prev = initializer.produced();
                let v = initializer.next_value();
                ws.push(v);
                proof {
                    let p_new = initializer.produced();
                    assert(p_new.take(p_prev.len() as int) =~= p_prev.take(p_prev.len() as int));
                    lemma_units_stable(neurons@, w as int, before.len() as int, p_prev, u as int);
                    assert forall|i: int|
                        0 <= i < u implies #[trigger] unit_from(
                        neurons@,
                        w as int,
                        before.len() as int,
                        p_new,
                        i,
                    ) by {}
                }
            }
            let ghost p_prev = initializer.produced();
            let ghost old_neurons = neurons@;
            let b = initializer.next_value();
            neurons.push(Neuron { weights: ws, bias: b });
            proof {
                let p_new = initializer.produced();
                assert(p_new.take(p_prev.len() as int) =~= p_prev.take(p_prev.len() as int));
                lemma_units_stable(old_neurons, w as int, before.len() as int, p_prev, u as int);
                assert((u + 1) * (w + 1) == u * (w + 1) + (w + 1)) by (nonlinear_arith);
                assert forall|i: int|
                    0 <= i < u + 1 implies #[trigger] unit_from(
                    neurons@,
                    w as int,
                    before.len() as int,
                    p_new,
                    i,
                ) by {
                    if i < u {
                        assert(unit_from(old_neurons, w as int, before.len() as int, p_new, i));
                        assert(old_neurons[i] == neurons@[i]);
                    } else {
                        assert(neurons@[i].weights@ == ws@);
                        assert(forall|k: int|
                            0 <= k < w ==> ws@[k] == #[trigger] p_new[seg_base + k]);
                        assert(neurons@[i].bias == p_new[seg_base + w as int]);
                        assert(seg_base == before.len() + i * (w as int + 1));
                    }
                }
            }
        }
        let l = Layer { neurons, layer_type, f };
        proof {
            assert(initializer.produced().take(before.len() as int) =~= before);
        }
        Ok(l)
    }

    /// The vector handed to neuron `i`: its own slot for a one-on-one layer,
    /// the whole input for a fully connected one.
    pub open spec fn unit_input(&self, xs: Seq<T>, i: int) -> Seq<T> {
        match self.layer_type {
            Types::OneOnOne => seq![xs[i]],
            Types::Fully => xs,
        }
    }

    /// Neuron `i` accepts its share of the input.
    pub open spec fn unit_ok(&self, xs: Seq<T>, i: int) -> bool {
        self.neurons@[i].weights@.len() == self.unit_input(xs, i).len()
    }

    /// A one-on-one layer requires exactly one input per neuron.
    pub open spec fn shape_ok(&self, xs: Seq<T>) -> bool {
        self.layer_type is OneOnOne ==> xs.len() == self.neurons@.len()
    }

    /// Evaluation succeeds: the width check passes and every neuron accepts
    /// its share of the input.
    pub open spec fn evaluates_ok(&self, xs: Seq<T>) -> bool {
        &&& self.shape_ok(xs)
        &&& forall|i: int| 0 <= i < self.neurons@.len() ==> self.unit_ok(xs, i)
    }

    /// What neuron `i` returns on success.
    pub open spec fn unit_output(&self, xs: Seq<T>, i: int) -> T {
        self.f.spec_f(
            weighted_sum(self.neurons@[i].weights@, self.unit_input(xs, i), self.neurons@[i].bias),
        )
    }

    /// The layer's output vector: one value per neuron, in neuron order.
    pub open spec fn outputs(&self, xs: Seq<T>) -> Seq<T> {
        Seq::new(self.neurons@.len(), |i: int| self.unit_output(xs, i))
    }

    /// The least neuron index at or after `i` whose share of the input is
    /// rejected; the length of the layer if there is none.
    pub open spec fn first_failing_index(&self, xs: Seq<T>, i: int) -> int
        decreases self.neurons@.len() - i,
    {
        if i < 0 || i >= self.neurons@.len() {
            i
        } else if !self.unit_ok(xs, i) {
            i
        } else {
            self.first_failing_index(xs, i + 1)
        }
    }

    /// The error `input` reports, when evaluation fails: a width mismatch for
    /// a one-on-one layer, else the first rejecting neuron's index wrapping
    /// the underlying length report.
    pub open spec fn first_error(&self, xs: Seq<T>) -> LayerError {
        if !self.shape_ok(xs) {
            LayerError::InputOneOnOneError(InputOneOnOneError {
                num_inputs: xs.len() as usize,
                expected_num_inputs: self.neurons@.len() as usize,
            })
        } else {
            let i = self.first_failing_index(xs, 0);
            LayerError::NeuronActivationError(NeuronActivationError {
                source: Some(InputWeightLengthsMismatchError {
                    inputs_length: self.unit_input(xs, i).len() as usize,
                    weights_length: self.neurons@[i].weights@.len() as usize,
                }),
                neuron_index: i as usize,
            })
        }
    }

    /// The whole contract of `input`: it succeeds exactly when every check
    /// passes, and then returns one output per neuron in neuron order; it
    /// fails with the first error encountered, and with nothing else.
    pub open spec fn input_post(&self, xs: Seq<T>, r: Result<Vec<T>, LayerError>) -> bool {
        &&& r is Ok <==> self.evaluates_ok(xs)
        &&& (r matches Ok(v) ==> v@ == self.outputs(xs))
        &&& (r matches Err(e) ==> e == self.first_error(xs))
    }

    proof fn lemma_first_failing_index_is(&self, xs: Seq<T>, k: int, i: int)
        requires
            0 <= k <= i < self.neurons@.len(),
            forall|j: int| k <= j < i ==> self.unit_ok(xs, j),
            !self.unit_ok(xs, i),
        ensures
            self.first_failing_index(xs, k) == i,
        decreases i - k,
    {
        if k < i {
            self.lemma_first_failing_index_is(xs, k + 1, i);
        }
    }

    /// Routes the input to each neuron according to the connectivity mode and
    /// collects the results in neuron order, failing fast on the first error.
    /// A one-on-one layer re-checks the input width on every call. On success
    /// the output length equals the neuron count.
    pub fn input(&self, xs: &Vec<T>) -> (r: Result<Vec<T>, LayerError>)
        ensures
            self.input_post(xs@, r),
            r matches Ok(v) ==> v@.len() == self.neurons@.len(),
    {
        if matches!(self.layer_type, Types::OneOnOne) && xs.len() != self.neurons.len() {
            return Err(LayerError::InputOneOnOneError(InputOneOnOneError {
                num_inputs: xs.len(),
                expected_num_inputs: self.neurons.len(),
            }));
        }
        let mut out: Vec<T> = Vec::new();
        for i in 0..self.neurons.len()
            invariant
                self.shape_ok(xs@),
                out@.len() == i,
                forall|j: int| 0 <= j < i ==> self.unit_ok(xs@, j),
                forall|j: int| 0 <= j < i ==> out@[j] == self.unit_output(xs@, j),
        {
            let unit_result = match self.layer_type {
                Types::OneOnOne => {
                    let single = vec![xs[i]];
                    proof {
                        assert(single@ =~= self.unit_input(xs@, i as int));
                    }
                    let res = self.neurons[i].activate(&single, &self.f);
                    proof {
                        assert(res is Ok <==> self.unit_ok(xs@, i as int));
                        assert(res matches Err(e) ==> {
                            &&& e.inputs_length == self.unit_input(xs@, i as int).len()
                            &&& e.weights_length == self.neurons@[i as int].weights@.len()
                        });
                    }
                    res
                },
                Types::Fully => {
                    let res = self.neurons[i].activate(xs, &self.f);
                    proof {
                        assert(res is Ok <==> self.unit_ok(xs@, i as int));
                        assert(res matches Err(e) ==> {
                            &&& e.inputs_length == self.unit_input(xs@, i as int).len()
                            &&& e.weights_length == self.neurons@[i as int].weights@.len()
                        });
                    }
                    res
                },
            };
            match unit_result {
                Ok(v) => {
                    out.push(v);
                },
                Err(e) => {
                    proof {
                        self.lemma_first_failing_index_is(xs@, 0, i as int);
                    }
                    return Err(LayerError::NeuronActivationError(NeuronActivationError {
                        source: Some(e),
                        neuron_index: i,
                    }));
                },
            }
        }
        proof {
            assert(out@ =~= self.outputs(xs@));
        }
        Ok(out)
    }

    /// The number of weights the layer carries, summed over its neurons;
    /// biases are deliberately excluded from this count.
    pub fn count_of_weights(&self) -> (r: usize)
        requires
            layer_weight_total(self.neurons@) <= usize::MAX,
        ensures
            r == layer_weight_total(self.neurons@),
    {
        let mut sum: usize = 0;
        for i in 0..self.neurons.len()
            invariant
                layer_weight_total(self.neurons@) <= usize::MAX,
                sum == layer_weight_total(self.neurons@.take(i as int)),
        {
            proof {
                lemma_weight_total_step(self.neurons@, i as int);
                lemma_weight_total_prefix_le(self.neurons@, i + 1);
            }
            sum = sum + self.neurons[i].weights_length();
        }
        proof {
            assert(self.neurons@.take(self.neurons@.len() as int) =~= self.neurons@);
        }
        sum
    }
}

/// The total number of weights in a sequence of neurons.
pub open spec fn layer_weight_total<T>(neurons: Seq<Neuron<T>>) -> nat
    decreases neurons.len(),
{
    if neurons.len() == 0 {
        0
    } else {
        layer_weight_total(neurons.drop_last()) + neurons.last().weights@.len()
    }
}

/// Unfolds the weight total by one neuron at the end of a prefix.
proof fn lemma_weight_total_step<T>(neurons: Seq<Neuron<T>>, i: int)
    requires
        0 <= i < neurons.len(),
    ensures
        layer_weight_total(neurons.take(i + 1)) == layer_weight_total(neurons.take(i))
            + neurons[i].weights@.len(),
{
    assert(neurons.take(i + 1).drop_last() =~= neurons.take(i));
    assert(neurons.take(i + 1).last() == neurons[i]);
}

/// A freshly constructed layer carries exactly `num_neuron` times its
/// per-unit weight count — one weight per neuron when one-on-one, the input
/// width per neuron when fully connected — with biases excluded.
pub proof fn lemma_constructed_parameter_count<T: Scalar, A: Activation<T>>(
    l: &Layer<T, A>,
    num_neuron: usize,
    num_inputs: usize,
    t: Types,
    f: A,
    before: Seq<T>,
    after: Seq<T>,
)
    requires
        l.constructed(num_neuron, num_inputs, t, f, before, after),
    ensures
        layer_weight_total(l.neurons@) == num_neuron * weights_per_unit(t, num_inputs),
{
    let w = weights_per_unit(t, num_inputs);
    assert forall|i: int|
        0 <= i < l.neurons@.len() implies #[trigger] l.neurons@[i].weights@.len() == w by {
        assert(unit_from(l.neurons@, w as int, before.len() as int, after, i));
    }
    lemma_uniform_weight_total(l.neurons@, w);
}

/// A sequence of neurons with `w` weights each carries `len * w` in total.
proof fn lemma_uniform_weight_total<T>(neurons: Seq<Neuron<T>>, w: nat)
    requires
        forall|i: int| 0 <= i < neurons.len() ==> #[trigger] neurons[i].weights@.len() == w,
    ensures
        layer_weight_total(neurons) == neurons.len() * w,
    decreases neurons.len(),
{
    if neurons.len() > 0 {
        assert forall|i: int|
            0 <= i < neurons.drop_last().len() implies #[trigger] neurons.drop_last()[i].weights@.len()
            == w by {
            assert(neurons.drop_last()[i] == neurons[i]);
        }
        lemma_uniform_weight_total(neurons.drop_last(), w);
        assert(neurons.last().weights@.len() == w);
        assert((neurons.len() - 1) * w + w == neurons.len() * w) by (nonlinear_arith);
    }
}

/// A prefix never carries more weights than the whole sequence.
proof fn lemma_weight_total_prefix_le<T>(neurons: Seq<Neuron<T>>, i: int)
    requires
        0 <= i <= neurons.len(),
    ensures
        layer_weight_total(neurons.take(i)) <= layer_weight_total(neurons),
    decreases neurons.len() - i,
{
    if i < neurons.len() {
        lemma_weight_total_step(neurons, i);
        lemma_weight_total_prefix_le(neurons, i + 1);
    } else {
        assert(neurons.take(i) =~= neurons);
    }
}

/// Pushing further values onto the producer history disturbs no neuron that
/// was already filled from it, since their slots lie below `after`'s length.
proof fn lemma_units_stable<T>(neurons: Seq<Neuron<T>>, w: int, base: int, after: Seq<T>, u: int)
    requires
        w >= 0,
        base >= 0,
        after.len() >= base + u * (w + 1),
        forall|i: int| 0 <= i < u ==> #[trigger] unit_from(neurons, w, base, after, i),
    ensures
        forall|i: int, more: Seq<T>|
            0 <= i < u && after.len() <= more.len() && more.take(after.len() as int) == after.take(
                after.len() as int,
            ) ==> #[trigger] unit_from(neurons, w, base, more, i),
{
    assert forall|i: int, more: Seq<T>|
        0 <= i < u && after.len() <= more.len() && more.take(after.len() as int) == after.take(
            after.len() as int,
        ) implies #[trigger] unit_from(neurons, w, base, more, i) by {
        assert(unit_from(neurons, w, base, after, i));
        let start = base + i * (w + 1);
        assert(start + w < after.len()) by (nonlinear_arith)
            requires
                0 <= i < u,
                w >= 0,
                start == base + i * (w + 1),
                after.len() >= base + u * (w + 1),
        ;
        assert forall|k: int| 0 <= k < w implies neurons[i].weights@[k] == more[start + k] by {
            assert(after.take(after.len() as int)[start + k] == after[start + k]);
            assert(more.take(after.len() as int)[start + k] == more[start + k]);
        }
        assert(after.take(after.len() as int)[start + w] == after[start + w]);
        assert(more.take(after.len() as int)[start + w] == more[start + w]);
    }
}

} // verus!
