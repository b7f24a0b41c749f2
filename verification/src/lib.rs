//! A small feedforward network evaluator with verified composition logic:
//! how a neuron folds a weighted sum, how a layer routes an input vector to
//! its neurons by connectivity mode and validates shapes, and how a network
//! threads vectors through its layers while propagating the first error.
//! The scalar arithmetic itself, the activation function and the weight
//! source are injected capabilities, so the same verified core runs over any
//! numeric domain the caller supplies.

pub mod activation_funcs;
pub mod init;
pub mod layer;
pub mod net;
pub mod neuron;
pub mod scalar;
