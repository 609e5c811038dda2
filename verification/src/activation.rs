//! The activation functions a neuron can apply to its weighted input.
//!
//! Their arithmetic is on floating-point numbers and lives with the caller;
//! the library names the functions.
use vstd::prelude::*;

verus! {

/// The rectified linear unit: `max(x, 0)`.
#[derive(Debug, Clone, Copy)]
pub struct ReLU;

/// The logistic function: `1 / (1 + e^(-x))`.
#[derive(Debug, Clone, Copy)]
pub struct Sigmoid;

} // verus!
