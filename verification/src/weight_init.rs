//! The initializers of a neuron's weights.
//!
//! Drawing the weights is floating-point work and lives with the caller; the
//! library names the scheme.
use vstd::prelude::*;

verus! {

/// Xavier (Glorot) uniform initialization: each of `n` weights is drawn
/// uniformly from `(-sqrt(6 / n), sqrt(6 / n))`.
#[derive(Debug, Clone, Copy)]
pub struct XavierUniform;

} // verus!
