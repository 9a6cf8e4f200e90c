//! A minimal feed-forward neural-network training engine.
//!
//! Numeric values are fixed-point integers (see `fx`); matrices are the
//! library's own `Tensor` type; layers form a closed variant set dispatched
//! by `Layer`; `Model` chains layers, caching activations between a forward
//! pass and the matching backward/update sweep.

pub mod fx;
pub mod layer;
pub mod loss;
pub mod model;
pub mod rng;
pub mod tensor;

use vstd::prelude::*;

verus! {

/// The mathematical value of a matrix held as a vector of row vectors: a
/// sequence of rows.
pub open spec fn view_of(m: Seq<Vec<i64>>) -> Seq<Seq<i64>> {
    Seq::new(m.len(), |i: int| m[i]@)
}

/// Bridges a row of the mathematical view to the corresponding `Vec`.
pub broadcast proof fn lemma_view_of_index(m: Seq<Vec<i64>>, i: int)
    requires
        0 <= i < m.len(),
    ensures
        #![trigger m[i]]
        view_of(m)[i] == m[i]@,
{
}

/// How an operation of this library fails.
#[derive(Clone, Copy, PartialEq, Eq, Structural, Debug)]
pub enum NnError {
    /// Shapes of the operands are incompatible, or a matrix is not
    /// rectangular and nonempty.
    DimensionMismatch,
    /// An operation was called in a state it does not allow, such as a
    /// backward pass without a matching forward pass.
    InvalidState,
}

} // verus!
