//! Configuration for the lattice-based option pricing model.
//!
//! Only the discretisation parameter is kept here: the numeric pricing
//! itself works in floating point and is performed outside the verified
//! core.

use vstd::prelude::*;

verus! {

/// A binomial-tree pricing model, described by the number of time steps
/// its lattice uses.
pub struct BinomialTreeModel {
    /// Number of steps in the binomial tree model.
    pub steps: usize,
}

impl BinomialTreeModel {
    /// Creates a new `BinomialTreeModel` with a specified number of steps.
    pub fn new(steps: usize) -> (model: Self)
        ensures
            model.steps == steps,
    {
        Self { steps }
    }
}

} // verus!
