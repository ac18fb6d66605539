//! The conditions under which the solver core declines to compute.

use vstd::prelude::*;

verus! {

/// Why a computation was refused.
#[derive(Clone, Copy, Debug, PartialEq, Eq, Structural)]
pub enum SolverError {
    /// The grid has fewer than five points, so the stencils do not fit.
    GridTooSmall,
    /// A dense operator on the grid would exceed the address space.
    GridTooLarge,
    /// The grid spacing is zero or negative.
    SpacingNotPositive,
    /// An exact intermediate value left the range of the machine integers.
    Overflow,
}

} // verus!
