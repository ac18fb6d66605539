//! Exact integer core of a phase-space Boltzmann solver on a uniform momentum
//! grid: five-point finite-difference operators, trapezoid quadrature, and the
//! right-hand side and Jacobian of the discretized transport equation, all in
//! integer arithmetic so that their algebraic laws can be proved.
//!
//! Every quantity is an integer numerator over a denominator that the
//! documentation of each function names; a floating-point driver divides by it.

pub mod array;
pub mod derivatives;
pub mod driver;
pub mod error;
pub mod exactness;
pub mod linearization;
pub mod model;
pub mod polynomial;
pub mod quadrature;
pub mod stencil;
pub mod transport;
