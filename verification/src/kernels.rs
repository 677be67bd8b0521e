//! Quadrature kernels, one module per method.
//!
//! Each module holds the spec functions that pin down the method's result
//! as a fold of scalar operations, and one executable kernel per supported
//! (function kind, domain kind) combination.

pub mod boole;
pub mod montecarlo;
pub mod rectangle;
pub mod romberg;
pub mod simpson;
pub mod trapezoid;
pub mod uniform;
