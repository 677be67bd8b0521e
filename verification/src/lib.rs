//! Numerical integration of one-dimensional functions.
//!
//! The crate approximates a definite integral by quadrature over a sampled
//! domain.  A domain is described either by an explicit list of positions or
//! by a uniform arithmetic progression; the integrated function either by a
//! callable or by a list of precomputed values.  A closed set of quadrature
//! methods is dispatched over those combinations.
//!
//! Every numeric computation is carried out on [`Scalar`], a fixed-point
//! value type with exactly specified arithmetic, so that each kernel's
//! result is pinned down by its contract.

pub mod estimator;
pub mod kernels;
pub mod parameters;
mod random;
pub mod scalar;
pub mod structure;

pub use parameters::{ComputeMethod, DomainDescriptor, FunctionDescriptor};
pub use scalar::Scalar;
pub use structure::{Integraal, IntegraalError};
