//! Descriptors a caller supplies to parameterize an integral.

use vstd::prelude::*;

use crate::scalar::Scalar;

verus! {

/// Domain description: the positions at which the integrated function is
/// sampled.
#[derive(Debug, Clone)]
pub enum DomainDescriptor {
    /// Positions listed one by one, assumed strictly increasing.
    Explicit(Vec<Scalar>),
    /// `n_step` positions at `start + i * step` for `i` below `n_step`.
    Uniform {
        /// First position.
        start: Scalar,
        /// Distance between consecutive positions; any nonzero value.
        step: Scalar,
        /// Number of positions.
        n_step: usize,
    },
}

/// Function description: the integrated function's values, either as a
/// callable or as a list aligned with the domain's positions.
pub enum FunctionDescriptor<F: Fn(Scalar) -> Scalar> {
    /// A callable mapping one position to the function's value there.
    Closure(F),
    /// Values listed one by one; the length must match the domain's
    /// sample count, which is checked at computation time.
    Values(Vec<Scalar>),
}

/// Numerical integration method, together with its parameters.
#[derive(Debug, Clone, Copy)]
pub enum ComputeMethod {
    /// Riemann sum using each sub-interval's left sample.
    RectangleLeft,
    /// Riemann sum using each sub-interval's right sample.
    RectangleRight,
    /// Trapezoid rule over each sub-interval.
    Trapezoid,
    /// Composite Simpson rule over non-overlapping pairs of sub-intervals.
    Simpson,
    /// Boole's rule; requires a uniform domain whose segment count is a
    /// multiple of four.
    Boole {
        /// Truncate the sample count to fit the method's requirement
        /// instead of failing.
        force: bool,
    },
    /// Romberg's method: Richardson extrapolation over a fixed number of
    /// trapezoid refinements; requires a uniform domain.
    Romberg {
        /// Number of refinement iterations.
        max_steps: usize,
    },
    /// Monte-Carlo estimation; the only method that consumes randomness.
    MonteCarlo {
        /// Number of random samples drawn per sub-interval.
        n_sample: usize,
    },
}

/// A sequence of scalars, as the sequence of their unit counts.
pub open spec fn views(s: Seq<Scalar>) -> Seq<int> {
    Seq::new(s.len(), |i: int| s[i]@)
}

/// Position `i` of a uniform domain, in representation units: the scalar
/// computation `start + step * i`.
pub open spec fn uniform_pos(start: int, step: int, i: int) -> int {
    crate::scalar::fx_add(start, crate::scalar::fx_mul(step, crate::scalar::fx_from_uint(i)))
}

} // verus!
