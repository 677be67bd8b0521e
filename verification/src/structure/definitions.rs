//! Main structure definitions: the computation structure and its error type.

use vstd::prelude::*;

use crate::parameters::{ComputeMethod, DomainDescriptor, FunctionDescriptor};
use crate::scalar::Scalar;

verus! {

/// Why a computation was refused.
#[derive(Debug, Copy, Clone, PartialEq)]
pub enum IntegraalError {
    /// One or more parameters are missing.
    MissingParameters(&'static str),
    /// Specified parameters are conflicting or ambiguous.
    InconsistentParameters(&'static str),
    /// A method's own numeric precondition is violated.
    BadParameters(&'static str),
    /// The method is structurally incompatible with the supplied domain.
    Unimplemented(&'static str),
}

/// Main integral computation structure.
///
/// Holds at most one domain descriptor, one function descriptor and one
/// compute method; each setter stores its field and returns the structure
/// for chaining.  A successful computation clears the function descriptor
/// only, so that further integrals over the same domain can be set up
/// without restating it.
pub struct Integraal<F: Fn(Scalar) -> Scalar> {
    /// Domain over which the function is integrated.
    pub domain: Option<DomainDescriptor>,
    /// Function to integrate.
    pub function: Option<FunctionDescriptor<F>>,
    /// Numerical integration method used for the approximation.
    pub method: Option<ComputeMethod>,
}

impl<F: Fn(Scalar) -> Scalar> Default for Integraal<F> {
    /// An empty structure: no domain, no function, no method.
    fn default() -> (r: Self)
        ensures
            r.domain is None,
            r.function is None,
            r.method is None,
    {
        Integraal { domain: None, function: None, method: None }
    }
}

impl<F: Fn(Scalar) -> Scalar> Integraal<F> {
    /// Set the domain descriptor.
    pub fn domain(self, domain_descriptor: DomainDescriptor) -> (r: Self)
        ensures
            r.domain == Some(domain_descriptor),
            r.function == self.function,
            r.method == self.method,
    {
        Integraal { domain: Some(domain_descriptor), ..self }
    }

    /// Set the function descriptor.
    pub fn function(self, function_descriptor: FunctionDescriptor<F>) -> (r: Self)
        ensures
            r.function == Some(function_descriptor),
            r.domain == self.domain,
            r.method == self.method,
    {
        Integraal { function: Some(function_descriptor), ..self }
    }

    /// Set the numerical integration method.
    pub fn method(self, compute_method: ComputeMethod) -> (r: Self)
        ensures
            r.method == Some(compute_method),
            r.domain == self.domain,
            r.function == self.function,
    {
        Integraal { method: Some(compute_method), ..self }
    }
}

} // verus!
