//! Validation, dispatch and computation.
//!
//! `compute` checks that every descriptor is present and consistent, then
//! dispatches on the (function kind, domain kind) pair into one kernel
//! family, each of which switches on the compute method.  All validation
//! happens before any numeric accumulation; a failed computation leaves
//! the structure untouched, a successful one clears the function
//! descriptor only.

use vstd::prelude::*;

use crate::kernels::boole::{
    boole_closure_ok, boole_ok, boole_unif, boole_used, boole_closure_uniform,
    boole_values_uniform,
};
use crate::kernels::montecarlo::{
    mc_closure_expl_ok, mc_closure_explicit, mc_closure_unif_ok, mc_closure_uniform, mc_expl_ok,
    mc_unif_ok, mc_values_explicit, mc_values_uniform,
};
use crate::kernels::rectangle::{
    rect_left_closure_explicit, rect_left_closure_uniform, rect_left_expl, rect_left_expl_ok,
    rect_left_unif, rect_left_unif_ok, rect_left_values_explicit, rect_left_values_uniform,
    rect_right_closure_explicit, rect_right_closure_uniform, rect_right_expl, rect_right_expl_ok,
    rect_right_unif, rect_right_unif_ok, rect_right_values_explicit, rect_right_values_uniform,
};
use crate::kernels::romberg::{
    pow2_le, romberg_closure_ok, romberg_closure_uniform, romberg_vals, romberg_values_uniform,
    two_to,
};
use crate::kernels::simpson::{
    simpson_closure_expl_ok, simpson_closure_explicit, simpson_closure_unif_ok,
    simpson_closure_uniform, simpson_expl, simpson_unif, simpson_values_explicit,
    simpson_values_uniform,
};
use crate::kernels::trapezoid::{
    trap_closure_expl_ok, trap_closure_unif_ok, trap_expl, trap_unif, trapezoid_closure_explicit,
    trapezoid_closure_uniform, trapezoid_values_explicit, trapezoid_values_uniform,
};
use crate::parameters::{views, ComputeMethod, DomainDescriptor, FunctionDescriptor};
use crate::estimator::{
    error_rect_closure, error_rect_values, error_trap_closure, error_trap_values, rect_err,
    rect_err_closure_ok, trap_err, trap_err_closure_ok,
};
use crate::scalar::Scalar;
use crate::structure::definitions::{Integraal, IntegraalError};

verus! {

/// Whether a required descriptor has not been set.
pub open spec fn missing_params<F: Fn(Scalar) -> Scalar>(s: Integraal<F>) -> bool {
    s.domain is None || s.function is None || s.method is None
}

/// What computing over precomputed values and an explicit domain returns.
pub open spec fn values_expl_spec(
    m: ComputeMethod,
    xs: Seq<Scalar>,
    ys: Seq<Scalar>,
    r: Result<Scalar, IntegraalError>,
) -> bool {
    if ys.len() != xs.len() {
        r matches Err(IntegraalError::InconsistentParameters(_))
    } else {
        match m {
            ComputeMethod::RectangleLeft => r matches Ok(v) && v@ == rect_left_expl(
                views(xs),
                views(ys),
            ),
            ComputeMethod::RectangleRight => r matches Ok(v) && v@ == rect_right_expl(
                views(xs),
                views(ys),
            ),
            ComputeMethod::Trapezoid => r matches Ok(v) && v@ == trap_expl(views(xs), views(ys)),
            ComputeMethod::Simpson => r matches Ok(v) && v@ == simpson_expl(views(xs), views(ys)),
            ComputeMethod::Boole { .. } => r matches Err(IntegraalError::Unimplemented(_)),
            ComputeMethod::Romberg { .. } => r matches Err(IntegraalError::Unimplemented(_)),
            ComputeMethod::MonteCarlo { n_sample } => if n_sample < 1 {
                r matches Err(IntegraalError::BadParameters(_))
            } else {
                r matches Ok(v) && mc_expl_ok(xs, ys, n_sample as int, v@)
            },
        }
    }
}

/// What computing over precomputed values and a uniform domain returns.
pub open spec fn values_unif_spec(
    m: ComputeMethod,
    step: int,
    n: int,
    ys: Seq<Scalar>,
    r: Result<Scalar, IntegraalError>,
) -> bool {
    if ys.len() != n {
        r matches Err(IntegraalError::InconsistentParameters(_))
    } else {
        match m {
            ComputeMethod::RectangleLeft => r matches Ok(v) && v@ == rect_left_unif(
                step,
                views(ys),
                n,
            ),
            ComputeMethod::RectangleRight => r matches Ok(v) && v@ == rect_right_unif(
                step,
                views(ys),
                n,
            ),
            ComputeMethod::Trapezoid => r matches Ok(v) && v@ == trap_unif(step, views(ys), n),
            ComputeMethod::Simpson => r matches Ok(v) && v@ == simpson_unif(step, views(ys), n),
            ComputeMethod::Boole { force } => if boole_ok(force, n) {
                r matches Ok(v) && v@ == boole_unif(step, views(ys), boole_used(force, n))
            } else {
                r matches Err(IntegraalError::BadParameters(_))
            },
            ComputeMethod::Romberg { max_steps } => if 1 <= max_steps <= 63 && 1 <= n && two_to(
                max_steps as int - 1,
            ) <= n {
                r matches Ok(v) && v@ == romberg_vals(step, views(ys), n, max_steps as int)
            } else {
                r matches Err(IntegraalError::BadParameters(_))
            },
            ComputeMethod::MonteCarlo { n_sample } => if n_sample < 1 {
                r matches Err(IntegraalError::BadParameters(_))
            } else {
                r matches Ok(v) && mc_unif_ok(step, ys, n, n_sample as int, v@)
            },
        }
    }
}

/// What computing over a callable and an explicit domain returns.
pub open spec fn closure_expl_spec<F: Fn(Scalar) -> Scalar>(
    m: ComputeMethod,
    f: F,
    xs: Seq<Scalar>,
    r: Result<Scalar, IntegraalError>,
) -> bool {
    match m {
        ComputeMethod::RectangleLeft => r matches Ok(v) && rect_left_expl_ok(f, xs, v@),
        ComputeMethod::RectangleRight => r matches Ok(v) && rect_right_expl_ok(f, xs, v@),
        ComputeMethod::Trapezoid => r matches Ok(v) && trap_closure_expl_ok(f, xs, v@),
        ComputeMethod::Simpson => r matches Ok(v) && simpson_closure_expl_ok(f, xs, v@),
        ComputeMethod::Boole { .. } => r matches Err(IntegraalError::Unimplemented(_)),
        ComputeMethod::Romberg { .. } => r matches Err(IntegraalError::Unimplemented(_)),
        ComputeMethod::MonteCarlo { n_sample } => if n_sample < 1 {
            r matches Err(IntegraalError::BadParameters(_))
        } else {
            r matches Ok(v) && mc_closure_expl_ok(f, xs, n_sample as int, v@)
        },
    }
}

/// What computing over a callable and a uniform domain returns.
pub open spec fn closure_unif_spec<F: Fn(Scalar) -> Scalar>(
    m: ComputeMethod,
    f: F,
    start: Scalar,
    step: int,
    n: int,
    r: Result<Scalar, IntegraalError>,
) -> bool {
    match m {
        ComputeMethod::RectangleLeft => r matches Ok(v) && rect_left_unif_ok(f, start@, step, n, v@),
        ComputeMethod::RectangleRight => r matches Ok(v) && rect_right_unif_ok(
            f,
            start@,
            step,
            n,
            v@,
        ),
        ComputeMethod::Trapezoid => r matches Ok(v) && trap_closure_unif_ok(f, start@, step, n, v@),
        ComputeMethod::Simpson => r matches Ok(v) && simpson_closure_unif_ok(f, start@, step, n, v@),
        ComputeMethod::Boole { force } => if boole_ok(force, n) {
            r matches Ok(v) && boole_closure_ok(f, start@, step, boole_used(force, n), v@)
        } else {
            r matches Err(IntegraalError::BadParameters(_))
        },
        ComputeMethod::Romberg { max_steps } => if 1 <= max_steps <= 63 && 1 <= n {
            r matches Ok(v) && romberg_closure_ok(f, start, step, n, max_steps as int, v@)
        } else {
            r matches Err(IntegraalError::BadParameters(_))
        },
        ComputeMethod::MonteCarlo { n_sample } => if n_sample < 1 {
            r matches Err(IntegraalError::BadParameters(_))
        } else {
            r matches Ok(v) && mc_closure_unif_ok(f, start@, step, n, n_sample as int, v@)
        },
    }
}

/// Kernel family for precomputed values over an explicit domain.
fn values_explicit_arm(vals: &Vec<Scalar>, args: &Vec<Scalar>, method: &ComputeMethod) -> (r:
    Result<Scalar, IntegraalError>)
    ensures
        values_expl_spec(*method, args@, vals@, r),
{
    if args.len() != vals.len() {
        return Err(
            IntegraalError::InconsistentParameters(
                "function and domain value slices have different lengthes",
            ),
        );
    }
    match method {
        ComputeMethod::RectangleLeft => Ok(rect_left_values_explicit(args, vals)),
        ComputeMethod::RectangleRight => Ok(rect_right_values_explicit(args, vals)),
        ComputeMethod::Trapezoid => Ok(trapezoid_values_explicit(args, vals)),
        ComputeMethod::Simpson => Ok(simpson_values_explicit(args, vals)),
        ComputeMethod::Boole { .. } => Err(
            IntegraalError::Unimplemented(
                "Boole's method isn't implemented for non-uniform domains",
            ),
        ),
        ComputeMethod::Romberg { .. } => Err(
            IntegraalError::Unimplemented(
                "Romberg's method isn't implemented for non-uniform domains",
            ),
        ),
        ComputeMethod::MonteCarlo { n_sample } => {
            if *n_sample < 1 {
                Err(
                    IntegraalError::BadParameters(
                        "Monte-Carlo method needs at least one sample per sub-interval",
                    ),
                )
            } else {
                Ok(mc_values_explicit(args, vals, *n_sample))
            }
        },
    }
}

/// Kernel family for precomputed values over a uniform domain.
fn values_uniform_arm(
    vals: &Vec<Scalar>,
    step: Scalar,
    n_step: usize,
    method: &ComputeMethod,
) -> (r: Result<Scalar, IntegraalError>)
    ensures
        values_unif_spec(*method, step@, n_step as int, vals@, r),
{
    if n_step != vals.len() {
        return Err(
            IntegraalError::InconsistentParameters(
                "provided function and domain value slices have different lengthes",
            ),
        );
    }
    match method {
        ComputeMethod::RectangleLeft => Ok(rect_left_values_uniform(step, n_step, vals)),
        ComputeMethod::RectangleRight => Ok(rect_right_values_uniform(step, n_step, vals)),
        ComputeMethod::Trapezoid => Ok(trapezoid_values_uniform(step, n_step, vals)),
        ComputeMethod::Simpson => Ok(simpson_values_uniform(step, n_step, vals)),
        ComputeMethod::Boole { force } => {
            let n_used = if n_step >= 1 && (n_step - 1) % 4 == 0 {
                n_step
            } else if *force && n_step >= 4 {
                n_step - n_step % 4
            } else {
                return Err(
                    IntegraalError::BadParameters(
                        "domain should be divided into a multiple of 4 segments for Boole's method",
                    ),
                );
            };
            Ok(boole_values_uniform(step, n_used, vals))
        },
        ComputeMethod::Romberg { max_steps } => {
            if *max_steps < 1 || *max_steps > 63 || n_step < 1 || !pow2_le(
                (*max_steps - 1) as u64,
                n_step as u64,
            ) {
                return Err(
                    IntegraalError::BadParameters(
                        "iteration budget unusable for the domain's sample count",
                    ),
                );
            }
            Ok(romberg_values_uniform(step, n_step, vals, *max_steps))
        },
        ComputeMethod::MonteCarlo { n_sample } => {
            if *n_sample < 1 {
                Err(
                    IntegraalError::BadParameters(
                        "Monte-Carlo method needs at least one sample per sub-interval",
                    ),
                )
            } else {
                Ok(mc_values_uniform(step, n_step, vals, *n_sample))
            }
        },
    }
}

/// Kernel family for a callable over an explicit domain.
fn closure_explicit_arm<F: Fn(Scalar) -> Scalar>(
    f: &F,
    args: &Vec<Scalar>,
    method: &ComputeMethod,
) -> (r: Result<Scalar, IntegraalError>)
    requires
        forall|x: Scalar| call_requires(*f, (x,)),
    ensures
        closure_expl_spec(*method, *f, args@, r),
{
    match method {
        ComputeMethod::RectangleLeft => Ok(rect_left_closure_explicit(f, args)),
        ComputeMethod::RectangleRight => Ok(rect_right_closure_explicit(f, args)),
        ComputeMethod::Trapezoid => Ok(trapezoid_closure_explicit(f, args)),
        ComputeMethod::Simpson => Ok(simpson_closure_explicit(f, args)),
        ComputeMethod::Boole { .. } => Err(
            IntegraalError::Unimplemented(
                "Boole's method isn't implemented for non-uniform domains",
            ),
        ),
        ComputeMethod::Romberg { .. } => Err(
            IntegraalError::Unimplemented(
                "Romberg's method isn't implemented for non-uniform domains",
            ),
        ),
        ComputeMethod::MonteCarlo { n_sample } => {
            if *n_sample < 1 {
                Err(
                    IntegraalError::BadParameters(
                        "Monte-Carlo method needs at least one sample per sub-interval",
                    ),
                )
            } else {
                Ok(mc_closure_explicit(f, args, *n_sample))
            }
        },
    }
}

/// Kernel family for a callable over a uniform domain.
fn closure_uniform_arm<F: Fn(Scalar) -> Scalar>(
    f: &F,
    start: Scalar,
    step: Scalar,
    n_step: usize,
    method: &ComputeMethod,
) -> (r: Result<Scalar, IntegraalError>)
    requires
        forall|x: Scalar| call_requires(*f, (x,)),
    ensures
        closure_unif_spec(*method, *f, start, step@, n_step as int, r),
{
    match method {
        ComputeMethod::RectangleLeft => Ok(rect_left_closure_uniform(f, start, step, n_step)),
        ComputeMethod::RectangleRight => Ok(rect_right_closure_uniform(f, start, step, n_step)),
        ComputeMethod::Trapezoid => Ok(trapezoid_closure_uniform(f, start, step, n_step)),
        ComputeMethod::Simpson => Ok(simpson_closure_uniform(f, start, step, n_step)),
        ComputeMethod::Boole { force } => {
            let n_used = if n_step >= 1 && (n_step - 1) % 4 == 0 {
                n_step
            } else if *force && n_step >= 4 {
                n_step - n_step % 4
            } else {
                return Err(
                    IntegraalError::BadParameters(
                        "domain should be divided into a multiple of 4 segments for Boole's method",
                    ),
                );
            };
            Ok(boole_closure_uniform(f, start, step, n_used))
        },
        ComputeMethod::Romberg { max_steps } => {
            if *max_steps < 1 || *max_steps > 63 || n_step < 1 {
                return Err(
                    IntegraalError::BadParameters(
                        "iteration budget unusable for the domain's sample count",
                    ),
                );
            }
            Ok(romberg_closure_uniform(f, start, step, n_step, *max_steps))
        },
        ComputeMethod::MonteCarlo { n_sample } => {
            if *n_sample < 1 {
                Err(
                    IntegraalError::BadParameters(
                        "Monte-Carlo method needs at least one sample per sub-interval",
                    ),
                )
            } else {
                Ok(mc_closure_uniform(f, start, step, n_step, *n_sample))
            }
        },
    }
}

impl<F: Fn(Scalar) -> Scalar> Integraal<F> {
    /// Attempt to compute the integral.  All three descriptors must be
    /// set; a success clears the function descriptor and keeps the domain
    /// and the method, so further integrals over the same domain can be
    /// computed; any failure leaves the structure untouched.
    pub fn compute(&mut self) -> (r: Result<Scalar, IntegraalError>)
        requires
            old(self).function matches Some(FunctionDescriptor::Closure(f)) ==> forall|x: Scalar|
                call_requires(f, (x,)),
        ensures
            missing_params(*old(self)) <==> (r matches Err(IntegraalError::MissingParameters(_))),
            r is Err ==> *final(self) == *old(self),
            r is Ok ==> {
                &&& final(self).function is None
                &&& final(self).domain == old(self).domain
                &&& final(self).method == old(self).method
            },
            old(self).function matches Some(FunctionDescriptor::Values(vals)) ==> (old(
                self,
            ).domain matches Some(DomainDescriptor::Explicit(args)) ==> (old(
                self,
            ).method matches Some(m) ==> values_expl_spec(m, args@, vals@, r))),
            old(self).function matches Some(FunctionDescriptor::Values(vals)) ==> (old(
                self,
            ).domain matches Some(DomainDescriptor::Uniform { start, step, n_step }) ==> (old(
                self,
            ).method matches Some(m) ==> values_unif_spec(m, step@, n_step as int, vals@, r))),
            old(self).function matches Some(FunctionDescriptor::Closure(f)) ==> (old(
                self,
            ).domain matches Some(DomainDescriptor::Explicit(args)) ==> (old(
                self,
            ).method matches Some(m) ==> closure_expl_spec(m, f, args@, r))),
            old(self).function matches Some(FunctionDescriptor::Closure(f)) ==> (old(
                self,
            ).domain matches Some(DomainDescriptor::Uniform { start, step, n_step }) ==> (old(
                self,
            ).method matches Some(m) ==> closure_unif_spec(m, f, start, step@, n_step as int, r))),
    {
        if self.function.is_none() || self.domain.is_none() || self.method.is_none() {
            return Err(IntegraalError::MissingParameters("one or more parameter is missing"));
        }
        let method = match &self.method {
            Some(m) => *m,
            None => {
                return Err(IntegraalError::MissingParameters("one or more parameter is missing"));
            },
        };
        let res = match (&self.function, &self.domain) {
            (Some(FunctionDescriptor::Values(vals)), Some(DomainDescriptor::Explicit(args))) => {
                values_explicit_arm(vals, args, &method)
            },
            (
                Some(FunctionDescriptor::Values(vals)),
                Some(DomainDescriptor::Uniform { start: _, step, n_step }),
            ) => values_uniform_arm(vals, *step, *n_step, &method),
            (Some(FunctionDescriptor::Closure(f)), Some(DomainDescriptor::Explicit(args))) => {
                closure_explicit_arm(f, args, &method)
            },
            (
                Some(FunctionDescriptor::Closure(f)),
                Some(DomainDescriptor::Uniform { start, step, n_step }),
            ) => closure_uniform_arm(f, *start, *step, *n_step, &method),
            (_, _) => {
                return Err(IntegraalError::MissingParameters("one or more parameter is missing"));
            },
        };
        match res {
            Ok(v) => {
                self.function = None;
                Ok(v)
            },
            Err(e) => Err(e),
        }
    }
}

/// What estimating the discretization error over precomputed values and
/// a uniform domain returns.
pub open spec fn error_values_spec(
    m: ComputeMethod,
    step: int,
    n: int,
    ys: Seq<Scalar>,
    r: Result<Scalar, IntegraalError>,
) -> bool {
    if ys.len() != n {
        r matches Err(IntegraalError::InconsistentParameters(_))
    } else {
        match m {
            ComputeMethod::RectangleLeft => r matches Ok(v) && v@ == rect_err(step, views(ys), n),
            ComputeMethod::RectangleRight => r matches Ok(v) && v@ == rect_err(step, views(ys), n),
            ComputeMethod::Trapezoid => r matches Ok(v) && v@ == trap_err(step, views(ys), n),
            _ => r matches Err(IntegraalError::Unimplemented(_)),
        }
    }
}

/// What estimating the discretization error over a callable and a
/// uniform domain returns.
pub open spec fn error_closure_spec<F: Fn(Scalar) -> Scalar>(
    m: ComputeMethod,
    f: F,
    start: int,
    step: int,
    n: int,
    r: Result<Scalar, IntegraalError>,
) -> bool {
    match m {
        ComputeMethod::RectangleLeft => r matches Ok(v) && rect_err_closure_ok(f, start, step, n, v@),
        ComputeMethod::RectangleRight => r matches Ok(v) && rect_err_closure_ok(
            f,
            start,
            step,
            n,
            v@,
        ),
        ComputeMethod::Trapezoid => r matches Ok(v) && trap_err_closure_ok(f, start, step, n, v@),
        _ => r matches Err(IntegraalError::Unimplemented(_)),
    }
}

impl<F: Fn(Scalar) -> Scalar> Integraal<F> {
    /// Estimate an analytic bound on the discretization error of the
    /// described integral.  Defined only for uniform domains and the
    /// rectangle and trapezoid methods; never mutates the structure.
    pub fn compute_error(&self) -> (r: Result<Scalar, IntegraalError>)
        requires
            self.function matches Some(FunctionDescriptor::Closure(f)) ==> forall|x: Scalar|
                call_requires(f, (x,)),
        ensures
            missing_params(*self) <==> (r matches Err(IntegraalError::MissingParameters(_))),
            self.domain matches Some(DomainDescriptor::Explicit(xs)) ==> (!missing_params(*self)
                ==> r matches Err(IntegraalError::InconsistentParameters(_))),
            self.function matches Some(FunctionDescriptor::Values(vals)) ==> (self.domain matches
                Some(DomainDescriptor::Uniform { start, step, n_step }) ==> (self.method matches
                Some(m) ==> error_values_spec(m, step@, n_step as int, vals@, r))),
            self.function matches Some(FunctionDescriptor::Closure(f)) ==> (self.domain matches
                Some(DomainDescriptor::Uniform { start, step, n_step }) ==> (self.method matches
                Some(m) ==> error_closure_spec(m, f, start@, step@, n_step as int, r))),
    {
        if self.function.is_none() || self.domain.is_none() || self.method.is_none() {
            return Err(IntegraalError::MissingParameters("one or more parameter is missing"));
        }
        let method = match &self.method {
            Some(m) => *m,
            None => {
                return Err(IntegraalError::MissingParameters("one or more parameter is missing"));
            },
        };
        match (&self.function, &self.domain) {
            (Some(_), Some(DomainDescriptor::Explicit(_))) => Err(
                IntegraalError::InconsistentParameters(
                    "error estimation is only defined for uniform domains",
                ),
            ),
            (
                Some(FunctionDescriptor::Values(vals)),
                Some(DomainDescriptor::Uniform { start: _, step, n_step }),
            ) => {
                if vals.len() != *n_step {
                    return Err(
                        IntegraalError::InconsistentParameters(
                            "provided function and domain value slices have different lengthes",
                        ),
                    );
                }
                match &method {
                    ComputeMethod::RectangleLeft => Ok(error_rect_values(*step, *n_step, vals)),
                    ComputeMethod::RectangleRight => Ok(error_rect_values(*step, *n_step, vals)),
                    ComputeMethod::Trapezoid => Ok(error_trap_values(*step, *n_step, vals)),
                    _ => Err(
                        IntegraalError::Unimplemented(
                            "error estimation isn't implemented for this method",
                        ),
                    ),
                }
            },
            (
                Some(FunctionDescriptor::Closure(f)),
                Some(DomainDescriptor::Uniform { start, step, n_step }),
            ) => {
                match &method {
                    ComputeMethod::RectangleLeft => Ok(
                        error_rect_closure(f, *start, *step, *n_step),
                    ),
                    ComputeMethod::RectangleRight => Ok(
                        error_rect_closure(f, *start, *step, *n_step),
                    ),
                    ComputeMethod::Trapezoid => Ok(error_trap_closure(f, *start, *step, *n_step)),
                    _ => Err(
                        IntegraalError::Unimplemented(
                            "error estimation isn't implemented for this method",
                        ),
                    ),
                }
            },
            (_, _) => Err(IntegraalError::MissingParameters("one or more parameter is missing")),
        }
    }
}

/// After a successful computation the function descriptor is cleared, so
/// a structure whose function descriptor is absent — whatever its domain
/// and method — is refused as missing: computing twice without re-setting
/// the function cannot succeed.
pub proof fn lemma_cleared_function_is_missing<F: Fn(Scalar) -> Scalar>(s: Integraal<F>)
    requires
        s.function is None,
    ensures
        missing_params(s),
{
}

} // verus!
