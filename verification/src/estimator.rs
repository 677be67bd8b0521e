//! Discretization-error estimation for uniform domains.
//!
//! The derivative magnitudes the bounds need are estimated by finite
//! differences of the samples.  For the rectangle rules the bound is
//! `M1 * L^2 / (2 * n)` with `M1` the largest first-difference quotient
//! and `L` the domain length; for the trapezoid rule it is
//! `M2 * L^3 / (24 * n^2)` with `M2` built from second differences.

use vstd::prelude::*;

use crate::kernels::uniform::{pos_at, uniform_pos_scalar};
use crate::parameters::views;
use crate::scalar::{
    fx_abs_sat, fx_add, fx_div, fx_div_uint, fx_from_uint, fx_max, fx_mul, fx_mul_int, fx_sub,
    Scalar,
};

verus! {

/// First-difference quotient at sample `i`: `|y[i] - y[i-1]| / |step|`.
pub open spec fn diff1_term(astep: int, ys: Seq<int>, i: int) -> int {
    fx_div(fx_abs_sat(fx_sub(ys[i], ys[i - 1])), astep)
}

/// Largest first-difference quotient among the first `k` samples.
pub open spec fn m1_max(astep: int, ys: Seq<int>, k: int) -> int
    decreases k,
{
    if k <= 1 {
        0
    } else {
        fx_max(m1_max(astep, ys, k - 1), diff1_term(astep, ys, k - 1))
    }
}

/// Error bound for the rectangle rules over `n` uniform samples.
pub open spec fn rect_err(step: int, ys: Seq<int>, n: int) -> int {
    if n < 1 {
        0
    } else {
        let astep = fx_abs_sat(step);
        let l = fx_mul(astep, fx_from_uint(n));
        fx_div_uint(fx_div_uint(fx_mul(fx_mul(m1_max(astep, ys, n), l), l), 2), n)
    }
}

/// Second-difference quotient at sample `i`:
/// `|y[i] - 2*y[i-1] + y[i-2]| / step^2`, formed quotient by quotient.
pub open spec fn diff2_term(astep: int, ys: Seq<int>, i: int) -> int {
    fx_div(
        fx_div(fx_abs_sat(fx_sub(fx_add(ys[i], ys[i - 2]), fx_mul_int(ys[i - 1], 2))), astep),
        astep,
    )
}

/// Largest second-difference quotient among the first `k` samples.
pub open spec fn m2_max(astep: int, ys: Seq<int>, k: int) -> int
    decreases k,
{
    if k <= 2 {
        0
    } else {
        fx_max(m2_max(astep, ys, k - 1), diff2_term(astep, ys, k - 1))
    }
}

/// Error bound for the trapezoid rule over `n` uniform samples.
pub open spec fn trap_err(step: int, ys: Seq<int>, n: int) -> int {
    if n < 1 {
        0
    } else {
        let astep = fx_abs_sat(step);
        let l = fx_mul(astep, fx_from_uint(n));
        fx_div_uint(
            fx_div_uint(fx_div_uint(fx_mul(fx_mul(fx_mul(m2_max(astep, ys, n), l), l), l), 24), n),
            n,
        )
    }
}

/// The callable has outputs under which the rectangle bound is `r`.
pub open spec fn rect_err_closure_ok<F: Fn(Scalar) -> Scalar>(
    f: F,
    start: int,
    step: int,
    n: int,
    r: int,
) -> bool {
    exists|ys: Seq<Scalar>|
        {
            &&& ys.len() == n
            &&& (forall|i: int|
                0 <= i < n ==> call_ensures(f, (uniform_pos_scalar(start, step, i),), ys[i]))
            &&& r == rect_err(step, views(ys), n)
        }
}

/// The callable has outputs under which the trapezoid bound is `r`.
pub open spec fn trap_err_closure_ok<F: Fn(Scalar) -> Scalar>(
    f: F,
    start: int,
    step: int,
    n: int,
    r: int,
) -> bool {
    exists|ys: Seq<Scalar>|
        {
            &&& ys.len() == n
            &&& (forall|i: int|
                0 <= i < n ==> call_ensures(f, (uniform_pos_scalar(start, step, i),), ys[i]))
            &&& r == trap_err(step, views(ys), n)
        }
}

/// Rectangle-rule error bound over precomputed values.
pub(crate) fn error_rect_values(step: Scalar, n_step: usize, vals: &Vec<Scalar>) -> (r: Scalar)
    requires
        vals@.len() == n_step,
    ensures
        r@ == rect_err(step@, views(vals@), n_step as int),
{
    if n_step < 1 {
        return Scalar::zero();
    }
    let astep = step.abs();
    let mut m1 = Scalar::zero();
    let mut i: usize = 1;
    while i < n_step
        invariant
            vals@.len() == n_step,
            n_step >= 1,
            1 <= i,
            i <= n_step || i == 1,
            m1@ == m1_max(astep@, views(vals@), i as int),
        decreases n_step - i,
    {
        m1 = m1.max(vals[i].sub(vals[i - 1]).abs().div(astep));
        i = i + 1;
    }
    let l = astep.mul(Scalar::from_uint(n_step as u64));
    m1.mul(l).mul(l).div_uint(2).div_uint(n_step as u64)
}

/// Trapezoid-rule error bound over precomputed values.
pub(crate) fn error_trap_values(step: Scalar, n_step: usize, vals: &Vec<Scalar>) -> (r: Scalar)
    requires
        vals@.len() == n_step,
    ensures
        r@ == trap_err(step@, views(vals@), n_step as int),
{
    if n_step < 1 {
        return Scalar::zero();
    }
    let astep = step.abs();
    let mut m2 = Scalar::zero();
    let mut i: usize = 2;
    while i < n_step
        invariant
            vals@.len() == n_step,
            n_step >= 1,
            2 <= i,
            i <= n_step || i == 2,
            m2@ == m2_max(astep@, views(vals@), i as int),
        decreases n_step - i,
    {
        m2 = m2.max(vals[i].add(vals[i - 2]).sub(vals[i - 1].mul_int(2)).abs().div(astep).div(
            astep,
        ));
        i = i + 1;
    }
    let l = astep.mul(Scalar::from_uint(n_step as u64));
    m2.mul(l).mul(l).mul(l).div_uint(24).div_uint(n_step as u64).div_uint(n_step as u64)
}

/// Rectangle-rule error bound over a callable, evaluated at the grid.
pub(crate) fn error_rect_closure<F: Fn(Scalar) -> Scalar>(
    f: &F,
    start: Scalar,
    step: Scalar,
    n_step: usize,
) -> (r: Scalar)
    requires
        forall|x: Scalar| call_requires(*f, (x,)),
    ensures
        rect_err_closure_ok(*f, start@, step@, n_step as int, r@),
{
    let mut vals: Vec<Scalar> = Vec::new();
    let mut i: usize = 0;
    while i < n_step
        invariant
            forall|x: Scalar| call_requires(*f, (x,)),
            i <= n_step,
            vals@.len() == i,
            forall|t: int|
                0 <= t < i ==> call_ensures(*f, (uniform_pos_scalar(start@, step@, t),), vals@[t]),
        decreases n_step - i,
    {
        let x = pos_at(start, step, i as u64);
        vals.push((*f)(x));
        i = i + 1;
    }
    let r = error_rect_values(step, n_step, &vals);
    proof {
        assert(vals@.len() == n_step);
        assert(rect_err_closure_ok(*f, start@, step@, n_step as int, r@));
    }
    r
}

/// Trapezoid-rule error bound over a callable, evaluated at the grid.
pub(crate) fn error_trap_closure<F: Fn(Scalar) -> Scalar>(
    f: &F,
    start: Scalar,
    step: Scalar,
    n_step: usize,
) -> (r: Scalar)
    requires
        forall|x: Scalar| call_requires(*f, (x,)),
    ensures
        trap_err_closure_ok(*f, start@, step@, n_step as int, r@),
{
    let mut vals: Vec<Scalar> = Vec::new();
    let mut i: usize = 0;
    while i < n_step
        invariant
            forall|x: Scalar| call_requires(*f, (x,)),
            i <= n_step,
            vals@.len() == i,
            forall|t: int|
                0 <= t < i ==> call_ensures(*f, (uniform_pos_scalar(start@, step@, t),), vals@[t]),
        decreases n_step - i,
    {
        let x = pos_at(start, step, i as u64);
        vals.push((*f)(x));
        i = i + 1;
    }
    let r = error_trap_values(step, n_step, &vals);
    proof {
        assert(vals@.len() == n_step);
        assert(trap_err_closure_ok(*f, start@, step@, n_step as int, r@));
    }
    r
}

} // verus!
