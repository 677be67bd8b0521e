//! Trapezoid kernels.
//!
//! For each adjacent sample pair the area is
//! `step * (min(y1, y2) + |y1 - y2| / 2)`, algebraically equal to
//! `step * (y1 + y2) / 2` but written without an addition that could
//! cancel, to keep one sign convention when values are negative.

use vstd::prelude::*;

use crate::kernels::uniform::{pos_at, uniform_pos_scalar};
use crate::parameters::views;
use crate::scalar::{fx_abs_sat, fx_add, fx_div_uint, fx_min, fx_mul, fx_sub, Scalar};

verus! {

/// Number of sub-intervals between `n` samples.
pub open spec fn tpairs(n: int) -> int {
    if n <= 0 {
        0
    } else {
        n - 1
    }
}

/// One trapezoid: `(min(y1, y2) + |y1 - y2| / 2) * step`.
pub open spec fn trap_term(y1: int, y2: int, step: int) -> int {
    fx_mul(fx_add(fx_min(y1, y2), fx_div_uint(fx_abs_sat(fx_sub(y1, y2)), 2)), step)
}

/// Trapezoid sum of the first `p` sub-intervals of an explicit domain.
pub open spec fn trap_expl_sum(xs: Seq<int>, ys: Seq<int>, p: int) -> int
    decreases p,
{
    if p <= 0 {
        0
    } else {
        fx_add(trap_expl_sum(xs, ys, p - 1), trap_term(ys[p - 1], ys[p], fx_sub(xs[p], xs[p - 1])))
    }
}

/// Trapezoid result over an explicit domain.
pub open spec fn trap_expl(xs: Seq<int>, ys: Seq<int>) -> int {
    trap_expl_sum(xs, ys, tpairs(xs.len() as int))
}

/// Trapezoid sum of the first `p` sub-intervals of a uniform domain.
pub open spec fn trap_unif_sum(step: int, ys: Seq<int>, p: int) -> int
    decreases p,
{
    if p <= 0 {
        0
    } else {
        fx_add(trap_unif_sum(step, ys, p - 1), trap_term(ys[p - 1], ys[p], step))
    }
}

/// Trapezoid result over a uniform domain of `n` samples.
pub open spec fn trap_unif(step: int, ys: Seq<int>, n: int) -> int {
    trap_unif_sum(step, ys, tpairs(n))
}

/// The callable has outputs under which the explicit-domain result is `r`.
pub open spec fn trap_closure_expl_ok<F: Fn(Scalar) -> Scalar>(
    f: F,
    args: Seq<Scalar>,
    r: int,
) -> bool {
    exists|ys: Seq<Scalar>|
        {
            &&& ys.len() == args.len()
            &&& (forall|i: int| 0 <= i < args.len() ==> call_ensures(f, (args[i],), ys[i]))
            &&& r == trap_expl(views(args), views(ys))
        }
}

/// The callable has outputs under which the uniform-domain result is `r`.
pub open spec fn trap_closure_unif_ok<F: Fn(Scalar) -> Scalar>(
    f: F,
    start: int,
    step: int,
    n: int,
    r: int,
) -> bool {
    exists|ys: Seq<Scalar>|
        {
            &&& ys.len() == n
            &&& (forall|i: int|
                0 <= i < n ==> call_ensures(f, (uniform_pos_scalar(start, step, i),), ys[i]))
            &&& r == trap_unif(step, views(ys), n)
        }
}

proof fn lemma_trap_expl_sum_agree(xs: Seq<int>, a: Seq<int>, b: Seq<int>, p: int)
    requires
        forall|k: int| 0 <= k <= p ==> a[k] == b[k],
    ensures
        trap_expl_sum(xs, a, p) == trap_expl_sum(xs, b, p),
    decreases p,
{
    if p > 0 {
        lemma_trap_expl_sum_agree(xs, a, b, p - 1);
    }
}

proof fn lemma_trap_unif_sum_agree(step: int, a: Seq<int>, b: Seq<int>, p: int)
    requires
        forall|k: int| 0 <= k <= p ==> a[k] == b[k],
    ensures
        trap_unif_sum(step, a, p) == trap_unif_sum(step, b, p),
    decreases p,
{
    if p > 0 {
        lemma_trap_unif_sum_agree(step, a, b, p - 1);
    }
}

/// One trapezoid, on scalars.
fn trap_area(y1: Scalar, y2: Scalar, step: Scalar) -> (r: Scalar)
    ensures
        r@ == trap_term(y1@, y2@, step@),
{
    y1.min(y2).add(y1.sub(y2).abs().div_uint(2)).mul(step)
}

/// Trapezoid rule over precomputed values and an explicit domain.
pub(crate) fn trapezoid_values_explicit(args: &Vec<Scalar>, vals: &Vec<Scalar>) -> (r: Scalar)
    requires
        vals@.len() == args@.len(),
    ensures
        r@ == trap_expl(views(args@), views(vals@)),
{
    let n = args.len();
    let mut acc = Scalar::zero();
    let mut i: usize = 0;
    while i + 1 < n
        invariant
            n == args@.len(),
            vals@.len() == n,
            i + 1 <= n || i == 0,
            acc@ == trap_expl_sum(views(args@), views(vals@), i as int),
        decreases n - i,
    {
        acc = acc.add(trap_area(vals[i], vals[i + 1], args[i + 1].sub(args[i])));
        i = i + 1;
    }
    acc
}

/// Trapezoid rule over precomputed values and a uniform domain.
pub(crate) fn trapezoid_values_uniform(step: Scalar, n_step: usize, vals: &Vec<Scalar>) -> (r:
    Scalar)
    requires
        vals@.len() == n_step,
    ensures
        r@ == trap_unif(step@, views(vals@), n_step as int),
{
    let mut acc = Scalar::zero();
    let mut i: usize = 0;
    while i + 1 < n_step
        invariant
            vals@.len() == n_step,
            i + 1 <= n_step || i == 0,
            acc@ == trap_unif_sum(step@, views(vals@), i as int),
        decreases n_step - i,
    {
        acc = acc.add(trap_area(vals[i], vals[i + 1], step));
        i = i + 1;
    }
    acc
}

/// Trapezoid rule over a callable and an explicit domain; each sample is
/// evaluated exactly once, carried over to the next pair.
pub(crate) fn trapezoid_closure_explicit<F: Fn(Scalar) -> Scalar>(f: &F, args: &Vec<Scalar>) -> (r:
    Scalar)
    requires
        forall|x: Scalar| call_requires(*f, (x,)),
    ensures
        trap_closure_expl_ok(*f, args@, r@),
{
    let n = args.len();
    let mut acc = Scalar::zero();
    if n == 0 {
        proof {
            let full: Seq<Scalar> = Seq::empty();
            assert(acc@ == trap_expl(views(args@), views(full)));
        }
        return acc;
    }
    let mut prev = (*f)(args[0]);
    let ghost mut gys: Seq<Scalar> = seq![prev];
    let mut i: usize = 0;
    while i + 1 < n
        invariant
            forall|x: Scalar| call_requires(*f, (x,)),
            n == args@.len(),
            n >= 1,
            i + 1 <= n,
            gys.len() == i + 1,
            forall|k: int| 0 <= k <= i ==> call_ensures(*f, (args@[k],), gys[k]),
            prev == gys[i as int],
            acc@ == trap_expl_sum(views(args@), views(gys), i as int),
        decreases n - i,
    {
        let y = (*f)(args[i + 1]);
        acc = acc.add(trap_area(prev, y, args[i + 1].sub(args[i])));
        proof {
            let old_gys = gys;
            gys = gys.push(y);
            lemma_trap_expl_sum_agree(views(args@), views(old_gys), views(gys), i as int);
        }
        prev = y;
        i = i + 1;
    }
    proof {
        assert(gys.len() == args@.len());
        assert(acc@ == trap_expl(views(args@), views(gys)));
    }
    acc
}

/// Trapezoid rule over a callable and a uniform domain.
pub(crate) fn trapezoid_closure_uniform<F: Fn(Scalar) -> Scalar>(
    f: &F,
    start: Scalar,
    step: Scalar,
    n_step: usize,
) -> (r: Scalar)
    requires
        forall|x: Scalar| call_requires(*f, (x,)),
    ensures
        trap_closure_unif_ok(*f, start@, step@, n_step as int, r@),
{
    let mut acc = Scalar::zero();
    if n_step == 0 {
        proof {
            let full: Seq<Scalar> = Seq::empty();
            assert(acc@ == trap_unif(step@, views(full), n_step as int));
        }
        return acc;
    }
    let x0 = pos_at(start, step, 0);
    let mut prev = (*f)(x0);
    let ghost mut gys: Seq<Scalar> = seq![prev];
    let mut i: usize = 0;
    while i + 1 < n_step
        invariant
            forall|x: Scalar| call_requires(*f, (x,)),
            n_step >= 1,
            i + 1 <= n_step,
            gys.len() == i + 1,
            forall|k: int|
                0 <= k <= i ==> call_ensures(*f, (uniform_pos_scalar(start@, step@, k),), gys[k]),
            prev == gys[i as int],
            acc@ == trap_unif_sum(step@, views(gys), i as int),
        decreases n_step - i,
    {
        let x = pos_at(start, step, (i + 1) as u64);
        let y = (*f)(x);
        acc = acc.add(trap_area(prev, y, step));
        proof {
            let old_gys = gys;
            gys = gys.push(y);
            lemma_trap_unif_sum_agree(step@, views(old_gys), views(gys), i as int);
        }
        prev = y;
        i = i + 1;
    }
    proof {
        assert(gys.len() == n_step);
        assert(acc@ == trap_unif(step@, views(gys), n_step as int));
    }
    acc
}

} // verus!
