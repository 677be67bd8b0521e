//! Boole's rule kernels; defined for uniform domains only.
//!
//! The rule wants the segment count (one less than the sample count) to
//! be a multiple of four.  When it is not, the computation either fails
//! or, when forced, truncates the sample count down to the nearest
//! multiple of four and works on that prefix.  The weighted sum puts 7 on
//! both endpoints, 14 on interior samples at indices divisible by four,
//! 12 on the remaining even indices and 32 on odd indices, scaled by
//! `2 / 45 * step`.

use vstd::prelude::*;

use crate::kernels::uniform::{pos_at, uniform_pos_scalar};
use crate::parameters::views;
use crate::scalar::{fx_add, fx_div_uint, fx_mul, fx_mul_int, Scalar};

verus! {

/// Whether the method accepts a uniform domain of `n` samples.
pub open spec fn boole_ok(force: bool, n: int) -> bool {
    (n >= 1 && (n - 1) % 4 == 0) || (force && n >= 4)
}

/// How many leading samples the computation uses.
pub open spec fn boole_used(force: bool, n: int) -> int {
    if n >= 1 && (n - 1) % 4 == 0 {
        n
    } else {
        n - n % 4
    }
}

/// Weight of an interior sample.
pub open spec fn boole_weight(id: int) -> int {
    if id % 4 == 0 {
        14
    } else if id % 4 == 2 {
        12
    } else {
        32
    }
}

/// Weighted sum of the interior samples at indices `1 .. k`.
pub open spec fn boole_wsum(ys: Seq<int>, k: int) -> int
    decreases k,
{
    if k <= 1 {
        0
    } else {
        fx_add(boole_wsum(ys, k - 1), fx_mul_int(ys[k - 1], boole_weight(k - 1)))
    }
}

/// Boole result over the first `n` samples of a uniform domain, `n >= 1`.
pub open spec fn boole_unif(step: int, ys: Seq<int>, n: int) -> int {
    let m1 = fx_mul_int(fx_add(ys[0], ys[n - 1]), 7);
    let m2 = boole_wsum(ys, n - 1);
    fx_div_uint(fx_mul_int(fx_mul(step, fx_add(m1, m2)), 2), 45)
}

/// The callable has outputs under which the result over the first
/// `n_used` samples is `r`.
pub open spec fn boole_closure_ok<F: Fn(Scalar) -> Scalar>(
    f: F,
    start: int,
    step: int,
    n_used: int,
    r: int,
) -> bool {
    exists|ys: Seq<Scalar>|
        {
            &&& ys.len() == n_used
            &&& (forall|i: int|
                0 <= i < n_used ==> call_ensures(f, (uniform_pos_scalar(start, step, i),), ys[i]))
            &&& r == boole_unif(step, views(ys), n_used)
        }
}

proof fn lemma_boole_wsum_agree(a: Seq<int>, b: Seq<int>, k: int)
    requires
        forall|t: int| 0 <= t < k ==> a[t] == b[t],
    ensures
        boole_wsum(a, k) == boole_wsum(b, k),
    decreases k,
{
    if k > 1 {
        lemma_boole_wsum_agree(a, b, k - 1);
    }
}

/// Weight of an interior sample, executable.
fn boole_weight_of(id: usize) -> (r: i64)
    ensures
        r as int == boole_weight(id as int),
{
    if id % 4 == 0 {
        14
    } else if id % 4 == 2 {
        12
    } else {
        32
    }
}

/// Boole's rule over precomputed values and a uniform domain, restricted
/// to the first `n_used` samples.
pub(crate) fn boole_values_uniform(step: Scalar, n_used: usize, vals: &Vec<Scalar>) -> (r: Scalar)
    requires
        1 <= n_used,
        n_used <= vals@.len(),
    ensures
        r@ == boole_unif(step@, views(vals@), n_used as int),
{
    let m1 = vals[0].add(vals[n_used - 1]).mul_int(7);
    let mut m2 = Scalar::zero();
    let mut id: usize = 1;
    while id < n_used - 1
        invariant
            1 <= n_used,
            n_used <= vals@.len(),
            1 <= id,
            id <= n_used - 1 || id == 1,
            m2@ == boole_wsum(views(vals@), id as int),
        decreases n_used - id,
    {
        m2 = m2.add(vals[id].mul_int(boole_weight_of(id)));
        id = id + 1;
    }
    step.mul(m1.add(m2)).mul_int(2).div_uint(45)
}

/// Boole's rule over a callable and a uniform domain, restricted to the
/// first `n_used` samples; each used sample is evaluated exactly once.
pub(crate) fn boole_closure_uniform<F: Fn(Scalar) -> Scalar>(
    f: &F,
    start: Scalar,
    step: Scalar,
    n_used: usize,
) -> (r: Scalar)
    requires
        forall|x: Scalar| call_requires(*f, (x,)),
        1 <= n_used,
    ensures
        boole_closure_ok(*f, start@, step@, n_used as int, r@),
{
    if n_used == 1 {
        let x0 = pos_at(start, step, 0);
        let y0 = (*f)(x0);
        let m1 = y0.add(y0).mul_int(7);
        let r = step.mul(m1.add(Scalar::zero())).mul_int(2).div_uint(45);
        proof {
            let full = seq![y0];
            assert(r@ == boole_unif(step@, views(full), n_used as int));
        }
        return r;
    }
    let x0 = pos_at(start, step, 0);
    let y0 = (*f)(x0);
    let mut gone = Scalar::zero();
    let ghost mut gint: Seq<Scalar> = Seq::empty();
    let mut id: usize = 1;
    while id < n_used - 1
        invariant
            forall|x: Scalar| call_requires(*f, (x,)),
            2 <= n_used,
            1 <= id,
            id <= n_used - 1,
            gint.len() == id - 1,
            call_ensures(*f, (uniform_pos_scalar(start@, step@, 0),), y0),
            forall|k: int|
                1 <= k < id ==> call_ensures(
                    *f,
                    (uniform_pos_scalar(start@, step@, k),),
                    gint[k - 1],
                ),
            gone@ == boole_wsum(views(seq![y0] + gint), id as int),
        decreases n_used - id,
    {
        let x = pos_at(start, step, id as u64);
        let y = (*f)(x);
        gone = gone.add(y.mul_int(boole_weight_of(id)));
        proof {
            let old_part = seq![y0] + gint;
            gint = gint.push(y);
            lemma_boole_wsum_agree(views(old_part), views(seq![y0] + gint), id as int);
        }
        id = id + 1;
    }
    let xl = pos_at(start, step, (n_used - 1) as u64);
    let yl = (*f)(xl);
    let m1 = y0.add(yl).mul_int(7);
    let r = step.mul(m1.add(gone)).mul_int(2).div_uint(45);
    proof {
        let full = seq![y0] + gint + seq![yl];
        lemma_boole_wsum_agree(views(seq![y0] + gint), views(full), (n_used - 1) as int);
        assert(full.len() == n_used);
        assert(views(full)[0] == y0@);
        assert(views(full)[n_used - 1] == yl@);
        assert(r@ == boole_unif(step@, views(full), n_used as int));
    }
    r
}

} // verus!
