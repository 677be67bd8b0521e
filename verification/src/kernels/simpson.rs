//! Composite Simpson kernels.
//!
//! The rule is applied over non-overlapping pairs of adjacent
//! sub-intervals spanning the whole domain.  With an odd number of
//! sub-intervals the last one is covered by the standard three-point
//! correction term, which keeps the composite rule exact for quadratics.
//! Fewer than three samples admit no Simpson panel at all; the result is
//! then zero.
//!
//! Quotients of neighbouring spacings are formed before any product of
//! spacings, and the division by six is carried out after the panel's
//! weighted sum is scaled by its width, so that intermediate magnitudes
//! stay near one and the fixed-point truncation stays small.

use vstd::prelude::*;

use crate::kernels::uniform::{pos_at, uniform_pos_scalar};
use crate::parameters::views;
use crate::scalar::{fx_add, fx_div, fx_div_uint, fx_from_uint, fx_mul, fx_mul_int, fx_sub, Scalar};

verus! {

/// Weighted three-point term of one panel of an explicit domain; the
/// panel starts at sample `2 * j`.
pub open spec fn simpson_panel_expl(xs: Seq<int>, ys: Seq<int>, j: int) -> int {
    let i = 2 * j;
    let h0 = fx_sub(xs[i + 1], xs[i]);
    let h1 = fx_sub(xs[i + 2], xs[i + 1]);
    let h01 = fx_add(h0, h1);
    let c0 = fx_sub(fx_from_uint(2), fx_div(h1, h0));
    let c1 = fx_mul(fx_div(h01, h0), fx_div(h01, h1));
    let c2 = fx_sub(fx_from_uint(2), fx_div(h0, h1));
    fx_div_uint(
        fx_mul(h01, fx_add(fx_add(fx_mul(c0, ys[i]), fx_mul(c1, ys[i + 1])), fx_mul(c2, ys[i + 2]))),
        6,
    )
}

/// Sum of the first `p` panels of an explicit domain.
pub open spec fn simpson_expl_sum(xs: Seq<int>, ys: Seq<int>, p: int) -> int
    decreases p,
{
    if p <= 0 {
        0
    } else {
        fx_add(simpson_expl_sum(xs, ys, p - 1), simpson_panel_expl(xs, ys, p - 1))
    }
}

/// Correction covering the last sub-interval of an explicit domain when
/// the sub-interval count is odd.
pub open spec fn simpson_corr_expl(xs: Seq<int>, ys: Seq<int>) -> int {
    let n = xs.len() as int;
    let h1 = fx_sub(xs[n - 1], xs[n - 2]);
    let h0 = fx_sub(xs[n - 2], xs[n - 3]);
    let qa = fx_div(fx_add(fx_mul_int(h1, 2), fx_mul_int(h0, 3)), fx_mul_int(fx_add(h0, h1), 6));
    let qb = fx_div(fx_add(h1, fx_mul_int(h0, 3)), fx_mul_int(h0, 6));
    let qe = fx_mul(fx_div(h1, fx_mul_int(h0, 6)), fx_div(h1, fx_add(h0, h1)));
    fx_sub(
        fx_add(fx_mul(fx_mul(h1, qa), ys[n - 1]), fx_mul(fx_mul(h1, qb), ys[n - 2])),
        fx_mul(fx_mul(h1, qe), ys[n - 3]),
    )
}

/// Simpson result over an explicit domain.
pub open spec fn simpson_expl(xs: Seq<int>, ys: Seq<int>) -> int {
    let n = xs.len() as int;
    if n < 3 {
        0
    } else {
        let main = simpson_expl_sum(xs, ys, (n - 1) / 2);
        if (n - 1) % 2 == 1 {
            fx_add(main, simpson_corr_expl(xs, ys))
        } else {
            main
        }
    }
}

/// Unweighted three-point sum of one panel of a uniform domain.
pub open spec fn simpson_panel_unif(ys: Seq<int>, j: int) -> int {
    let i = 2 * j;
    fx_add(fx_add(ys[i], fx_mul_int(ys[i + 1], 4)), ys[i + 2])
}

/// Sum of the first `p` panels of a uniform domain.
pub open spec fn simpson_unif_sum(ys: Seq<int>, p: int) -> int
    decreases p,
{
    if p <= 0 {
        0
    } else {
        fx_add(simpson_unif_sum(ys, p - 1), simpson_panel_unif(ys, p - 1))
    }
}

/// Correction covering the last sub-interval of a uniform domain when the
/// sub-interval count is odd: `step * (5*yl + 8*ym - yk) / 12`.
pub open spec fn simpson_corr_unif(step: int, ys: Seq<int>, n: int) -> int {
    fx_div_uint(
        fx_mul(step, fx_sub(fx_add(fx_mul_int(ys[n - 1], 5), fx_mul_int(ys[n - 2], 8)), ys[n - 3])),
        12,
    )
}

/// Simpson result over a uniform domain of `n` samples.
pub open spec fn simpson_unif(step: int, ys: Seq<int>, n: int) -> int {
    if n < 3 {
        0
    } else {
        let main = fx_div_uint(fx_mul(step, simpson_unif_sum(ys, (n - 1) / 2)), 3);
        if (n - 1) % 2 == 1 {
            fx_add(main, simpson_corr_unif(step, ys, n))
        } else {
            main
        }
    }
}

/// The callable has outputs under which the explicit-domain result is `r`.
pub open spec fn simpson_closure_expl_ok<F: Fn(Scalar) -> Scalar>(
    f: F,
    args: Seq<Scalar>,
    r: int,
) -> bool {
    exists|ys: Seq<Scalar>|
        {
            &&& ys.len() == args.len()
            &&& (args.len() >= 3 ==> (forall|i: int|
                0 <= i < args.len() ==> call_ensures(f, (args[i],), ys[i])))
            &&& r == simpson_expl(views(args), views(ys))
        }
}

/// The callable has outputs under which the uniform-domain result is `r`.
pub open spec fn simpson_closure_unif_ok<F: Fn(Scalar) -> Scalar>(
    f: F,
    start: int,
    step: int,
    n: int,
    r: int,
) -> bool {
    exists|ys: Seq<Scalar>|
        {
            &&& ys.len() == n
            &&& (n >= 3 ==> (forall|i: int|
                0 <= i < n ==> call_ensures(f, (uniform_pos_scalar(start, step, i),), ys[i])))
            &&& r == simpson_unif(step, views(ys), n)
        }
}

proof fn lemma_simpson_expl_sum_agree(xs: Seq<int>, a: Seq<int>, b: Seq<int>, p: int)
    requires
        forall|k: int| 0 <= k <= 2 * p ==> a[k] == b[k],
    ensures
        simpson_expl_sum(xs, a, p) == simpson_expl_sum(xs, b, p),
    decreases p,
{
    if p > 0 {
        lemma_simpson_expl_sum_agree(xs, a, b, p - 1);
    }
}

proof fn lemma_simpson_unif_sum_agree(a: Seq<int>, b: Seq<int>, p: int)
    requires
        forall|k: int| 0 <= k <= 2 * p ==> a[k] == b[k],
    ensures
        simpson_unif_sum(a, p) == simpson_unif_sum(b, p),
    decreases p,
{
    if p > 0 {
        lemma_simpson_unif_sum_agree(a, b, p - 1);
    }
}

/// Weighted three-point term of one explicit panel, on scalars.
fn simpson_area(
    x0: Scalar,
    x1: Scalar,
    x2: Scalar,
    y0: Scalar,
    y1: Scalar,
    y2: Scalar,
) -> (r: Scalar)
    ensures
        ({
            let h0 = fx_sub(x1@, x0@);
            let h1 = fx_sub(x2@, x1@);
            let h01 = fx_add(h0, h1);
            let c0 = fx_sub(fx_from_uint(2), fx_div(h1, h0));
            let c1 = fx_mul(fx_div(h01, h0), fx_div(h01, h1));
            let c2 = fx_sub(fx_from_uint(2), fx_div(h0, h1));
            r@ == fx_div_uint(
                fx_mul(h01, fx_add(fx_add(fx_mul(c0, y0@), fx_mul(c1, y1@)), fx_mul(c2, y2@))),
                6,
            )
        }),
{
    let h0 = x1.sub(x0);
    let h1 = x2.sub(x1);
    let h01 = h0.add(h1);
    let two = Scalar::from_uint(2);
    let c0 = two.sub(h1.div(h0));
    let c1 = h01.div(h0).mul(h01.div(h1));
    let c2 = two.sub(h0.div(h1));
    h01.mul(c0.mul(y0).add(c1.mul(y1)).add(c2.mul(y2))).div_uint(6)
}

/// Correction term of an explicit domain, on scalars.
fn simpson_corr_area(
    xk: Scalar,
    xm: Scalar,
    xl: Scalar,
    yk: Scalar,
    ym: Scalar,
    yl: Scalar,
) -> (r: Scalar)
    ensures
        ({
            let h1 = fx_sub(xl@, xm@);
            let h0 = fx_sub(xm@, xk@);
            let qa = fx_div(
                fx_add(fx_mul_int(h1, 2), fx_mul_int(h0, 3)),
                fx_mul_int(fx_add(h0, h1), 6),
            );
            let qb = fx_div(fx_add(h1, fx_mul_int(h0, 3)), fx_mul_int(h0, 6));
            let qe = fx_mul(fx_div(h1, fx_mul_int(h0, 6)), fx_div(h1, fx_add(h0, h1)));
            r@ == fx_sub(
                fx_add(fx_mul(fx_mul(h1, qa), yl@), fx_mul(fx_mul(h1, qb), ym@)),
                fx_mul(fx_mul(h1, qe), yk@),
            )
        }),
{
    let h1 = xl.sub(xm);
    let h0 = xm.sub(xk);
    let qa = h1.mul_int(2).add(h0.mul_int(3)).div(h0.add(h1).mul_int(6));
    let qb = h1.add(h0.mul_int(3)).div(h0.mul_int(6));
    let qe = h1.div(h0.mul_int(6)).mul(h1.div(h0.add(h1)));
    h1.mul(qa).mul(yl).add(h1.mul(qb).mul(ym)).sub(h1.mul(qe).mul(yk))
}

/// Simpson rule over precomputed values and an explicit domain.
pub(crate) fn simpson_values_explicit(args: &Vec<Scalar>, vals: &Vec<Scalar>) -> (r: Scalar)
    requires
        vals@.len() == args@.len(),
    ensures
        r@ == simpson_expl(views(args@), views(vals@)),
{
    let n = args.len();
    if n < 3 {
        return Scalar::zero();
    }
    let mut acc = Scalar::zero();
    let mut j: usize = 0;
    while 2 * j < n - 2
        invariant
            n == args@.len(),
            vals@.len() == n,
            n >= 3,
            2 * j <= n - 1,
            acc@ == simpson_expl_sum(views(args@), views(vals@), j as int),
        decreases n - 2 * j,
    {
        let i = 2 * j;
        acc = acc.add(
            simpson_area(args[i], args[i + 1], args[i + 2], vals[i], vals[i + 1], vals[i + 2]),
        );
        j = j + 1;
    }
    proof {
        assert(j as int == (n - 1) / 2);
    }
    if (n - 1) % 2 == 1 {
        acc = acc.add(
            simpson_corr_area(
                args[n - 3],
                args[n - 2],
                args[n - 1],
                vals[n - 3],
                vals[n - 2],
                vals[n - 1],
            ),
        );
    }
    acc
}

/// Simpson rule over precomputed values and a uniform domain.
pub(crate) fn simpson_values_uniform(step: Scalar, n_step: usize, vals: &Vec<Scalar>) -> (r: Scalar)
    requires
        vals@.len() == n_step,
    ensures
        r@ == simpson_unif(step@, views(vals@), n_step as int),
{
    let n = n_step;
    if n < 3 {
        return Scalar::zero();
    }
    let mut acc = Scalar::zero();
    let mut j: usize = 0;
    while 2 * j < n - 2
        invariant
            vals@.len() == n,
            n >= 3,
            2 * j <= n - 1,
            acc@ == simpson_unif_sum(views(vals@), j as int),
        decreases n - 2 * j,
    {
        let i = 2 * j;
        acc = acc.add(vals[i].add(vals[i + 1].mul_int(4)).add(vals[i + 2]));
        j = j + 1;
    }
    proof {
        assert(j as int == (n - 1) / 2);
    }
    let mut res = step.mul(acc).div_uint(3);
    if (n - 1) % 2 == 1 {
        res = res.add(
            step.mul(vals[n - 1].mul_int(5).add(vals[n - 2].mul_int(8)).sub(vals[n - 3])).div_uint(
                12,
            ),
        );
    }
    res
}

/// Simpson rule over a callable and an explicit domain; each sample is
/// evaluated exactly once, the shared panel edges carried over.
pub(crate) fn simpson_closure_explicit<F: Fn(Scalar) -> Scalar>(f: &F, args: &Vec<Scalar>) -> (r:
    Scalar)
    requires
        forall|x: Scalar| call_requires(*f, (x,)),
    ensures
        simpson_closure_expl_ok(*f, args@, r@),
{
    let n = args.len();
    if n < 3 {
        let acc = Scalar::zero();
        proof {
            let full = Seq::new(n as nat, |k: int| (Scalar { bits: 0 }));
            assert(acc@ == simpson_expl(views(args@), views(full)));
        }
        return acc;
    }
    let mut acc = Scalar::zero();
    let mut prev = (*f)(args[0]);
    let mut carry = prev;
    let ghost mut gys: Seq<Scalar> = seq![prev];
    let mut j: usize = 0;
    while 2 * j < n - 2
        invariant
            forall|x: Scalar| call_requires(*f, (x,)),
            n == args@.len(),
            n >= 3,
            2 * j <= n - 1,
            gys.len() == 2 * j + 1,
            forall|k: int| 0 <= k <= 2 * j ==> call_ensures(*f, (args@[k],), gys[k]),
            prev == gys[2 * j as int],
            carry == gys[if 2 * j == 0 { 0int } else { 2 * j as int - 1 }],
            acc@ == simpson_expl_sum(views(args@), views(gys), j as int),
        decreases n - 2 * j,
    {
        let i = 2 * j;
        let ya = (*f)(args[i + 1]);
        let yb = (*f)(args[i + 2]);
        acc = acc.add(simpson_area(args[i], args[i + 1], args[i + 2], prev, ya, yb));
        proof {
            let old_gys = gys;
            gys = gys.push(ya).push(yb);
            lemma_simpson_expl_sum_agree(views(args@), views(old_gys), views(gys), j as int);
        }
        carry = ya;
        prev = yb;
        j = j + 1;
    }
    proof {
        assert(j as int == (n - 1) / 2);
    }
    if (n - 1) % 2 == 1 {
        let yl = (*f)(args[n - 1]);
        acc = acc.add(
            simpson_corr_area(args[n - 3], args[n - 2], args[n - 1], carry, prev, yl),
        );
        proof {
            let old_gys = gys;
            gys = gys.push(yl);
            lemma_simpson_expl_sum_agree(views(args@), views(old_gys), views(gys), j as int);
        }
    }
    proof {
        assert(gys.len() == args@.len());
        assert(acc@ == simpson_expl(views(args@), views(gys)));
    }
    acc
}

/// Simpson rule over a callable and a uniform domain.
pub(crate) fn simpson_closure_uniform<F: Fn(Scalar) -> Scalar>(
    f: &F,
    start: Scalar,
    step: Scalar,
    n_step: usize,
) -> (r: Scalar)
    requires
        forall|x: Scalar| call_requires(*f, (x,)),
    ensures
        simpson_closure_unif_ok(*f, start@, step@, n_step as int, r@),
{
    let n = n_step;
    if n < 3 {
        let acc = Scalar::zero();
        proof {
            let full = Seq::new(n as nat, |k: int| (Scalar { bits: 0 }));
            assert(acc@ == simpson_unif(step@, views(full), n as int));
        }
        return acc;
    }
    let mut acc = Scalar::zero();
    let x0 = pos_at(start, step, 0);
    let mut prev = (*f)(x0);
    let mut carry = prev;
    let ghost mut gys: Seq<Scalar> = seq![prev];
    let mut j: usize = 0;
    while 2 * j < n - 2
        invariant
            forall|x: Scalar| call_requires(*f, (x,)),
            n >= 3,
            2 * j <= n - 1,
            gys.len() == 2 * j + 1,
            forall|k: int|
                0 <= k <= 2 * j ==> call_ensures(*f, (uniform_pos_scalar(start@, step@, k),), gys[k]),
            prev == gys[2 * j as int],
            carry == gys[if 2 * j == 0 { 0int } else { 2 * j as int - 1 }],
            acc@ == simpson_unif_sum(views(gys), j as int),
        decreases n - 2 * j,
    {
        let i = 2 * j;
        let xa = pos_at(start, step, (i + 1) as u64);
        let xb = pos_at(start, step, (i + 2) as u64);
        let ya = (*f)(xa);
        let yb = (*f)(xb);
        acc = acc.add(prev.add(ya.mul_int(4)).add(yb));
        proof {
            let old_gys = gys;
            gys = gys.push(ya).push(yb);
            lemma_simpson_unif_sum_agree(views(old_gys), views(gys), j as int);
        }
        carry = ya;
        prev = yb;
        j = j + 1;
    }
    proof {
        assert(j as int == (n - 1) / 2);
    }
    let mut res = step.mul(acc).div_uint(3);
    if (n - 1) % 2 == 1 {
        let xl = pos_at(start, step, (n - 1) as u64);
        let yl = (*f)(xl);
        res = res.add(step.mul(yl.mul_int(5).add(prev.mul_int(8)).sub(carry)).div_uint(12));
        proof {
            let old_gys = gys;
            gys = gys.push(yl);
            lemma_simpson_unif_sum_agree(views(old_gys), views(gys), j as int);
        }
    }
    proof {
        assert(gys.len() == n_step);
        assert(res@ == simpson_unif(step@, views(gys), n_step as int));
    }
    res
}

} // verus!
