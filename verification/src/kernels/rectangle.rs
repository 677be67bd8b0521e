//! Rectangle (Riemann sum) kernels, left and right rule.
//!
//! Out of `n` samples both rules compute the area of `n - 1` rectangles:
//! the left rule never uses the last sample, the right rule never uses the
//! first one.

use vstd::prelude::*;

use crate::kernels::uniform::{pos_at, uniform_pos_scalar};
use crate::parameters::views;
use crate::scalar::{fx_add, fx_mul, fx_sub, Scalar};

verus! {

/// Number of sub-intervals between `n` samples.
pub open spec fn pairs(n: int) -> int {
    if n <= 0 {
        0
    } else {
        n - 1
    }
}

/// Left-rule sum of the first `p` sub-intervals of an explicit domain.
pub open spec fn rect_left_expl_sum(xs: Seq<int>, ys: Seq<int>, p: int) -> int
    decreases p,
{
    if p <= 0 {
        0
    } else {
        fx_add(rect_left_expl_sum(xs, ys, p - 1), fx_mul(ys[p - 1], fx_sub(xs[p], xs[p - 1])))
    }
}

/// Left-rule result over an explicit domain.
pub open spec fn rect_left_expl(xs: Seq<int>, ys: Seq<int>) -> int {
    rect_left_expl_sum(xs, ys, pairs(xs.len() as int))
}

/// Right-rule sum of the first `p` sub-intervals of an explicit domain.
pub open spec fn rect_right_expl_sum(xs: Seq<int>, ys: Seq<int>, p: int) -> int
    decreases p,
{
    if p <= 0 {
        0
    } else {
        fx_add(rect_right_expl_sum(xs, ys, p - 1), fx_mul(ys[p], fx_sub(xs[p], xs[p - 1])))
    }
}

/// Right-rule result over an explicit domain.
pub open spec fn rect_right_expl(xs: Seq<int>, ys: Seq<int>) -> int {
    rect_right_expl_sum(xs, ys, pairs(xs.len() as int))
}

/// Left-rule sum of the first `p` sub-intervals of a uniform domain.
pub open spec fn rect_left_unif_sum(step: int, ys: Seq<int>, p: int) -> int
    decreases p,
{
    if p <= 0 {
        0
    } else {
        fx_add(rect_left_unif_sum(step, ys, p - 1), fx_mul(ys[p - 1], step))
    }
}

/// Left-rule result over a uniform domain of `n` samples.
pub open spec fn rect_left_unif(step: int, ys: Seq<int>, n: int) -> int {
    rect_left_unif_sum(step, ys, pairs(n))
}

/// Right-rule sum of the first `p` sub-intervals of a uniform domain.
pub open spec fn rect_right_unif_sum(step: int, ys: Seq<int>, p: int) -> int
    decreases p,
{
    if p <= 0 {
        0
    } else {
        fx_add(rect_right_unif_sum(step, ys, p - 1), fx_mul(ys[p], step))
    }
}

/// Right-rule result over a uniform domain of `n` samples.
pub open spec fn rect_right_unif(step: int, ys: Seq<int>, n: int) -> int {
    rect_right_unif_sum(step, ys, pairs(n))
}

/// The callable has outputs under which the left-rule explicit result is `r`.
pub open spec fn rect_left_expl_ok<F: Fn(Scalar) -> Scalar>(f: F, args: Seq<Scalar>, r: int) -> bool {
    exists|ys: Seq<Scalar>|
        {
            &&& ys.len() == args.len()
            &&& (forall|i: int| 0 <= i < args.len() - 1 ==> call_ensures(f, (args[i],), ys[i]))
            &&& r == rect_left_expl(views(args), views(ys))
        }
}

/// The callable has outputs under which the right-rule explicit result is `r`.
pub open spec fn rect_right_expl_ok<F: Fn(Scalar) -> Scalar>(f: F, args: Seq<Scalar>, r: int) -> bool {
    exists|ys: Seq<Scalar>|
        {
            &&& ys.len() == args.len()
            &&& (forall|i: int| 1 <= i < args.len() ==> call_ensures(f, (args[i],), ys[i]))
            &&& r == rect_right_expl(views(args), views(ys))
        }
}

/// The callable has outputs under which the left-rule uniform result is `r`.
pub open spec fn rect_left_unif_ok<F: Fn(Scalar) -> Scalar>(
    f: F,
    start: int,
    step: int,
    n: int,
    r: int,
) -> bool {
    exists|ys: Seq<Scalar>|
        {
            &&& ys.len() == n
            &&& (forall|i: int|
                0 <= i < n - 1 ==> call_ensures(f, (uniform_pos_scalar(start, step, i),), ys[i]))
            &&& r == rect_left_unif(step, views(ys), n)
        }
}

/// The callable has outputs under which the right-rule uniform result is `r`.
pub open spec fn rect_right_unif_ok<F: Fn(Scalar) -> Scalar>(
    f: F,
    start: int,
    step: int,
    n: int,
    r: int,
) -> bool {
    exists|ys: Seq<Scalar>|
        {
            &&& ys.len() == n
            &&& (forall|i: int|
                1 <= i < n ==> call_ensures(f, (uniform_pos_scalar(start, step, i),), ys[i]))
            &&& r == rect_right_unif(step, views(ys), n)
        }
}

proof fn lemma_rect_left_expl_sum_agree(xs: Seq<int>, a: Seq<int>, b: Seq<int>, p: int)
    requires
        forall|k: int| 0 <= k < p ==> a[k] == b[k],
    ensures
        rect_left_expl_sum(xs, a, p) == rect_left_expl_sum(xs, b, p),
    decreases p,
{
    if p > 0 {
        lemma_rect_left_expl_sum_agree(xs, a, b, p - 1);
    }
}

proof fn lemma_rect_right_expl_sum_agree(xs: Seq<int>, a: Seq<int>, b: Seq<int>, p: int)
    requires
        forall|k: int| 0 <= k <= p ==> a[k] == b[k],
    ensures
        rect_right_expl_sum(xs, a, p) == rect_right_expl_sum(xs, b, p),
    decreases p,
{
    if p > 0 {
        lemma_rect_right_expl_sum_agree(xs, a, b, p - 1);
    }
}

proof fn lemma_rect_left_unif_sum_agree(step: int, a: Seq<int>, b: Seq<int>, p: int)
    requires
        forall|k: int| 0 <= k < p ==> a[k] == b[k],
    ensures
        rect_left_unif_sum(step, a, p) == rect_left_unif_sum(step, b, p),
    decreases p,
{
    if p > 0 {
        lemma_rect_left_unif_sum_agree(step, a, b, p - 1);
    }
}

proof fn lemma_rect_right_unif_sum_agree(step: int, a: Seq<int>, b: Seq<int>, p: int)
    requires
        forall|k: int| 0 <= k <= p ==> a[k] == b[k],
    ensures
        rect_right_unif_sum(step, a, p) == rect_right_unif_sum(step, b, p),
    decreases p,
{
    if p > 0 {
        lemma_rect_right_unif_sum_agree(step, a, b, p - 1);
    }
}

/// Left rule over precomputed values and an explicit domain.
pub(crate) fn rect_left_values_explicit(args: &Vec<Scalar>, vals: &Vec<Scalar>) -> (r: Scalar)
    requires
        vals@.len() == args@.len(),
    ensures
        r@ == rect_left_expl(views(args@), views(vals@)),
{
    let n = args.len();
    let mut acc = Scalar::zero();
    let mut i: usize = 0;
    while i + 1 < n
        invariant
            n == args@.len(),
            vals@.len() == n,
            i + 1 <= n || i == 0,
            acc@ == rect_left_expl_sum(views(args@), views(vals@), i as int),
        decreases n - i,
    {
        acc = acc.add(vals[i].mul(args[i + 1].sub(args[i])));
        i = i + 1;
    }
    acc
}

/// Right rule over precomputed values and an explicit domain.
pub(crate) fn rect_right_values_explicit(args: &Vec<Scalar>, vals: &Vec<Scalar>) -> (r: Scalar)
    requires
        vals@.len() == args@.len(),
    ensures
        r@ == rect_right_expl(views(args@), views(vals@)),
{
    let n = args.len();
    let mut acc = Scalar::zero();
    let mut i: usize = 0;
    while i + 1 < n
        invariant
            n == args@.len(),
            vals@.len() == n,
            i + 1 <= n || i == 0,
            acc@ == rect_right_expl_sum(views(args@), views(vals@), i as int),
        decreases n - i,
    {
        acc = acc.add(vals[i + 1].mul(args[i + 1].sub(args[i])));
        i = i + 1;
    }
    acc
}

/// Left rule over precomputed values and a uniform domain.
pub(crate) fn rect_left_values_uniform(step: Scalar, n_step: usize, vals: &Vec<Scalar>) -> (r:
    Scalar)
    requires
        vals@.len() == n_step,
    ensures
        r@ == rect_left_unif(step@, views(vals@), n_step as int),
{
    let mut acc = Scalar::zero();
    let mut i: usize = 0;
    while i + 1 < n_step
        invariant
            vals@.len() == n_step,
            i + 1 <= n_step || i == 0,
            acc@ == rect_left_unif_sum(step@, views(vals@), i as int),
        decreases n_step - i,
    {
        acc = acc.add(vals[i].mul(step));
        i = i + 1;
    }
    acc
}

/// Right rule over precomputed values and a uniform domain.
pub(crate) fn rect_right_values_uniform(step: Scalar, n_step: usize, vals: &Vec<Scalar>) -> (r:
    Scalar)
    requires
        vals@.len() == n_step,
    ensures
        r@ == rect_right_unif(step@, views(vals@), n_step as int),
{
    let mut acc = Scalar::zero();
    let mut i: usize = 0;
    while i + 1 < n_step
        invariant
            vals@.len() == n_step,
            i + 1 <= n_step || i == 0,
            acc@ == rect_right_unif_sum(step@, views(vals@), i as int),
        decreases n_step - i,
    {
        acc = acc.add(vals[i + 1].mul(step));
        i = i + 1;
    }
    acc
}

/// Left rule over a callable and an explicit domain; each used sample is
/// evaluated exactly once, without materializing a value array.
pub(crate) fn rect_left_closure_explicit<F: Fn(Scalar) -> Scalar>(f: &F, args: &Vec<Scalar>) -> (r:
    Scalar)
    requires
        forall|x: Scalar| call_requires(*f, (x,)),
    ensures
        rect_left_expl_ok(*f, args@, r@),
{
    let n = args.len();
    let mut acc = Scalar::zero();
    let mut i: usize = 0;
    let ghost mut gys: Seq<Scalar> = Seq::empty();
    while i + 1 < n
        invariant
            forall|x: Scalar| call_requires(*f, (x,)),
            n == args@.len(),
            i + 1 <= n || i == 0,
            gys.len() == i,
            forall|k: int| 0 <= k < i ==> call_ensures(*f, (args@[k],), gys[k]),
            acc@ == rect_left_expl_sum(views(args@), views(gys), i as int),
        decreases n - i,
    {
        let y = (*f)(args[i]);
        acc = acc.add(y.mul(args[i + 1].sub(args[i])));
        proof {
            let prev = gys;
            gys = gys.push(y);
            lemma_rect_left_expl_sum_agree(views(args@), views(prev), views(gys), i as int);
        }
        i = i + 1;
    }
    proof {
        let full = gys + Seq::new((n - i) as nat, |k: int| (Scalar { bits: 0 }));
        lemma_rect_left_expl_sum_agree(views(args@), views(gys), views(full), i as int);
        assert(full.len() == args@.len());
        assert(acc@ == rect_left_expl(views(args@), views(full)));
        assert(exists|ys: Seq<Scalar>|
            {
                &&& ys.len() == args@.len()
                &&& (forall|j: int|
                    0 <= j < args@.len() - 1 ==> call_ensures(*f, (args@[j],), ys[j]))
                &&& acc@ == rect_left_expl(views(args@), views(ys))
            });
    }
    acc
}

/// Right rule over a callable and an explicit domain.
pub(crate) fn rect_right_closure_explicit<F: Fn(Scalar) -> Scalar>(f: &F, args: &Vec<Scalar>) -> (r:
    Scalar)
    requires
        forall|x: Scalar| call_requires(*f, (x,)),
    ensures
        rect_right_expl_ok(*f, args@, r@),
{
    let n = args.len();
    let mut acc = Scalar::zero();
    let mut i: usize = 0;
    let ghost mut gys: Seq<Scalar> = Seq::new(1, |k: int| (Scalar { bits: 0 }));
    while i + 1 < n
        invariant
            forall|x: Scalar| call_requires(*f, (x,)),
            n == args@.len(),
            i + 1 <= n || i == 0,
            gys.len() == i + 1,
            forall|k: int| 1 <= k <= i ==> call_ensures(*f, (args@[k],), gys[k]),
            acc@ == rect_right_expl_sum(views(args@), views(gys), i as int),
        decreases n - i,
    {
        let y = (*f)(args[i + 1]);
        acc = acc.add(y.mul(args[i + 1].sub(args[i])));
        proof {
            let prev = gys;
            gys = gys.push(y);
            lemma_rect_right_expl_sum_agree(views(args@), views(prev), views(gys), i as int);
        }
        i = i + 1;
    }
    proof {
        let full = if n == 0 {
            Seq::empty()
        } else {
            gys + Seq::new((n - i - 1) as nat, |k: int| (Scalar { bits: 0 }))
        };
        if n > 0 {
            lemma_rect_right_expl_sum_agree(views(gys), views(gys), views(full), i as int);
            lemma_rect_right_expl_sum_agree(views(args@), views(gys), views(full), i as int);
        }
        assert(full.len() == args@.len());
        assert(acc@ == rect_right_expl(views(args@), views(full)));
        assert(exists|ys: Seq<Scalar>|
            {
                &&& ys.len() == args@.len()
                &&& (forall|j: int| 1 <= j < args@.len() ==> call_ensures(*f, (args@[j],), ys[j]))
                &&& acc@ == rect_right_expl(views(args@), views(ys))
            });
    }
    acc
}

/// Left rule over a callable and a uniform domain.
pub(crate) fn rect_left_closure_uniform<F: Fn(Scalar) -> Scalar>(
    f: &F,
    start: Scalar,
    step: Scalar,
    n_step: usize,
) -> (r: Scalar)
    requires
        forall|x: Scalar| call_requires(*f, (x,)),
    ensures
        rect_left_unif_ok(*f, start@, step@, n_step as int, r@),
{
    let mut acc = Scalar::zero();
    let mut i: usize = 0;
    let ghost mut gys: Seq<Scalar> = Seq::empty();
    while i + 1 < n_step
        invariant
            forall|x: Scalar| call_requires(*f, (x,)),
            i + 1 <= n_step || i == 0,
            gys.len() == i,
            forall|k: int|
                0 <= k < i ==> call_ensures(*f, (uniform_pos_scalar(start@, step@, k),), gys[k]),
            acc@ == rect_left_unif_sum(step@, views(gys), i as int),
        decreases n_step - i,
    {
        let x = pos_at(start, step, i as u64);
        let y = (*f)(x);
        acc = acc.add(y.mul(step));
        proof {
            let prev = gys;
            gys = gys.push(y);
            lemma_rect_left_unif_sum_agree(step@, views(prev), views(gys), i as int);
        }
        i = i + 1;
    }
    proof {
        let full = gys + Seq::new((n_step - i) as nat, |k: int| (Scalar { bits: 0 }));
        lemma_rect_left_unif_sum_agree(step@, views(gys), views(full), i as int);
        assert(full.len() == n_step);
        assert(acc@ == rect_left_unif(step@, views(full), n_step as int));
        assert(exists|ys: Seq<Scalar>|
            {
                &&& ys.len() == n_step
                &&& (forall|j: int|
                    0 <= j < n_step - 1 ==> call_ensures(
                        *f,
                        (uniform_pos_scalar(start@, step@, j),),
                        ys[j],
                    ))
                &&& acc@ == rect_left_unif(step@, views(ys), n_step as int)
            });
    }
    acc
}

/// Right rule over a callable and a uniform domain.
pub(crate) fn rect_right_closure_uniform<F: Fn(Scalar) -> Scalar>(
    f: &F,
    start: Scalar,
    step: Scalar,
    n_step: usize,
) -> (r: Scalar)
    requires
        forall|x: Scalar| call_requires(*f, (x,)),
    ensures
        rect_right_unif_ok(*f, start@, step@, n_step as int, r@),
{
    let mut acc = Scalar::zero();
    let mut i: usize = 0;
    let ghost mut gys: Seq<Scalar> = Seq::new(1, |k: int| (Scalar { bits: 0 }));
    while i + 1 < n_step
        invariant
            forall|x: Scalar| call_requires(*f, (x,)),
            i + 1 <= n_step || i == 0,
            gys.len() == i + 1,
            forall|k: int|
                1 <= k <= i ==> call_ensures(*f, (uniform_pos_scalar(start@, step@, k),), gys[k]),
            acc@ == rect_right_unif_sum(step@, views(gys), i as int),
        decreases n_step - i,
    {
        let x = pos_at(start, step, (i + 1) as u64);
        let y = (*f)(x);
        acc = acc.add(y.mul(step));
        proof {
            let prev = gys;
            gys = gys.push(y);
            lemma_rect_right_unif_sum_agree(step@, views(prev), views(gys), i as int);
        }
        i = i + 1;
    }
    proof {
        let full = if n_step == 0 {
            Seq::empty()
        } else {
            gys + Seq::new((n_step - i - 1) as nat, |k: int| (Scalar { bits: 0 }))
        };
        if n_step > 0 {
            lemma_rect_right_unif_sum_agree(step@, views(gys), views(full), i as int);
        }
        assert(full.len() == n_step);
        assert(acc@ == rect_right_unif(step@, views(full), n_step as int));
        assert(exists|ys: Seq<Scalar>|
            {
                &&& ys.len() == n_step
                &&& (forall|j: int|
                    1 <= j < n_step ==> call_ensures(
                        *f,
                        (uniform_pos_scalar(start@, step@, j),),
                        ys[j],
                    ))
                &&& acc@ == rect_right_unif(step@, views(ys), n_step as int)
            });
    }
    acc
}

} // verus!
