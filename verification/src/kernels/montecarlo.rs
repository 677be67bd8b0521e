//! Monte-Carlo kernels: the only method that consumes randomness.
//!
//! The value range of the supplied samples is scanned once; for each
//! sub-division `n_sample` points are drawn uniformly from that global
//! range, and the points falling between zero and the local sample value
//! are counted.  Nothing can be promised of a single draw, so each
//! kernel's contract states the result as a function of some sequence of
//! draws, each an arbitrary 32-bit fraction.

use vstd::prelude::*;

use crate::kernels::uniform::{pos_at, uniform_pos_scalar};
use crate::parameters::views;
use crate::random::random_u32;
use crate::scalar::{
    fx_add, fx_div, fx_from_uint, fx_hi, fx_max, fx_min, fx_mul, fx_sub, Scalar, FX_HI,
};

verus! {

/// Least value among the first `k` samples, `k >= 1`.
pub open spec fn seq_min(ys: Seq<int>, k: int) -> int
    decreases k,
{
    if k <= 1 {
        ys[0]
    } else {
        fx_min(seq_min(ys, k - 1), ys[k - 1])
    }
}

/// Greatest value among the first `k` samples, `k >= 1`.
pub open spec fn seq_max(ys: Seq<int>, k: int) -> int
    decreases k,
{
    if k <= 1 {
        ys[0]
    } else {
        fx_max(seq_max(ys, k - 1), ys[k - 1])
    }
}

proof fn lemma_seq_min_le_max(ys: Seq<int>, k: int)
    ensures
        seq_min(ys, k) <= seq_max(ys, k),
    decreases k,
{
    if k > 1 {
        lemma_seq_min_le_max(ys, k - 1);
    }
}

/// The value drawn for fraction `u` of the range `[mn, mx]`.
pub open spec fn mc_sample(mn: int, mx: int, u: int) -> int {
    fx_add(mn, (fx_sub(mx, mn) * u) / 0x1_0000_0000)
}

/// Whether a drawn value falls in the half-open band `[lo, hi)`.
pub open spec fn mc_in(lo: int, hi: int, v: int) -> bool {
    lo <= v && v < hi
}

/// How many of the first `k` draws fall between zero and the local value.
pub open spec fn mc_count(mn: int, mx: int, us: Seq<int>, lo: int, hi: int, k: int) -> int
    decreases k,
{
    if k <= 0 {
        0
    } else {
        mc_count(mn, mx, us, lo, hi, k - 1) + (if mc_in(lo, hi, mc_sample(mn, mx, us[k - 1])) {
            1int
        } else {
            0int
        })
    }
}

/// Width-weighted sum of the hit counts of the first `p` sub-intervals
/// of an explicit domain.
pub open spec fn mc_expl_total(
    xs: Seq<int>,
    ys: Seq<int>,
    mn: int,
    mx: int,
    uss: Seq<Seq<int>>,
    ns: int,
    p: int,
) -> int
    decreases p,
{
    if p <= 0 {
        0
    } else {
        fx_add(
            mc_expl_total(xs, ys, mn, mx, uss, ns, p - 1),
            fx_mul(
                fx_from_uint(
                    mc_count(mn, mx, uss[p - 1], fx_min(ys[p - 1], 0), fx_max(ys[p - 1], 0), ns),
                ),
                fx_sub(xs[p], xs[p - 1]),
            ),
        )
    }
}

/// Monte-Carlo result over an explicit domain, given the draws.
pub open spec fn mc_expl(xs: Seq<int>, ys: Seq<int>, uss: Seq<Seq<int>>, ns: int) -> int {
    let n = xs.len() as int;
    if n == 0 {
        0
    } else {
        let mn = seq_min(ys, n);
        let mx = seq_max(ys, n);
        fx_div(
            fx_mul(fx_sub(mx, mn), mc_expl_total(xs, ys, mn, mx, uss, ns, n - 1)),
            fx_from_uint(ns * (n - 1)),
        )
    }
}

/// Total hit count of the first `p` samples of a uniform domain.
pub open spec fn mc_unif_total(
    ys: Seq<int>,
    mn: int,
    mx: int,
    uss: Seq<Seq<int>>,
    ns: int,
    p: int,
) -> int
    decreases p,
{
    if p <= 0 {
        0
    } else {
        mc_unif_total(ys, mn, mx, uss, ns, p - 1) + mc_count(
            mn,
            mx,
            uss[p - 1],
            fx_min(ys[p - 1], 0),
            fx_max(ys[p - 1], 0),
            ns,
        )
    }
}

/// Monte-Carlo result over a uniform domain, given the draws.
pub open spec fn mc_unif(step: int, ys: Seq<int>, n: int, uss: Seq<Seq<int>>, ns: int) -> int {
    if n == 0 {
        0
    } else {
        let mn = seq_min(ys, n);
        let mx = seq_max(ys, n);
        let volume = fx_mul(fx_sub(mx, mn), fx_mul(fx_from_uint(n), step));
        fx_mul(
            volume,
            fx_div(
                fx_from_uint(mc_unif_total(ys, mn, mx, uss, ns, n)),
                fx_from_uint(ns * n),
            ),
        )
    }
}

proof fn lemma_mc_count_nonneg(mn: int, mx: int, us: Seq<int>, lo: int, hi: int, k: int)
    ensures
        0 <= mc_count(mn, mx, us, lo, hi, k) <= (if k <= 0 {
            0int
        } else {
            k
        }),
    decreases k,
{
    if k > 0 {
        lemma_mc_count_nonneg(mn, mx, us, lo, hi, k - 1);
    }
}

proof fn lemma_mc_count_agree(mn: int, mx: int, a: Seq<int>, b: Seq<int>, lo: int, hi: int, k: int)
    requires
        forall|t: int| 0 <= t < k ==> a[t] == b[t],
    ensures
        mc_count(mn, mx, a, lo, hi, k) == mc_count(mn, mx, b, lo, hi, k),
    decreases k,
{
    if k > 0 {
        lemma_mc_count_agree(mn, mx, a, b, lo, hi, k - 1);
    }
}

proof fn lemma_mc_expl_total_agree(
    xs: Seq<int>,
    ys: Seq<int>,
    mn: int,
    mx: int,
    a: Seq<Seq<int>>,
    b: Seq<Seq<int>>,
    ns: int,
    p: int,
)
    requires
        forall|t: int| 0 <= t < p ==> a[t] == b[t],
    ensures
        mc_expl_total(xs, ys, mn, mx, a, ns, p) == mc_expl_total(xs, ys, mn, mx, b, ns, p),
    decreases p,
{
    if p > 0 {
        lemma_mc_expl_total_agree(xs, ys, mn, mx, a, b, ns, p - 1);
    }
}

proof fn lemma_mc_unif_total_agree(
    ys: Seq<int>,
    mn: int,
    mx: int,
    a: Seq<Seq<int>>,
    b: Seq<Seq<int>>,
    ns: int,
    p: int,
)
    requires
        forall|t: int| 0 <= t < p ==> a[t] == b[t],
    ensures
        mc_unif_total(ys, mn, mx, a, ns, p) == mc_unif_total(ys, mn, mx, b, ns, p),
    decreases p,
{
    if p > 0 {
        lemma_mc_unif_total_agree(ys, mn, mx, a, b, ns, p - 1);
    }
}

/// There are draws under which the explicit-domain result is `r`.
pub open spec fn mc_expl_ok(xs: Seq<Scalar>, ys: Seq<Scalar>, ns: int, r: int) -> bool {
    exists|uss: Seq<Seq<int>>|
        #![trigger mc_expl(views(xs), views(ys), uss, ns)]
        {
            &&& uss.len() == (if xs.len() == 0 {
                0int
            } else {
                xs.len() - 1
            })
            &&& (forall|i: int| 0 <= i < uss.len() ==> (#[trigger] uss[i]).len() == ns)
            &&& (forall|i: int, j: int|
                0 <= i < uss.len() && 0 <= j < ns ==> 0 <= #[trigger] uss[i][j] < 0x1_0000_0000)
            &&& r == mc_expl(views(xs), views(ys), uss, ns)
        }
}

/// There are draws under which the uniform-domain result is `r`.
pub open spec fn mc_unif_ok(step: int, ys: Seq<Scalar>, n: int, ns: int, r: int) -> bool {
    exists|uss: Seq<Seq<int>>|
        #![trigger mc_unif(step, views(ys), n, uss, ns)]
        {
            &&& uss.len() == n
            &&& (forall|i: int| 0 <= i < uss.len() ==> (#[trigger] uss[i]).len() == ns)
            &&& (forall|i: int, j: int|
                0 <= i < uss.len() && 0 <= j < ns ==> 0 <= #[trigger] uss[i][j] < 0x1_0000_0000)
            &&& r == mc_unif(step, views(ys), n, uss, ns)
        }
}

/// The callable has outputs under which the explicit-domain result is `r`.
pub open spec fn mc_closure_expl_ok<F: Fn(Scalar) -> Scalar>(
    f: F,
    xs: Seq<Scalar>,
    ns: int,
    r: int,
) -> bool {
    exists|ys: Seq<Scalar>|
        #![trigger mc_expl_ok(xs, ys, ns, r)]
        {
            &&& ys.len() == xs.len()
            &&& (forall|i: int| 0 <= i < xs.len() ==> call_ensures(f, (xs[i],), ys[i]))
            &&& mc_expl_ok(xs, ys, ns, r)
        }
}

/// The callable has outputs under which the uniform-domain result is `r`.
pub open spec fn mc_closure_unif_ok<F: Fn(Scalar) -> Scalar>(
    f: F,
    start: int,
    step: int,
    n: int,
    ns: int,
    r: int,
) -> bool {
    exists|ys: Seq<Scalar>|
        #![trigger mc_unif_ok(step, ys, n, ns, r)]
        {
            &&& ys.len() == n
            &&& (forall|i: int|
                0 <= i < n ==> call_ensures(f, (uniform_pos_scalar(start, step, i),), ys[i]))
            &&& mc_unif_ok(step, ys, n, ns, r)
        }
}

/// The scalar value of a possibly huge count, saturated.
fn count_to_scalar(c: u128) -> (r: Scalar)
    ensures
        r@ == fx_from_uint(c as int),
{
    if c > 0xffff_ffff_ffff_ffffu128 {
        proof {
            assert((c as int) * 0x1_0000_0000 > fx_hi()) by (nonlinear_arith)
                requires
                    (c as int) > 0xffff_ffff_ffff_ffffint,
            ;
        }
        Scalar { bits: FX_HI }
    } else {
        Scalar::from_uint(c as u64)
    }
}

/// Draw one value uniformly from `[mn, mx]`, at 32-bit resolution.
fn draw_between(mn: Scalar, mx: Scalar) -> (r: (Scalar, Ghost<int>))
    requires
        mn@ <= mx@,
    ensures
        0 <= r.1@ < 0x1_0000_0000,
        r.0@ == mc_sample(mn@, mx@, r.1@),
{
    let u = random_u32();
    let d = mx.sub(mn);
    proof {
        assert((d.bits as int) * (u as int) <= (d.bits as int) * 0xffff_ffffint)
            by (nonlinear_arith)
            requires
                0 <= (d.bits as int),
                0 <= (u as int) <= 0xffff_ffffint,
        ;
        assert((d.bits as int) * 0xffff_ffffint <= 0x7fff_ffff_ffff_ffffint * 0xffff_ffffint)
            by (nonlinear_arith)
            requires
                (d.bits as int) <= 0x7fff_ffff_ffff_ffffint,
                0 <= (d.bits as int),
            ;
    }
    let q: u128 = (d.bits as u128 * u as u128) / 0x1_0000_0000u128;
    let frac = Scalar { bits: q as i64 };
    (mn.add(frac), Ghost(u as int))
}

/// Monte-Carlo over precomputed values and an explicit domain.
pub(crate) fn mc_values_explicit(args: &Vec<Scalar>, vals: &Vec<Scalar>, n_sample: usize) -> (r:
    Scalar)
    requires
        vals@.len() == args@.len(),
        1 <= n_sample,
    ensures
        mc_expl_ok(args@, vals@, n_sample as int, r@),
{
    let n = args.len();
    if n == 0 {
        let r = Scalar::zero();
        proof {
            let uss: Seq<Seq<int>> = Seq::empty();
            assert(r@ == mc_expl(views(args@), views(vals@), uss, n_sample as int));
        }
        return r;
    }
    let mut mn = vals[0];
    let mut mx = vals[0];
    let mut i: usize = 1;
    while i < n
        invariant
            vals@.len() == n,
            1 <= i <= n,
            mn@ == seq_min(views(vals@), i as int),
            mx@ == seq_max(views(vals@), i as int),
        decreases n - i,
    {
        mn = mn.min(vals[i]);
        mx = mx.max(vals[i]);
        i = i + 1;
    }
    proof {
        lemma_seq_min_le_max(views(vals@), n as int);
    }
    let mut total = Scalar::zero();
    let ghost mut guss: Seq<Seq<int>> = Seq::empty();
    let mut k: usize = 0;
    while k + 1 < n
        invariant
            n == args@.len(),
            vals@.len() == n,
            n >= 1,
            1 <= n_sample,
            k + 1 <= n,
            mn@ == seq_min(views(vals@), n as int),
            mx@ == seq_max(views(vals@), n as int),
            mn@ <= mx@,
            guss.len() == k,
            forall|t: int| 0 <= t < k ==> (#[trigger] guss[t]).len() == n_sample,
            forall|t: int, j: int|
                0 <= t < k && 0 <= j < n_sample ==> 0 <= #[trigger] guss[t][j] < 0x1_0000_0000,
            total@ == mc_expl_total(
                views(args@),
                views(vals@),
                mn@,
                mx@,
                guss,
                n_sample as int,
                k as int,
            ),
        decreases n - k,
    {
        let lo = vals[k].min(Scalar::zero());
        let hi = vals[k].max(Scalar::zero());
        let mut cnt: u64 = 0;
        let mut j: usize = 0;
        let ghost mut grow: Seq<int> = Seq::empty();
        while j < n_sample
            invariant
                mn@ <= mx@,
                j <= n_sample,
                cnt as int <= j,
                grow.len() == j,
                forall|t: int| 0 <= t < j ==> 0 <= #[trigger] grow[t] < 0x1_0000_0000,
                cnt as int == mc_count(mn@, mx@, grow, lo@, hi@, j as int),
            decreases n_sample - j,
        {
            let (s, u) = draw_between(mn, mx);
            if lo.le(s) && s.lt(hi) {
                cnt = cnt + 1;
            }
            proof {
                let old_grow = grow;
                grow = grow.push(u@);
                lemma_mc_count_agree(mn@, mx@, old_grow, grow, lo@, hi@, j as int);
            }
            j = j + 1;
        }
        total = total.add(Scalar::from_uint(cnt).mul(args[k + 1].sub(args[k])));
        proof {
            let old_guss = guss;
            guss = guss.push(grow);
            lemma_mc_expl_total_agree(
                views(args@),
                views(vals@),
                mn@,
                mx@,
                old_guss,
                guss,
                n_sample as int,
                k as int,
            );
        }
        k = k + 1;
    }
    proof {
        assert((n_sample as int) * (n as int - 1) < 0x1_0000_0000_0000_0000_0000_0000_0000_0000int)
            by (nonlinear_arith)
            requires
                0 <= (n_sample as int) < 0x1_0000_0000_0000_0000int,
                0 <= (n as int - 1) < 0x1_0000_0000_0000_0000int,
        ;
    }
    let denom = count_to_scalar(n_sample as u128 * (n as u128 - 1));
    let r = mx.sub(mn).mul(total).div(denom);
    proof {
        assert(r@ == mc_expl(views(args@), views(vals@), guss, n_sample as int));
    }
    r
}

/// Monte-Carlo over precomputed values and a uniform domain.
pub(crate) fn mc_values_uniform(step: Scalar, n_step: usize, vals: &Vec<Scalar>, n_sample: usize) -> (r:
    Scalar)
    requires
        vals@.len() == n_step,
        1 <= n_sample,
    ensures
        mc_unif_ok(step@, vals@, n_step as int, n_sample as int, r@),
{
    let n = n_step;
    if n == 0 {
        let r = Scalar::zero();
        proof {
            let uss: Seq<Seq<int>> = Seq::empty();
            assert(r@ == mc_unif(step@, views(vals@), n as int, uss, n_sample as int));
        }
        return r;
    }
    let mut mn = vals[0];
    let mut mx = vals[0];
    let mut i: usize = 1;
    while i < n
        invariant
            vals@.len() == n,
            1 <= i <= n,
            mn@ == seq_min(views(vals@), i as int),
            mx@ == seq_max(views(vals@), i as int),
        decreases n - i,
    {
        mn = mn.min(vals[i]);
        mx = mx.max(vals[i]);
        i = i + 1;
    }
    proof {
        lemma_seq_min_le_max(views(vals@), n as int);
    }
    let mut tot: u128 = 0;
    let ghost mut guss: Seq<Seq<int>> = Seq::empty();
    let mut k: usize = 0;
    while k < n
        invariant
            vals@.len() == n,
            n >= 1,
            1 <= n_sample,
            k <= n,
            mn@ == seq_min(views(vals@), n as int),
            mx@ == seq_max(views(vals@), n as int),
            mn@ <= mx@,
            guss.len() == k,
            forall|t: int| 0 <= t < k ==> (#[trigger] guss[t]).len() == n_sample,
            forall|t: int, j: int|
                0 <= t < k && 0 <= j < n_sample ==> 0 <= #[trigger] guss[t][j] < 0x1_0000_0000,
            tot as int == mc_unif_total(views(vals@), mn@, mx@, guss, n_sample as int, k as int),
            tot as int <= (n_sample as int) * (k as int),
        decreases n - k,
    {
        let lo = vals[k].min(Scalar::zero());
        let hi = vals[k].max(Scalar::zero());
        let mut cnt: u64 = 0;
        let mut j: usize = 0;
        let ghost mut grow: Seq<int> = Seq::empty();
        while j < n_sample
            invariant
                mn@ <= mx@,
                j <= n_sample,
                cnt as int <= j,
                grow.len() == j,
                forall|t: int| 0 <= t < j ==> 0 <= #[trigger] grow[t] < 0x1_0000_0000,
                cnt as int == mc_count(mn@, mx@, grow, lo@, hi@, j as int),
            decreases n_sample - j,
        {
            let (s, u) = draw_between(mn, mx);
            if lo.le(s) && s.lt(hi) {
                cnt = cnt + 1;
            }
            proof {
                let old_grow = grow;
                grow = grow.push(u@);
                lemma_mc_count_agree(mn@, mx@, old_grow, grow, lo@, hi@, j as int);
            }
            j = j + 1;
        }
        proof {
            assert((n_sample as int) * (k as int) + (n_sample as int) == (n_sample as int) * (
            k as int + 1)) by (nonlinear_arith);
            assert((n_sample as int) * (k as int + 1) < 0x1_0000_0000_0000_0000_0000_0000_0000_0000int)
                by (nonlinear_arith)
                requires
                    0 <= (n_sample as int) < 0x1_0000_0000_0000_0000int,
                    0 <= (k as int + 1) <= 0x1_0000_0000_0000_0000int,
            ;
        }
        tot = tot + cnt as u128;
        proof {
            let old_guss = guss;
            guss = guss.push(grow);
            lemma_mc_unif_total_agree(
                views(vals@),
                mn@,
                mx@,
                old_guss,
                guss,
                n_sample as int,
                k as int,
            );
        }
        k = k + 1;
    }
    let volume = mx.sub(mn).mul(Scalar::from_uint(n as u64).mul(step));
    proof {
        assert((n_sample as int) * (n as int) < 0x1_0000_0000_0000_0000_0000_0000_0000_0000int)
            by (nonlinear_arith)
            requires
                0 <= (n_sample as int) < 0x1_0000_0000_0000_0000int,
                0 <= (n as int) < 0x1_0000_0000_0000_0000int,
        ;
    }
    let ratio = count_to_scalar(tot).div(count_to_scalar(n_sample as u128 * n as u128));
    let r = volume.mul(ratio);
    proof {
        assert(r@ == mc_unif(step@, views(vals@), n as int, guss, n_sample as int));
    }
    r
}

/// Monte-Carlo over a callable and an explicit domain: the callable is
/// evaluated once per sample to build the value list the method's bulk
/// statistics need, then the draws are counted as for precomputed values.
pub(crate) fn mc_closure_explicit<F: Fn(Scalar) -> Scalar>(
    f: &F,
    args: &Vec<Scalar>,
    n_sample: usize,
) -> (r: Scalar)
    requires
        forall|x: Scalar| call_requires(*f, (x,)),
        1 <= n_sample,
    ensures
        mc_closure_expl_ok(*f, args@, n_sample as int, r@),
{
    let n = args.len();
    let mut vals: Vec<Scalar> = Vec::new();
    let mut i: usize = 0;
    while i < n
        invariant
            forall|x: Scalar| call_requires(*f, (x,)),
            n == args@.len(),
            i <= n,
            vals@.len() == i,
            forall|t: int| 0 <= t < i ==> call_ensures(*f, (args@[t],), vals@[t]),
        decreases n - i,
    {
        vals.push((*f)(args[i]));
        i = i + 1;
    }
    let r = mc_values_explicit(args, &vals, n_sample);
    proof {
        assert(vals@.len() == args@.len());
        assert(mc_closure_expl_ok(*f, args@, n_sample as int, r@));
    }
    r
}

/// Monte-Carlo over a callable and a uniform domain.
pub(crate) fn mc_closure_uniform<F: Fn(Scalar) -> Scalar>(
    f: &F,
    start: Scalar,
    step: Scalar,
    n_step: usize,
    n_sample: usize,
) -> (r: Scalar)
    requires
        forall|x: Scalar| call_requires(*f, (x,)),
        1 <= n_sample,
    ensures
        mc_closure_unif_ok(*f, start@, step@, n_step as int, n_sample as int, r@),
{
    let mut vals: Vec<Scalar> = Vec::new();
    let mut i: usize = 0;
    while i < n_step
        invariant
            forall|x: Scalar| call_requires(*f, (x,)),
            i <= n_step,
            vals@.len() == i,
            forall|t: int|
                0 <= t < i ==> call_ensures(*f, (uniform_pos_scalar(start@, step@, t),), vals@[t]),
        decreases n_step - i,
    {
        let x = pos_at(start, step, i as u64);
        vals.push((*f)(x));
        i = i + 1;
    }
    let r = mc_values_uniform(step, n_step, &vals, n_sample);
    proof {
        assert(vals@.len() == n_step);
        assert(mc_closure_unif_ok(*f, start@, step@, n_step as int, n_sample as int, r@));
    }
    r
}

} // verus!
