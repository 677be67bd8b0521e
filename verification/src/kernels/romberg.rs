//! Romberg kernels; defined for uniform domains only.
//!
//! Richardson extrapolation over `max_steps` trapezoid refinements.  Row
//! zero is a two-point trapezoid estimate; each further row halves the
//! step, sums the newly introduced midpoints, and extrapolates with
//! `R[j] = (4^j * R[j-1] - Rprev[j-1]) / (4^j - 1)`.  The accepted value
//! is the last entry of the last computed row; no convergence check is
//! made.
//!
//! With precomputed values only the supplied samples can be read, so row
//! `i` sums the samples at odd indices below `2^i`; the iteration budget
//! is therefore limited by the sample count.  With a callable the
//! midpoints of the refined grid itself are evaluated.

use vstd::prelude::*;

use crate::kernels::uniform::{pos_at, uniform_pos_scalar};
use crate::parameters::views;
use crate::scalar::{
    fx_add, fx_div, fx_div_uint, fx_from_uint, fx_mul, fx_mul_int, fx_scale, fx_sub, Scalar,
};

verus! {

/// Two to the power of `e` (one for a nonpositive `e`).
pub open spec fn two_to(e: int) -> int
    decreases e,
{
    if e <= 0 {
        1
    } else {
        2 * two_to(e - 1)
    }
}

proof fn lemma_two_to_pos(e: int)
    ensures
        two_to(e) >= 1,
    decreases e,
{
    if e > 0 {
        lemma_two_to_pos(e - 1);
    }
}

proof fn lemma_two_to_mono(a: int, b: int)
    requires
        a <= b,
    ensures
        two_to(a) <= two_to(b),
    decreases b - a,
{
    if a < b {
        lemma_two_to_mono(a, b - 1);
        lemma_two_to_pos(b - 1);
    }
}

proof fn lemma_two_to_62()
    ensures
        two_to(62) == 0x4000_0000_0000_0000,
{
    reveal_with_fuel(two_to, 64);
}

/// Whether `2^k <= n`, without overflowing.
pub(crate) fn pow2_le(k: u64, n: u64) -> (r: bool)
    ensures
        r == (two_to(k as int) <= n as int),
{
    if n == 0 {
        proof {
            lemma_two_to_pos(k as int);
        }
        return false;
    }
    let mut p: u64 = 1;
    let mut j: u64 = 0;
    while j < k
        invariant
            j <= k,
            p as int == two_to(j as int),
            p as int <= n as int,
        decreases k - j,
    {
        if p > n / 2 {
            proof {
                lemma_two_to_mono(j as int + 1, k as int);
            }
            return false;
        }
        p = p * 2;
        j = j + 1;
    }
    p <= n
}

/// The step length after `i` halvings.
pub open spec fn halved(h: int, i: int) -> int
    decreases i,
{
    if i <= 0 {
        h
    } else {
        fx_div_uint(halved(h, i - 1), 2)
    }
}

/// Four to the power of `j`, as a saturated scalar value.
pub open spec fn fxpow4(j: int) -> int
    decreases j,
{
    if j <= 0 {
        fx_scale()
    } else {
        fx_mul_int(fxpow4(j - 1), 4)
    }
}

/// Sum of the samples at odd indices `1, 3, .., 2c - 1`.
pub open spec fn mid_vals_sum(ys: Seq<int>, c: int) -> int
    decreases c,
{
    if c <= 0 {
        0
    } else {
        fx_add(mid_vals_sum(ys, c - 1), ys[2 * c - 1])
    }
}

/// Entry `j` of extrapolation row `i`, over precomputed values.
pub open spec fn romberg_vals_entry(step: int, ys: Seq<int>, n: int, i: int, j: int) -> int
    decreases i, j,
{
    if i <= 0 {
        fx_mul(fx_div_uint(fx_mul(step, fx_from_uint(n)), 2), fx_add(ys[0], ys[n - 1]))
    } else if j <= 0 {
        fx_add(
            fx_mul(halved(fx_mul(step, fx_from_uint(n)), i), mid_vals_sum(ys, two_to(i - 1))),
            fx_div_uint(romberg_vals_entry(step, ys, n, i - 1, 0), 2),
        )
    } else {
        let p4 = fxpow4(j);
        fx_div(
            fx_sub(
                fx_mul(p4, romberg_vals_entry(step, ys, n, i, j - 1)),
                romberg_vals_entry(step, ys, n, i - 1, j - 1),
            ),
            fx_sub(p4, fx_scale()),
        )
    }
}

/// Romberg result over precomputed values.
pub open spec fn romberg_vals(step: int, ys: Seq<int>, n: int, ms: int) -> int {
    romberg_vals_entry(step, ys, n, ms - 1, ms - 1)
}

/// Sum of the first `c` entries of one midpoint row.
pub open spec fn mid_row_sum(row: Seq<int>, c: int) -> int
    decreases c,
{
    if c <= 0 {
        0
    } else {
        fx_add(mid_row_sum(row, c - 1), row[c - 1])
    }
}

/// Midpoint `j` of refinement `i` over the interval starting at `start`
/// with total length `gh`, in representation units.
pub open spec fn romberg_mid_pos(start: int, gh: int, i: int, j: int) -> int {
    fx_add(start, fx_mul(fx_from_uint(2 * j - 1), halved(gh, i)))
}

/// A sequence of scalar rows, as rows of unit counts.
pub open spec fn views2(s: Seq<Seq<Scalar>>) -> Seq<Seq<int>> {
    Seq::new(s.len(), |i: int| views(s[i]))
}

/// Entry `j` of extrapolation row `i`, over evaluated endpoint values
/// `ya`, `yb` and midpoint value rows `mids`.
pub open spec fn romberg_clos_entry(
    gh: int,
    ya: int,
    yb: int,
    mids: Seq<Seq<int>>,
    i: int,
    j: int,
) -> int
    decreases i, j,
{
    if i <= 0 {
        fx_mul(fx_div_uint(gh, 2), fx_add(ya, yb))
    } else if j <= 0 {
        fx_add(
            fx_mul(halved(gh, i), mid_row_sum(mids[i - 1], two_to(i - 1))),
            fx_div_uint(romberg_clos_entry(gh, ya, yb, mids, i - 1, 0), 2),
        )
    } else {
        let p4 = fxpow4(j);
        fx_div(
            fx_sub(
                fx_mul(p4, romberg_clos_entry(gh, ya, yb, mids, i, j - 1)),
                romberg_clos_entry(gh, ya, yb, mids, i - 1, j - 1),
            ),
            fx_sub(p4, fx_scale()),
        )
    }
}

/// Romberg result over a callable's evaluated values.
pub open spec fn romberg_clos(gh: int, ya: int, yb: int, mids: Seq<Seq<int>>, ms: int) -> int {
    romberg_clos_entry(gh, ya, yb, mids, ms - 1, ms - 1)
}

/// The callable has outputs under which the Romberg result is `r`.
pub open spec fn romberg_closure_ok<F: Fn(Scalar) -> Scalar>(
    f: F,
    start: Scalar,
    step: int,
    n: int,
    ms: int,
    r: int,
) -> bool {
    exists|ya: Scalar, yb: Scalar, mids: Seq<Seq<Scalar>>|
        #![trigger call_ensures(f, (start,), ya), call_ensures(f, (uniform_pos_scalar(start@, step, n - 1),), yb), views2(mids)]
        {
            let gh = fx_mul(step, fx_from_uint(n - 1));
            &&& call_ensures(f, (start,), ya)
            &&& call_ensures(f, (uniform_pos_scalar(start@, step, n - 1),), yb)
            &&& mids.len() == ms - 1
            &&& (forall|i: int| 1 <= i < ms ==> (#[trigger] mids[i - 1]).len() == two_to(i - 1))
            &&& (forall|i: int, j: int|
                0 <= i < ms - 1 && 0 <= j < two_to(i) ==> call_ensures(
                    f,
                    ((Scalar { bits: romberg_mid_pos(start@, gh, i + 1, j + 1) as i64 }),),
                    #[trigger] mids[i][j],
                ))
            &&& r == romberg_clos(gh, ya@, yb@, views2(mids), ms)
        }
}

proof fn lemma_mid_row_sum_agree(a: Seq<int>, b: Seq<int>, c: int)
    requires
        forall|t: int| 0 <= t < c ==> a[t] == b[t],
    ensures
        mid_row_sum(a, c) == mid_row_sum(b, c),
    decreases c,
{
    if c > 0 {
        lemma_mid_row_sum_agree(a, b, c - 1);
    }
}

proof fn lemma_romberg_clos_agree(
    gh: int,
    ya: int,
    yb: int,
    m1: Seq<Seq<int>>,
    m2: Seq<Seq<int>>,
    i: int,
    j: int,
)
    requires
        forall|t: int| 0 <= t < i ==> m1[t] == m2[t],
    ensures
        romberg_clos_entry(gh, ya, yb, m1, i, j) == romberg_clos_entry(gh, ya, yb, m2, i, j),
    decreases i, j,
{
    if i <= 0 {
    } else if j <= 0 {
        lemma_romberg_clos_agree(gh, ya, yb, m1, m2, i - 1, 0);
    } else {
        lemma_romberg_clos_agree(gh, ya, yb, m1, m2, i, j - 1);
        lemma_romberg_clos_agree(gh, ya, yb, m1, m2, i - 1, j - 1);
    }
}

/// Romberg's method over precomputed values and a uniform domain.
pub(crate) fn romberg_values_uniform(
    step: Scalar,
    n_step: usize,
    vals: &Vec<Scalar>,
    max_steps: usize,
) -> (r: Scalar)
    requires
        vals@.len() == n_step,
        1 <= n_step,
        1 <= max_steps <= 63,
        two_to(max_steps as int - 1) <= n_step,
    ensures
        r@ == romberg_vals(step@, views(vals@), n_step as int, max_steps as int),
{
    let bigh = step.mul(Scalar::from_uint(n_step as u64));
    let r0 = bigh.div_uint(2).mul(vals[0].add(vals[n_step - 1]));
    let mut prev: Vec<Scalar> = Vec::new();
    prev.push(r0);
    let mut h = bigh;
    let mut ep: u64 = 1;
    let mut i: usize = 1;
    while i < max_steps
        invariant
            vals@.len() == n_step,
            1 <= n_step,
            1 <= max_steps <= 63,
            two_to(max_steps as int - 1) <= n_step,
            1 <= i <= max_steps,
            prev@.len() == i,
            forall|t: int|
                0 <= t < i ==> prev@[t]@ == romberg_vals_entry(
                    step@,
                    views(vals@),
                    n_step as int,
                    i - 1,
                    t,
                ),
            h@ == halved(fx_mul(step@, fx_from_uint(n_step as int)), i - 1),
            ep as int == two_to(i - 1),
            bigh@ == fx_mul(step@, fx_from_uint(n_step as int)),
        decreases max_steps - i,
    {
        proof {
            lemma_two_to_mono(i as int, max_steps as int - 1);
        }
        h = h.div_uint(2);
        let mut c = Scalar::zero();
        let mut j: u64 = 1;
        while j <= ep
            invariant
                vals@.len() == n_step,
                1 <= j,
                j <= ep + 1,
                ep as int == two_to(i - 1),
                1 <= i,
                2 * (ep as int) <= n_step,
                c@ == mid_vals_sum(views(vals@), j as int - 1),
            decreases ep + 1 - j,
        {
            let idx = 2 * j - 1;
            c = c.add(vals[idx as usize]);
            j = j + 1;
        }
        let first = h.mul(c).add(prev[0].div_uint(2));
        let mut cur: Vec<Scalar> = Vec::new();
        cur.push(first);
        let mut p4 = Scalar::one();
        let mut jj: usize = 1;
        while jj <= i
            invariant
                vals@.len() == n_step,
                1 <= n_step,
                1 <= jj <= i + 1,
                i < max_steps <= 63,
                prev@.len() == i,
                forall|t: int|
                    0 <= t < i ==> prev@[t]@ == romberg_vals_entry(
                        step@,
                        views(vals@),
                        n_step as int,
                        i - 1,
                        t,
                    ),
                cur@.len() == jj,
                forall|t: int|
                    0 <= t < jj ==> cur@[t]@ == romberg_vals_entry(
                        step@,
                        views(vals@),
                        n_step as int,
                        i as int,
                        t,
                    ),
                p4@ == fxpow4(jj - 1),
            decreases i - jj + 1,
        {
            p4 = p4.mul_int(4);
            let e = p4.mul(cur[jj - 1]).sub(prev[jj - 1]).div(p4.sub(Scalar::one()));
            proof {
                assert(p4@ == fxpow4(jj as int));
                assert(cur@[jj - 1]@ == romberg_vals_entry(
                    step@,
                    views(vals@),
                    n_step as int,
                    i as int,
                    jj - 1,
                ));
                assert(prev@[jj - 1]@ == romberg_vals_entry(
                    step@,
                    views(vals@),
                    n_step as int,
                    i - 1,
                    jj - 1,
                ));
                assert(e@ == romberg_vals_entry(
                    step@,
                    views(vals@),
                    n_step as int,
                    i as int,
                    jj as int,
                ));
            }
            cur.push(e);
            jj = jj + 1;
        }
        prev = cur;
        ep = ep * 2;
        i = i + 1;
    }
    prev[max_steps - 1]
}

/// Romberg's method over a callable and a uniform domain of `n_step >= 1`
/// samples; the refined grids' own midpoints are evaluated, each exactly
/// once.
pub(crate) fn romberg_closure_uniform<F: Fn(Scalar) -> Scalar>(
    f: &F,
    start: Scalar,
    step: Scalar,
    n_step: usize,
    max_steps: usize,
) -> (r: Scalar)
    requires
        forall|x: Scalar| call_requires(*f, (x,)),
        1 <= n_step,
        1 <= max_steps <= 63,
    ensures
        romberg_closure_ok(*f, start, step@, n_step as int, max_steps as int, r@),
{
    let gh = step.mul(Scalar::from_uint((n_step - 1) as u64));
    let xb = pos_at(start, step, (n_step - 1) as u64);
    let ya = (*f)(start);
    let yb = (*f)(xb);
    let r0 = gh.div_uint(2).mul(ya.add(yb));
    let mut prev: Vec<Scalar> = Vec::new();
    prev.push(r0);
    let mut h = gh;
    let mut ep: u64 = 1;
    let mut i: usize = 1;
    let ghost mut gmids: Seq<Seq<Scalar>> = Seq::empty();
    while i < max_steps
        invariant
            forall|x: Scalar| call_requires(*f, (x,)),
            1 <= max_steps <= 63,
            1 <= i <= max_steps,
            prev@.len() == i,
            gmids.len() == i - 1,
            forall|t: int| 0 <= t < i - 1 ==> (#[trigger] gmids[t]).len() == two_to(t),
            forall|t: int, k: int|
                0 <= t < i - 1 && 0 <= k < two_to(t) ==> call_ensures(
                    *f,
                    ((Scalar { bits: romberg_mid_pos(start@, gh@, t + 1, k + 1) as i64 }),),
                    #[trigger] gmids[t][k],
                ),
            forall|t: int|
                0 <= t < i ==> prev@[t]@ == romberg_clos_entry(
                    gh@,
                    ya@,
                    yb@,
                    views2(gmids),
                    i - 1,
                    t,
                ),
            h@ == halved(gh@, i - 1),
            ep as int == two_to(i - 1),
        decreases max_steps - i,
    {
        proof {
            lemma_two_to_mono(i as int - 1, 61);
            lemma_two_to_mono(i as int, 62);
            lemma_two_to_62();
        }
        h = h.div_uint(2);
        let mut c = Scalar::zero();
        let mut j: u64 = 1;
        let ghost mut grow: Seq<Scalar> = Seq::empty();
        while j <= ep
            invariant
                forall|x: Scalar| call_requires(*f, (x,)),
                1 <= j,
                j <= ep + 1,
                ep as int == two_to(i - 1),
                ep as int <= 0x4000_0000_0000_0000,
                1 <= i,
                h@ == halved(gh@, i as int),
                grow.len() == j - 1,
                forall|k: int|
                    0 <= k < j - 1 ==> call_ensures(
                        *f,
                        ((Scalar { bits: romberg_mid_pos(start@, gh@, i as int, k + 1) as i64 }),),
                        #[trigger] grow[k],
                    ),
                c@ == mid_row_sum(views(grow), j as int - 1),
            decreases ep + 1 - j,
        {
            let xm = start.add(Scalar::from_uint(2 * j - 1).mul(h));
            let y = (*f)(xm);
            c = c.add(y);
            proof {
                let old_grow = grow;
                grow = grow.push(y);
                lemma_mid_row_sum_agree(views(old_grow), views(grow), j as int - 1);
                assert(xm@ == romberg_mid_pos(start@, gh@, i as int, j as int));
            }
            j = j + 1;
        }
        let first = h.mul(c).add(prev[0].div_uint(2));
        let ghost old_gmids = gmids;
        proof {
            gmids = gmids.push(grow);
            assert(views2(gmids)[i - 1] == views(grow));
            assert forall|t: int| 0 <= t < i implies prev@[t]@ == romberg_clos_entry(
                gh@,
                ya@,
                yb@,
                views2(gmids),
                i - 1,
                t,
            ) by {
                lemma_romberg_clos_agree(
                    gh@,
                    ya@,
                    yb@,
                    views2(old_gmids),
                    views2(gmids),
                    i - 1,
                    t,
                );
            }
        }
        let mut cur: Vec<Scalar> = Vec::new();
        cur.push(first);
        let mut p4 = Scalar::one();
        let mut jj: usize = 1;
        while jj <= i
            invariant
                1 <= jj <= i + 1,
                i < max_steps <= 63,
                prev@.len() == i,
                gmids.len() == i,
                forall|t: int|
                    0 <= t < i ==> prev@[t]@ == romberg_clos_entry(
                        gh@,
                        ya@,
                        yb@,
                        views2(gmids),
                        i - 1,
                        t,
                    ),
                cur@.len() == jj,
                forall|t: int|
                    0 <= t < jj ==> cur@[t]@ == romberg_clos_entry(
                        gh@,
                        ya@,
                        yb@,
                        views2(gmids),
                        i as int,
                        t,
                    ),
                p4@ == fxpow4(jj - 1),
            decreases i - jj + 1,
        {
            p4 = p4.mul_int(4);
            let e = p4.mul(cur[jj - 1]).sub(prev[jj - 1]).div(p4.sub(Scalar::one()));
            proof {
                assert(p4@ == fxpow4(jj as int));
                assert(cur@[jj - 1]@ == romberg_clos_entry(
                    gh@,
                    ya@,
                    yb@,
                    views2(gmids),
                    i as int,
                    jj - 1,
                ));
                assert(prev@[jj - 1]@ == romberg_clos_entry(
                    gh@,
                    ya@,
                    yb@,
                    views2(gmids),
                    i - 1,
                    jj - 1,
                ));
                assert(e@ == romberg_clos_entry(gh@, ya@, yb@, views2(gmids), i as int, jj as int));
            }
            cur.push(e);
            jj = jj + 1;
        }
        prev = cur;
        ep = ep * 2;
        i = i + 1;
    }
    let r = prev[max_steps - 1];
    proof {
        assert(r@ == romberg_clos(gh@, ya@, yb@, views2(gmids), max_steps as int));
    }
    r
}

} // verus!
