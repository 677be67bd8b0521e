//! Exact expected values: the scalar arithmetic and each quadrature
//! formula on small inputs whose fixed-point results can be written down
//! to the last unit.

use integraal::{ComputeMethod, DomainDescriptor, FunctionDescriptor, Integraal, Scalar};

const FX: i64 = 4294967296;

type Ff = fn(Scalar) -> Scalar;

fn bits(b: i64) -> Scalar {
    Scalar { bits: b }
}

fn whole(v: i64) -> Scalar {
    Scalar { bits: v * FX }
}

fn ident_f(x: Scalar) -> Scalar {
    x
}

fn run(
    domain: DomainDescriptor,
    function: FunctionDescriptor<Ff>,
    method: ComputeMethod,
) -> Scalar {
    let mut integraal: Integraal<Ff> =
        Integraal::default().function(function).domain(domain).method(method);
    integraal.compute().unwrap()
}

#[test]
fn scalar_mul_truncates_toward_zero() {
    // 3 units times one half is 1.5 units, truncated to 1
    let half = bits(FX / 2);
    assert_eq!(bits(3).mul(half).bits, 1);
    assert_eq!(bits(-3).mul(half).bits, -1);
    assert_eq!(whole(6).mul(half).bits, 3 * FX);
}

#[test]
fn scalar_div_by_zero_saturates() {
    assert_eq!(whole(5).div(whole(0)).bits, i64::MAX);
    assert_eq!(whole(-5).div(whole(0)).bits, i64::MIN);
    assert_eq!(whole(0).div(whole(0)).bits, 0);
}

#[test]
fn scalar_add_saturates() {
    assert_eq!(bits(i64::MAX).add(bits(1)).bits, i64::MAX);
    assert_eq!(bits(i64::MIN).add(bits(-1)).bits, i64::MIN);
    assert_eq!(whole(2).add(whole(3)).bits, 5 * FX);
    assert_eq!(whole(2).sub(whole(3)).bits, -FX);
}

#[test]
fn scalar_helpers_exact() {
    assert_eq!(Scalar::zero().bits, 0);
    assert_eq!(Scalar::one().bits, FX);
    assert_eq!(Scalar::from_uint(7).bits, 7 * FX);
    assert_eq!(whole(-3).abs().bits, 3 * FX);
    assert_eq!(whole(-3).min(whole(2)).bits, -3 * FX);
    assert_eq!(whole(-3).max(whole(2)).bits, 2 * FX);
    assert_eq!(whole(7).div_uint(2).bits, 3 * FX + FX / 2);
    assert_eq!(whole(3).mul_int(-4).bits, -12 * FX);
}

fn grid(n: i64) -> DomainDescriptor {
    DomainDescriptor::Explicit((0..n).map(whole).collect())
}

#[test]
fn rectangle_left_exact() {
    let vals = FunctionDescriptor::Values(vec![whole(3), whole(5), whole(7)]);
    let res = run(grid(3), vals, ComputeMethod::RectangleLeft);
    assert_eq!(res.bits, 8 * FX);
}

#[test]
fn rectangle_right_exact() {
    let vals = FunctionDescriptor::Values(vec![whole(3), whole(5), whole(7)]);
    let res = run(grid(3), vals, ComputeMethod::RectangleRight);
    assert_eq!(res.bits, 12 * FX);
}

#[test]
fn trapezoid_exact() {
    // (min + |difference| / 2) per pair: (3 + 1) + (5 + 1) = 10
    let vals = FunctionDescriptor::Values(vec![whole(3), whole(5), whole(7)]);
    let res = run(grid(3), vals, ComputeMethod::Trapezoid);
    assert_eq!(res.bits, 10 * FX);
}

#[test]
fn trapezoid_uniform_exact() {
    let vals = FunctionDescriptor::Values(vec![whole(3), whole(5), whole(7)]);
    let domain = DomainDescriptor::Uniform { start: whole(0), step: whole(1), n_step: 3 };
    let res = run(domain, vals, ComputeMethod::Trapezoid);
    assert_eq!(res.bits, 10 * FX);
}

#[test]
fn simpson_uniform_exact_even_segments() {
    // squares at 0..=4; (step / 3) * ((0 + 4 + 4) + (4 + 36 + 16))
    let vals = FunctionDescriptor::Values(vec![whole(0), whole(1), whole(4), whole(9), whole(16)]);
    let domain = DomainDescriptor::Uniform { start: whole(0), step: whole(1), n_step: 5 };
    let res = run(domain, vals, ComputeMethod::Simpson);
    assert_eq!(res.bits, 64 * FX / 3);
}

#[test]
fn simpson_uniform_exact_odd_segments() {
    // squares at 0..=3: one panel plus the last-interval correction;
    // the exact integral of x^2 from 0 to 3 is 9
    let vals = FunctionDescriptor::Values(vec![whole(0), whole(1), whole(4), whole(9)]);
    let domain = DomainDescriptor::Uniform { start: whole(0), step: whole(1), n_step: 4 };
    let res = run(domain, vals, ComputeMethod::Simpson);
    assert_eq!(res.bits, 8 * FX / 3 + 76 * FX / 12);
}

#[test]
fn simpson_explicit_exact_quadratic() {
    let vals = FunctionDescriptor::Values(vec![whole(0), whole(1), whole(4), whole(9), whole(16)]);
    let res = run(grid(5), vals, ComputeMethod::Simpson);
    assert_eq!(res.bits, 16 * FX / 6 + 112 * FX / 6);
}

#[test]
fn simpson_short_domain_is_zero() {
    let vals = FunctionDescriptor::Values(vec![whole(3), whole(5)]);
    let res = run(grid(2), vals, ComputeMethod::Simpson);
    assert_eq!(res.bits, 0);
}

#[test]
fn boole_exact_quartic() {
    // fourth powers at 0..=4; Boole's rule is exact for them:
    // (2 / 45) * (7*(0 + 256) + 32*1 + 12*16 + 32*81) = 204.8
    let vals =
        FunctionDescriptor::Values(vec![whole(0), whole(1), whole(16), whole(81), whole(256)]);
    let domain = DomainDescriptor::Uniform { start: whole(0), step: whole(1), n_step: 5 };
    let res = run(domain, vals, ComputeMethod::Boole { force: false });
    assert_eq!(res.bits, 4608 * FX * 2 / 45);
}

#[test]
fn romberg_values_exact_single_row() {
    // one iteration: the plain two-point trapezoid estimate over the
    // span n * step
    let vals = FunctionDescriptor::Values(vec![whole(1), whole(1)]);
    let domain = DomainDescriptor::Uniform { start: whole(0), step: whole(1), n_step: 2 };
    let res = run(domain, vals, ComputeMethod::Romberg { max_steps: 1 });
    assert_eq!(res.bits, 2 * FX);
}

#[test]
fn romberg_closure_exact_single_row() {
    // the identity from 0 to 2: (length / 2) * (f(0) + f(2)) = 2
    let domain = DomainDescriptor::Uniform { start: whole(0), step: whole(1), n_step: 3 };
    let res = run(domain, FunctionDescriptor::Closure(ident_f), ComputeMethod::Romberg {
        max_steps: 1,
    });
    assert_eq!(res.bits, 2 * FX);
}

#[test]
fn montecarlo_uniform_statistical() {
    // y = x over [0, 1]: the hit rate estimates the mean value 0.5 and
    // the volume is 1.01, so the estimate concentrates near 0.505
    let n: usize = 101;
    let vals: Vec<Scalar> =
        (0..n).map(|i| Scalar { bits: (i as i64) * FX / 100 }).collect();
    let domain =
        DomainDescriptor::Uniform { start: whole(0), step: Scalar { bits: FX / 100 }, n_step: n };
    let res = run(
        domain,
        FunctionDescriptor::Values(vals),
        ComputeMethod::MonteCarlo { n_sample: 2000 },
    );
    let v = res.bits as f64 / FX as f64;
    assert!((v - 0.505).abs() < 0.02, "estimate too far off: {}", v);
}

#[test]
fn montecarlo_explicit_stays_in_range() {
    let vals: Vec<Scalar> = (0..11).map(|i| Scalar { bits: (i as i64) * FX / 10 }).collect();
    let domain =
        DomainDescriptor::Explicit((0..11).map(|i| Scalar { bits: (i as i64) * FX / 10 }).collect());
    let res = run(
        domain,
        FunctionDescriptor::Values(vals),
        ComputeMethod::MonteCarlo { n_sample: 100 },
    );
    let v = res.bits as f64 / FX as f64;
    assert!((0.0..=0.2).contains(&v), "estimate out of range: {}", v);
}

#[test]
fn error_rectangle_exact() {
    // values 0, 1, 2 with unit step: largest slope 1, length 3,
    // bound = 1 * 9 / (2 * 3) = 1.5
    let vals = FunctionDescriptor::Values(vec![whole(0), whole(1), whole(2)]);
    let domain = DomainDescriptor::Uniform { start: whole(0), step: whole(1), n_step: 3 };
    let integraal: Integraal<Ff> =
        Integraal::default().function(vals).domain(domain).method(ComputeMethod::RectangleLeft);
    let res = integraal.compute_error().unwrap();
    assert_eq!(res.bits, FX + FX / 2);
    // estimating never consumes the descriptors
    assert_eq!(integraal.compute_error().unwrap().bits, FX + FX / 2);
}

#[test]
fn error_trapezoid_exact() {
    // values 0, 1, 4: second difference 2, length 3,
    // bound = 2 * 27 / (24 * 9) = 0.25
    let vals = FunctionDescriptor::Values(vec![whole(0), whole(1), whole(4)]);
    let domain = DomainDescriptor::Uniform { start: whole(0), step: whole(1), n_step: 3 };
    let integraal: Integraal<Ff> =
        Integraal::default().function(vals).domain(domain).method(ComputeMethod::Trapezoid);
    let res = integraal.compute_error().unwrap();
    assert_eq!(res.bits, FX / 4);
}

#[test]
fn error_closure_rectangle_exact() {
    let domain = DomainDescriptor::Uniform { start: whole(0), step: whole(1), n_step: 3 };
    let integraal: Integraal<Ff> = Integraal::default()
        .function(FunctionDescriptor::Closure(ident_f as Ff))
        .domain(domain)
        .method(ComputeMethod::RectangleRight);
    let res = integraal.compute_error().unwrap();
    assert_eq!(res.bits, FX + FX / 2);
}

#[test]
fn empty_explicit_domain_computes_zero() {
    let vals = FunctionDescriptor::Values(Vec::new());
    let res = run(DomainDescriptor::Explicit(Vec::new()), vals, ComputeMethod::RectangleLeft);
    assert_eq!(res.bits, 0);
}

#[test]
fn empty_uniform_domain_computes_zero() {
    let vals = FunctionDescriptor::Values(Vec::new());
    let domain = DomainDescriptor::Uniform { start: whole(0), step: whole(1), n_step: 0 };
    let res = run(domain, vals, ComputeMethod::Trapezoid);
    assert_eq!(res.bits, 0);
}

#[test]
fn single_sample_computes_zero_area() {
    let vals = FunctionDescriptor::Values(vec![whole(9)]);
    let domain = DomainDescriptor::Uniform { start: whole(0), step: whole(1), n_step: 1 };
    let res = run(domain, vals, ComputeMethod::RectangleRight);
    assert_eq!(res.bits, 0);
}

#[test]
fn negative_step_integrates_in_reverse() {
    let vals = FunctionDescriptor::Values(vec![whole(1), whole(1), whole(1)]);
    let domain = DomainDescriptor::Uniform { start: whole(2), step: whole(-1), n_step: 3 };
    let res = run(domain, vals, ComputeMethod::RectangleLeft);
    assert_eq!(res.bits, -2 * FX);
}
