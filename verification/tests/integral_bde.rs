//! Integrals over symmetric ranges: the identity, an even function and
//! an odd function.

use integraal::{ComputeMethod, DomainDescriptor, FunctionDescriptor, Integraal, Scalar};

const STEP: f64 = 0.001;
const BDE_TOLERANCE: f64 = 1e-5;

type Bf = fn(Scalar) -> Scalar;

fn sc_b(v: f64) -> Scalar {
    Scalar { bits: (v * 4294967296.0).round() as i64 }
}

fn fl_b(s: Scalar) -> f64 {
    s.bits as f64 / 4294967296.0
}

fn square_scalar(x: Scalar) -> Scalar {
    let v = fl_b(x);
    sc_b(v * v)
}

fn cube_scalar(x: Scalar) -> Scalar {
    let v = fl_b(x);
    sc_b(v * v * v)
}

fn ident_b(x: Scalar) -> Scalar {
    x
}

fn bde_check(
    domain: DomainDescriptor,
    function: FunctionDescriptor<Bf>,
    method: ComputeMethod,
    expected: f64,
) {
    let mut integraal: Integraal<Bf> =
        Integraal::default().function(function).domain(domain).method(method);
    let res = integraal.compute();
    assert!(res.is_ok());
    let v = fl_b(res.unwrap());
    assert!((v - expected).abs() < BDE_TOLERANCE, "left: {} \nright: {}", v, expected);
}

// integral B
// y = f(x) = x from -1 to 1, expected value 0

#[allow(non_snake_case)]
#[test]
fn B_Closure_Explicit_Rectangle() {
    // -1 to 1, with .001 steps; one more value because the left rule
    // never uses the last sample
    let domain: Vec<Scalar> = (0..=2001).map(|i| sc_b(-1. + i as f64 * STEP)).collect();
    bde_check(
        DomainDescriptor::Explicit(domain),
        FunctionDescriptor::Closure(ident_b),
        ComputeMethod::RectangleLeft,
        0.0,
    );
}

// integral D (even)
// y = f(x) = x^2 from -4 to 4, expected value 128/3

fn d_explicit() -> DomainDescriptor {
    DomainDescriptor::Explicit((0..8001).map(|i| sc_b(-4. + i as f64 * STEP)).collect())
}

fn d_uniform() -> DomainDescriptor {
    DomainDescriptor::Uniform { start: sc_b(-4.), step: sc_b(STEP), n_step: 8001 }
}

fn d_values() -> FunctionDescriptor<Bf> {
    FunctionDescriptor::Values(
        (0..8001)
            .map(|i| {
                let x = -4. + i as f64 * STEP;
                sc_b(x * x)
            })
            .collect(),
    )
}

#[test]
fn d_trapezoid_values_uniform() {
    bde_check(d_uniform(), d_values(), ComputeMethod::Trapezoid, 128. / 3.);
}

#[test]
fn d_trapezoid_closure_explicit() {
    bde_check(
        d_explicit(),
        FunctionDescriptor::Closure(square_scalar),
        ComputeMethod::Trapezoid,
        128. / 3.,
    );
}

#[test]
fn d_simpson_values_explicit() {
    bde_check(d_explicit(), d_values(), ComputeMethod::Simpson, 128. / 3.);
}

#[test]
fn d_simpson_closure_uniform() {
    bde_check(
        d_uniform(),
        FunctionDescriptor::Closure(square_scalar),
        ComputeMethod::Simpson,
        128. / 3.,
    );
}

// integral E (odd)
// y = f(x) = x^3 from -4 to 4, expected value 0

fn e_values() -> FunctionDescriptor<Bf> {
    FunctionDescriptor::Values(
        (0..8001)
            .map(|i| {
                let x = -4. + i as f64 * STEP;
                sc_b(x * x * x)
            })
            .collect(),
    )
}

#[test]
fn e_trapezoid_values_uniform() {
    bde_check(d_uniform(), e_values(), ComputeMethod::Trapezoid, 0.0);
}

#[test]
fn e_trapezoid_closure_explicit() {
    bde_check(
        d_explicit(),
        FunctionDescriptor::Closure(cube_scalar),
        ComputeMethod::Trapezoid,
        0.0,
    );
}

#[test]
fn e_simpson_values_uniform() {
    bde_check(d_uniform(), e_values(), ComputeMethod::Simpson, 0.0);
}
