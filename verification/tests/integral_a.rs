//! Integral A: y = sin(x) from 0 to PI, expected value 2.0.
//!
//! Every combination of function and domain descriptor is exercised for
//! the four always-available methods, plus the uniform-only methods.

use integraal::{ComputeMethod, DomainDescriptor, FunctionDescriptor, Integraal, Scalar};

const STEP: f64 = 0.001;
const A_TOLERANCE: f64 = 1e-5;

type Af = fn(Scalar) -> Scalar;

fn sc_a(v: f64) -> Scalar {
    Scalar { bits: (v * 4294967296.0).round() as i64 }
}

fn fl_a(s: Scalar) -> f64 {
    s.bits as f64 / 4294967296.0
}

fn sin_scalar(x: Scalar) -> Scalar {
    sc_a(fl_a(x).sin())
}

fn a_n_step() -> usize {
    (1000. * std::f64::consts::PI) as usize
}

fn a_explicit() -> DomainDescriptor {
    let domain: Vec<Scalar> = (0..a_n_step()).map(|i| sc_a(i as f64 * STEP)).collect();
    DomainDescriptor::Explicit(domain)
}

fn a_uniform() -> DomainDescriptor {
    DomainDescriptor::Uniform { start: sc_a(0.), step: sc_a(STEP), n_step: a_n_step() }
}

fn a_values() -> FunctionDescriptor<Af> {
    FunctionDescriptor::Values((0..a_n_step()).map(|i| sc_a((i as f64 * STEP).sin())).collect())
}

fn a_check(domain: DomainDescriptor, function: FunctionDescriptor<Af>, method: ComputeMethod) {
    let mut integraal: Integraal<Af> =
        Integraal::default().function(function).domain(domain).method(method);
    let res = integraal.compute();
    assert!(res.is_ok());
    let v = fl_a(res.unwrap());
    assert!((v - 2.0).abs() < A_TOLERANCE, "left: {} \nright: 2.0", v);
}

#[allow(non_snake_case)]
#[test]
fn ClosureExplicit() {
    a_check(
        a_explicit(),
        FunctionDescriptor::Closure(sin_scalar),
        ComputeMethod::RectangleLeft,
    );
}

#[allow(non_snake_case)]
#[test]
fn ClosureUniform() {
    a_check(a_uniform(), FunctionDescriptor::Closure(sin_scalar), ComputeMethod::RectangleLeft);
}

#[allow(non_snake_case)]
#[test]
fn ValuesExplicit() {
    a_check(a_explicit(), a_values(), ComputeMethod::RectangleLeft);
}

#[allow(non_snake_case)]
#[test]
fn ValuesUniform() {
    a_check(a_uniform(), a_values(), ComputeMethod::RectangleLeft);
}

#[test]
fn a_rectangleright_closure_explicit() {
    a_check(
        a_explicit(),
        FunctionDescriptor::Closure(sin_scalar),
        ComputeMethod::RectangleRight,
    );
}

#[test]
fn a_rectangleright_closure_uniform() {
    a_check(a_uniform(), FunctionDescriptor::Closure(sin_scalar), ComputeMethod::RectangleRight);
}

#[test]
fn a_rectangleright_values_explicit() {
    a_check(a_explicit(), a_values(), ComputeMethod::RectangleRight);
}

#[test]
fn a_rectangleright_values_uniform() {
    a_check(a_uniform(), a_values(), ComputeMethod::RectangleRight);
}

#[test]
fn a_trapezoid_closure_explicit() {
    a_check(a_explicit(), FunctionDescriptor::Closure(sin_scalar), ComputeMethod::Trapezoid);
}

#[test]
fn a_trapezoid_closure_uniform() {
    a_check(a_uniform(), FunctionDescriptor::Closure(sin_scalar), ComputeMethod::Trapezoid);
}

#[test]
fn a_trapezoid_values_explicit() {
    a_check(a_explicit(), a_values(), ComputeMethod::Trapezoid);
}

#[test]
fn a_trapezoid_values_uniform() {
    a_check(a_uniform(), a_values(), ComputeMethod::Trapezoid);
}

#[test]
fn a_simpson_closure_explicit() {
    a_check(a_explicit(), FunctionDescriptor::Closure(sin_scalar), ComputeMethod::Simpson);
}

#[test]
fn a_simpson_closure_uniform() {
    a_check(a_uniform(), FunctionDescriptor::Closure(sin_scalar), ComputeMethod::Simpson);
}

#[test]
fn a_simpson_values_explicit() {
    a_check(a_explicit(), a_values(), ComputeMethod::Simpson);
}

#[test]
fn a_simpson_values_uniform() {
    a_check(a_uniform(), a_values(), ComputeMethod::Simpson);
}

#[test]
fn a_boole_values_uniform() {
    // 3141 samples give 3140 segments, a multiple of four
    a_check(a_uniform(), a_values(), ComputeMethod::Boole { force: false });
}

#[test]
fn a_boole_closure_uniform() {
    a_check(
        a_uniform(),
        FunctionDescriptor::Closure(sin_scalar),
        ComputeMethod::Boole { force: false },
    );
}

#[test]
fn a_romberg_closure_uniform() {
    a_check(
        a_uniform(),
        FunctionDescriptor::Closure(sin_scalar),
        ComputeMethod::Romberg { max_steps: 10 },
    );
}
