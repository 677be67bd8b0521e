//! Validation behaviour: missing, inconsistent and bad parameters, and
//! the state policy around a successful computation.

use integraal::{ComputeMethod, DomainDescriptor, FunctionDescriptor, Integraal, IntegraalError, Scalar};

type Cf = fn(Scalar) -> Scalar;

fn sc_err(v: f64) -> Scalar {
    Scalar { bits: (v * 4294967296.0).round() as i64 }
}

fn ident(x: Scalar) -> Scalar {
    x
}

#[test]
fn missing_parameters() {
    // missing function descriptor
    let domain: DomainDescriptor = DomainDescriptor::Explicit(Vec::new());
    let method = ComputeMethod::RectangleLeft;
    let mut integral: Integraal<Cf> = Integraal::default().domain(domain).method(method);
    assert_eq!(
        integral.compute(),
        Err(IntegraalError::MissingParameters("one or more parameter is missing"))
    );

    // missing domain descriptor
    let function: FunctionDescriptor<Cf> = FunctionDescriptor::Closure(ident);
    let method = ComputeMethod::RectangleLeft;
    let mut integral: Integraal<Cf> = Integraal::default().function(function).method(method);
    assert_eq!(
        integral.compute(),
        Err(IntegraalError::MissingParameters("one or more parameter is missing"))
    );

    // missing compute method
    let function: FunctionDescriptor<Cf> = FunctionDescriptor::Closure(ident);
    let domain: DomainDescriptor = DomainDescriptor::Explicit(Vec::new());
    let mut integral: Integraal<Cf> = Integraal::default().function(function).domain(domain);
    assert_eq!(
        integral.compute(),
        Err(IntegraalError::MissingParameters("one or more parameter is missing"))
    );

    // missing all but one
    let method = ComputeMethod::RectangleLeft;
    let mut integral: Integraal<Cf> = Integraal::default().method(method);
    assert_eq!(
        integral.compute(),
        Err(IntegraalError::MissingParameters("one or more parameter is missing"))
    );
}

#[test]
fn tests_missing_parameters() {
    let method = ComputeMethod::RectangleLeft;
    let mut integral: Integraal<Cf> = Integraal::default().method(method);
    assert_eq!(
        integral.compute(),
        Err(IntegraalError::MissingParameters("one or more parameter is missing"))
    );
}

#[test]
fn incorrect_missing_parameters() {
    let domain: DomainDescriptor = DomainDescriptor::Explicit(Vec::new());
    let mut integral: Integraal<Cf> = Integraal::default().domain(domain);
    assert_eq!(
        integral.compute(),
        Err(IntegraalError::MissingParameters("one or more parameter is missing"))
    );
}

#[test]
fn inconsistent_parameters() {
    let method = ComputeMethod::RectangleLeft;
    let function: FunctionDescriptor<Cf> = FunctionDescriptor::Values(vec![
        sc_err(1.),
        sc_err(1.),
        sc_err(1.),
        sc_err(1.),
        sc_err(1.),
        sc_err(1.),
    ]);
    let domain = DomainDescriptor::Explicit(vec![
        sc_err(0.0),
        sc_err(0.1),
        sc_err(0.2),
        sc_err(0.3),
        sc_err(0.4),
    ]);

    let mut integral: Integraal<Cf> =
        Integraal::default().method(method).function(function).domain(domain);
    assert_eq!(
        integral.compute(),
        Err(IntegraalError::InconsistentParameters(
            "function and domain value slices have different lengthes"
        ))
    );

    // this is equivalent to the first domain
    let domain = DomainDescriptor::Uniform { start: sc_err(0.), step: sc_err(0.1), n_step: 5 };
    let function: FunctionDescriptor<Cf> = FunctionDescriptor::Values(vec![
        sc_err(1.),
        sc_err(1.),
        sc_err(1.),
        sc_err(1.),
        sc_err(1.),
        sc_err(1.),
    ]);

    let mut integral: Integraal<Cf> =
        Integraal::default().method(method).function(function).domain(domain);
    assert_eq!(
        integral.compute(),
        Err(IntegraalError::InconsistentParameters(
            "provided function and domain value slices have different lengthes"
        ))
    );
}

#[test]
fn tests_inconsistent_parameters() {
    let method = ComputeMethod::RectangleLeft;
    let function: FunctionDescriptor<Cf> =
        FunctionDescriptor::Values(vec![sc_err(1.), sc_err(1.)]);
    let domain = DomainDescriptor::Explicit(vec![sc_err(0.0), sc_err(0.1), sc_err(0.2)]);
    let mut integral: Integraal<Cf> =
        Integraal::default().method(method).function(function).domain(domain);
    assert_eq!(
        integral.compute(),
        Err(IntegraalError::InconsistentParameters(
            "function and domain value slices have different lengthes"
        ))
    );
}

#[test]
fn incorrect_inconsistent_parameters() {
    let method = ComputeMethod::RectangleLeft;
    let function: FunctionDescriptor<Cf> =
        FunctionDescriptor::Values(vec![sc_err(1.), sc_err(1.)]);
    let domain = DomainDescriptor::Uniform { start: sc_err(0.), step: sc_err(0.1), n_step: 5 };
    let mut integral: Integraal<Cf> =
        Integraal::default().method(method).function(function).domain(domain);
    assert_eq!(
        integral.compute(),
        Err(IntegraalError::InconsistentParameters(
            "provided function and domain value slices have different lengthes"
        ))
    );
}

#[test]
fn function_cleared_after_success() {
    let domain = DomainDescriptor::Uniform { start: sc_err(0.), step: sc_err(0.5), n_step: 3 };
    let function: FunctionDescriptor<Cf> =
        FunctionDescriptor::Values(vec![sc_err(1.), sc_err(1.), sc_err(1.)]);
    let mut integral: Integraal<Cf> = Integraal::default()
        .domain(domain)
        .function(function)
        .method(ComputeMethod::RectangleLeft);

    // first computation succeeds and clears the function descriptor
    assert!(integral.compute().is_ok());

    // a second computation without re-setting the function is refused,
    // while the domain and the method are still in place
    assert_eq!(
        integral.compute(),
        Err(IntegraalError::MissingParameters("one or more parameter is missing"))
    );

    // re-setting only the function makes the structure usable again
    let function: FunctionDescriptor<Cf> =
        FunctionDescriptor::Values(vec![sc_err(2.), sc_err(2.), sc_err(2.)]);
    let mut integral = integral.function(function);
    assert!(integral.compute().is_ok());
}

#[test]
fn compute_failure_preserves_function() {
    // an inconsistent length fails and leaves every field as it was,
    // so fixing nothing and retrying fails the same way
    let domain = DomainDescriptor::Uniform { start: sc_err(0.), step: sc_err(0.5), n_step: 3 };
    let function: FunctionDescriptor<Cf> = FunctionDescriptor::Values(vec![sc_err(1.)]);
    let mut integral: Integraal<Cf> = Integraal::default()
        .domain(domain)
        .function(function)
        .method(ComputeMethod::Trapezoid);
    assert!(matches!(integral.compute(), Err(IntegraalError::InconsistentParameters(_))));
    assert!(matches!(integral.compute(), Err(IntegraalError::InconsistentParameters(_))));
}

#[test]
fn boole_unforced_rejects_bad_segment_count() {
    // 6 samples give 5 segments, not a multiple of 4
    let domain = DomainDescriptor::Uniform { start: sc_err(0.), step: sc_err(1.), n_step: 6 };
    let vals: Vec<Scalar> = (0..6).map(|_| sc_err(1.)).collect();
    let mut integral: Integraal<Cf> = Integraal::default()
        .domain(domain)
        .function(FunctionDescriptor::Values(vals))
        .method(ComputeMethod::Boole { force: false });
    assert_eq!(
        integral.compute(),
        Err(IntegraalError::BadParameters(
            "domain should be divided into a multiple of 4 segments for Boole's method"
        ))
    );
}

#[test]
fn boole_forced_truncates_and_succeeds() {
    // 6 samples, forced: the largest multiple-of-4 prefix (4 samples) is used
    let domain = DomainDescriptor::Uniform { start: sc_err(0.), step: sc_err(1.), n_step: 6 };
    let vals: Vec<Scalar> = (0..6).map(|_| sc_err(1.)).collect();
    let mut integral: Integraal<Cf> = Integraal::default()
        .domain(domain)
        .function(FunctionDescriptor::Values(vals))
        .method(ComputeMethod::Boole { force: true });
    let res = integral.compute();
    assert!(res.is_ok());
    // endpoints weigh 7 each, interior samples 32 and 12:
    // (2 / 45) * step * (14 + 32 + 12) = 116 / 45
    let expected = (58i64 * 4294967296 * 2) / 45;
    assert_eq!(res.unwrap().bits, expected);
}

#[test]
fn boole_rejected_for_explicit_domain() {
    let domain = DomainDescriptor::Explicit(vec![sc_err(0.), sc_err(1.), sc_err(2.)]);
    let vals: Vec<Scalar> = (0..3).map(|_| sc_err(1.)).collect();
    let mut integral: Integraal<Cf> = Integraal::default()
        .domain(domain)
        .function(FunctionDescriptor::Values(vals))
        .method(ComputeMethod::Boole { force: true });
    assert_eq!(
        integral.compute(),
        Err(IntegraalError::Unimplemented(
            "Boole's method isn't implemented for non-uniform domains"
        ))
    );
}

#[test]
fn romberg_rejected_for_explicit_domain() {
    let domain = DomainDescriptor::Explicit(vec![sc_err(0.), sc_err(1.), sc_err(2.)]);
    let vals: Vec<Scalar> = (0..3).map(|_| sc_err(1.)).collect();
    let mut integral: Integraal<Cf> = Integraal::default()
        .domain(domain)
        .function(FunctionDescriptor::Values(vals))
        .method(ComputeMethod::Romberg { max_steps: 4 });
    assert_eq!(
        integral.compute(),
        Err(IntegraalError::Unimplemented(
            "Romberg's method isn't implemented for non-uniform domains"
        ))
    );
}

#[test]
fn romberg_rejects_unusable_budget() {
    // a zero iteration budget computes nothing
    let domain = DomainDescriptor::Uniform { start: sc_err(0.), step: sc_err(1.), n_step: 4 };
    let vals: Vec<Scalar> = (0..4).map(|_| sc_err(1.)).collect();
    let mut integral: Integraal<Cf> = Integraal::default()
        .domain(domain)
        .function(FunctionDescriptor::Values(vals))
        .method(ComputeMethod::Romberg { max_steps: 0 });
    assert!(matches!(integral.compute(), Err(IntegraalError::BadParameters(_))));

    // a budget needing more refinement than the samples support is refused
    let domain = DomainDescriptor::Uniform { start: sc_err(0.), step: sc_err(1.), n_step: 4 };
    let vals: Vec<Scalar> = (0..4).map(|_| sc_err(1.)).collect();
    let mut integral: Integraal<Cf> = Integraal::default()
        .domain(domain)
        .function(FunctionDescriptor::Values(vals))
        .method(ComputeMethod::Romberg { max_steps: 10 });
    assert!(matches!(integral.compute(), Err(IntegraalError::BadParameters(_))));
}

#[test]
fn montecarlo_rejects_zero_samples() {
    let domain = DomainDescriptor::Uniform { start: sc_err(0.), step: sc_err(1.), n_step: 4 };
    let vals: Vec<Scalar> = (0..4).map(|_| sc_err(1.)).collect();
    let mut integral: Integraal<Cf> = Integraal::default()
        .domain(domain)
        .function(FunctionDescriptor::Values(vals))
        .method(ComputeMethod::MonteCarlo { n_sample: 0 });
    assert!(matches!(integral.compute(), Err(IntegraalError::BadParameters(_))));
}

#[test]
fn error_estimator_rejects_explicit_domain() {
    let domain = DomainDescriptor::Explicit(vec![sc_err(0.), sc_err(1.), sc_err(2.)]);
    let vals: Vec<Scalar> = (0..3).map(|_| sc_err(1.)).collect();
    let integral: Integraal<Cf> = Integraal::default()
        .domain(domain)
        .function(FunctionDescriptor::Values(vals))
        .method(ComputeMethod::RectangleLeft);
    assert!(matches!(
        integral.compute_error(),
        Err(IntegraalError::InconsistentParameters(_))
    ));
}

#[test]
fn error_estimator_unimplemented_for_simpson() {
    let domain = DomainDescriptor::Uniform { start: sc_err(0.), step: sc_err(1.), n_step: 3 };
    let vals: Vec<Scalar> = (0..3).map(|_| sc_err(1.)).collect();
    let integral: Integraal<Cf> = Integraal::default()
        .domain(domain)
        .function(FunctionDescriptor::Values(vals))
        .method(ComputeMethod::Simpson);
    assert!(matches!(integral.compute_error(), Err(IntegraalError::Unimplemented(_))));
}

#[test]
fn error_estimator_missing_parameters() {
    let empty: Integraal<Cf> = Integraal::default().method(ComputeMethod::RectangleLeft);
    assert_eq!(
        empty.compute_error(),
        Err(IntegraalError::MissingParameters("one or more parameter is missing"))
    );
}
