use std::cell::Cell;

use integral::bounds::{finite_endpoints, EndBound};
use integral::error::UnboundedError;
use integral::function::Function;
use integral::simpson::{sample, sample_count, Sample, SamplePoint};

/// Composite Simpson's rule in floating point, driven by the library's
/// range check and sampling plan.
fn integrate<F: Fn(f64) -> f64>(
    func: &Function<F>,
    start: EndBound<f64>,
    end: EndBound<f64>,
    n: u32,
) -> Result<f64, UnboundedError> {
    let (a, b) = finite_endpoints(start, end)?;
    let h = (b - a) / n as f64;
    let mut sum = 0.0;
    for k in 0..sample_count(n) {
        let s = sample(n, k);
        let x = match s.point {
            SamplePoint::Lower => a,
            SamplePoint::Upper => b,
            SamplePoint::HalfSteps(j) => a + h * (j as f64 * 0.5),
        };
        sum += s.weight as f64 * func.evaluate(x);
    }
    Ok(h / 6.0 * sum)
}

fn closed(a: f64, b: f64) -> (EndBound<f64>, EndBound<f64>) {
    (EndBound::Included(a), EndBound::Included(b))
}

#[test]
fn it_works() {
    let func = Function::new(|x: f64| x * 2.0);
    let (lo, hi) = closed(0.0, 1.0);
    let qs = integrate(&func, lo, hi, 100).unwrap();
    assert!(qs.is_finite());
    assert!((qs - 1.0).abs() < 1e-9);
}

#[test]
fn constant_function_integrates_to_height_times_width() {
    for &n in &[2u32, 4, 10, 100] {
        let func = Function::new(|_x: f64| 3.5);
        let (lo, hi) = closed(-1.0, 2.0);
        let r = integrate(&func, lo, hi, n).unwrap();
        assert!((r - 10.5).abs() < 1e-12, "n = {}: {}", n, r);
    }
}

#[test]
fn identity_on_unit_interval_is_one_half() {
    for &n in &[2u32, 4, 6, 50, 100] {
        let func = Function::new(|x: f64| x);
        let (lo, hi) = closed(0.0, 1.0);
        let r = integrate(&func, lo, hi, n).unwrap();
        assert!((r - 0.5).abs() < 1e-12, "n = {}: {}", n, r);
    }
}

#[test]
fn cube_on_unit_interval_is_one_quarter() {
    for &n in &[2u32, 4, 10, 100] {
        let func = Function::new(|x: f64| x * x * x);
        let (lo, hi) = closed(0.0, 1.0);
        let r = integrate(&func, lo, hi, n).unwrap();
        assert!((r - 0.25).abs() < 1e-12, "n = {}: {}", n, r);
    }
}

#[test]
fn unbounded_ranges_fail_without_evaluating() {
    let calls = Cell::new(0u32);
    let func = Function::new(|x: f64| {
        calls.set(calls.get() + 1);
        x
    });
    let shapes = [
        (EndBound::Included(0.0), EndBound::Unbounded),
        (EndBound::Unbounded, EndBound::Included(1.0)),
        (EndBound::Unbounded, EndBound::Excluded(1.0)),
        (EndBound::Unbounded, EndBound::Unbounded),
    ];
    for (lo, hi) in shapes {
        assert_eq!(integrate(&func, lo, hi, 10), Err(UnboundedError {}));
    }
    assert_eq!(calls.get(), 0);
}

#[test]
fn excluded_ends_integrate_like_included_ones() {
    let func = Function::new(|x: f64| x * 2.0);
    let inclusive = integrate(&func, EndBound::Included(0.0), EndBound::Included(1.0), 10).unwrap();
    let half_open = integrate(&func, EndBound::Included(0.0), EndBound::Excluded(1.0), 10).unwrap();
    let open = integrate(&func, EndBound::Excluded(0.0), EndBound::Excluded(1.0), 10).unwrap();
    assert_eq!(inclusive, half_open);
    assert_eq!(inclusive, open);
}

#[test]
fn finite_endpoints_keep_the_given_order() {
    assert_eq!(finite_endpoints(EndBound::Excluded(5i64), EndBound::Included(-2i64)), Ok((5, -2)));
    assert_eq!(finite_endpoints(EndBound::Included(1u8), EndBound::<u8>::Unbounded), Err(UnboundedError {}));
}

#[test]
fn reversed_range_gives_negated_integral() {
    let func = Function::new(|x: f64| x * 2.0);
    let r = integrate(&func, EndBound::Included(1.0), EndBound::Included(0.0), 10).unwrap();
    assert!((r + 1.0).abs() < 1e-12);
}

#[test]
fn zero_steps_give_a_non_finite_result() {
    let func = Function::new(|x: f64| x + 1.0);
    let (lo, hi) = closed(0.0, 1.0);
    let r = integrate(&func, lo, hi, 0).unwrap();
    assert!(!r.is_finite());
}

#[test]
fn evaluate_twice_gives_identical_results() {
    let func = Function::new(|x: f64| x.sin() * 3.0 - x);
    for &x in &[0.0, 0.3, -7.25, 1e10] {
        let first: f64 = func.evaluate(x);
        let second: f64 = func.evaluate(x);
        assert_eq!(first.to_bits(), second.to_bits());
    }
}

#[test]
fn evaluate_returns_the_callable_value() {
    let func = Function::new(|x: f64| x * 2.0);
    let y: f64 = func.evaluate(1.25);
    assert_eq!(y, 2.5);
}

#[test]
fn error_message_text() {
    assert_eq!(UnboundedError {}.to_string(), "Unbounded ranges are not supported");
}

#[test]
fn sample_plan_for_two_steps() {
    assert_eq!(sample_count(2), 5);
    let plan: Vec<Sample> = (0..5).map(|k| sample(2, k)).collect();
    assert_eq!(
        plan,
        vec![
            Sample { point: SamplePoint::Lower, weight: 1 },
            Sample { point: SamplePoint::HalfSteps(1), weight: 4 },
            Sample { point: SamplePoint::HalfSteps(2), weight: 2 },
            Sample { point: SamplePoint::HalfSteps(3), weight: 4 },
            Sample { point: SamplePoint::Upper, weight: 1 },
        ]
    );
}

#[test]
fn sample_plan_for_one_step() {
    assert_eq!(sample_count(1), 3);
    assert_eq!(sample(1, 0), Sample { point: SamplePoint::Lower, weight: 1 });
    assert_eq!(sample(1, 1), Sample { point: SamplePoint::HalfSteps(1), weight: 4 });
    assert_eq!(sample(1, 2), Sample { point: SamplePoint::Upper, weight: 1 });
}

#[test]
fn weights_add_up_to_six_per_step() {
    for &n in &[1u32, 2, 7, 100, 1000] {
        let total: u64 = (0..sample_count(n)).map(|k| sample(n, k).weight as u64).sum();
        assert_eq!(total, 6 * n as u64);
    }
}

#[test]
fn sample_count_at_the_largest_step_count() {
    assert_eq!(sample_count(u32::MAX), 2 * u32::MAX as u64 + 1);
    assert_eq!(
        sample(u32::MAX, 2 * u32::MAX as u64),
        Sample { point: SamplePoint::Upper, weight: 1 }
    );
}
