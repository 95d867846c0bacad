use fractal::escape::{decide, evaluate, iteration_cap, EscapeResult, Magnitude, Step, MIN_ITERATIONS};
use num::complex::Complex64;

fn measure(z: Complex64) -> Magnitude {
    let modulus = z.norm();
    if modulus <= 2.0 {
        Magnitude::Within
    } else if modulus > 2.0 {
        Magnitude::Beyond
    } else {
        Magnitude::Undefined
    }
}

fn mandelbrot(c: Complex64, max_iter: u64) -> EscapeResult {
    evaluate(Complex64::new(0.0, 0.0), c, &|z: Complex64, c: Complex64| z * z + c, &measure, max_iter)
}

#[test]
fn iteration_cap_has_a_floor_of_one_thousand() {
    assert_eq!(MIN_ITERATIONS, 1000);
    assert_eq!(iteration_cap(0), 1000);
    assert_eq!(iteration_cap(999), 1000);
    assert_eq!(iteration_cap(1000), 1000);
    assert_eq!(iteration_cap(1001), 1001);
    assert_eq!(iteration_cap(u64::MAX), u64::MAX);
}

#[test]
fn decide_goes_on_while_within_and_under_the_cap() {
    assert_eq!(decide(0, 10, Magnitude::Within), Step::Iterate);
    assert_eq!(decide(9, 10, Magnitude::Within), Step::Iterate);
}

#[test]
fn decide_halts_at_the_cap() {
    assert_eq!(
        decide(10, 10, Magnitude::Within),
        Step::Halt(EscapeResult { count: 10, escaped: false })
    );
    assert_eq!(
        decide(0, 0, Magnitude::Within),
        Step::Halt(EscapeResult { count: 0, escaped: false })
    );
}

#[test]
fn decide_halts_beyond_the_radius() {
    assert_eq!(
        decide(4, 10, Magnitude::Beyond),
        Step::Halt(EscapeResult { count: 4, escaped: true })
    );
    assert_eq!(
        decide(10, 10, Magnitude::Beyond),
        Step::Halt(EscapeResult { count: 10, escaped: true })
    );
}

#[test]
fn decide_halts_on_an_undefined_modulus_without_escape() {
    assert_eq!(
        decide(4, 10, Magnitude::Undefined),
        Step::Halt(EscapeResult { count: 4, escaped: false })
    );
}

#[test]
fn evaluate_counts_the_steps_of_an_integer_orbit() {
    let result = evaluate(
        0i64,
        1i64,
        &|z: i64, c: i64| z + c,
        &|z: i64| if z <= 2 { Magnitude::Within } else { Magnitude::Beyond },
        100,
    );
    assert_eq!(result, EscapeResult { count: 3, escaped: true });
}

#[test]
fn evaluate_stops_at_the_cap_of_a_bounded_orbit() {
    let result = evaluate(0i64, 0i64, &|z: i64, c: i64| z + c, &|_z: i64| Magnitude::Within, 25);
    assert_eq!(result, EscapeResult { count: 25, escaped: false });
}

#[test]
fn evaluate_with_a_cap_of_zero_takes_no_step() {
    let inside = evaluate(0i64, 1i64, &|z: i64, c: i64| z + c, &|_z: i64| Magnitude::Within, 0);
    assert_eq!(inside, EscapeResult { count: 0, escaped: false });
    let outside = evaluate(9i64, 1i64, &|z: i64, c: i64| z + c, &|_z: i64| Magnitude::Beyond, 0);
    assert_eq!(outside, EscapeResult { count: 0, escaped: true });
}

#[test]
fn evaluate_reports_an_escape_that_happens_at_the_cap() {
    let result = evaluate(
        0i64,
        1i64,
        &|z: i64, c: i64| z + c,
        &|z: i64| if z <= 2 { Magnitude::Within } else { Magnitude::Beyond },
        3,
    );
    assert_eq!(result, EscapeResult { count: 3, escaped: true });
}

#[test]
fn evaluate_halts_on_an_undefined_modulus() {
    let result = mandelbrot(Complex64::new(f64::NAN, 0.0), 1000);
    assert_eq!(result, EscapeResult { count: 1, escaped: false });
}

#[test]
fn a_seed_beyond_the_radius_escapes_at_once() {
    let result = evaluate(
        Complex64::new(3.0, 0.0),
        Complex64::new(0.0, 0.0),
        &|z: Complex64, c: Complex64| z * z + c,
        &measure,
        1000,
    );
    assert_eq!(result, EscapeResult { count: 0, escaped: true });
}

#[test]
fn a_far_point_escapes_within_a_handful_of_steps() {
    let result = mandelbrot(Complex64::new(5.0, 5.0), 1000);
    assert_eq!(result, EscapeResult { count: 1, escaped: true });
}

#[test]
fn the_origin_never_escapes() {
    let result = mandelbrot(Complex64::new(0.0, 0.0), 1000);
    assert_eq!(result, EscapeResult { count: 1000, escaped: false });
}

#[test]
fn a_point_on_the_radius_does_not_count_as_escaped() {
    let result = mandelbrot(Complex64::new(-2.0, 0.0), 50);
    assert_eq!(result, EscapeResult { count: 50, escaped: false });
}

#[test]
fn known_escape_counts_of_the_mandelbrot_set() {
    assert_eq!(mandelbrot(Complex64::new(1.0, 0.0), 1000), EscapeResult { count: 3, escaped: true });
    assert_eq!(mandelbrot(Complex64::new(2.0, 2.0), 1000), EscapeResult { count: 1, escaped: true });
    assert_eq!(mandelbrot(Complex64::new(-1.0, 0.0), 1000), EscapeResult { count: 1000, escaped: false });
}

#[test]
fn evaluate_is_deterministic() {
    let mut y = -1.5;
    while y <= 1.5 {
        let mut x = -2.0;
        while x <= 1.0 {
            let c = Complex64::new(x, y);
            assert_eq!(mandelbrot(c, 200), mandelbrot(c, 200));
            x += 0.25;
        }
        y += 0.25;
    }
}

#[test]
fn escape_count_stays_within_the_cap() {
    let caps: [u64; 4] = [0, 1, 7, 100];
    for cap in caps {
        let mut y = -1.5;
        while y <= 1.5 {
            let mut x = -2.0;
            while x <= 1.0 {
                let result = mandelbrot(Complex64::new(x, y), cap);
                assert!(result.count <= cap);
                if result.count < cap {
                    assert!(result.escaped);
                }
                if !result.escaped {
                    assert_eq!(result.count, cap);
                }
                x += 0.125;
            }
            y += 0.125;
        }
    }
}

#[test]
fn evaluate_measures_each_orbit_point_once_and_steps_between() {
    let measured = std::cell::RefCell::new(Vec::new());
    let stepped = std::cell::RefCell::new(Vec::new());
    let result = evaluate(
        1i64,
        2i64,
        &|z: i64, c: i64| {
            stepped.borrow_mut().push((z, c));
            z * c
        },
        &|z: i64| {
            measured.borrow_mut().push(z);
            if z <= 8 { Magnitude::Within } else { Magnitude::Beyond }
        },
        100,
    );
    assert_eq!(result, EscapeResult { count: 4, escaped: true });
    assert_eq!(measured.into_inner(), vec![1, 2, 4, 8, 16]);
    assert_eq!(stepped.into_inner(), vec![(1, 2), (2, 2), (4, 2), (8, 2)]);
}
