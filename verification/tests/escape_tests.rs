use mandelbrot::escape::Directive;
use mandelbrot::escape::EscapeRun;
use mandelbrot::escape::SMOOTHING_STEPS;
use mandelbrot::binary64::Binary64;

/// Feeds the escape tests of `trace` to a fresh evaluation, as long as it asks for
/// steps, and returns the final directive with the number of steps performed.
fn drive(max_iterations: u32, trace: &[bool]) -> (Directive, usize) {
    let mut run = EscapeRun::start(max_iterations);
    let mut steps = 0;
    loop {
        match run.directive() {
            Directive::Iterate => {
                run.observe(trace[steps]);
                steps += 1;
            }
            done => return (done, steps),
        }
    }
}

#[test]
fn no_escape_is_interior_after_the_search() {
    let trace = vec![false; 64];
    assert_eq!(drive(18, &trace), (Directive::Interior, 17));
    assert_eq!(drive(3, &trace), (Directive::Interior, 2));
    assert_eq!(drive(2, &trace), (Directive::Interior, 1));
}

#[test]
fn no_search_without_iterations() {
    assert_eq!(drive(1, &[]), (Directive::Interior, 0));
    assert_eq!(drive(0, &[]), (Directive::Interior, 0));
    let run = EscapeRun::start(0);
    assert!(run.is_finished());
    assert_eq!(run.iterations(), 0);
}

#[test]
fn escape_at_the_first_step() {
    let trace = vec![true, false, false, false];
    assert_eq!(drive(18, &trace), (Directive::Escaped { iterations: 3 }, 3));
}

#[test]
fn escape_in_the_middle() {
    let mut trace = vec![false; 20];
    trace[6] = true;
    assert_eq!(drive(18, &trace), (Directive::Escaped { iterations: 9 }, 9));
}

#[test]
fn escape_at_the_last_searched_step() {
    let mut trace = vec![false; 20];
    trace[16] = true;
    assert_eq!(drive(18, &trace), (Directive::Escaped { iterations: 19 }, 19));
}

#[test]
fn escape_after_the_search_is_not_seen() {
    let mut trace = vec![false; 20];
    trace[17] = true;
    assert_eq!(drive(18, &trace), (Directive::Interior, 17));
}

#[test]
fn tests_during_smoothing_are_ignored() {
    assert_eq!(drive(18, &[false, true, true, true]), (Directive::Escaped { iterations: 4 }, 4));
    assert_eq!(drive(18, &[false, true, false, false]), (Directive::Escaped { iterations: 4 }, 4));
}

#[test]
fn only_the_first_escape_counts() {
    let trace = vec![false, false, true, false, false, true, true, false];
    assert_eq!(drive(18, &trace), (Directive::Escaped { iterations: 5 }, 5));
}

#[test]
fn smoothing_takes_two_steps() {
    assert_eq!(SMOOTHING_STEPS, 2);
    let mut run = EscapeRun::start(10);
    assert_eq!(run.directive(), Directive::Iterate);
    run.observe(true);
    assert!(!run.is_finished());
    assert_eq!(run.directive(), Directive::Iterate);
    run.observe(false);
    assert!(!run.is_finished());
    assert_eq!(run.directive(), Directive::Iterate);
    run.observe(false);
    assert!(run.is_finished());
    assert_eq!(run.directive(), Directive::Escaped { iterations: 3 });
}

#[test]
fn a_finished_evaluation_stays_finished() {
    let mut run = EscapeRun::start(2);
    run.observe(false);
    assert_eq!(run.directive(), Directive::Interior);
    run.observe(true);
    run.observe(true);
    assert_eq!(run.directive(), Directive::Interior);
    assert_eq!(run.iterations(), 1);

    let mut escaped = EscapeRun::start(5);
    escaped.observe(true);
    escaped.observe(true);
    escaped.observe(true);
    escaped.observe(true);
    assert_eq!(escaped.directive(), Directive::Escaped { iterations: 3 });
    assert_eq!(escaped.iterations(), 3);
}

#[test]
fn steps_never_exceed_the_bound_plus_one() {
    for max_iterations in 0..12u32 {
        for first in 0..14usize {
            let mut trace = vec![false; 32];
            trace[first] = true;
            let (_, steps) = drive(max_iterations, &trace);
            assert!(steps as u64 <= max_iterations as u64 + 1);
        }
    }
}

#[test]
fn the_largest_bound_does_not_overflow() {
    let mut run = EscapeRun::start(u32::MAX);
    assert_eq!(run.max_iterations(), u32::MAX);
    run.observe(false);
    run.observe(true);
    run.observe(false);
    run.observe(false);
    assert_eq!(run.directive(), Directive::Escaped { iterations: 4 });
}

#[test]
fn magnitude_beyond_the_radius_escapes() {
    let radius = Binary64::from_bits(9.0f64.to_bits());
    let mut run = EscapeRun::start(18);
    run.observe_magnitude(Binary64::from_bits(8.999f64.to_bits()), radius);
    run.observe_magnitude(Binary64::from_bits(9.0f64.to_bits()), radius);
    run.observe_magnitude(Binary64::from_bits(f64::NAN.to_bits()), radius);
    assert_eq!(run.iterations(), 3);
    assert_eq!(run.directive(), Directive::Iterate);
    run.observe_magnitude(Binary64::from_bits(9.000000000000002f64.to_bits()), radius);
    run.observe_magnitude(Binary64::from_bits(0.0f64.to_bits()), radius);
    run.observe_magnitude(Binary64::from_bits(0.0f64.to_bits()), radius);
    assert_eq!(run.directive(), Directive::Escaped { iterations: 6 });
}

#[test]
fn infinite_magnitude_escapes() {
    let radius = Binary64::from_bits(9.0f64.to_bits());
    let mut run = EscapeRun::start(18);
    run.observe_magnitude(Binary64::from_bits(f64::INFINITY.to_bits()), radius);
    run.observe_magnitude(radius, radius);
    run.observe_magnitude(radius, radius);
    assert_eq!(run.directive(), Directive::Escaped { iterations: 3 });
}
