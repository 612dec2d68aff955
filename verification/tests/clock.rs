use bench_setup::bench::{BenchAction, BenchmarkLoop};
use bench_setup::clock::{span_of, Stopwatch};
use bench_setup::errors::ProtocolError;

#[test]
fn a_stopwatch_counts_upwards() {
    let watch = Stopwatch::start();
    let first = watch.elapsed_nanos().expect("the clock gave no time");
    let mut busy = 0u64;
    for k in 0..200_000u64 {
        busy = busy.wrapping_mul(31).wrapping_add(k);
    }
    assert_ne!(busy, 1);
    let second = watch.elapsed_nanos().expect("the clock gave no time");
    assert!(first <= second);
    assert!(second < 60_000_000_000, "two readings a minute apart: {}", second);
}

#[test]
fn a_later_stopwatch_has_seen_less_time() {
    let early = Stopwatch::start();
    let late = Stopwatch::start();
    let of_late = late.elapsed_nanos().unwrap();
    let of_early = early.elapsed_nanos().unwrap();
    assert!(of_late <= of_early);
}

#[test]
fn the_loop_is_timed_from_the_start_of_the_watch() {
    let watch = Stopwatch::start();
    let mut bench = BenchmarkLoop::new(0, 50);
    while bench.next_action() == BenchAction::Setup {
        assert_eq!(bench.record(true), Ok(()));
    }
    let mean = bench.finish(&watch).unwrap();
    let total = watch.elapsed_nanos().unwrap();
    assert!(!mean.negative);
    assert!(mean.nanos <= total / 50);
}

#[test]
fn no_clock_makes_a_mean_over_zero_iterations() {
    let watch = Stopwatch::start();
    let bench = BenchmarkLoop::new(0, 0);
    assert_eq!(bench.finish(&watch), Err(ProtocolError::NoIterations));
}

#[test]
fn no_clock_makes_a_mean_before_the_last_run() {
    let watch = Stopwatch::start();
    let mut bench = BenchmarkLoop::new(0, 2);
    assert_eq!(bench.record(true), Ok(()));
    assert_eq!(bench.finish(&watch), Err(ProtocolError::Unexpected));
}

#[test]
fn a_count_that_is_not_below_zero_is_a_span() {
    assert_eq!(span_of(Some(0)), Some(0));
    assert_eq!(span_of(Some(5)), Some(5));
    assert_eq!(span_of(Some(i64::MAX)), Some(i64::MAX as u64));
}

#[test]
fn no_count_and_a_count_below_zero_are_no_span() {
    assert_eq!(span_of(None), None);
    assert_eq!(span_of(Some(-1)), None);
    assert_eq!(span_of(Some(i64::MIN)), None);
}

#[test]
fn a_span_of_the_stopwatch_fits_the_count_of_the_clock() {
    let watch = Stopwatch::start();
    let span = watch.elapsed_nanos().unwrap();
    assert!(span <= i64::MAX as u64);
}
