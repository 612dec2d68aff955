//! The clock that times the loop.
//!
//! No count of a clock can be foretold: proved is how a count is read as a
//! span, here, and what is done with a span, in `bench`, for every span.

use vstd::prelude::*;
use time::PreciseTime;

verus! {

/// `time::PreciseTime`: a moment on the machine's high-resolution counter.
#[verifier::external_type_specification]
#[verifier::external_body]
pub struct ExPreciseTime(PreciseTime);

/// `time::PreciseTime::now`: the present moment. Nothing is known of it.
#[verifier::external_body]
fn clock_now() -> (moment: PreciseTime) {
    PreciseTime::now()
}

/// `time::PreciseTime::to`, from `started` to `time::PreciseTime::now`, and
/// `time::Duration::num_nanoseconds` of the span: the nanoseconds that have
/// passed since `started`, where the crate can count them. Nothing is known
/// of their number.
#[verifier::external_body]
fn nanos_since(started: &PreciseTime) -> (nanos: Option<i64>) {
    started.to(PreciseTime::now()).num_nanoseconds()
}

/// A running measurement.
pub struct Stopwatch {
    started: PreciseTime,
}

impl Stopwatch {
    /// Starts to measure now.
    pub fn start() -> (watch: Stopwatch) {
        Stopwatch { started: clock_now() }
    }

    /// The nanoseconds since the start: `whole_span` of what the clock counts,
    /// so `None` where it gives no count of them, or one below zero.
    pub fn elapsed_nanos(&self) -> (nanos: Option<u64>)
        ensures
            exists|counted: Option<i64>| nanos == #[trigger] whole_span(counted),
    {
        span_of(nanos_since(&self.started))
    }
}

/// The span that a count of the clock stands for: the count itself, where
/// there is one and it is not below zero.
pub open spec fn whole_span(counted: Option<i64>) -> Option<u64> {
    match counted {
        Some(n) => if n >= 0 {
            Some(n as u64)
        } else {
            None
        },
        None => None,
    }
}

/// Reads a count of the clock as a span: time does not run backwards, so a
/// count below zero is no span.
pub fn span_of(counted: Option<i64>) -> (span: Option<u64>)
    ensures
        span == whole_span(counted),
{
    match counted {
        Some(n) => {
            if n >= 0 {
                Some(n as u64)
            } else {
                None
            }
        },
        None => None,
    }
}

} // verus!
