//! The timed loop: the signer's setup run again and again, and the mean time
//! of one run.
//!
//! The caller runs the setup and reads the clock; the count, the stop on the
//! first failure and the mean are decided here.

use vstd::prelude::*;
use vstd::string::*;
use crate::clock::Stopwatch;
use crate::errors::ProtocolError;
use crate::text::{decimal_digits, digit_char, push_decimal};

verus! {

/// The iteration count that is used where none is given.
pub const DEFAULT_ITERATIONS: i32 = 1000;

/// The number of nanoseconds in a millisecond.
pub const NANOS_PER_MILLI: u64 = 1_000_000;

/// What the caller is to do next in the timed loop.
#[derive(Debug, Clone, Copy, PartialEq, Eq, Structural)]
pub enum BenchAction {
    /// Run the setup once more and drop what it returns.
    Setup,
    /// Every run is made: stop the clock.
    Finish,
}

/// The number of runs that an iteration count of `iterations` asks for: a
/// count below zero asks for none.
pub open spec fn planned_runs(iterations: int) -> int {
    if iterations > 0 {
        iterations
    } else {
        0
    }
}

/// The mean of `elapsed` over `iterations`, rounded towards zero.
pub open spec fn mean_of(elapsed: int, iterations: int) -> int {
    if iterations > 0 {
        elapsed / iterations
    } else {
        -(elapsed / (-iterations))
    }
}

/// Where every one of `iterations` runs takes the same time `each`, the mean
/// is that time.
pub proof fn lemma_mean_of_equal_runs(each: int, iterations: int)
    requires
        0 <= each,
        0 < iterations,
    ensures
        mean_of(iterations * each, iterations) == each,
{
    assert((iterations * each) / iterations == each) by (nonlinear_arith)
        requires
            0 <= each,
            0 < iterations,
    ;
}

/// The mean over a positive count is the largest whole number of nanoseconds
/// that, taken `iterations` times, does not exceed the time that passed.
pub proof fn lemma_mean_is_floor(elapsed: int, iterations: int)
    requires
        0 <= elapsed,
        0 < iterations,
    ensures
        0 <= mean_of(elapsed, iterations),
        mean_of(elapsed, iterations) * iterations <= elapsed,
        elapsed < (mean_of(elapsed, iterations) + 1) * iterations,
{
    let m = elapsed / iterations;
    assert(0 <= m && m * iterations <= elapsed && elapsed < (m + 1) * iterations)
        by (nonlinear_arith)
        requires
            0 <= elapsed,
            0 < iterations,
            m == elapsed / iterations,
    ;
}

/// A mean time in nanoseconds: below zero only where the iteration count was.
#[derive(Debug, Clone, Copy, PartialEq, Eq, Structural)]
pub struct Mean {
    /// Whether the mean is below zero.
    pub negative: bool,
    /// The size of the mean, in nanoseconds.
    pub nanos: u64,
}

impl Mean {
    /// The mean in nanoseconds, with its sign.
    pub open spec fn signed_nanos(self) -> int {
        if self.negative {
            -(self.nanos as int)
        } else {
            self.nanos as int
        }
    }

    /// The mean as it is reported: the sign where it is below zero, the whole
    /// milliseconds, a point, the six digits of the nanoseconds beyond them,
    /// and the unit.
    pub open spec fn spec_text(self) -> Seq<char> {
        let sign = if self.negative {
            seq!['-']
        } else {
            Seq::<char>::empty()
        };
        sign + decimal_digits((self.nanos / NANOS_PER_MILLI) as nat) + seq!['.'] + six_digits(
            (self.nanos % NANOS_PER_MILLI) as nat,
        ) + " ms avg"@
    }

    /// The whole milliseconds of the size of the mean.
    pub fn whole_millis(&self) -> (ms: u64)
        ensures
            ms == self.nanos / NANOS_PER_MILLI,
    {
        self.nanos / NANOS_PER_MILLI
    }

    /// The mean as it is reported, in milliseconds.
    pub fn text(&self) -> (text: String)
        ensures
            text@ == self.spec_text(),
    {
        let mut text = String::new();
        if self.negative {
            text.append("-");
            proof {
                reveal_strlit("-");
            }
        }
        let ms = self.nanos / NANOS_PER_MILLI;
        if ms <= usize::MAX as u64 {
            push_decimal(&mut text, ms as usize);
        } else {
            push_wide_decimal(&mut text, ms);
        }
        text.append(".");
        proof {
            reveal_strlit(".");
        }
        push_six_digits(&mut text, self.nanos % NANOS_PER_MILLI);
        text.append(" ms avg");
        text
    }
}

/// The six decimal digits of `f`, with zeros in front where `f` has fewer.
pub open spec fn six_digits(f: nat) -> Seq<char> {
    seq![
        digit_char((f / 100000 % 10) as int),
        digit_char((f / 10000 % 10) as int),
        digit_char((f / 1000 % 10) as int),
        digit_char((f / 100 % 10) as int),
        digit_char((f / 10 % 10) as int),
        digit_char((f % 10) as int),
    ]
}

/// Appends the six decimal digits of `f`.
fn push_six_digits(out: &mut String, f: u64)
    requires
        f < 1_000_000,
    ensures
        final(out)@ == old(out)@ + six_digits(f as nat),
{
    push_decimal(out, (f / 100000 % 10) as usize);
    push_decimal(out, (f / 10000 % 10) as usize);
    push_decimal(out, (f / 1000 % 10) as usize);
    push_decimal(out, (f / 100 % 10) as usize);
    push_decimal(out, (f / 10 % 10) as usize);
    push_decimal(out, (f % 10) as usize);
}

/// Appends the decimal digits of `n`, which may be wider than a `usize`.
fn push_wide_decimal(out: &mut String, n: u64)
    ensures
        final(out)@ == old(out)@ + decimal_digits(n as nat),
    decreases n,
{
    if n >= 10 {
        push_wide_decimal(out, n / 10);
    }
    push_decimal(out, (n % 10) as usize);
}

/// One party's place in the timed loop, as a plain value.
pub struct BenchState {
    /// The party that runs the loop.
    pub party: int,
    /// The iteration count that was asked for.
    pub iterations: int,
    /// The number of runs that have succeeded.
    pub completed: int,
}

impl BenchState {
    /// No more runs are made than were asked for.
    pub open spec fn wf(self) -> bool {
        0 <= self.completed <= planned_runs(self.iterations)
    }

    /// Whether every run that was asked for is made.
    pub open spec fn is_done(self) -> bool {
        self.completed == planned_runs(self.iterations)
    }

    /// What comes next: another run until all are made.
    pub open spec fn action(self) -> BenchAction {
        if self.is_done() {
            BenchAction::Finish
        } else {
            BenchAction::Setup
        }
    }

    /// The mean of one run where the loop took `elapsed` nanoseconds: none
    /// over no iterations, and none before every run is made.
    pub open spec fn mean_after(self, elapsed: int) -> Result<Mean, ProtocolError> {
        if self.iterations == 0 {
            Err(ProtocolError::NoIterations)
        } else if !self.is_done() {
            Err(ProtocolError::Unexpected)
        } else {
            let mean = mean_of(elapsed, self.iterations);
            Ok(
                if mean < 0 {
                    Mean { negative: true, nanos: (-mean) as u64 }
                } else {
                    Mean { negative: false, nanos: mean as u64 }
                },
            )
        }
    }
}

/// One party's timed loop.
pub struct BenchmarkLoop {
    party: usize,
    iterations: i32,
    completed: i32,
}

impl BenchmarkLoop {
    /// The loop's place as a plain value.
    pub closed spec fn view(&self) -> BenchState {
        BenchState {
            party: self.party as int,
            iterations: self.iterations as int,
            completed: self.completed as int,
        }
    }

    /// The loop of `party` over `iterations` runs, none made yet.
    pub fn new(party: usize, iterations: i32) -> (bench: BenchmarkLoop)
        ensures
            bench@.wf(),
            bench@.party == party,
            bench@.iterations == iterations,
            bench@.completed == 0,
    {
        BenchmarkLoop { party, iterations, completed: 0 }
    }

    /// What the caller is to do next.
    pub fn next_action(&self) -> (action: BenchAction)
        requires
            self@.wf(),
        ensures
            action == self@.action(),
    {
        if self.completed < self.iterations {
            BenchAction::Setup
        } else {
            BenchAction::Finish
        }
    }

    /// The number of runs that have succeeded.
    pub fn completed(&self) -> (runs: i32)
        ensures
            runs == self@.completed,
    {
        self.completed
    }

    /// Takes the outcome of one run of the setup.
    ///
    /// A run that built its signer is counted. A run that failed ends the
    /// benchmark: `SetupFailed`, with the party and the number of runs that
    /// had succeeded. A run that was not asked for is `Unexpected`. In both
    /// cases the count stays.
    pub fn record(&mut self, built: bool) -> (r: Result<(), ProtocolError>)
        requires
            old(self)@.wf(),
        ensures
            final(self)@.wf(),
            final(self)@.party == old(self)@.party,
            final(self)@.iterations == old(self)@.iterations,
            r == if old(self)@.is_done() {
                Err::<(), ProtocolError>(ProtocolError::Unexpected)
            } else if built {
                Ok::<(), ProtocolError>(())
            } else {
                Err::<(), ProtocolError>(
                    ProtocolError::SetupFailed {
                        party: old(self)@.party as usize,
                        iteration: old(self)@.completed as usize,
                    },
                )
            },
            final(self)@.completed == if r is Ok {
                old(self)@.completed + 1
            } else {
                old(self)@.completed
            },
    {
        if self.completed >= self.iterations {
            Err(ProtocolError::Unexpected)
        } else if built {
            self.completed = self.completed + 1;
            Ok(())
        } else {
            Err(ProtocolError::SetupFailed { party: self.party, iteration: self.completed as usize })
        }
    }

    /// The mean time of one run, `elapsed_nanos` being the time from before
    /// the first run to after the last.
    ///
    /// There is no mean over no iterations: `NoIterations`. Before every run
    /// is made there is none either: `Unexpected`.
    pub fn mean(&self, elapsed_nanos: u64) -> (r: Result<Mean, ProtocolError>)
        requires
            self@.wf(),
        ensures
            r == self@.mean_after(elapsed_nanos as int),
            r matches Ok(mean) ==> mean.signed_nanos() == mean_of(
                elapsed_nanos as int,
                self@.iterations,
            ),
    {
        if self.iterations == 0 {
            return Err(ProtocolError::NoIterations);
        }
        if self.completed < self.iterations {
            return Err(ProtocolError::Unexpected);
        }
        Ok(mean_time(elapsed_nanos, self.iterations))
    }

    /// Stops the clock and gives the mean time of one run, `watch` having been
    /// started before the first run.
    ///
    /// There is no mean over no iterations and none before every run is made,
    /// whatever the clock says. Otherwise the mean is that of the time that
    /// the clock gives, or `NoTime` where it gives none.
    pub fn finish(&self, watch: &Stopwatch) -> (r: Result<Mean, ProtocolError>)
        requires
            self@.wf(),
        ensures
            self@.iterations == 0 ==> r == Err::<Mean, ProtocolError>(ProtocolError::NoIterations),
            self@.iterations != 0 && !self@.is_done() ==> r == Err::<Mean, ProtocolError>(
                ProtocolError::Unexpected,
            ),
            r == Err::<Mean, ProtocolError>(ProtocolError::NoTime) || exists|elapsed: u64|
                r == #[trigger] self@.mean_after(elapsed as int),
    {
        if self.iterations == 0 {
            assert(self@.mean_after(0u64 as int) == Err::<Mean, ProtocolError>(
                ProtocolError::NoIterations,
            ));
            return Err(ProtocolError::NoIterations);
        }
        if self.completed < self.iterations {
            assert(self@.mean_after(0u64 as int) == Err::<Mean, ProtocolError>(
                ProtocolError::Unexpected,
            ));
            return Err(ProtocolError::Unexpected);
        }
        match watch.elapsed_nanos() {
            Some(elapsed) => self.mean(elapsed),
            None => Err(ProtocolError::NoTime),
        }
    }
}

/// The mean of `elapsed_nanos` over `iterations`, rounded towards zero.
pub fn mean_time(elapsed_nanos: u64, iterations: i32) -> (mean: Mean)
    requires
        iterations != 0,
    ensures
        mean.signed_nanos() == mean_of(elapsed_nanos as int, iterations as int),
        mean.negative <==> mean.signed_nanos() < 0,
{
    proof {
        if iterations > 0 {
            lemma_mean_is_floor(elapsed_nanos as int, iterations as int);
        }
    }
    if iterations > 0 {
        Mean { negative: false, nanos: elapsed_nanos / (iterations as u64) }
    } else {
        let divisor: u64 = if iterations == i32::MIN {
            0x8000_0000
        } else {
            (-iterations) as u64
        };
        let nanos = elapsed_nanos / divisor;
        Mean { negative: nanos > 0, nanos }
    }
}

} // verus!
