//! Fewer log lines the longer an operation runs.
//!
//! Spans of time are numbers of nanoseconds.

use std::time::Instant;
use vstd::arithmetic::power2::{lemma2_to64, lemma_pow2_pos, lemma_pow2_unfold, pow2};
use vstd::prelude::*;

verus! {

/// Longest span of time that the clock can tell: `u64::MAX` seconds and all but
/// one nanosecond of another.
pub const MAX_SPAN: u128 = 18446744073709551615999999999;

/// `std::time::Instant`, a point in time of the clock that never goes back.
#[verifier::external_type_specification]
#[verifier::external_body]
pub struct ExInstant(std::time::Instant);

/// `Instant::now` gives the current time. Nothing is claimed of it.
#[verifier::external_body]
fn clock_now() -> (r: Instant) {
    Instant::now()
}

/// `Instant::duration_since` gives the time between two points, in nanoseconds.
/// Nothing is claimed of it.
#[verifier::external_body]
fn span_since(now: &Instant, last: &Instant) -> (r: u128) {
    now.duration_since(*last).as_nanos()
}

/// Limits how often a line is logged, such as one on progress.
///
/// At most one line is let through in each interval. The interval doubles with
/// each line, up to a maximum.
pub struct LogThrottle {
    last: Instant,
    interval: u128,
    max_interval: u128,
}

/// The shorter of two spans.
pub open spec fn shorter(a: u128, b: u128) -> u128 {
    if a <= b {
        a
    } else {
        b
    }
}

/// The interval after one more line.
pub open spec fn next_interval(interval: u128, max_interval: u128) -> u128 {
    if 2 * interval <= max_interval {
        (2 * interval) as u128
    } else {
        max_interval
    }
}

/// A throttle whose last line is known as a point on a time line.
pub struct ThrottleState {
    pub last: int,
    pub interval: u128,
    pub max_interval: u128,
}

/// How long `now` is after `last`. No time has passed if it is before.
pub open spec fn passed_since(now: int, last: int) -> int {
    if now >= last {
        now - last
    } else {
        0
    }
}

/// The throttle after a line is asked for at `now`, and whether the line is let
/// through.
pub open spec fn throttle_next(state: ThrottleState, now: int) -> (ThrottleState, bool) {
    if passed_since(now, state.last) >= state.interval {
        let interval = next_interval(state.interval, state.max_interval);
        (ThrottleState { last: now, interval, max_interval: state.max_interval }, true)
    } else {
        (state, false)
    }
}

impl LogThrottle {
    /// When the last line was let through, or the throttle was made.
    pub closed spec fn last(&self) -> Instant {
        self.last
    }

    /// How long it is until the next line is let through.
    pub closed spec fn interval(&self) -> u128 {
        self.interval
    }

    /// Longest interval.
    pub closed spec fn max_interval(&self) -> u128 {
        self.max_interval
    }

    /// The throttle, where `clock` gives the points in time their place on a time line.
    pub open spec fn at(&self, clock: spec_fn(Instant) -> int) -> ThrottleState {
        ThrottleState {
            last: clock(self.last()),
            interval: self.interval(),
            max_interval: self.max_interval(),
        }
    }

    /// A throttle that counts from `now` on.
    pub fn starting_at(now: Instant, initial_interval: u128, max_interval: u128) -> (r: Self)
        ensures
            r.last() == now,
            r.interval() == shorter(initial_interval, max_interval),
            r.max_interval() == max_interval,
    {
        let interval: u128 = if initial_interval <= max_interval {
            initial_interval
        } else {
            max_interval
        };
        LogThrottle { last: now, interval, max_interval }
    }

    /// The interval doubles up to `max_interval`, and is never longer. The first one
    /// starts now, as [`LogThrottle::starting_at`] says.
    pub fn new(initial_interval: u128, max_interval: u128) -> (r: Self)
        ensures
            r.interval() == shorter(initial_interval, max_interval),
            r.max_interval() == max_interval,
    {
        Self::starting_at(clock_now(), initial_interval, max_interval)
    }

    /// Whether twice the interval is a span that the clock can tell.
    pub fn can_double(&self) -> (r: bool)
        ensures
            r == (2 * self.interval() <= MAX_SPAN),
    {
        self.interval <= MAX_SPAN / 2
    }

    /// Whether a line is let through at `now`, when `elapsed` has passed since the
    /// last one. If so, the interval doubles and starts anew; if not, nothing changes.
    pub fn hit_at(&mut self, now: Instant, elapsed: u128) -> (r: bool)
        requires
            elapsed >= old(self).interval() ==> 2 * old(self).interval() <= MAX_SPAN,
        ensures
            r == (elapsed >= old(self).interval()),
            final(self).max_interval() == old(self).max_interval(),
            final(self).interval() == (if r {
                next_interval(old(self).interval(), old(self).max_interval())
            } else {
                old(self).interval()
            }),
            final(self).last() == (if r {
                now
            } else {
                old(self).last()
            }),
            forall|clock: spec_fn(Instant) -> int|
                elapsed == passed_since(clock(now), clock(old(self).last())) ==> (
                #[trigger] final(self).at(clock), r) == throttle_next(
                    old(self).at(clock),
                    clock(now),
                ),
    {
        if elapsed < self.interval {
            return false;
        }
        let doubled: u128 = 2 * self.interval;
        self.interval = if doubled <= self.max_interval {
            doubled
        } else {
            self.max_interval
        };
        self.last = now;
        true
    }

    /// Whether a line is let through now. If so, the interval doubles and starts
    /// anew; if not, nothing changes. Without an interval every line is let through.
    /// Whatever the clock says is taken as [`LogThrottle::hit_at`] says.
    pub fn should_log(&mut self) -> (r: bool)
        requires
            2 * old(self).interval() <= MAX_SPAN,
        ensures
            old(self).interval() == 0 ==> r,
            !r ==> *final(self) == *old(self),
            final(self).max_interval() == old(self).max_interval(),
            final(self).interval() == (if r {
                next_interval(old(self).interval(), old(self).max_interval())
            } else {
                old(self).interval()
            }),
    {
        let now = clock_now();
        let elapsed: u128 = span_since(&now, &self.last);
        self.hit_at(now, elapsed)
    }
}

/// The interval after a number of lines.
pub open spec fn interval_after(initial: u128, max_interval: u128, lines: nat) -> u128
    decreases lines,
{
    if lines == 0 {
        shorter(initial, max_interval)
    } else {
        next_interval(interval_after(initial, max_interval, (lines - 1) as nat), max_interval)
    }
}

/// The interval doubles with each line until it reaches the maximum, and stays
/// there.
pub proof fn interval_doubles_up_to_the_maximum(initial: u128, max_interval: u128, lines: nat)
    ensures
        interval_after(initial, max_interval, lines) == (if initial * pow2(lines) <= max_interval {
            initial * pow2(lines)
        } else {
            max_interval as int
        }),
    decreases lines,
{
    if lines == 0 {
        lemma2_to64();
        assert(initial * pow2(0) == initial);
    } else {
        let before = (lines - 1) as nat;
        interval_doubles_up_to_the_maximum(initial, max_interval, before);
        lemma_pow2_pos(before);
        lemma_pow2_unfold(lines);
        assert(initial * pow2(lines) == 2 * (initial * pow2(before))) by (nonlinear_arith)
            requires
                pow2(lines) == 2 * pow2(before),
        ;
        assert(initial * pow2(before) >= 0) by (nonlinear_arith)
            requires
                pow2(before) >= 0,
        ;
    }
}

/// The interval never gets shorter and never exceeds the maximum.
pub proof fn interval_never_shrinks(interval: u128, max_interval: u128)
    requires
        interval <= max_interval,
    ensures
        interval <= next_interval(interval, max_interval) <= max_interval,
{
}

/// The throttle after lines were asked for at `times`.
pub open spec fn throttle_after(start: ThrottleState, times: Seq<int>) -> ThrottleState
    decreases times.len(),
{
    if times.len() == 0 {
        start
    } else {
        throttle_next(throttle_after(start, times.drop_last()), times.last()).0
    }
}

/// When lines were let through, of those that were asked for at `times`.
pub open spec fn lines_through(start: ThrottleState, times: Seq<int>) -> Seq<int>
    decreases times.len(),
{
    if times.len() == 0 {
        seq![]
    } else {
        let before = lines_through(start, times.drop_last());
        if throttle_next(throttle_after(start, times.drop_last()), times.last()).1 {
            before.push(times.last())
        } else {
            before
        }
    }
}

/// A throttle that was made at `made`, for a first and a longest interval.
pub open spec fn throttle_made(made: int, initial: u128, max_interval: u128) -> ThrottleState {
    ThrottleState { last: made, interval: shorter(initial, max_interval), max_interval }
}

/// When the line before the one at `i` was let through. Before the first one there is
/// the making of the throttle.
pub open spec fn line_before(made: int, lines: Seq<int>, i: int) -> int {
    if i == 0 {
        made
    } else {
        lines[i - 1]
    }
}

/// Over any series of calls: a line is let through exactly if the interval has passed
/// since the one before, which doubles with each line up to the maximum; a call that
/// lets no line through changes nothing; and any two lines in a row are at least the
/// interval of that time apart. The first interval counts from the making of the
/// throttle.
pub proof fn lines_keep_their_distance(
    made: int,
    initial: u128,
    max_interval: u128,
    times: Seq<int>,
    now: int,
)
    ensures
        ({
            let start = throttle_made(made, initial, max_interval);
            let state = throttle_after(start, times);
            let lines = lines_through(start, times);
            let count = lines.len();
            let last = line_before(made, lines, count as int);
            let (next, through) = throttle_next(state, now);
            &&& state == (ThrottleState {
                last,
                interval: interval_after(initial, max_interval, count),
                max_interval,
            })
            &&& through == (passed_since(now, last) >= interval_after(initial, max_interval, count))
            &&& !through ==> next == state
            &&& forall|i: int|
                0 <= i < count ==> passed_since(#[trigger] lines[i], line_before(made, lines, i))
                    >= interval_after(initial, max_interval, i as nat)
        }),
    decreases times.len(),
{
    if times.len() > 0 {
        let start = throttle_made(made, initial, max_interval);
        let before = times.drop_last();
        lines_keep_their_distance(made, initial, max_interval, before, times.last());
        let lines = lines_through(start, times);
        let earlier = lines_through(start, before);
        assert forall|i: int| 0 <= i < lines.len() implies passed_since(
            #[trigger] lines[i],
            line_before(made, lines, i),
        ) >= interval_after(initial, max_interval, i as nat) by {
            if i < earlier.len() {
                assert(lines[i] == earlier[i]);
                assert(line_before(made, lines, i) == line_before(made, earlier, i));
            } else {
                assert(line_before(made, lines, i) == line_before(made, earlier, i));
            }
        }
    }
}

} // verus!
