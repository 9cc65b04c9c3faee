//! Monotonic time.
//!
//! A span and an instant both count nanoseconds. Sums saturate at the largest
//! span the platform clock can report, so a deadline never wraps around.

use vstd::prelude::*;

verus! {

/// The largest span: `u64::MAX` seconds and 999 999 999 nanoseconds.
pub const MAX_NANOS: u128 = 18_446_744_073_709_551_615_999_999_999;

pub const NANOS_PER_SECOND: u128 = 1_000_000_000;

pub const NANOS_PER_MILLI: u128 = 1_000_000;

/// The smaller of a mathematical sum and the largest span.
pub open spec fn saturated(nanos: nat) -> nat {
    if nanos <= MAX_NANOS {
        nanos
    } else {
        MAX_NANOS as nat
    }
}

/// A span of time.
#[derive(Clone, Copy, Debug, PartialEq, Eq, PartialOrd, Ord, Hash, Structural)]
pub struct Duration {
    nanos: u128,
}

impl View for Duration {
    type V = nat;

    closed spec fn view(&self) -> nat {
        self.nanos as nat
    }
}

/// Two spans of the same length are the same span.
pub broadcast proof fn duration_is_its_length(a: Duration, b: Duration)
    ensures
        #![trigger a@, b@]
        (a@ == b@) == (a == b),
{
}

/// Every length up to the longest span is the length of a span.
pub broadcast proof fn span_of_length(nanos: nat)
    ensures
        nanos <= MAX_NANOS ==> (#[trigger] Duration::of(nanos))@ == nanos,
{
}

impl Duration {
    /// The span of a given length.
    pub closed spec fn of(nanos: nat) -> Duration {
        Duration { nanos: nanos as u128 }
    }

    /// The shorter of two spans.
    pub open spec fn least(self, other: Duration) -> Duration {
        if self@ <= other@ {
            self
        } else {
            other
        }
    }

    /// The span taken `factor` times, up to the longest span.
    pub open spec fn times(self, factor: nat) -> Duration {
        Duration::of(saturated(self@ * factor))
    }

    pub fn zero() -> (span: Duration)
        ensures
            span@ == 0,
            span == Duration::of(0),
    {
        Duration { nanos: 0 }
    }

    /// The longest span.
    pub fn max() -> (span: Duration)
        ensures
            span@ == MAX_NANOS,
            span@ == 18_446_744_073_709_551_615_999_999_999,
            span == Duration::of(MAX_NANOS as nat),
    {
        Duration { nanos: MAX_NANOS }
    }

    pub fn from_nanos(nanos: u64) -> (span: Duration)
        ensures
            span@ == nanos,
    {
        Duration { nanos: nanos as u128 }
    }

    pub fn from_millis(millis: u64) -> (span: Duration)
        ensures
            span@ == millis * NANOS_PER_MILLI,
            span@ == millis * 1_000_000,
    {
        Duration { nanos: millis as u128 * NANOS_PER_MILLI }
    }

    pub fn from_secs(secs: u64) -> (span: Duration)
        ensures
            span@ == secs * NANOS_PER_SECOND,
            span@ == secs * 1_000_000_000,
    {
        Duration { nanos: secs as u128 * NANOS_PER_SECOND }
    }

    /// A span of whole seconds and further nanoseconds, as a platform clock
    /// reports it; a length beyond the longest span is cut to it.
    pub fn new(secs: u64, subsec_nanos: u32) -> (span: Duration)
        ensures
            span@ == saturated((secs * NANOS_PER_SECOND + subsec_nanos) as nat),
    {
        let nanos: u128 = secs as u128 * NANOS_PER_SECOND + subsec_nanos as u128;
        if nanos <= MAX_NANOS {
            Duration { nanos }
        } else {
            Duration { nanos: MAX_NANOS }
        }
    }

    pub fn as_nanos(self) -> (nanos: u128)
        ensures
            nanos == self@,
    {
        self.nanos
    }

    pub fn saturating_add(self, other: Duration) -> (sum: Duration)
        ensures
            sum@ == saturated(self@ + other@),
    {
        match self.nanos.checked_add(other.nanos) {
            Some(nanos) => if nanos <= MAX_NANOS {
                Duration { nanos }
            } else {
                Duration { nanos: MAX_NANOS }
            },
            None => Duration { nanos: MAX_NANOS },
        }
    }

    pub fn saturating_mul(self, factor: u32) -> (product: Duration)
        ensures
            product@ == saturated(self@ * factor as nat),
            product == self.times(factor as nat),
    {
        match self.nanos.checked_mul(factor as u128) {
            Some(nanos) => if nanos <= MAX_NANOS {
                Duration { nanos }
            } else {
                Duration { nanos: MAX_NANOS }
            },
            None => Duration { nanos: MAX_NANOS },
        }
    }

    /// The shorter of two spans.
    pub fn min(self, other: Duration) -> (least: Duration)
        ensures
            least == self.least(other),
    {
        if self.nanos <= other.nanos {
            self
        } else {
            other
        }
    }

    pub fn is_zero(self) -> (zero: bool)
        ensures
            zero == (self@ == 0),
    {
        self.nanos == 0
    }
}

/// An instant of the monotonic clock, counted from the clock's origin.
#[derive(Clone, Copy, Debug, PartialEq, Eq, PartialOrd, Ord, Hash, Structural)]
pub struct MonotonicTime {
    nanos: u128,
}

impl View for MonotonicTime {
    type V = nat;

    closed spec fn view(&self) -> nat {
        self.nanos as nat
    }
}

/// Two instants at the same distance from the origin are the same instant.
pub broadcast proof fn instant_is_its_distance(a: MonotonicTime, b: MonotonicTime)
    ensures
        #![trigger a@, b@]
        (a@ == b@) == (a == b),
{
}

/// Adding a span moves an instant by the span's length, up to the end of time.
pub broadcast proof fn instant_plus_span(at: MonotonicTime, span: Duration)
    ensures
        (#[trigger] at.plus(span))@ == saturated(at@ + span@),
{
}

impl MonotonicTime {
    /// The instant `span` after this one.
    pub closed spec fn plus(self, span: Duration) -> MonotonicTime {
        MonotonicTime { nanos: saturated(self@ + span@) as u128 }
    }

    /// The origin of the clock.
    pub closed spec fn origin() -> MonotonicTime {
        MonotonicTime { nanos: 0 }
    }

    /// The origin of the clock.
    pub fn zero() -> (at: MonotonicTime)
        ensures
            at@ == 0,
            at == MonotonicTime::origin(),
    {
        MonotonicTime { nanos: 0 }
    }

    pub fn saturating_add(self, span: Duration) -> (at: MonotonicTime)
        ensures
            at@ == saturated(self@ + span@),
            at == self.plus(span),
    {
        match self.nanos.checked_add(span.nanos) {
            Some(nanos) => if nanos <= MAX_NANOS {
                MonotonicTime { nanos }
            } else {
                MonotonicTime { nanos: MAX_NANOS }
            },
            None => MonotonicTime { nanos: MAX_NANOS },
        }
    }

    /// The span from the origin to this instant.
    pub fn since_origin(self) -> (span: Duration)
        ensures
            span@ == self@,
    {
        Duration { nanos: self.nanos }
    }

    /// Whether this instant is not later than `other`.
    pub fn at_or_before(self, other: MonotonicTime) -> (before: bool)
        ensures
            before == (self@ <= other@),
    {
        self.nanos <= other.nanos
    }

    /// The earlier of two instants.
    pub open spec fn earliest(self, other: MonotonicTime) -> MonotonicTime {
        if self@ <= other@ {
            self
        } else {
            other
        }
    }

    /// The earlier of two instants.
    pub fn min(self, other: MonotonicTime) -> (earliest: MonotonicTime)
        ensures
            earliest == self.earliest(other),
    {
        if self.nanos <= other.nanos {
            self
        } else {
            other
        }
    }
}

/// An instant moves by the whole length of a span, except that none lies
/// behind the last one that the platform clock can report.
pub proof fn instants_move_by_spans(at: MonotonicTime, span: Duration)
    ensures
        at@ + span@ <= 18_446_744_073_709_551_615_999_999_999 ==> at.plus(span)@ == at@ + span@,
        at@ + span@ > 18_446_744_073_709_551_615_999_999_999 ==> at.plus(span)@
            == 18_446_744_073_709_551_615_999_999_999,
        MonotonicTime::origin()@ == 0,
{
}

/// A span that is taken several times is as long as all of them together,
/// except that none is longer than the longest one.
pub proof fn spans_are_multiplied(span: Duration, factor: nat)
    ensures
        span@ * factor <= 18_446_744_073_709_551_615_999_999_999 ==> span.times(factor)@ == span@
            * factor,
        span@ * factor > 18_446_744_073_709_551_615_999_999_999 ==> span.times(factor)@
            == 18_446_744_073_709_551_615_999_999_999,
{
    span_of_length(saturated(span@ * factor));
}

/// The shorter of two spans is one of them and longer than neither; the
/// earlier of two instants is one of them and later than neither.
pub proof fn the_smaller_one_is_taken(
    a: Duration,
    b: Duration,
    first: MonotonicTime,
    second: MonotonicTime,
)
    ensures
        a.least(b) == a || a.least(b) == b,
        a.least(b)@ <= a@,
        a.least(b)@ <= b@,
        first.earliest(second) == first || first.earliest(second) == second,
        first.earliest(second)@ <= first@,
        first.earliest(second)@ <= second@,
{
}

} // verus!
