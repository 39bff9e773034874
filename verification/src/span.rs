//! Lengths of time as plain numbers.
use vstd::prelude::*;

verus! {

/// A length of time: whole seconds and the nanoseconds beyond them.
#[derive(Clone, Copy, Debug, PartialEq, Eq)]
pub struct Span {
    pub secs: u64,
    pub nanos: u32,
}

impl Span {
    /// The whole length in nanoseconds.
    pub open spec fn as_nanos(self) -> nat {
        (self.secs * 1_000_000_000 + self.nanos) as nat
    }

    /// Builds the span of `secs` seconds and `nanos` nanoseconds.
    pub fn new(secs: u64, nanos: u32) -> (span: Span)
        ensures
            span == (Span { secs, nanos }),
    {
        Span { secs, nanos }
    }

    /// Whether this span is strictly longer than `limit`.
    pub fn exceeds(&self, limit: &Span) -> (longer: bool)
        ensures
            longer == (self.as_nanos() > limit.as_nanos()),
            longer == (self.secs * 1_000_000_000 + self.nanos > limit.secs * 1_000_000_000
                + limit.nanos),
    {
        let own: u128 = self.secs as u128 * 1_000_000_000 + self.nanos as u128;
        let other: u128 = limit.secs as u128 * 1_000_000_000 + limit.nanos as u128;
        own > other
    }

    /// How far this reading of a clock is past the reading `earlier`: nothing if it is not past it.
    pub fn since(&self, earlier: &Span) -> (past: Span)
        ensures
            past.as_nanos() == if self.as_nanos() > earlier.as_nanos() {
                self.as_nanos() - earlier.as_nanos()
            } else {
                0
            },
            past.secs * 1_000_000_000 + past.nanos == if self.secs * 1_000_000_000 + self.nanos
                > earlier.secs * 1_000_000_000 + earlier.nanos {
                self.secs * 1_000_000_000 + self.nanos - earlier.secs * 1_000_000_000
                    - earlier.nanos
            } else {
                0
            },
            past.nanos < 1_000_000_000 || past.secs == u64::MAX,
    {
        let own: u128 = self.secs as u128 * 1_000_000_000 + self.nanos as u128;
        let other: u128 = earlier.secs as u128 * 1_000_000_000 + earlier.nanos as u128;
        if own <= other {
            return Span { secs: 0, nanos: 0 };
        }
        let past: u128 = own - other;
        let whole: u128 = past / 1_000_000_000;
        let secs: u64 = if whole <= u64::MAX as u128 {
            whole as u64
        } else {
            u64::MAX
        };
        Span { secs, nanos: (past - secs as u128 * 1_000_000_000) as u32 }
    }
}

/// Of two spans with less than a second of nanoseconds, the longer one has more seconds or, with
/// the same seconds, more nanoseconds.
pub proof fn law_longer_span(a: Span, b: Span)
    requires
        a.nanos < 1_000_000_000,
        b.nanos < 1_000_000_000,
    ensures
        a.as_nanos() > b.as_nanos() <==> a.secs > b.secs || (a.secs == b.secs && a.nanos > b.nanos),
        a.as_nanos() == b.as_nanos() <==> a == b,
{
}

/// A nanosecond more makes a span longer by one, a second more by a thousand million.
pub proof fn law_span_units(secs: u64, nanos: u32)
    ensures
        (Span { secs: 0, nanos: 0 }).as_nanos() == 0,
        nanos < u32::MAX ==> (Span { secs, nanos: (nanos + 1) as u32 }).as_nanos() == (Span {
            secs,
            nanos,
        }).as_nanos() + 1,
        secs < u64::MAX ==> (Span { secs: (secs + 1) as u64, nanos }).as_nanos() == (Span {
            secs,
            nanos,
        }).as_nanos() + 1_000_000_000,
{
}

} // verus!
