//! A span of time with nanosecond precision, as a plain integer.
use vstd::prelude::*;

verus! {

/// The largest span: `u64::MAX` seconds and 999_999_999 nanoseconds.
pub open spec fn max_span_nanos() -> int {
    u64::MAX as int * 1_000_000_000 + 999_999_999
}

/// A span of time, counted in nanoseconds.
#[derive(Debug, Clone, Copy, PartialEq, Eq, Hash)]
pub struct Duration {
    nanos: u128,
}

impl Duration {
    #[verifier::type_invariant]
    spec fn in_range(self) -> bool {
        self.nanos <= max_span_nanos()
    }

    /// The total length of the span in nanoseconds.
    pub closed spec fn total_nanos(self) -> nat {
        self.nanos as nat
    }

    pub fn from_millis(millis: u64) -> (d: Duration)
        ensures
            d.total_nanos() == millis * 1_000_000,
    {
        assert(millis * 1_000_000 <= max_span_nanos()) by (nonlinear_arith)
            requires
                millis <= u64::MAX,
        ;
        Duration { nanos: (millis as u128) * 1_000_000 }
    }

    pub fn from_micros(micros: u64) -> (d: Duration)
        ensures
            d.total_nanos() == micros * 1_000,
    {
        assert(micros * 1_000 <= max_span_nanos()) by (nonlinear_arith)
            requires
                micros <= u64::MAX,
        ;
        Duration { nanos: (micros as u128) * 1_000 }
    }

    pub fn from_secs(secs: u64) -> (d: Duration)
        ensures
            d.total_nanos() == secs * 1_000_000_000,
    {
        assert(secs * 1_000_000_000 <= max_span_nanos()) by (nonlinear_arith)
            requires
                secs <= u64::MAX,
        ;
        Duration { nanos: (secs as u128) * 1_000_000_000 }
    }

    /// A span of `secs` seconds plus `subsec_nanos` nanoseconds.
    pub fn new(secs: u64, subsec_nanos: u32) -> (d: Duration)
        requires
            subsec_nanos < 1_000_000_000,
        ensures
            d.total_nanos() == secs * 1_000_000_000 + subsec_nanos,
    {
        assert(secs * 1_000_000_000 + subsec_nanos <= max_span_nanos()) by (nonlinear_arith)
            requires
                secs <= u64::MAX,
                subsec_nanos < 1_000_000_000,
        ;
        Duration { nanos: (secs as u128) * 1_000_000_000 + (subsec_nanos as u128) }
    }

    pub fn as_nanos(&self) -> (r: u128)
        ensures
            r == self.total_nanos(),
    {
        self.nanos
    }

    /// Whole milliseconds in the span.
    pub fn as_millis(&self) -> (r: u128)
        ensures
            r == self.total_nanos() / 1_000_000,
    {
        self.nanos / 1_000_000
    }

    /// Whole microseconds in the span.
    pub fn as_micros(&self) -> (r: u128)
        ensures
            r == self.total_nanos() / 1_000,
    {
        self.nanos / 1_000
    }

    /// Whole seconds in the span.
    pub fn as_secs(&self) -> (r: u64)
        ensures
            r == self.total_nanos() / 1_000_000_000,
    {
        proof {
            use_type_invariant(self);
        }
        assert(self.nanos / 1_000_000_000 <= u64::MAX) by (nonlinear_arith)
            requires
                self.nanos <= u64::MAX as int * 1_000_000_000 + 999_999_999,
        ;
        (self.nanos / 1_000_000_000) as u64
    }

    /// The nanoseconds beyond the whole seconds.
    pub fn subsec_nanos(&self) -> (r: u32)
        ensures
            r == self.total_nanos() % 1_000_000_000,
            r < 1_000_000_000,
    {
        (self.nanos % 1_000_000_000) as u32
    }

    pub fn is_zero(&self) -> (r: bool)
        ensures
            r == (self.total_nanos() == 0),
    {
        self.nanos == 0
    }

    /// The span multiplied by `rhs`, or `None` when it would not fit.
    pub fn checked_mul(&self, rhs: u32) -> (r: Option<Duration>)
        ensures
            r matches Some(d) ==> d.total_nanos() == self.total_nanos() * rhs,
            r is None <==> self.total_nanos() * rhs > max_span_nanos(),
    {
        proof {
            use_type_invariant(self);
        }
        let max: u128 = 18_446_744_073_709_551_615u128 * 1_000_000_000u128 + 999_999_999u128;
        assert(self.nanos * rhs <= u128::MAX) by (nonlinear_arith)
            requires
                self.nanos <= 18_446_744_073_709_551_615 * 1_000_000_000 + 999_999_999,
                rhs <= u32::MAX,
        ;
        let product = self.nanos * (rhs as u128);
        if product <= max {
            Some(Duration { nanos: product })
        } else {
            None
        }
    }

    /// The difference of two spans, or zero when `other` is longer.
    pub fn saturating_sub(&self, other: &Duration) -> (r: Duration)
        ensures
            r.total_nanos() == if self.total_nanos() >= other.total_nanos() {
                self.total_nanos() - other.total_nanos()
            } else {
                0
            },
    {
        proof {
            use_type_invariant(self);
        }
        if self.nanos >= other.nanos {
            Duration { nanos: self.nanos - other.nanos }
        } else {
            Duration { nanos: 0 }
        }
    }
}

} // verus!
