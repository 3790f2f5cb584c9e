//! Spans of time, as the host's clocks report them.

use vstd::prelude::*;

verus! {

/// Nanoseconds in a second.
pub const NANOS_PER_SEC: u32 = 1_000_000_000;

/// A span of time with nanosecond resolution: whole seconds and the
/// nanoseconds of the second begun. A reading of a clock is the span since
/// that clock's start.
#[derive(Debug, Clone, Copy, PartialEq, Eq, Hash, Structural)]
pub struct Duration {
    secs: u64,
    nanos: u32,
}

impl View for Duration {
    type V = nat;

    /// The span in nanoseconds.
    closed spec fn view(&self) -> nat {
        (self.secs as nat) * (NANOS_PER_SEC as nat) + (self.nanos as nat)
    }
}

impl Duration {
    #[verifier::type_invariant]
    spec fn normalized(self) -> bool {
        self.nanos < NANOS_PER_SEC
    }

    /// The whole seconds of the span.
    pub closed spec fn spec_secs(&self) -> u64 {
        self.secs
    }

    /// The nanoseconds beyond the whole seconds.
    pub closed spec fn spec_subsec_nanos(&self) -> u32 {
        self.nanos
    }

    /// The span of `secs` seconds and `nanos` nanoseconds. Nanoseconds beyond
    /// a second carry over into the seconds.
    pub fn new(secs: u64, nanos: u32) -> (d: Self)
        requires
            secs + nanos / NANOS_PER_SEC <= u64::MAX,
        ensures
            d@ == secs * NANOS_PER_SEC + nanos,
    {
        let carry: u32 = nanos / NANOS_PER_SEC;
        let rest: u32 = nanos % NANOS_PER_SEC;
        let d = Duration { secs: secs + carry as u64, nanos: rest };
        assert(d@ == secs * NANOS_PER_SEC + nanos) by (nonlinear_arith)
            requires
                d@ == (secs + carry) * 1_000_000_000 + rest,
                carry == nanos / 1_000_000_000,
                rest == nanos % 1_000_000_000,
                NANOS_PER_SEC == 1_000_000_000,
        ;
        d
    }

    pub fn from_secs(secs: u64) -> (d: Self)
        ensures
            d@ == secs * NANOS_PER_SEC,
    {
        Duration { secs, nanos: 0 }
    }

    pub fn from_micros(micros: u64) -> (d: Self)
        ensures
            d@ == micros * 1000,
    {
        let secs: u64 = micros / 1_000_000;
        let rest: u32 = (micros % 1_000_000) as u32;
        let d = Duration { secs, nanos: rest * 1000 };
        assert(d@ == micros * 1000) by (nonlinear_arith)
            requires
                d@ == secs * 1_000_000_000 + rest * 1000,
                secs == micros / 1_000_000,
                rest == micros % 1_000_000,
        ;
        d
    }

    #[verifier::when_used_as_spec(spec_secs)]
    pub fn as_secs(&self) -> (secs: u64)
        ensures
            secs == self.spec_secs(),
            secs == self@ / (NANOS_PER_SEC as nat),
    {
        proof {
            use_type_invariant(self);
            assert(self.secs == self@ / 1_000_000_000) by (nonlinear_arith)
                requires
                    self@ == self.secs * 1_000_000_000 + self.nanos,
                    self.nanos < 1_000_000_000,
            ;
        }
        self.secs
    }

    #[verifier::when_used_as_spec(spec_subsec_nanos)]
    pub fn subsec_nanos(&self) -> (nanos: u32)
        ensures
            nanos == self.spec_subsec_nanos(),
            nanos == self@ % (NANOS_PER_SEC as nat),
    {
        proof {
            use_type_invariant(self);
            assert(self.nanos == self@ % 1_000_000_000) by (nonlinear_arith)
                requires
                    self@ == self.secs * 1_000_000_000 + self.nanos,
                    self.nanos < 1_000_000_000,
            ;
        }
        self.nanos
    }

    /// Whether this span is no longer than `other`.
    pub fn le(&self, other: &Duration) -> (b: bool)
        ensures
            b == (self@ <= other@),
    {
        proof {
            use_type_invariant(self);
            use_type_invariant(other);
            assert((self@ <= other@) == (self.secs < other.secs || (self.secs == other.secs
                && self.nanos <= other.nanos))) by (nonlinear_arith)
                requires
                    self@ == self.secs * 1_000_000_000 + self.nanos,
                    other@ == other.secs * 1_000_000_000 + other.nanos,
                    self.nanos < 1_000_000_000,
                    other.nanos < 1_000_000_000,
            ;
        }
        self.secs < other.secs || (self.secs == other.secs && self.nanos <= other.nanos)
    }

    /// This span shortened by `rhs`, if `rhs` is no longer than it.
    pub fn checked_sub(self, rhs: Duration) -> (r: Option<Duration>)
        ensures
            r is Some <==> rhs@ <= self@,
            r matches Some(d) ==> d@ == self@ - rhs@,
    {
        proof {
            use_type_invariant(self);
            use_type_invariant(rhs);
        }
        if !rhs.le(&self) {
            return None;
        }
        let d = if self.nanos >= rhs.nanos {
            Duration { secs: self.secs - rhs.secs, nanos: self.nanos - rhs.nanos }
        } else {
            Duration {
                secs: self.secs - rhs.secs - 1,
                nanos: self.nanos + NANOS_PER_SEC - rhs.nanos,
            }
        };
        assert(d@ == self@ - rhs@) by (nonlinear_arith)
            requires
                self@ == self.secs * 1_000_000_000 + self.nanos,
                rhs@ == rhs.secs * 1_000_000_000 + rhs.nanos,
                d@ == d.secs * 1_000_000_000 + d.nanos,
                self.nanos >= rhs.nanos ==> d.secs == self.secs - rhs.secs && d.nanos
                    == self.nanos - rhs.nanos,
                self.nanos < rhs.nanos ==> d.secs == self.secs - rhs.secs - 1 && d.nanos
                    == self.nanos + 1_000_000_000 - rhs.nanos,
        ;
        Some(d)
    }
}

impl Default for Duration {
    fn default() -> (d: Self)
        ensures
            d@ == 0,
    {
        Duration { secs: 0, nanos: 0 }
    }
}

} // verus!
