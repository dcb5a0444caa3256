//! Spans of time.
use vstd::prelude::*;

verus! {

/// The nanoseconds in a second.
pub const NANOS_PER_SEC: u32 = 1_000_000_000;

/// The longest span: `u64::MAX` seconds and all the nanoseconds below a
/// second.
pub const MAX_NANOS: u128 = 18_446_744_073_709_551_615_999_999_999;

/// A span of time in nanoseconds. Points in time are written as the span
/// since the start of the process.
#[derive(Clone, Copy, Debug, PartialEq, Eq, PartialOrd, Ord, Hash)]
pub struct Duration {
    nanos: u128,
}

impl View for Duration {
    type V = nat;

    closed spec fn view(&self) -> nat {
        self.nanos as nat
    }
}

impl Duration {
    #[verifier::type_invariant]
    spec fn bounded(self) -> bool {
        self.nanos <= MAX_NANOS
    }

    /// `secs` seconds and `nanos` nanoseconds.
    pub fn new(secs: u64, nanos: u32) -> (res: Self)
        requires
            nanos < NANOS_PER_SEC,
        ensures
            res@ == secs * 1_000_000_000 + nanos,
    {
        Duration { nanos: secs as u128 * 1_000_000_000 + nanos as u128 }
    }

    /// `secs` seconds.
    pub fn from_secs(secs: u64) -> (res: Self)
        ensures
            res@ == secs * 1_000_000_000,
    {
        Duration { nanos: secs as u128 * 1_000_000_000 }
    }

    /// `millis` milliseconds.
    pub fn from_millis(millis: u64) -> (res: Self)
        ensures
            res@ == millis * 1_000_000,
    {
        Duration { nanos: millis as u128 * 1_000_000 }
    }

    /// The nanoseconds of this span.
    pub fn as_nanos(&self) -> (res: u128)
        ensures
            res == self@,
            res <= MAX_NANOS,
    {
        proof {
            use_type_invariant(self);
        }
        self.nanos
    }

    /// The whole milliseconds of this span.
    pub fn as_millis(&self) -> (res: u128)
        ensures
            res == self@ / 1_000_000,
    {
        self.nanos / 1_000_000
    }

    /// The whole seconds of this span.
    pub fn as_secs(&self) -> (res: u64)
        ensures
            res == self@ / 1_000_000_000,
    {
        proof {
            use_type_invariant(self);
        }
        (self.nanos / 1_000_000_000) as u64
    }

    /// The nanoseconds beyond the whole seconds.
    pub fn subsec_nanos(&self) -> (res: u32)
        ensures
            res == self@ % 1_000_000_000,
            res < NANOS_PER_SEC,
    {
        (self.nanos % 1_000_000_000) as u32
    }

    /// The sum of two spans.
    pub fn plus(self, other: Duration) -> (res: Self)
        requires
            self@ + other@ <= MAX_NANOS,
        ensures
            res@ == self@ + other@,
    {
        Duration { nanos: self.nanos + other.nanos }
    }

    /// The span from `earlier` to this point in time, unless `earlier` is
    /// later.
    pub fn since(self, earlier: Duration) -> (res: Option<Self>)
        ensures
            match res {
                Some(span) => earlier@ <= self@ && span@ == self@ - earlier@,
                None => self@ < earlier@,
            },
    {
        proof {
            use_type_invariant(&self);
        }
        if self.nanos >= earlier.nanos {
            Some(Duration { nanos: self.nanos - earlier.nanos })
        } else {
            None
        }
    }

    /// Twice the span.
    pub fn doubled(self) -> (res: Self)
        requires
            2 * self@ <= MAX_NANOS,
        ensures
            res@ == 2 * self@,
    {
        Duration { nanos: self.nanos * 2 }
    }

    /// The shorter of two spans.
    pub fn min(self, other: Duration) -> (res: Self)
        ensures
            res@ == (if self@ <= other@ {
                self@
            } else {
                other@
            }),
    {
        if self.nanos <= other.nanos {
            self
        } else {
            other
        }
    }

    /// Whether the span is at least as long as `other`.
    pub fn at_least(&self, other: Duration) -> (res: bool)
        ensures
            res == (self@ >= other@),
    {
        self.nanos >= other.nanos
    }
}

} // verus!
