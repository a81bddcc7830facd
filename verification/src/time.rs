//! Lengths of time, measured by the caller's clock.

use vstd::prelude::*;

verus! {

/// A length of time: whole seconds and the nanoseconds beyond them.
#[derive(Clone, Copy, Debug, PartialEq, Eq, Structural)]
pub struct Span {
    pub secs: u64,
    pub nanos: u32,
}

/// Whether `span` is longer than `limit_secs` seconds.
pub open spec fn longer_than(span: Span, limit_secs: int) -> bool {
    span.secs > limit_secs || (span.secs == limit_secs && span.nanos > 0)
}

impl Span {
    /// Whether this span is longer than `limit_secs` seconds.
    pub fn exceeds(&self, limit_secs: u128) -> (r: bool)
        ensures
            r == longer_than(*self, limit_secs as int),
    {
        let secs: u128 = self.secs as u128;
        secs > limit_secs || (secs == limit_secs && self.nanos > 0)
    }
}

} // verus!
