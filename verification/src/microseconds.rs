//! A signed count of microseconds.

use vstd::prelude::*;

use crate::arith::div_trunc_i64;
use crate::arith::trunc_div;

verus! {

/// A span of time as a signed count of microseconds.
#[derive(Debug, Copy, Clone, PartialEq, Eq, PartialOrd, Ord, Hash, Structural)]
pub struct Microseconds {
    /// The number of microseconds.
    pub count: i64,
}

impl Microseconds {
    /// The zero span.
    pub fn new() -> (r: Microseconds)
        ensures
            r.count == 0,
    {
        Microseconds { count: 0 }
    }

    /// The longest representable span.
    pub fn maximum() -> (r: Microseconds)
        ensures
            r.count == 0x7fff_ffff_ffff_ffff,
    {
        Microseconds { count: 0x7fff_ffff_ffff_ffff }
    }

    /// The number of microseconds.
    pub fn count(&self) -> (r: i64)
        ensures
            r == self.count,
    {
        self.count
    }

    /// The span in whole seconds, truncated toward zero.
    pub fn to_seconds(&self) -> (r: i64)
        ensures
            r as int == trunc_div(self.count as int, 1_000_000),
    {
        div_trunc_i64(self.count, 1_000_000)
    }

    /// The sum of two spans, which must stay representable.
    pub fn add(self, other: Microseconds) -> (r: Microseconds)
        requires
            i64::MIN <= self.count + other.count <= i64::MAX,
        ensures
            r.count == self.count + other.count,
    {
        Microseconds { count: self.count + other.count }
    }

    /// The difference of two spans, which must stay representable.
    pub fn sub(self, other: Microseconds) -> (r: Microseconds)
        requires
            i64::MIN <= self.count - other.count <= i64::MAX,
        ensures
            r.count == self.count - other.count,
    {
        Microseconds { count: self.count - other.count }
    }
}

impl core::ops::Add<Microseconds> for Microseconds {
    type Output = Microseconds;

    /// The sum of two spans, which must stay representable.
    fn add(self, other: Microseconds) -> (r: Microseconds) {
        Microseconds { count: self.count + other.count }
    }
}

impl vstd::std_specs::ops::AddSpecImpl<Microseconds> for Microseconds {
    open spec fn obeys_add_spec() -> bool {
        true
    }

    open spec fn add_req(self, other: Microseconds) -> bool {
        i64::MIN <= self.count + other.count <= i64::MAX
    }

    open spec fn add_spec(self, other: Microseconds) -> Microseconds {
        Microseconds { count: (self.count + other.count) as i64 }
    }
}

impl core::ops::Sub<Microseconds> for Microseconds {
    type Output = Microseconds;

    /// The difference of two spans, which must stay representable.
    fn sub(self, other: Microseconds) -> (r: Microseconds) {
        Microseconds { count: self.count - other.count }
    }
}

impl vstd::std_specs::ops::SubSpecImpl<Microseconds> for Microseconds {
    open spec fn obeys_sub_spec() -> bool {
        true
    }

    open spec fn sub_req(self, other: Microseconds) -> bool {
        i64::MIN <= self.count - other.count <= i64::MAX
    }

    open spec fn sub_spec(self, other: Microseconds) -> Microseconds {
        Microseconds { count: (self.count - other.count) as i64 }
    }
}

impl From<i64> for Microseconds {
    /// A span of the given number of microseconds.
    fn from(count: i64) -> (r: Microseconds)
        ensures
            r.count == count,
    {
        Microseconds { count }
    }
}

impl vstd::std_specs::convert::FromSpecImpl<i64> for Microseconds {
    open spec fn obeys_from_spec() -> bool {
        true
    }

    open spec fn from_spec(count: i64) -> Microseconds {
        Microseconds { count }
    }
}

impl From<Microseconds> for i64 {
    /// The number of microseconds in the span.
    fn from(microseconds: Microseconds) -> (r: i64)
        ensures
            r == microseconds.count,
    {
        microseconds.count
    }
}

impl vstd::std_specs::convert::FromSpecImpl<Microseconds> for i64 {
    open spec fn obeys_from_spec() -> bool {
        true
    }

    open spec fn from_spec(microseconds: Microseconds) -> i64 {
        microseconds.count
    }
}

impl Default for Microseconds {
    /// The zero span.
    fn default() -> (r: Microseconds)
        ensures
            r.count == 0,
    {
        Microseconds { count: 0 }
    }
}

/// The span of `ms` milliseconds, which must stay representable.
pub fn milliseconds(ms: i64) -> (r: Microseconds)
    requires
        i64::MIN <= ms * 1000 <= i64::MAX,
    ensures
        r.count == ms * 1000,
{
    Microseconds { count: ((ms as i128) * 1000i128) as i64 }
}

/// The span of `s` seconds, which must stay representable.
pub fn seconds(s: i64) -> (r: Microseconds)
    requires
        i64::MIN <= s * 1_000_000 <= i64::MAX,
    ensures
        r.count == s * 1_000_000,
{
    Microseconds { count: ((s as i128) * 1_000_000i128) as i64 }
}

/// The span of `m` minutes, which must stay representable.
pub fn minutes(m: i64) -> (r: Microseconds)
    requires
        i64::MIN <= m * 60_000_000 <= i64::MAX,
    ensures
        r.count == m * 60_000_000,
{
    Microseconds { count: ((m as i128) * 60_000_000i128) as i64 }
}

/// The span of `h` hours, which must stay representable.
pub fn hours(h: i64) -> (r: Microseconds)
    requires
        i64::MIN <= h * 3_600_000_000 <= i64::MAX,
    ensures
        r.count == h * 3_600_000_000,
{
    Microseconds { count: ((h as i128) * 3_600_000_000i128) as i64 }
}

/// The span of `d` days, which must stay representable.
pub fn days(d: i64) -> (r: Microseconds)
    requires
        i64::MIN <= d * 86_400_000_000 <= i64::MAX,
    ensures
        r.count == d * 86_400_000_000,
{
    Microseconds { count: ((d as i128) * 86_400_000_000i128) as i64 }
}

} // verus!
