//! A point in time as microseconds since the epoch.

use vstd::prelude::*;

use crate::arith::trunc_div;
use crate::microseconds::seconds;
use crate::microseconds::Microseconds;
use crate::time_point_sec::TimePointSec;

verus! {

/// A point in time: the span elapsed since the Unix epoch.
#[derive(Debug, Copy, Clone, PartialEq, Eq, PartialOrd, Ord, Hash, Structural)]
pub struct TimePoint {
    /// The span elapsed since the epoch.
    pub elapsed: Microseconds,
}

impl TimePoint {
    /// The epoch itself.
    pub fn new() -> (r: TimePoint)
        ensures
            r.elapsed.count == 0,
    {
        TimePoint { elapsed: Microseconds::new() }
    }

    /// The span elapsed since the epoch.
    pub fn time_since_epoch(&self) -> (r: Microseconds)
        ensures
            r == self.elapsed,
    {
        self.elapsed
    }

    /// The whole seconds since the epoch, truncated to 32 bits.
    pub fn sec_since_epoch(&self) -> (r: u32)
        ensures
            r == (trunc_div(self.elapsed.count as int, 1_000_000) as i64) as u32,
    {
        self.elapsed.to_seconds() as u32
    }

    /// The point moved forward by another point's span, which must stay
    /// representable.
    pub fn add(self, other: TimePoint) -> (r: TimePoint)
        requires
            i64::MIN <= self.elapsed.count + other.elapsed.count <= i64::MAX,
        ensures
            r.elapsed.count == self.elapsed.count + other.elapsed.count,
    {
        TimePoint { elapsed: self.elapsed.add(other.elapsed) }
    }

    /// The point moved back by another point's span, which must stay
    /// representable.
    pub fn sub(self, other: TimePoint) -> (r: TimePoint)
        requires
            i64::MIN <= self.elapsed.count - other.elapsed.count <= i64::MAX,
        ensures
            r.elapsed.count == self.elapsed.count - other.elapsed.count,
    {
        TimePoint { elapsed: self.elapsed.sub(other.elapsed) }
    }

    /// The point moved forward by a span, which must stay representable.
    pub fn add_us(self, other: Microseconds) -> (r: TimePoint)
        requires
            i64::MIN <= self.elapsed.count + other.count <= i64::MAX,
        ensures
            r.elapsed.count == self.elapsed.count + other.count,
    {
        TimePoint { elapsed: self.elapsed.add(other) }
    }

    /// The point moved back by a span, which must stay representable.
    pub fn sub_us(self, other: Microseconds) -> (r: TimePoint)
        requires
            i64::MIN <= self.elapsed.count - other.count <= i64::MAX,
        ensures
            r.elapsed.count == self.elapsed.count - other.count,
    {
        TimePoint { elapsed: self.elapsed.sub(other) }
    }

    /// The point moved back by a whole-seconds point, which must stay
    /// representable.
    pub fn sub_sec(self, other: TimePointSec) -> (r: TimePoint)
        requires
            i64::MIN <= self.elapsed.count - (other.utc_seconds as int) * 1_000_000 <= i64::MAX,
        ensures
            r.elapsed.count == self.elapsed.count - (other.utc_seconds as int) * 1_000_000,
    {
        self.sub_us(seconds(other.sec_since_epoch() as i64))
    }
}

impl core::ops::Add<TimePoint> for TimePoint {
    type Output = TimePoint;

    /// The point moved forward by another point's span, which must stay
    /// representable.
    fn add(self, other: TimePoint) -> (r: TimePoint) {
        TimePoint { elapsed: Microseconds { count: self.elapsed.count + other.elapsed.count } }
    }
}

impl vstd::std_specs::ops::AddSpecImpl<TimePoint> for TimePoint {
    open spec fn obeys_add_spec() -> bool {
        true
    }

    open spec fn add_req(self, other: TimePoint) -> bool {
        i64::MIN <= self.elapsed.count + other.elapsed.count <= i64::MAX
    }

    open spec fn add_spec(self, other: TimePoint) -> TimePoint {
        TimePoint {
            elapsed: Microseconds { count: (self.elapsed.count + other.elapsed.count) as i64 },
        }
    }
}

impl core::ops::Sub<TimePoint> for TimePoint {
    type Output = TimePoint;

    /// The point moved back by another point's span, which must stay
    /// representable.
    fn sub(self, other: TimePoint) -> (r: TimePoint) {
        TimePoint { elapsed: Microseconds { count: self.elapsed.count - other.elapsed.count } }
    }
}

impl vstd::std_specs::ops::SubSpecImpl<TimePoint> for TimePoint {
    open spec fn obeys_sub_spec() -> bool {
        true
    }

    open spec fn sub_req(self, other: TimePoint) -> bool {
        i64::MIN <= self.elapsed.count - other.elapsed.count <= i64::MAX
    }

    open spec fn sub_spec(self, other: TimePoint) -> TimePoint {
        TimePoint {
            elapsed: Microseconds { count: (self.elapsed.count - other.elapsed.count) as i64 },
        }
    }
}

impl core::ops::Add<Microseconds> for TimePoint {
    type Output = TimePoint;

    /// The point moved forward by a span, which must stay representable.
    fn add(self, other: Microseconds) -> (r: TimePoint) {
        TimePoint { elapsed: Microseconds { count: self.elapsed.count + other.count } }
    }
}

impl vstd::std_specs::ops::AddSpecImpl<Microseconds> for TimePoint {
    open spec fn obeys_add_spec() -> bool {
        true
    }

    open spec fn add_req(self, other: Microseconds) -> bool {
        i64::MIN <= self.elapsed.count + other.count <= i64::MAX
    }

    open spec fn add_spec(self, other: Microseconds) -> TimePoint {
        TimePoint { elapsed: Microseconds { count: (self.elapsed.count + other.count) as i64 } }
    }
}

impl core::ops::Sub<Microseconds> for TimePoint {
    type Output = TimePoint;

    /// The point moved back by a span, which must stay representable.
    fn sub(self, other: Microseconds) -> (r: TimePoint) {
        TimePoint { elapsed: Microseconds { count: self.elapsed.count - other.count } }
    }
}

impl vstd::std_specs::ops::SubSpecImpl<Microseconds> for TimePoint {
    open spec fn obeys_sub_spec() -> bool {
        true
    }

    open spec fn sub_req(self, other: Microseconds) -> bool {
        i64::MIN <= self.elapsed.count - other.count <= i64::MAX
    }

    open spec fn sub_spec(self, other: Microseconds) -> TimePoint {
        TimePoint { elapsed: Microseconds { count: (self.elapsed.count - other.count) as i64 } }
    }
}

impl core::ops::Sub<TimePointSec> for TimePoint {
    type Output = TimePoint;

    /// The point moved back by a whole-seconds point, which must stay
    /// representable.
    fn sub(self, other: TimePointSec) -> (r: TimePoint) {
        self.sub_sec(other)
    }
}

impl vstd::std_specs::ops::SubSpecImpl<TimePointSec> for TimePoint {
    open spec fn obeys_sub_spec() -> bool {
        true
    }

    open spec fn sub_req(self, other: TimePointSec) -> bool {
        i64::MIN <= self.elapsed.count - (other.utc_seconds as int) * 1_000_000 <= i64::MAX
    }

    open spec fn sub_spec(self, other: TimePointSec) -> TimePoint {
        TimePoint {
            elapsed: Microseconds {
                count: (self.elapsed.count - (other.utc_seconds as int) * 1_000_000) as i64,
            },
        }
    }
}

impl From<Microseconds> for TimePoint {
    /// The point that far from the epoch.
    fn from(elapsed: Microseconds) -> (r: TimePoint)
        ensures
            r.elapsed == elapsed,
    {
        TimePoint { elapsed }
    }
}

impl vstd::std_specs::convert::FromSpecImpl<Microseconds> for TimePoint {
    open spec fn obeys_from_spec() -> bool {
        true
    }

    open spec fn from_spec(elapsed: Microseconds) -> TimePoint {
        TimePoint { elapsed }
    }
}

impl From<TimePointSec> for TimePoint {
    /// The same point, at microsecond resolution.
    fn from(tps: TimePointSec) -> (r: TimePoint)
        ensures
            r.elapsed.count == (tps.utc_seconds as int) * 1_000_000,
    {
        TimePoint::from(seconds(tps.sec_since_epoch() as i64))
    }
}

impl vstd::std_specs::convert::FromSpecImpl<TimePointSec> for TimePoint {
    open spec fn obeys_from_spec() -> bool {
        true
    }

    open spec fn from_spec(tps: TimePointSec) -> TimePoint {
        TimePoint { elapsed: Microseconds { count: ((tps.utc_seconds as int) * 1_000_000) as i64 } }
    }
}

impl Default for TimePoint {
    /// The epoch itself.
    fn default() -> (r: TimePoint)
        ensures
            r.elapsed.count == 0,
    {
        TimePoint { elapsed: Microseconds::new() }
    }
}

} // verus!
