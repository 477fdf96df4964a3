//! A point in time as whole seconds since the epoch.

use vstd::prelude::*;

use crate::arith::trunc_div;
use crate::microseconds::Microseconds;
use crate::time_point::TimePoint;

verus! {

/// The epoch seconds that an ISO-8601 text of the form
/// `YYYY-MM-DDThh:mm:ss` denotes, or nothing when the text does not parse;
/// determined by the input characters alone.
pub uninterp spec fn iso_datetime_seconds(s: Seq<char>) -> Option<i64>;

/// The ISO-8601 text, in the form `YYYY-MM-DDThh:mm:ss`, of a count of
/// epoch seconds; determined by the value alone.
pub uninterp spec fn iso_datetime_text(t: u32) -> Seq<char>;

/// Relies on chrono's `NaiveDateTime::parse_from_str` with the format
/// `%Y-%m-%dT%H:%M:%S`, and on `DateTime::timestamp`: both read nothing
/// but their arguments, so the outcome is a function of the input text.
#[verifier::external_body]
fn parse_iso_datetime(s: &str) -> (r: Option<i64>)
    ensures
        r == iso_datetime_seconds(s@),
{
    chrono::NaiveDateTime::parse_from_str(s, "%Y-%m-%dT%H:%M:%S").ok().map(
        |dt| dt.and_utc().timestamp(),
    )
}

/// Relies on chrono's `DateTime::from_timestamp` and its `format` with
/// `%Y-%m-%dT%H:%M:%S`: both read nothing but their arguments, so the
/// text is a function of the seconds value.
#[verifier::external_body]
fn format_iso_datetime(t: u32) -> (r: String)
    ensures
        r@ == iso_datetime_text(t),
{
    match chrono::DateTime::from_timestamp(t as i64, 0) {
        Some(dt) => dt.format("%Y-%m-%dT%H:%M:%S").to_string(),
        None => String::new(),
    }
}

/// A point in time: whole seconds since the Unix epoch.
#[derive(Debug, Copy, Clone, PartialEq, Eq, PartialOrd, Ord, Hash, Structural)]
pub struct TimePointSec {
    /// The seconds since the epoch.
    pub utc_seconds: u32,
}

impl TimePointSec {
    /// The epoch itself.
    pub fn new() -> (r: TimePointSec)
        ensures
            r.utc_seconds == 0,
    {
        TimePointSec { utc_seconds: 0 }
    }

    /// The latest representable point.
    pub fn maximum() -> (r: TimePointSec)
        ensures
            r.utc_seconds == 0xffffffff,
    {
        TimePointSec { utc_seconds: 0xffffffff }
    }

    /// The earliest representable point.
    pub fn min() -> (r: TimePointSec)
        ensures
            r.utc_seconds == 0,
    {
        TimePointSec { utc_seconds: 0 }
    }

    /// The seconds since the epoch.
    pub fn sec_since_epoch(&self) -> (r: u32)
        ensures
            r == self.utc_seconds,
    {
        self.utc_seconds
    }

    /// Parses a point from an ISO-8601 text of the form
    /// `YYYY-MM-DDThh:mm:ss`, read as UTC.
    ///
    /// Returns the point exactly when the text parses and its epoch count
    /// fits the 32 unsigned bits of the type.
    pub fn from_iso_string(s: &str) -> (r: Option<TimePointSec>)
        ensures
            match iso_datetime_seconds(s@) {
                Some(t) => if 0 <= t <= 0xffffffffi64 {
                    r == Some(TimePointSec { utc_seconds: t as u32 })
                } else {
                    r is None
                },
                None => r is None,
            },
    {
        match parse_iso_datetime(s) {
            Some(t) => {
                if 0 <= t && t <= 0xffffffffi64 {
                    Some(TimePointSec { utc_seconds: t as u32 })
                } else {
                    None
                }
            },
            None => None,
        }
    }

    /// The ISO-8601 text of the point, in the form `YYYY-MM-DDThh:mm:ss`.
    pub fn to_string(&self) -> (r: String)
        ensures
            r@ == iso_datetime_text(self.utc_seconds),
    {
        format_iso_datetime(self.utc_seconds)
    }

    /// The point moved forward by whole seconds, which must stay
    /// representable.
    pub fn add_secs(self, other: u32) -> (r: TimePointSec)
        requires
            self.utc_seconds + other <= u32::MAX,
        ensures
            r.utc_seconds == self.utc_seconds + other,
    {
        TimePointSec { utc_seconds: self.utc_seconds + other }
    }

    /// The point moved back by whole seconds, which must not precede the
    /// epoch.
    pub fn sub_secs(self, other: u32) -> (r: TimePointSec)
        requires
            other <= self.utc_seconds,
        ensures
            r.utc_seconds == self.utc_seconds - other,
    {
        TimePointSec { utc_seconds: self.utc_seconds - other }
    }

    /// The point moved forward by another point's seconds, which must
    /// stay representable.
    pub fn add(self, other: TimePointSec) -> (r: TimePointSec)
        requires
            self.utc_seconds + other.utc_seconds <= u32::MAX,
        ensures
            r.utc_seconds == self.utc_seconds + other.utc_seconds,
    {
        self.add_secs(other.utc_seconds)
    }

    /// The point moved back by another point's seconds, which must not
    /// precede the epoch.
    pub fn sub(self, other: TimePointSec) -> (r: TimePointSec)
        requires
            other.utc_seconds <= self.utc_seconds,
        ensures
            r.utc_seconds == self.utc_seconds - other.utc_seconds,
    {
        self.sub_secs(other.utc_seconds)
    }

    /// The point moved forward by a span's whole seconds, truncated to 32
    /// unsigned bits; the sum must stay representable.
    pub fn add_us(self, other: Microseconds) -> (r: TimePointSec)
        requires
            self.utc_seconds + ((trunc_div(other.count as int, 1_000_000) as i64) as u32)
                <= u32::MAX,
        ensures
            r.utc_seconds == self.utc_seconds + ((trunc_div(other.count as int, 1_000_000) as i64)
                as u32),
    {
        TimePointSec { utc_seconds: self.utc_seconds + (other.to_seconds() as u32) }
    }

    /// The point moved back by a span's whole seconds, truncated to 32
    /// unsigned bits; the result must not precede the epoch.
    pub fn sub_us(self, other: Microseconds) -> (r: TimePointSec)
        requires
            ((trunc_div(other.count as int, 1_000_000) as i64) as u32) <= self.utc_seconds,
        ensures
            r.utc_seconds == self.utc_seconds - ((trunc_div(other.count as int, 1_000_000) as i64)
                as u32),
    {
        TimePointSec { utc_seconds: self.utc_seconds - (other.to_seconds() as u32) }
    }
}

impl core::ops::Add<u32> for TimePointSec {
    type Output = TimePointSec;

    /// The point moved forward by whole seconds, which must stay
    /// representable.
    fn add(self, other: u32) -> (r: TimePointSec) {
        TimePointSec { utc_seconds: self.utc_seconds + other }
    }
}

impl vstd::std_specs::ops::AddSpecImpl<u32> for TimePointSec {
    open spec fn obeys_add_spec() -> bool {
        true
    }

    open spec fn add_req(self, other: u32) -> bool {
        self.utc_seconds + other <= u32::MAX
    }

    open spec fn add_spec(self, other: u32) -> TimePointSec {
        TimePointSec { utc_seconds: (self.utc_seconds + other) as u32 }
    }
}

impl core::ops::Sub<u32> for TimePointSec {
    type Output = TimePointSec;

    /// The point moved back by whole seconds, which must not precede the
    /// epoch.
    fn sub(self, other: u32) -> (r: TimePointSec) {
        TimePointSec { utc_seconds: self.utc_seconds - other }
    }
}

impl vstd::std_specs::ops::SubSpecImpl<u32> for TimePointSec {
    open spec fn obeys_sub_spec() -> bool {
        true
    }

    open spec fn sub_req(self, other: u32) -> bool {
        other <= self.utc_seconds
    }

    open spec fn sub_spec(self, other: u32) -> TimePointSec {
        TimePointSec { utc_seconds: (self.utc_seconds - other) as u32 }
    }
}

impl core::ops::Sub<TimePointSec> for TimePointSec {
    type Output = TimePointSec;

    /// The point moved back by another point's seconds, which must not
    /// precede the epoch.
    fn sub(self, other: TimePointSec) -> (r: TimePointSec) {
        TimePointSec { utc_seconds: self.utc_seconds - other.utc_seconds }
    }
}

impl vstd::std_specs::ops::SubSpecImpl<TimePointSec> for TimePointSec {
    open spec fn obeys_sub_spec() -> bool {
        true
    }

    open spec fn sub_req(self, other: TimePointSec) -> bool {
        other.utc_seconds <= self.utc_seconds
    }

    open spec fn sub_spec(self, other: TimePointSec) -> TimePointSec {
        TimePointSec { utc_seconds: (self.utc_seconds - other.utc_seconds) as u32 }
    }
}

impl core::ops::Add<Microseconds> for TimePointSec {
    type Output = TimePointSec;

    /// The point moved forward by a span's whole seconds, truncated to 32
    /// unsigned bits; the sum must stay representable.
    fn add(self, other: Microseconds) -> (r: TimePointSec) {
        self.add_us(other)
    }
}

impl vstd::std_specs::ops::AddSpecImpl<Microseconds> for TimePointSec {
    open spec fn obeys_add_spec() -> bool {
        true
    }

    open spec fn add_req(self, other: Microseconds) -> bool {
        self.utc_seconds + ((trunc_div(other.count as int, 1_000_000) as i64) as u32) <= u32::MAX
    }

    open spec fn add_spec(self, other: Microseconds) -> TimePointSec {
        TimePointSec {
            utc_seconds: (self.utc_seconds + ((trunc_div(other.count as int, 1_000_000) as i64)
                as u32)) as u32,
        }
    }
}

impl core::ops::Sub<Microseconds> for TimePointSec {
    type Output = TimePointSec;

    /// The point moved back by a span's whole seconds, truncated to 32
    /// bits; the result must not precede the epoch.
    fn sub(self, other: Microseconds) -> (r: TimePointSec) {
        self.sub_us(other)
    }
}

impl vstd::std_specs::ops::SubSpecImpl<Microseconds> for TimePointSec {
    open spec fn obeys_sub_spec() -> bool {
        true
    }

    open spec fn sub_req(self, other: Microseconds) -> bool {
        ((trunc_div(other.count as int, 1_000_000) as i64) as u32) <= self.utc_seconds
    }

    open spec fn sub_spec(self, other: Microseconds) -> TimePointSec {
        TimePointSec {
            utc_seconds: (self.utc_seconds - ((trunc_div(other.count as int, 1_000_000) as i64)
                as u32)) as u32,
        }
    }
}

impl From<u32> for TimePointSec {
    /// The point that many seconds from the epoch.
    fn from(seconds: u32) -> (r: TimePointSec)
        ensures
            r.utc_seconds == seconds,
    {
        TimePointSec { utc_seconds: seconds }
    }
}

impl vstd::std_specs::convert::FromSpecImpl<u32> for TimePointSec {
    open spec fn obeys_from_spec() -> bool {
        true
    }

    open spec fn from_spec(seconds: u32) -> TimePointSec {
        TimePointSec { utc_seconds: seconds }
    }
}

impl From<TimePoint> for TimePointSec {
    /// The same point, truncated to whole seconds.
    fn from(tp: TimePoint) -> (r: TimePointSec)
        ensures
            r.utc_seconds == (trunc_div(tp.elapsed.count as int, 1_000_000) as i64) as u32,
    {
        TimePointSec::from(tp.sec_since_epoch())
    }
}

impl vstd::std_specs::convert::FromSpecImpl<TimePoint> for TimePointSec {
    open spec fn obeys_from_spec() -> bool {
        true
    }

    open spec fn from_spec(tp: TimePoint) -> TimePointSec {
        TimePointSec {
            utc_seconds: ((trunc_div(tp.elapsed.count as int, 1_000_000) as i64) as u32),
        }
    }
}

impl Default for TimePointSec {
    /// The epoch itself.
    fn default() -> (r: TimePointSec)
        ensures
            r.utc_seconds == 0,
    {
        TimePointSec { utc_seconds: 0 }
    }
}

} // verus!
