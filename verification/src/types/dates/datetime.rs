use crate::types::dates::calendar::{
    add_months, chrono_day, chrono_midnight, chrono_month0, chrono_year, months_after,
    time_of_day, years_after,
};
use crate::traits::normalize::{DBNormalize, DBNormalizeResult};
use vstd::prelude::*;

verus! {

/// Milliseconds since the Unix epoch of the earliest representable datetime,
/// the first instant of the year -262143.
pub const MIN_TIMESTAMP_MILLIS: i64 = -8334601228800000;

/// Milliseconds since the Unix epoch of the latest representable datetime,
/// the last millisecond of the year 262142.
pub const MAX_TIMESTAMP_MILLIS: i64 = 8210266876799999;

/// Whether `millis` is a timestamp that a datetime can hold.
pub open spec fn is_timestamp_millis(millis: int) -> bool {
    MIN_TIMESTAMP_MILLIS <= millis <= MAX_TIMESTAMP_MILLIS
}

/// The timestamp `delta` milliseconds after `millis`, where a datetime can hold it.
pub open spec fn timestamp_plus(millis: int, delta: int) -> Option<int> {
    if is_timestamp_millis(millis + delta) {
        Some(millis + delta)
    } else {
        None
    }
}

/// Milliseconds in a second.
pub const MILLIS_PER_SECOND: i64 = 1000;

/// Milliseconds in a minute.
pub const MILLIS_PER_MINUTE: i64 = 60000;

/// Milliseconds in an hour.
pub const MILLIS_PER_HOUR: i64 = 3600000;

/// Milliseconds in a day.
pub const MILLIS_PER_DAY: i64 = 86400000;

/// The largest number of seconds, in either direction, that a span of time can hold.
pub const MAX_SPAN_SECONDS: i64 = 9223372036854775;

/// The largest number of days, in either direction, that a span of time can hold.
pub const MAX_SPAN_DAYS: i64 = 106751991167;

/// Reads the system clock through `chrono::Utc::now` and converts the result
/// with `DateTime::timestamp_millis`.
///
/// The clock cannot be predicted, so the contract states only what holds of
/// every reading: it is not before the Unix epoch (chrono refuses such a
/// clock) and it is a datetime that chrono can represent.
#[verifier::external_body]
fn chrono_now_millis() -> (r: i64)
    ensures
        0 <= r <= MAX_TIMESTAMP_MILLIS,
{
    chrono::Utc::now().timestamp_millis()
}

/// Adds a span of milliseconds with `chrono::DateTime::checked_add_signed`.
///
/// The datetime is rebuilt from its timestamp with
/// `DateTime::from_timestamp_millis`, the span is a `TimeDelta::milliseconds`,
/// and the sum is read back with `DateTime::timestamp_millis`. Chrono returns
/// the exact sum whenever it lies between its earliest and latest datetime,
/// and nothing otherwise.
#[verifier::external_body]
fn chrono_checked_add_millis(millis: i64, delta: i64) -> (r: Option<i64>)
    requires
        is_timestamp_millis(millis as int),
        delta > i64::MIN,
    ensures
        match r {
            Some(v) => timestamp_plus(millis as int, delta as int) == Some(v as int),
            None => timestamp_plus(millis as int, delta as int) is None,
        },
{
    let base = chrono::DateTime::<chrono::Utc>::from_timestamp_millis(millis).unwrap();
    match base.checked_add_signed(chrono::TimeDelta::milliseconds(delta)) {
        Some(v) => Some(v.timestamp_millis()),
        None => None,
    }
}

/// A date and time in UTC with millisecond precision.
#[derive(Debug, PartialEq, Eq, Structural)]
pub struct DBDateTime {
    millis: i64,
}

impl View for DBDateTime {
    type V = int;

    /// The datetime as milliseconds since the Unix epoch.
    closed spec fn view(&self) -> int {
        self.millis as int
    }
}

impl Clone for DBDateTime {
    fn clone(&self) -> (r: Self)
        ensures
            r@ == self@,
    {
        proof {
            use_type_invariant(self);
        }
        DBDateTime { millis: self.millis }
    }
}

impl DBDateTime {
    #[verifier::type_invariant]
    spec fn in_range(&self) -> bool {
        is_timestamp_millis(self.millis as int)
    }

    // CONSTRUCTORS -----------------------------------------------------------

    /// The datetime at `millis` milliseconds since the Unix epoch, if one exists.
    pub fn new(millis: i64) -> (r: Option<DBDateTime>)
        ensures
            match r {
                Some(v) => is_timestamp_millis(millis as int) && v@ == millis,
                None => !is_timestamp_millis(millis as int),
            },
    {
        if MIN_TIMESTAMP_MILLIS <= millis && millis <= MAX_TIMESTAMP_MILLIS {
            Some(DBDateTime { millis })
        } else {
            None
        }
    }

    /// The current instant according to the system clock.
    pub fn now() -> (r: DBDateTime)
        ensures
            0 <= r@ <= MAX_TIMESTAMP_MILLIS,
    {
        DBDateTime { millis: chrono_now_millis() }
    }

    /// The latest datetime there is.
    pub fn max_datetime() -> (r: DBDateTime)
        ensures
            r@ == MAX_TIMESTAMP_MILLIS,
    {
        DBDateTime { millis: MAX_TIMESTAMP_MILLIS }
    }

    // GETTERS ----------------------------------------------------------------

    /// Milliseconds since the Unix epoch.
    pub fn timestamp_millis(&self) -> (r: i64)
        ensures
            r == self@,
            is_timestamp_millis(r as int),
    {
        proof {
            use_type_invariant(self);
        }
        self.millis
    }

    /// Whether this datetime, read as an expiration, has passed at `now`.
    pub fn is_expired_at(&self, now: &DBDateTime) -> (r: bool)
        ensures
            r == (self@ <= now@),
    {
        self.millis <= now.millis
    }

    /// Checks this datetime against the system clock as if it were an expiration.
    pub fn is_expired(&self) -> (r: bool)
        ensures
            self@ <= 0 ==> r,
    {
        let now = DBDateTime::now();
        self.is_expired_at(&now)
    }

    // METHODS ----------------------------------------------------------------

    /// The datetime `delta` milliseconds after this one, if there is one.
    fn checked_add_millis(&self, delta: i64) -> (r: Option<DBDateTime>)
        requires
            delta > i64::MIN,
        ensures
            match r {
                Some(v) => timestamp_plus(self@, delta as int) == Some(v@),
                None => timestamp_plus(self@, delta as int) is None,
            },
    {
        proof {
            use_type_invariant(self);
        }
        match chrono_checked_add_millis(self.millis, delta) {
            Some(millis) => Some(DBDateTime { millis }),
            None => None,
        }
    }

    /// The datetime `duration` seconds after this one.
    pub fn after_seconds(&self, duration: u64) -> (r: DBDateTime)
        requires
            duration <= MAX_SPAN_SECONDS,
            is_timestamp_millis(self@ + duration * MILLIS_PER_SECOND),
        ensures
            r@ == self@ + duration * MILLIS_PER_SECOND,
    {
        let delta: i64 = (duration as i64) * MILLIS_PER_SECOND;
        match self.checked_add_millis(delta) {
            Some(v) => v,
            None => vstd::pervasive::unreached(),
        }
    }

    /// The datetime `duration` seconds after this one (before it, for a
    /// negative duration), or `None` where no datetime can hold the result.
    pub fn after_seconds_checked(&self, duration: i64) -> (r: Option<DBDateTime>)
        requires
            -MAX_SPAN_SECONDS <= duration <= MAX_SPAN_SECONDS,
        ensures
            match r {
                Some(v) => timestamp_plus(self@, duration * MILLIS_PER_SECOND) == Some(v@),
                None => timestamp_plus(self@, duration * MILLIS_PER_SECOND) is None,
            },
    {
        self.checked_add_millis(duration * MILLIS_PER_SECOND)
    }

    /// The datetime `duration` seconds before this one.
    pub fn before_seconds(&self, duration: u64) -> (r: DBDateTime)
        requires
            duration <= MAX_SPAN_SECONDS,
            is_timestamp_millis(self@ - duration * MILLIS_PER_SECOND),
        ensures
            r@ == self@ - duration * MILLIS_PER_SECOND,
    {
        let delta: i64 = -((duration as i64) * MILLIS_PER_SECOND);
        match self.checked_add_millis(delta) {
            Some(v) => v,
            None => vstd::pervasive::unreached(),
        }
    }

    /// The datetime `duration` days after this one.
    pub fn after_days(&self, duration: u64) -> (r: DBDateTime)
        requires
            duration <= MAX_SPAN_DAYS,
            is_timestamp_millis(self@ + duration * MILLIS_PER_DAY),
        ensures
            r@ == self@ + duration * MILLIS_PER_DAY,
    {
        let delta: i64 = (duration as i64) * MILLIS_PER_DAY;
        match self.checked_add_millis(delta) {
            Some(v) => v,
            None => vstd::pervasive::unreached(),
        }
    }

    /// The datetime `duration` days after this one (before it, for a negative
    /// duration), or `None` where no datetime can hold the result.
    pub fn after_days_checked(&self, duration: i64) -> (r: Option<DBDateTime>)
        requires
            -MAX_SPAN_DAYS <= duration <= MAX_SPAN_DAYS,
        ensures
            match r {
                Some(v) => timestamp_plus(self@, duration * MILLIS_PER_DAY) == Some(v@),
                None => timestamp_plus(self@, duration * MILLIS_PER_DAY) is None,
            },
    {
        self.checked_add_millis(duration * MILLIS_PER_DAY)
    }

    /// The datetime `duration` months after this one: same day of the month,
    /// same time of day. There is none where that month has no such day or
    /// lies outside the calendar.
    pub fn after_months_checked(&self, duration: u32) -> (r: Option<DBDateTime>)
        ensures
            match r {
                Some(v) => months_after(self@, duration as int) == Some(v@),
                None => months_after(self@, duration as int) is None,
            },
    {
        self.months_away(duration as i64)
    }

    /// The datetime `duration` years after this one (before it, for a negative
    /// number): same month, same day, same time of day. There is none where
    /// that year has no such day or lies outside the calendar.
    pub fn after_years_checked(&self, duration: i32) -> (r: Option<DBDateTime>)
        ensures
            match r {
                Some(v) => years_after(self@, duration as int) == Some(v@),
                None => years_after(self@, duration as int) is None,
            },
    {
        proof {
            use_type_invariant(self);
        }
        let year: i64 = (chrono_year(self.millis) as i64) + (duration as i64);
        if year < (i32::MIN as i64) || year > (i32::MAX as i64) {
            return None;
        }
        let month = chrono_month0(self.millis) + 1;
        let day = chrono_day(self.millis);
        let time = time_of_day(self.millis);
        match chrono_midnight(year as i32, month, day) {
            Some(midnight) => Some(DBDateTime { millis: midnight + time }),
            None => None,
        }
    }

    /// The datetime `duration` months before this one: same day of the month,
    /// same time of day.
    pub fn before_months(&self, duration: u64) -> (r: DBDateTime)
        requires
            duration <= i32::MAX,
            months_after(self@, -(duration as int)) is Some,
        ensures
            months_after(self@, -(duration as int)) == Some(r@),
    {
        match self.months_away(-(duration as i64)) {
            Some(v) => v,
            None => vstd::pervasive::unreached(),
        }
    }

    /// The datetime `duration` months before this one: same day of the month,
    /// same time of day. There is none where that month has no such day or
    /// lies outside the calendar, nor for more months than `i32::MAX`.
    pub fn before_months_checked(&self, duration: u64) -> (r: Option<DBDateTime>)
        ensures
            match r {
                Some(v) => duration <= i32::MAX && months_after(self@, -(duration as int)) == Some(
                    v@,
                ),
                None => duration > i32::MAX || months_after(self@, -(duration as int)) is None,
            },
    {
        if duration > 0x7fff_ffff {
            return None;
        }
        match self.months_away(-(duration as i64)) {
            Some(_) => Some(self.before_months(duration)),
            None => None,
        }
    }

    /// The datetime `months` months away from this one.
    fn months_away(&self, months: i64) -> (r: Option<DBDateTime>)
        requires
            -0x1_0000_0000 <= months <= 0x1_0000_0000,
        ensures
            match r {
                Some(v) => months_after(self@, months as int) == Some(v@),
                None => months_after(self@, months as int) is None,
            },
    {
        proof {
            use_type_invariant(self);
        }
        let year = chrono_year(self.millis);
        let month0 = chrono_month0(self.millis);
        let day = chrono_day(self.millis);
        let time = time_of_day(self.millis);
        match add_months(year, month0, day, time, months) {
            Some(millis) => Some(DBDateTime { millis }),
            None => None,
        }
    }

    /// The start of the current minute according to the system clock.
    pub fn current_minute() -> (r: DBDateTime)
        ensures
            0 <= r@ <= MAX_TIMESTAMP_MILLIS,
            r@ % MILLIS_PER_MINUTE as int == 0,
    {
        let now = chrono_now_millis();
        let millis: i64 = now - now % MILLIS_PER_MINUTE;
        assert(millis as int % MILLIS_PER_MINUTE as int == 0) by (nonlinear_arith)
            requires
                millis == now - now % MILLIS_PER_MINUTE,
                now >= 0,
                MILLIS_PER_MINUTE == 60000,
        ;
        DBDateTime { millis }
    }

    /// The start of the current hour according to the system clock.
    pub fn current_hour() -> (r: DBDateTime)
        ensures
            0 <= r@ <= MAX_TIMESTAMP_MILLIS,
            r@ % MILLIS_PER_HOUR as int == 0,
    {
        let now = chrono_now_millis();
        let millis: i64 = now - now % MILLIS_PER_HOUR;
        assert(millis as int % MILLIS_PER_HOUR as int == 0) by (nonlinear_arith)
            requires
                millis == now - now % MILLIS_PER_HOUR,
                now >= 0,
                MILLIS_PER_HOUR == 3600000,
        ;
        DBDateTime { millis }
    }

    /// The earlier of two datetimes.
    pub fn min(self, other: DBDateTime) -> (r: DBDateTime)
        ensures
            r@ == (if self@ <= other@ { self@ } else { other@ }),
    {
        if self.millis <= other.millis {
            self
        } else {
            other
        }
    }

    /// The later of two datetimes.
    pub fn max(self, other: DBDateTime) -> (r: DBDateTime)
        ensures
            r@ == (if other@ >= self@ { other@ } else { self@ }),
    {
        if other.millis >= self.millis {
            other
        } else {
            self
        }
    }
}

impl DBNormalize for DBDateTime {
    fn normalize(&mut self) -> (r: DBNormalizeResult)
        ensures
            r is NotModified,
            final(self)@ == old(self)@,
    {
        DBNormalizeResult::NotModified
    }
}

} // verus!
