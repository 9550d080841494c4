use crate::types::dates::calendar::{
    add_months, chrono_day, chrono_midnight, chrono_month0, chrono_year, civil_month0, civil_year,
    div_floor, midnight_of, months_after, years_after,
};
use crate::types::dates::datetime::{
    is_timestamp_millis, DBDateTime, MAX_SPAN_DAYS, MILLIS_PER_DAY,
};
use crate::traits::normalize::{DBNormalize, DBNormalizeResult};
use vstd::prelude::*;

verus! {

/// The number of the day on which the Unix epoch falls, counted from the
/// first day of the year 1.
pub const UNIX_EPOCH_DAY: i32 = 719163;

/// The number of the earliest day of the calendar.
pub const MIN_DAY: i32 = -95746129;

/// The number of the latest day of the calendar.
pub const MAX_DAY: i32 = 95745399;

/// The number of the first day of the year 0.
pub const ZERO_MONTH_DAY: i32 = -365;

/// Whether the calendar has a day with the number `days`.
pub open spec fn is_day(days: int) -> bool {
    MIN_DAY <= days <= MAX_DAY
}

/// The instant at which the day with the number `days` begins in UTC.
pub open spec fn day_start(days: int) -> int {
    (days - UNIX_EPOCH_DAY) * MILLIS_PER_DAY
}

/// The number of the day that the instant `millis` falls on.
pub open spec fn day_of(millis: int) -> int {
    millis / MILLIS_PER_DAY as int + UNIX_EPOCH_DAY
}

/// The day that an instant falls on, as a day of the calendar.
pub open spec fn option_day_of(millis: Option<int>) -> Option<int> {
    match millis {
        Some(m) => Some(day_of(m)),
        None => None,
    }
}

/// A day of the calendar, in UTC.
#[derive(Debug, PartialEq, Eq, Structural)]
pub struct DBDate {
    days: i32,
}

impl View for DBDate {
    type V = int;

    /// The number of the day, counted from the first day of the year 1.
    closed spec fn view(&self) -> int {
        self.days as int
    }
}

impl Clone for DBDate {
    fn clone(&self) -> (r: Self)
        ensures
            r@ == self@,
    {
        proof {
            use_type_invariant(self);
        }
        DBDate { days: self.days }
    }
}

impl DBDate {
    #[verifier::type_invariant]
    spec fn in_range(&self) -> bool {
        is_day(self.days as int)
    }

    // CONSTRUCTORS -----------------------------------------------------------

    /// The day with the number `days`, counted from the first day of the
    /// year 1, if the calendar has one.
    pub fn new(days: i32) -> (r: Option<DBDate>)
        ensures
            match r {
                Some(v) => is_day(days as int) && v@ == days,
                None => !is_day(days as int),
            },
    {
        if MIN_DAY <= days && days <= MAX_DAY {
            Some(DBDate { days })
        } else {
            None
        }
    }

    /// The day on which the instant `millis` falls.
    fn of_timestamp(millis: i64) -> (r: DBDate)
        requires
            is_timestamp_millis(millis as int),
        ensures
            r@ == day_of(millis as int),
    {
        let days: i64 = div_floor(millis, MILLIS_PER_DAY) + (UNIX_EPOCH_DAY as i64);
        DBDate { days: days as i32 }
    }

    /// The current day according to the system clock.
    pub fn today() -> (r: DBDate)
        ensures
            UNIX_EPOCH_DAY <= r@,
    {
        let now = DBDateTime::now();
        DBDate::of_timestamp(now.timestamp_millis())
    }

    /// The first day of the current month according to the system clock.
    pub fn current_month() -> (r: DBDate)
        ensures
            UNIX_EPOCH_DAY <= r@,
    {
        let today = DBDate::today();
        // The calendar has a first day for every month it has a day of, and
        // the clock does not run before the Unix epoch.
        match today.start_of_month() {
            Some(first) => if first.days >= UNIX_EPOCH_DAY {
                first
            } else {
                today
            },
            None => today,
        }
    }

    /// The first day of the month of this day, as the calendar has it.
    pub fn start_of_month(&self) -> (r: Option<DBDate>)
        ensures
            match r {
                Some(v) => Some(v@) == option_day_of(
                    midnight_of(
                        civil_year(day_start(self@)),
                        civil_month0(day_start(self@)) + 1,
                        1,
                    ),
                ),
                None => midnight_of(
                    civil_year(day_start(self@)),
                    civil_month0(day_start(self@)) + 1,
                    1,
                ) is None,
            },
    {
        let start = self.start();
        match chrono_midnight(chrono_year(start), chrono_month0(start) + 1, 1) {
            Some(midnight) => Some(DBDate::of_timestamp(midnight)),
            None => None,
        }
    }

    /// The first day of the year 0, from which months are counted.
    pub fn zero_month() -> (r: DBDate)
        ensures
            r@ == ZERO_MONTH_DAY,
    {
        DBDate { days: ZERO_MONTH_DAY }
    }

    // GETTERS ----------------------------------------------------------------

    /// The number of the day, counted from the first day of the year 1.
    pub fn num_days_from_ce(&self) -> (r: i32)
        ensures
            r == self@,
            is_day(r as int),
    {
        proof {
            use_type_invariant(self);
        }
        self.days
    }

    /// Whether this day, read as an expiration, has come on the day `today`.
    pub fn is_expired_at(&self, today: &DBDate) -> (r: bool)
        ensures
            r == (self@ <= today@),
    {
        self.days <= today.days
    }

    /// Checks this day against the system clock as if it were an expiration.
    pub fn is_expired(&self) -> (r: bool)
        ensures
            self@ <= UNIX_EPOCH_DAY ==> r,
    {
        let now = DBDate::today();
        self.is_expired_at(&now)
    }

    /// The instant at which the day begins.
    fn start(&self) -> (r: i64)
        ensures
            r == day_start(self@),
            is_timestamp_millis(r as int),
    {
        proof {
            use_type_invariant(self);
        }
        ((self.days as i64) - (UNIX_EPOCH_DAY as i64)) * MILLIS_PER_DAY
    }

    /// The months that lie between the first month of the year 0 and the
    /// month of this day.
    pub fn months_since_zero_month(&self) -> (r: u32)
        requires
            civil_year(day_start(self@)) >= 0,
        ensures
            r == civil_year(day_start(self@)) * 12 + civil_month0(day_start(self@)),
    {
        let start = self.start();
        (chrono_year(start) as u32) * 12 + chrono_month0(start)
    }

    /// The months that lie between the first month of the year 0 and the
    /// month of this day, for a day that does not lie before the year 0.
    pub fn months_since_zero_month_checked(&self) -> (r: Option<u32>)
        ensures
            match r {
                Some(v) => civil_year(day_start(self@)) >= 0 && v == civil_year(day_start(self@))
                    * 12 + civil_month0(day_start(self@)),
                None => civil_year(day_start(self@)) < 0,
            },
    {
        if chrono_year(self.start()) >= 0 {
            Some(self.months_since_zero_month())
        } else {
            None
        }
    }

    // METHODS ----------------------------------------------------------------

    /// The same day of the same month `years` years earlier.
    pub fn before_years(&self, years: u32) -> (r: DBDate)
        requires
            years <= i32::MAX,
            years_after(day_start(self@), -(years as int)) is Some,
        ensures
            Some(r@) == option_day_of(years_after(day_start(self@), -(years as int))),
    {
        match self.years_away(-(years as i64)) {
            Some(v) => v,
            None => vstd::pervasive::unreached(),
        }
    }

    /// The same day of the same month `years` years earlier. There is none
    /// where that year has no such day or lies outside the calendar, nor for
    /// more years than `i32::MAX`.
    pub fn before_years_checked(&self, years: u32) -> (r: Option<DBDate>)
        ensures
            match r {
                Some(v) => years <= i32::MAX && Some(v@) == option_day_of(
                    years_after(day_start(self@), -(years as int)),
                ),
                None => years > i32::MAX || years_after(day_start(self@), -(years as int))
                    is None,
            },
    {
        if years > 0x7fff_ffff {
            return None;
        }
        match self.years_away(-(years as i64)) {
            Some(_) => Some(self.before_years(years)),
            None => None,
        }
    }

    /// The day `duration` days later.
    pub fn after_days(&self, duration: u64) -> (r: DBDate)
        requires
            duration <= MAX_SPAN_DAYS,
            is_day(self@ + duration),
        ensures
            r@ == self@ + duration,
    {
        let start = self.to_date_time();
        let later = start.after_days(duration);
        let r = DBDate::of_timestamp(later.timestamp_millis());
        assert(r@ == self@ + duration) by {
            let d = MILLIS_PER_DAY as int;
            let n = self@ + duration - UNIX_EPOCH_DAY;
            assert(later@ == n * d) by (nonlinear_arith)
                requires
                    later@ == (self@ - UNIX_EPOCH_DAY) * d + duration * d,
                    n == self@ + duration - UNIX_EPOCH_DAY,
            ;
            vstd::arithmetic::div_mod::lemma_fundamental_div_mod_converse(later@, d, n, 0);
        }
        r
    }

    /// The same day of the month `months` months later.
    pub fn after_months(&self, months: u32) -> (r: DBDate)
        requires
            months <= i32::MAX,
            months_after(day_start(self@), months as int) is Some,
        ensures
            Some(r@) == option_day_of(months_after(day_start(self@), months as int)),
    {
        match self.months_away(months as i64) {
            Some(v) => v,
            None => vstd::pervasive::unreached(),
        }
    }

    /// The same day of the month `months` months later. There is none where
    /// that month has no such day or lies outside the calendar, nor for more
    /// months than `i32::MAX`.
    pub fn after_months_checked(&self, months: u32) -> (r: Option<DBDate>)
        ensures
            match r {
                Some(v) => months <= i32::MAX && Some(v@) == option_day_of(
                    months_after(day_start(self@), months as int),
                ),
                None => months > i32::MAX || months_after(day_start(self@), months as int)
                    is None,
            },
    {
        if months > 0x7fff_ffff {
            return None;
        }
        match self.months_away(months as i64) {
            Some(_) => Some(self.after_months(months)),
            None => None,
        }
    }

    /// The same day of the month `months` months earlier.
    pub fn before_months(&self, months: u32) -> (r: DBDate)
        requires
            months <= i32::MAX,
            months_after(day_start(self@), -(months as int)) is Some,
        ensures
            Some(r@) == option_day_of(months_after(day_start(self@), -(months as int))),
    {
        match self.months_away(-(months as i64)) {
            Some(v) => v,
            None => vstd::pervasive::unreached(),
        }
    }

    /// The same day of the month `months` months earlier. There is none where
    /// that month has no such day or lies outside the calendar, nor for more
    /// months than `i32::MAX`.
    pub fn before_months_checked(&self, months: u32) -> (r: Option<DBDate>)
        ensures
            match r {
                Some(v) => months <= i32::MAX && Some(v@) == option_day_of(
                    months_after(day_start(self@), -(months as int)),
                ),
                None => months > i32::MAX || months_after(day_start(self@), -(months as int))
                    is None,
            },
    {
        if months > 0x7fff_ffff {
            return None;
        }
        match self.months_away(-(months as i64)) {
            Some(_) => Some(self.before_months(months)),
            None => None,
        }
    }

    /// The first instant of the day.
    pub fn to_date_time(&self) -> (r: DBDateTime)
        ensures
            r@ == day_start(self@),
    {
        match DBDateTime::new(self.start()) {
            Some(v) => v,
            None => vstd::pervasive::unreached(),
        }
    }

    /// The day `months` months away from this one.
    fn months_away(&self, months: i64) -> (r: Option<DBDate>)
        requires
            -0x1_0000_0000 <= months <= 0x1_0000_0000,
        ensures
            match r {
                Some(v) => Some(v@) == option_day_of(months_after(day_start(self@), months as int)),
                None => months_after(day_start(self@), months as int) is None,
            },
    {
        let start = self.start();
        proof {
            lemma_day_starts_at_midnight(self@);
        }
        let year = chrono_year(start);
        let month0 = chrono_month0(start);
        let day = chrono_day(start);
        match add_months(year, month0, day, 0, months) {
            Some(millis) => Some(DBDate::of_timestamp(millis)),
            None => None,
        }
    }

    /// The day `years` years away from this one.
    fn years_away(&self, years: i64) -> (r: Option<DBDate>)
        requires
            -0x1_0000_0000 <= years <= 0x1_0000_0000,
        ensures
            match r {
                Some(v) => Some(v@) == option_day_of(years_after(day_start(self@), years as int)),
                None => years_after(day_start(self@), years as int) is None,
            },
    {
        let start = self.start();
        proof {
            lemma_day_starts_at_midnight(self@);
        }
        let year: i64 = (chrono_year(start) as i64) + years;
        if year < (i32::MIN as i64) || year > (i32::MAX as i64) {
            return None;
        }
        let month = chrono_month0(start) + 1;
        let day = chrono_day(start);
        match chrono_midnight(year as i32, month, day) {
            Some(midnight) => Some(DBDate::of_timestamp(midnight)),
            None => None,
        }
    }
}

/// A day begins when no millisecond of it has passed.
pub proof fn lemma_day_starts_at_midnight(days: int)
    ensures
        day_start(days) % MILLIS_PER_DAY as int == 0,
        day_of(day_start(days)) == days,
{
    let d = MILLIS_PER_DAY as int;
    vstd::arithmetic::div_mod::lemma_fundamental_div_mod_converse(
        day_start(days),
        d,
        days - UNIX_EPOCH_DAY,
        0,
    );
}

impl Default for DBDate {
    fn default() -> (r: Self)
        ensures
            UNIX_EPOCH_DAY <= r@,
    {
        Self::today()
    }
}

impl DBNormalize for DBDate {
    fn normalize(&mut self) -> (r: DBNormalizeResult)
        ensures
            r is NotModified,
            final(self)@ == old(self)@,
    {
        DBNormalizeResult::NotModified
    }
}

} // verus!
