use arangodb_types::types::dates::date::{MAX_DAY, MIN_DAY, UNIX_EPOCH_DAY, ZERO_MONTH_DAY};
use arangodb_types::types::dates::datetime::{
    MAX_SPAN_DAYS, MAX_SPAN_SECONDS, MAX_TIMESTAMP_MILLIS, MIN_TIMESTAMP_MILLIS,
};
use arangodb_types::types::dates::expiration::{MAX_TIMESTAMP, MIN_TIMESTAMP};
use arangodb_types::types::dates::{DBDate, DBDateTime, DBDayTime, DBDuration, DBExpiration};
use chrono::{DateTime, Datelike, NaiveDate, NaiveTime, TimeDelta, TimeZone, Timelike, Utc};

fn datetime(year: i32, month: u32, day: u32, h: u32, m: u32, s: u32, ms: u32) -> DBDateTime {
    let value = Utc.with_ymd_and_hms(year, month, day, h, m, s).unwrap()
        + TimeDelta::milliseconds(ms as i64);
    DBDateTime::new(value.timestamp_millis()).unwrap()
}

fn chrono_of(value: &DBDateTime) -> DateTime<Utc> {
    DateTime::from_timestamp_millis(value.timestamp_millis()).unwrap()
}

fn date(year: i32, month: u32, day: u32) -> DBDate {
    DBDate::new(NaiveDate::from_ymd_opt(year, month, day).unwrap().num_days_from_ce()).unwrap()
}

fn chrono_of_date(value: &DBDate) -> NaiveDate {
    NaiveDate::from_num_days_from_ce_opt(value.num_days_from_ce()).unwrap()
}

// ----------------------------------------------------------------------------
// Datetimes.
// ----------------------------------------------------------------------------

#[test]
fn test_datetime() {
    let date = datetime(1970, 12, 7, 5, 23, 30, 500);
    let str_date = date.timestamp_millis().to_string();

    assert_eq!("29395410500", str_date);
    assert_eq!(date, DBDateTime::new(serde_json::from_str(str_date.as_str()).unwrap()).unwrap());
}

#[test]
fn test_datetime_after_months() {
    let original_date = datetime(2021, 12, 1, 0, 0, 0, 0);
    let final_date = original_date.after_months_checked(1).unwrap();

    assert_eq!(chrono_of(&final_date).year(), 2022, "The year is incorrect");
    assert_eq!(chrono_of(&final_date).month(), 1, "The month is incorrect");

    let original_date = datetime(2021, 5, 1, 0, 0, 0, 0);
    let final_date = original_date.after_months_checked(20).unwrap();

    assert_eq!(chrono_of(&final_date).year(), 2023, "The year is incorrect");
    assert_eq!(chrono_of(&final_date).month(), 1, "The month is incorrect");
}

#[test]
fn test_datetime_before_months() {
    let original_date = datetime(2021, 1, 1, 0, 0, 0, 0);
    let final_date = original_date.before_months(1);

    assert_eq!(chrono_of(&final_date).year(), 2020, "The year is incorrect");
    assert_eq!(chrono_of(&final_date).month(), 12, "The month is incorrect");

    let original_date = datetime(2021, 5, 1, 0, 0, 0, 0);
    let final_date = original_date.before_months(20);

    assert_eq!(chrono_of(&final_date).year(), 2019, "The year is incorrect");
    assert_eq!(chrono_of(&final_date).month(), 9, "The month is incorrect");
}

#[test]
fn datetime_range_is_the_range_of_the_calendar() {
    assert_eq!(MAX_TIMESTAMP_MILLIS, DateTime::<Utc>::MAX_UTC.timestamp_millis());
    assert_eq!(MIN_TIMESTAMP_MILLIS, DateTime::<Utc>::MIN_UTC.timestamp_millis());
    assert_eq!(MAX_SPAN_SECONDS, i64::MAX / 1000);
    assert_eq!(MAX_SPAN_DAYS, i64::MAX / 1000 / 86400);
    assert!(TimeDelta::try_seconds(MAX_SPAN_SECONDS).is_some());
    assert!(TimeDelta::try_seconds(MAX_SPAN_SECONDS + 1).is_none());
    assert!(TimeDelta::try_days(MAX_SPAN_DAYS).is_some());
    assert!(TimeDelta::try_days(MAX_SPAN_DAYS + 1).is_none());

    assert!(DBDateTime::new(MAX_TIMESTAMP_MILLIS).is_some());
    assert!(DBDateTime::new(MAX_TIMESTAMP_MILLIS + 1).is_none());
    assert!(DateTime::from_timestamp_millis(MAX_TIMESTAMP_MILLIS + 1).is_none());
    assert!(DBDateTime::new(MIN_TIMESTAMP_MILLIS).is_some());
    assert!(DBDateTime::new(MIN_TIMESTAMP_MILLIS - 1).is_none());
    assert!(DateTime::from_timestamp_millis(MIN_TIMESTAMP_MILLIS - 1).is_none());
    assert_eq!(DBDateTime::max_datetime().timestamp_millis(), MAX_TIMESTAMP_MILLIS);
}

#[test]
fn datetime_now_follows_the_clock() {
    let before = Utc::now().timestamp_millis();
    let now = DBDateTime::now();
    let after = Utc::now().timestamp_millis();

    assert!(before <= now.timestamp_millis() && now.timestamp_millis() <= after);
    assert!(DBDateTime::new(0).unwrap().is_expired());
    assert!(now.before_seconds(1).is_expired());
    assert!(!now.after_seconds(3600).is_expired());
    assert!(!DBDateTime::max_datetime().is_expired());

    let minute = DBDateTime::current_minute();
    assert_eq!(minute.timestamp_millis() % 60_000, 0);
    assert!(minute.timestamp_millis() <= after && minute.timestamp_millis() > before - 60_000);
    let hour = DBDateTime::current_hour();
    assert_eq!(hour.timestamp_millis() % 3_600_000, 0);
    assert!(hour.timestamp_millis() <= after && hour.timestamp_millis() > before - 3_600_000);
}

#[test]
fn datetime_is_expired_at_its_own_instant() {
    let t = DBDateTime::new(1000).unwrap();
    assert!(t.is_expired_at(&DBDateTime::new(1000).unwrap()));
    assert!(t.is_expired_at(&DBDateTime::new(1001).unwrap()));
    assert!(!t.is_expired_at(&DBDateTime::new(999).unwrap()));
}

#[test]
fn datetime_moves_by_seconds_and_days() {
    let t = datetime(2020, 2, 28, 23, 59, 59, 250);

    assert_eq!(t.after_seconds(1), datetime(2020, 2, 29, 0, 0, 0, 250));
    assert_eq!(t.after_seconds(0), t);
    assert_eq!(t.before_seconds(60), datetime(2020, 2, 28, 23, 58, 59, 250));
    assert_eq!(t.after_days(2), datetime(2020, 3, 1, 23, 59, 59, 250));
    assert_eq!(t.after_seconds_checked(-86_400), Some(datetime(2020, 2, 27, 23, 59, 59, 250)));
    assert_eq!(t.after_days_checked(-59), Some(datetime(2019, 12, 31, 23, 59, 59, 250)));
    assert_eq!(
        t.after_seconds(130).timestamp_millis(),
        (chrono_of(&t) + TimeDelta::seconds(130)).timestamp_millis()
    );
}

#[test]
fn datetime_checked_moves_stop_at_the_ends_of_the_calendar() {
    let last = DBDateTime::max_datetime();
    let first = DBDateTime::new(MIN_TIMESTAMP_MILLIS).unwrap();

    assert_eq!(last.after_seconds_checked(1), None);
    assert_eq!(chrono_of(&last).checked_add_signed(TimeDelta::seconds(1)), None);
    assert_eq!(last.after_seconds_checked(0), Some(last.clone()));
    assert_eq!(last.after_days_checked(1), None);
    assert_eq!(first.after_seconds_checked(-1), None);
    assert_eq!(first.after_days_checked(-1), None);
    assert_eq!(last.after_seconds_checked(MAX_SPAN_SECONDS), None);
    assert_eq!(first.after_days_checked(-MAX_SPAN_DAYS), None);
    assert_eq!(
        first.after_seconds_checked(1).unwrap().timestamp_millis(),
        MIN_TIMESTAMP_MILLIS + 1000
    );
    assert_eq!(
        last.after_days_checked(-1).unwrap().timestamp_millis(),
        MAX_TIMESTAMP_MILLIS - 86_400_000
    );
}

#[test]
fn datetime_min_and_max_pick_by_time() {
    let a = DBDateTime::new(5).unwrap();
    let b = DBDateTime::new(7).unwrap();

    assert_eq!(a.clone().min(b.clone()), a);
    assert_eq!(b.clone().min(a.clone()), a);
    assert_eq!(a.clone().max(b.clone()), b);
    assert_eq!(b.clone().max(a.clone()), b);
}

#[test]
fn datetime_months_keep_the_day_and_the_time() {
    let t = datetime(2021, 1, 31, 13, 14, 15, 16);

    assert_eq!(t.after_months_checked(2), Some(datetime(2021, 3, 31, 13, 14, 15, 16)));
    assert_eq!(t.after_months_checked(0), Some(t.clone()));
    // February has no 31st.
    assert_eq!(t.after_months_checked(1), None);
    assert_eq!(t.before_months_checked(2), None);
    assert_eq!(t.before_months_checked(1), Some(datetime(2020, 12, 31, 13, 14, 15, 16)));
    assert_eq!(t.before_months_checked(u64::MAX), None);
    assert_eq!(t.after_months_checked(u32::MAX), None);
    assert_eq!(
        datetime(262142, 12, 1, 0, 0, 0, 0).after_months_checked(1),
        None
    );

    // Before the Unix epoch and before the year zero.
    let old = datetime(1969, 12, 31, 23, 59, 59, 999);
    assert_eq!(old.after_months_checked(1), Some(datetime(1970, 1, 31, 23, 59, 59, 999)));
    let bce = datetime(-1, 1, 15, 6, 0, 0, 0);
    assert_eq!(bce.after_months_checked(12), Some(datetime(0, 1, 15, 6, 0, 0, 0)));
    assert_eq!(bce.after_months_checked(24), Some(datetime(1, 1, 15, 6, 0, 0, 0)));
    assert_eq!(datetime(0, 1, 15, 6, 0, 0, 0).before_months_checked(12), Some(bce));
    // A month before the year zero is reached only where it is a January.
    assert_eq!(datetime(-1, 3, 15, 6, 0, 0, 0).after_months_checked(1), None);
}

#[test]
fn datetime_years_keep_the_month_the_day_and_the_time() {
    let leap = datetime(2020, 2, 29, 1, 2, 3, 4);

    assert_eq!(leap.after_years_checked(4), Some(datetime(2024, 2, 29, 1, 2, 3, 4)));
    assert_eq!(leap.after_years_checked(-4), Some(datetime(2016, 2, 29, 1, 2, 3, 4)));
    assert_eq!(leap.after_years_checked(1), None);
    assert_eq!(leap.after_years_checked(0), Some(leap.clone()));
    assert_eq!(leap.after_years_checked(i32::MAX), None);
    assert_eq!(leap.after_years_checked(i32::MIN), None);
    assert_eq!(
        datetime(-5, 7, 4, 0, 0, 0, 1).after_years_checked(10),
        Some(datetime(5, 7, 4, 0, 0, 0, 1))
    );
}

// ----------------------------------------------------------------------------
// Dates.
// ----------------------------------------------------------------------------

#[test]
fn test_date() {
    let date = date(1970, 12, 7);
    let str_date = date.num_days_from_ce().to_string();

    assert_eq!("719503", str_date);
    assert_eq!(date, DBDate::new(serde_json::from_str(str_date.as_str()).unwrap()).unwrap());
}

#[test]
fn date_after_months() {
    let original_date = date(2021, 12, 1);
    let final_date = original_date.after_months(1);

    assert_eq!(chrono_of_date(&final_date).year(), 2022, "The year is incorrect");
    assert_eq!(chrono_of_date(&final_date).month(), 1, "The month is incorrect");

    let original_date = date(2021, 5, 1);
    let final_date = original_date.after_months(20);

    assert_eq!(chrono_of_date(&final_date).year(), 2023, "The year is incorrect");
    assert_eq!(chrono_of_date(&final_date).month(), 1, "The month is incorrect");
}

#[test]
fn date_before_months() {
    let original_date = date(2021, 1, 1);
    let final_date = original_date.before_months(1);

    assert_eq!(chrono_of_date(&final_date).year(), 2020, "The year is incorrect");
    assert_eq!(chrono_of_date(&final_date).month(), 12, "The month is incorrect");

    let original_date = date(2021, 5, 1);
    let final_date = original_date.before_months(20);

    assert_eq!(chrono_of_date(&final_date).year(), 2019, "The year is incorrect");
    assert_eq!(chrono_of_date(&final_date).month(), 9, "The month is incorrect");
}

#[test]
fn date_range_is_the_range_of_the_calendar() {
    assert_eq!(MIN_DAY, NaiveDate::MIN.num_days_from_ce());
    assert_eq!(MAX_DAY, NaiveDate::MAX.num_days_from_ce());
    assert_eq!(UNIX_EPOCH_DAY, NaiveDate::from_ymd_opt(1970, 1, 1).unwrap().num_days_from_ce());
    assert_eq!(ZERO_MONTH_DAY, NaiveDate::from_ymd_opt(0, 1, 1).unwrap().num_days_from_ce());
    assert_eq!(DBDate::zero_month(), date(0, 1, 1));

    assert!(DBDate::new(MAX_DAY).is_some());
    assert!(DBDate::new(MAX_DAY + 1).is_none());
    assert!(NaiveDate::from_num_days_from_ce_opt(MAX_DAY + 1).is_none());
    assert!(DBDate::new(MIN_DAY).is_some());
    assert!(DBDate::new(MIN_DAY - 1).is_none());
    assert!(NaiveDate::from_num_days_from_ce_opt(MIN_DAY - 1).is_none());
}

#[test]
fn date_today_follows_the_clock() {
    let before = Utc::now().date_naive();
    let today = DBDate::today();
    let after = Utc::now().date_naive();

    assert!(before <= chrono_of_date(&today) && chrono_of_date(&today) <= after);
    assert!(today.is_expired());
    assert!(!today.after_days(1).is_expired());
    assert!(today.is_expired_at(&today));
    assert!(!today.after_days(1).is_expired_at(&today));

    assert_eq!(date(2024, 2, 29).start_of_month(), Some(date(2024, 2, 1)));
    assert_eq!(date(1969, 12, 31).start_of_month(), Some(date(1969, 12, 1)));
    assert_eq!(date(-1, 1, 1).start_of_month(), Some(date(-1, 1, 1)));
    assert_eq!(today.start_of_month(), Some(DBDate::current_month()));

    let month = chrono_of_date(&DBDate::current_month());
    assert_eq!(month.day(), 1);
    assert!(month <= after);
    assert!(month.month() == before.month() || month.month() == after.month());
    assert!(chrono_of_date(&DBDate::default()) >= before);
}

#[test]
fn date_turns_into_its_first_instant() {
    assert_eq!(date(1970, 1, 1).to_date_time().timestamp_millis(), 0);
    assert_eq!(date(1970, 12, 7).to_date_time(), datetime(1970, 12, 7, 0, 0, 0, 0));
    assert_eq!(date(1969, 12, 31).to_date_time().timestamp_millis(), -86_400_000);
    assert_eq!(
        DBDate::new(MIN_DAY).unwrap().to_date_time().timestamp_millis(),
        MIN_TIMESTAMP_MILLIS
    );
    assert_eq!(
        DBDate::new(MAX_DAY).unwrap().to_date_time().timestamp_millis(),
        MAX_TIMESTAMP_MILLIS - 86_399_999
    );
}

#[test]
fn date_moves_by_days_months_and_years() {
    let d = date(2020, 2, 29);

    assert_eq!(d.after_days(1), date(2020, 3, 1));
    assert_eq!(d.after_days(0), d);
    assert_eq!(d.after_days(366), date(2021, 3, 1));
    assert_eq!(date(-1, 12, 31).after_days(1), date(0, 1, 1));
    assert_eq!(date(2020, 2, 28).after_months(12), date(2021, 2, 28));
    assert_eq!(d.after_months_checked(12), None);
    assert_eq!(d.after_months_checked(48), Some(date(2024, 2, 29)));
    assert_eq!(d.before_months_checked(1), Some(date(2020, 1, 29)));
    assert_eq!(d.before_months_checked(u32::MAX), None);
    assert_eq!(d.after_months_checked(u32::MAX), None);
    assert_eq!(d.before_years(4), date(2016, 2, 29));
    assert_eq!(d.before_years_checked(1), None);
    assert_eq!(d.before_years_checked(u32::MAX), None);
    assert_eq!(d.before_years_checked(2020), Some(date(0, 2, 29)));
    assert_eq!(date(1969, 12, 31).after_months(1), date(1970, 1, 31));
}

#[test]
fn date_counts_months_from_the_year_zero() {
    assert_eq!(DBDate::zero_month().months_since_zero_month(), 0);
    assert_eq!(date(0, 12, 31).months_since_zero_month(), 11);
    assert_eq!(date(2021, 5, 17).months_since_zero_month(), 2021 * 12 + 4);
    assert_eq!(date(2021, 5, 17).months_since_zero_month_checked(), Some(24256));
    assert_eq!(date(-1, 12, 31).months_since_zero_month_checked(), None);
}

// ----------------------------------------------------------------------------
// Times of day, durations and expirations.
// ----------------------------------------------------------------------------

#[test]
fn test_day_time() {
    let day_time = DBDayTime::from_hms(2, 23, 55).unwrap();
    let str_day_time = day_time.num_seconds_from_midnight().to_string();

    assert_eq!("8635", str_day_time);
    assert_eq!(
        day_time,
        DBDayTime::new(serde_json::from_str(str_day_time.as_str()).unwrap()).unwrap()
    );
    assert_eq!(
        NaiveTime::from_hms_opt(2, 23, 55).unwrap().num_seconds_from_midnight(),
        day_time.num_seconds_from_midnight()
    );
}

#[test]
fn day_time_lies_within_one_day() {
    assert_eq!(DBDayTime::default().num_seconds_from_midnight(), 0);
    assert_eq!(DBDayTime::new(86_399).unwrap().num_seconds_from_midnight(), 86_399);
    assert_eq!(DBDayTime::new(86_400), None);
    assert_eq!(DBDayTime::from_hms(23, 59, 59), DBDayTime::new(86_399));
    assert_eq!(DBDayTime::from_hms(24, 0, 0), None);
    assert_eq!(DBDayTime::from_hms(0, 60, 0), None);
    assert_eq!(DBDayTime::from_hms(0, 0, 60), None);
}

#[test]
fn test_duration() {
    let time_duration = DBDuration::from(555687_u64);
    let str_time_duration = time_duration.value().to_string();

    assert_eq!("555687", str_time_duration);
    assert_eq!(
        time_duration,
        DBDuration::from(serde_json::from_str::<u64>(str_time_duration.as_str()).unwrap())
    );
}

#[test]
fn duration_takes_every_unsigned_width() {
    assert_eq!(DBDuration::from(7_u8).value(), 7);
    assert_eq!(DBDuration::from(7_u16).value(), 7);
    assert_eq!(DBDuration::from(7_u32).value(), 7);
    assert_eq!(DBDuration::from(u64::MAX).value(), u64::MAX);
    assert_eq!(DBDuration::default().value(), 0);
}

#[test]
fn expiration_keeps_whole_seconds() {
    let t = datetime(2020, 2, 28, 23, 59, 59, 750);
    let expiration = DBExpiration::from(t.clone());

    assert_eq!(expiration.timestamp(), chrono_of(&t).timestamp());
    assert_eq!(expiration.to_date_time(), datetime(2020, 2, 28, 23, 59, 59, 0));
    assert_eq!(DBExpiration::from_date_time(&t), expiration);

    // Before the epoch the second that has begun is the earlier one.
    let old = DBDateTime::new(-1).unwrap();
    assert_eq!(DBExpiration::from(old.clone()).timestamp(), -1);
    assert_eq!(chrono_of(&old).timestamp(), -1);
    assert_eq!(DBExpiration::from(DBDateTime::new(-1000).unwrap()).timestamp(), -1);
    assert_eq!(DBExpiration::from(DBDateTime::new(-1001).unwrap()).timestamp(), -2);
}

#[test]
fn expiration_range_is_the_range_of_the_calendar() {
    assert_eq!(MAX_TIMESTAMP, DateTime::<Utc>::MAX_UTC.timestamp());
    assert_eq!(MIN_TIMESTAMP, DateTime::<Utc>::MIN_UTC.timestamp());
    assert!(DBExpiration::new(MAX_TIMESTAMP).is_some());
    assert!(DBExpiration::new(MAX_TIMESTAMP + 1).is_none());
    assert!(DBExpiration::new(MIN_TIMESTAMP).is_some());
    assert!(DBExpiration::new(MIN_TIMESTAMP - 1).is_none());
    assert_eq!(
        DBExpiration::from(DBDateTime::max_datetime()).timestamp(),
        MAX_TIMESTAMP
    );
    assert_eq!(
        DBExpiration::new(MIN_TIMESTAMP).unwrap().to_date_time().timestamp_millis(),
        MIN_TIMESTAMP_MILLIS
    );
}

#[test]
fn expiration_expires_with_the_clock() {
    let now = DBDateTime::now();
    assert!(DBExpiration::new(0).unwrap().is_expired());
    assert!(DBExpiration::from(now.before_seconds(2)).is_expired());
    assert!(!DBExpiration::from(now.after_seconds(3600)).is_expired());
    assert!(DBExpiration::default().timestamp() >= now.timestamp_millis() / 1000);

    let e = DBExpiration::new(10).unwrap();
    assert!(e.is_expired_at(&DBDateTime::new(10_000).unwrap()));
    assert!(!e.is_expired_at(&DBDateTime::new(9_999).unwrap()));
}
