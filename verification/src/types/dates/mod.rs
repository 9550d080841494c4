pub mod calendar;
pub mod date;
pub mod datetime;
pub mod daytime;
pub mod duration;
pub mod expiration;

pub use date::DBDate;
pub use datetime::DBDateTime;
pub use daytime::DBDayTime;
pub use duration::DBDuration;
pub use expiration::DBExpiration;
