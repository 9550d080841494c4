use vstd::prelude::*;

verus! {

/// Seconds in a day.
pub const SECONDS_PER_DAY: u32 = 86400;

/// A time of day, to the second.
#[derive(Debug, PartialEq, Eq, Structural)]
pub struct DBDayTime {
    seconds: u32,
}

impl View for DBDayTime {
    type V = nat;

    /// The seconds that have passed since midnight.
    closed spec fn view(&self) -> nat {
        self.seconds as nat
    }
}

impl Clone for DBDayTime {
    fn clone(&self) -> (r: Self)
        ensures
            r@ == self@,
    {
        proof {
            use_type_invariant(self);
        }
        DBDayTime { seconds: self.seconds }
    }
}

impl DBDayTime {
    #[verifier::type_invariant]
    spec fn in_range(&self) -> bool {
        self.seconds < SECONDS_PER_DAY
    }

    /// The time of day `seconds` seconds after midnight, if the day is that long.
    pub fn new(seconds: u32) -> (r: Option<DBDayTime>)
        ensures
            match r {
                Some(v) => seconds < SECONDS_PER_DAY && v@ == seconds,
                None => seconds >= SECONDS_PER_DAY,
            },
    {
        if seconds < SECONDS_PER_DAY {
            Some(DBDayTime { seconds })
        } else {
            None
        }
    }

    /// The time of day at the given hour, minute and second, if there is one.
    pub fn from_hms(hour: u32, min: u32, sec: u32) -> (r: Option<DBDayTime>)
        ensures
            match r {
                Some(v) => hour < 24 && min < 60 && sec < 60 && v@ == hour * 3600 + min * 60 + sec,
                None => !(hour < 24 && min < 60 && sec < 60),
            },
    {
        if hour < 24 && min < 60 && sec < 60 {
            Some(DBDayTime { seconds: hour * 3600 + min * 60 + sec })
        } else {
            None
        }
    }

    /// The seconds that have passed since midnight.
    pub fn num_seconds_from_midnight(&self) -> (r: u32)
        ensures
            r == self@,
            r < SECONDS_PER_DAY,
    {
        proof {
            use_type_invariant(self);
        }
        self.seconds
    }
}

impl Default for DBDayTime {
    fn default() -> (r: Self)
        ensures
            r@ == 0,
    {
        DBDayTime { seconds: 0 }
    }
}

} // verus!
