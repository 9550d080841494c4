use crate::types::dates::calendar::div_floor;
use crate::types::dates::datetime::{is_timestamp_millis, DBDateTime, MILLIS_PER_SECOND};
use crate::traits::normalize::{DBNormalize, DBNormalizeResult};
use vstd::prelude::*;
use vstd::std_specs::convert::FromSpec;
use vstd::std_specs::convert::FromSpecImpl;

verus! {

/// Seconds since the Unix epoch of the earliest second there is.
pub const MIN_TIMESTAMP: i64 = -8334601228800;

/// Seconds since the Unix epoch of the latest second there is.
pub const MAX_TIMESTAMP: i64 = 8210266876799;

/// Whether `seconds` is a timestamp that an expiration can hold.
pub open spec fn is_timestamp(seconds: int) -> bool {
    MIN_TIMESTAMP <= seconds <= MAX_TIMESTAMP
}

/// A date and time in UTC with the precision of a second, stored as a Unix timestamp.
#[derive(Debug, PartialEq, Eq, Structural)]
pub struct DBExpiration {
    seconds: i64,
}

impl View for DBExpiration {
    type V = int;

    /// The expiration as seconds since the Unix epoch.
    closed spec fn view(&self) -> int {
        self.seconds as int
    }
}

impl Clone for DBExpiration {
    fn clone(&self) -> (r: Self)
        ensures
            r@ == self@,
    {
        proof {
            use_type_invariant(self);
        }
        DBExpiration { seconds: self.seconds }
    }
}

impl DBExpiration {
    #[verifier::type_invariant]
    spec fn in_range(&self) -> bool {
        is_timestamp(self.seconds as int)
    }

    /// The expiration at `seconds` seconds since the Unix epoch, if there is one.
    pub fn new(seconds: i64) -> (r: Option<DBExpiration>)
        ensures
            match r {
                Some(v) => is_timestamp(seconds as int) && v@ == seconds,
                None => !is_timestamp(seconds as int),
            },
    {
        if MIN_TIMESTAMP <= seconds && seconds <= MAX_TIMESTAMP {
            Some(DBExpiration { seconds })
        } else {
            None
        }
    }

    // GETTERS ----------------------------------------------------------------

    /// Seconds since the Unix epoch.
    pub fn timestamp(&self) -> (r: i64)
        ensures
            r == self@,
            is_timestamp(r as int),
    {
        proof {
            use_type_invariant(self);
        }
        self.seconds
    }

    /// Whether this expiration has passed at `now`.
    pub fn is_expired_at(&self, now: &DBDateTime) -> (r: bool)
        ensures
            r == (self@ * MILLIS_PER_SECOND <= now@),
    {
        proof {
            use_type_invariant(self);
        }
        self.seconds * MILLIS_PER_SECOND <= now.timestamp_millis()
    }

    /// Checks this expiration against the system clock.
    pub fn is_expired(&self) -> (r: bool)
        ensures
            self@ <= 0 ==> r,
    {
        let now = DBDateTime::now();
        self.is_expired_at(&now)
    }

    /// The second that `datetime` falls into.
    pub fn from_date_time(datetime: &DBDateTime) -> (r: DBExpiration)
        ensures
            r@ == datetime@ / MILLIS_PER_SECOND as int,
    {
        let millis = datetime.timestamp_millis();
        let seconds = div_floor(millis, MILLIS_PER_SECOND);
        assert(is_timestamp(seconds as int)) by (nonlinear_arith)
            requires
                seconds == millis as int / 1000,
                -8334601228800000 <= millis <= 8210266876799999,
        ;
        DBExpiration { seconds }
    }

    /// The first instant of the second of this expiration.
    pub fn to_date_time(&self) -> (r: DBDateTime)
        ensures
            r@ == self@ * MILLIS_PER_SECOND,
    {
        proof {
            use_type_invariant(self);
        }
        match DBDateTime::new(self.seconds * MILLIS_PER_SECOND) {
            Some(v) => v,
            None => vstd::pervasive::unreached(),
        }
    }
}

impl From<DBDateTime> for DBExpiration {
    fn from(v: DBDateTime) -> (r: Self) {
        DBExpiration::from_date_time(&v)
    }
}

impl FromSpecImpl<DBDateTime> for DBExpiration {
    open spec fn obeys_from_spec() -> bool {
        true
    }

    closed spec fn from_spec(v: DBDateTime) -> Self {
        DBExpiration { seconds: (v@ / MILLIS_PER_SECOND as int) as i64 }
    }
}

/// The expiration made from a datetime is the second that the datetime falls into.
pub proof fn lemma_expiration_from(v: DBDateTime)
    requires
        is_timestamp_millis(v@),
    ensures
        <DBExpiration as FromSpec<DBDateTime>>::from_spec(v)@ == v@ / MILLIS_PER_SECOND as int,
{
    assert(-8334601228800 <= v@ / 1000 <= 8210266876799) by (nonlinear_arith)
        requires
            -8334601228800000 <= v@ <= 8210266876799999,
    ;
}

impl Default for DBExpiration {
    fn default() -> (r: Self)
        ensures
            0 <= r@,
    {
        let now = DBDateTime::now();
        let r = DBExpiration::from_date_time(&now);
        assert(0 <= r@) by (nonlinear_arith)
            requires
                r@ == now@ / 1000,
                0 <= now@,
        ;
        r
    }
}

impl DBNormalize for DBExpiration {
    fn normalize(&mut self) -> (r: DBNormalizeResult)
        ensures
            r is NotModified,
            final(self)@ == old(self)@,
    {
        DBNormalizeResult::NotModified
    }
}

} // verus!
