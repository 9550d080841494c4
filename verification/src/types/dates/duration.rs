use vstd::prelude::*;
use vstd::std_specs::convert::FromSpec;
use vstd::std_specs::convert::FromSpecImpl;

verus! {

/// A span of time, stored as a bare number.
#[derive(Debug, Clone, Eq, PartialEq, Structural)]
pub struct DBDuration(u64);

impl View for DBDuration {
    type V = nat;

    closed spec fn view(&self) -> nat {
        self.0 as nat
    }
}

impl DBDuration {
    /// The stored number.
    pub fn value(&self) -> (r: u64)
        ensures
            r == self@,
    {
        self.0
    }
}

/// A duration made from a number holds that number.
pub proof fn lemma_duration_from(v: u64)
    ensures
        <DBDuration as FromSpec<u64>>::from_spec(v)@ == v,
        v <= u32::MAX ==> <DBDuration as FromSpec<u32>>::from_spec(v as u32)@ == v,
        v <= u16::MAX ==> <DBDuration as FromSpec<u16>>::from_spec(v as u16)@ == v,
        v <= u8::MAX ==> <DBDuration as FromSpec<u8>>::from_spec(v as u8)@ == v,
{
}

impl Default for DBDuration {
    fn default() -> (r: Self)
        ensures
            r@ == 0,
    {
        DBDuration(0)
    }
}

impl From<u8> for DBDuration {
    fn from(v: u8) -> (r: Self) {
        DBDuration(v as u64)
    }
}

impl FromSpecImpl<u8> for DBDuration {
    open spec fn obeys_from_spec() -> bool {
        true
    }

    closed spec fn from_spec(v: u8) -> Self {
        DBDuration(v as u64)
    }
}

impl From<u16> for DBDuration {
    fn from(v: u16) -> (r: Self) {
        DBDuration(v as u64)
    }
}

impl FromSpecImpl<u16> for DBDuration {
    open spec fn obeys_from_spec() -> bool {
        true
    }

    closed spec fn from_spec(v: u16) -> Self {
        DBDuration(v as u64)
    }
}

impl From<u32> for DBDuration {
    fn from(v: u32) -> (r: Self) {
        DBDuration(v as u64)
    }
}

impl FromSpecImpl<u32> for DBDuration {
    open spec fn obeys_from_spec() -> bool {
        true
    }

    closed spec fn from_spec(v: u32) -> Self {
        DBDuration(v as u64)
    }
}

impl From<u64> for DBDuration {
    fn from(v: u64) -> (r: Self) {
        DBDuration(v)
    }
}

impl FromSpecImpl<u64> for DBDuration {
    open spec fn obeys_from_spec() -> bool {
        true
    }

    closed spec fn from_spec(v: u64) -> Self {
        DBDuration(v)
    }
}

} // verus!
