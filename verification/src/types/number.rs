use vstd::prelude::*;

verus! {

/// Reads a signed number as a number of a type that holds `min` to `max`:
/// the number itself where the type can hold it, nothing where it cannot.
pub fn from_signed(v: i64, min: i64, max: u64) -> (r: Option<i64>)
    ensures
        r == (if min <= v && v <= max {
            Some(v)
        } else {
            None
        }),
{
    if v < min {
        return None;
    }
    if v >= 0 && (v as u64) > max {
        return None;
    }
    Some(v)
}

/// Reads an unsigned number as a number of a type that holds nothing above
/// `max`: the number itself where the type can hold it, nothing where it cannot.
pub fn from_unsigned(v: u64, max: u64) -> (r: Option<u64>)
    ensures
        r == (if v <= max {
            Some(v)
        } else {
            None
        }),
{
    if v > max {
        None
    } else {
        Some(v)
    }
}

} // verus!
