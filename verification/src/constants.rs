use vstd::prelude::*;

verus! {

/// Seconds between two renewals of the documents a guard holds.
pub const MUTEX_ALIVE_INTERVAL: u64 = 2 * 60;

/// Seconds a claimed or renewed mutex stays valid: the renewal interval plus ten seconds.
pub const MUTEX_EXPIRATION: u64 = MUTEX_ALIVE_INTERVAL + 10;

/// Lower bound, in milliseconds, of the pause between two attempts to lock a document.
pub const MUTEX_ACQUIRE_MIN_INTERVAL: u64 = 100;

/// Upper bound (exclusive), in milliseconds, of the pause between two attempts to lock a document.
pub const MUTEX_ACQUIRE_MAX_INTERVAL: u64 = 150;

} // verus!
