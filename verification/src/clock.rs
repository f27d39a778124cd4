//! The clock that paces the simulation.

use vstd::prelude::*;
use std::time::{Duration, Instant};

verus! {

/// `std::time::Instant`, carried through as it is: nothing is read from it.
#[verifier::external_type_specification]
#[verifier::external_body]
pub struct ExInstant(std::time::Instant);

/// `std::time::Instant::now`: the time of the call. Nothing is promised of
/// it.
#[verifier::external_body]
pub(crate) fn now() -> (time: Instant) {
    Instant::now()
}

/// `std::time::Instant::elapsed`: the time gone by since `since`. Nothing is
/// promised of it.
#[verifier::external_body]
pub(crate) fn elapsed(since: &Instant) -> (time: Duration) {
    since.elapsed()
}

/// `std::time::Duration::as_nanos`: a time as a number of nanoseconds.
/// Nothing is promised of it.
#[verifier::external_body]
pub(crate) fn as_nanos(time: &Duration) -> (nanos: u128) {
    time.as_nanos()
}

/// The nanoseconds gone by since `since`; the most that an `u64` holds if
/// they are more.
pub(crate) fn nanos_since(since: &Instant) -> (nanos: u64) {
    let time: Duration = elapsed(since);
    hold_nanos(as_nanos(&time))
}

/// A number of nanoseconds held to what an `u64` holds.
pub open spec fn held_nanos(nanos: u128) -> u64 {
    if nanos > u64::MAX {
        u64::MAX
    } else {
        nanos as u64
    }
}

/// A number of nanoseconds as an `u64`: the number itself, and the most
/// that an `u64` holds if it is more.
pub fn hold_nanos(nanos: u128) -> (held: u64)
    ensures
        held == held_nanos(nanos),
{
    if nanos > 0xffff_ffff_ffff_ffff {
        0xffff_ffff_ffff_ffff
    } else {
        nanos as u64
    }
}

} // verus!
