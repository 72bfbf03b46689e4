//! The two readings of the wall clock that notification checks need.
//! Both depend on the machine's clock and time zone, so their contracts
//! state only what holds of every reading.

use vstd::prelude::*;

use chrono::Timelike;

verus! {

/// Relies on `chrono::Local::now` and `chrono::Timelike::hour`: the hour
/// of a time of day is always in `0..24`.
#[verifier::external_body]
pub(crate) fn local_hour() -> (h: u32)
    ensures
        h < 24,
{
    chrono::Local::now().hour()
}

/// Relies on `chrono::Utc::now` and `chrono::DateTime::timestamp`: the
/// current time as seconds since the epoch. Nothing can be promised of a
/// clock reading; `chrono::Utc::now` itself panics on a system clock set
/// before the epoch, an environment fault no precondition can exclude.
#[verifier::external_body]
pub(crate) fn now_timestamp() -> (t: i64) {
    chrono::Utc::now().timestamp()
}

} // verus!
