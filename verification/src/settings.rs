//! Decisions on settings rows and day-window cutoffs.

use vstd::prelude::*;

use crate::notifier::spec_clamp_i64;
use crate::parse::parse_u64;
use crate::parse::spec_parse_u64;
use crate::providers::str_eq_str;

verus! {

/// What storing a settings row means for the scheduler: a new interval
/// exactly when the key is `refresh_interval_seconds` and the value is a
/// whole number of seconds.
pub open spec fn spec_refresh_interval_update(key: Seq<char>, value: Seq<char>) -> Option<u64> {
    if key == "refresh_interval_seconds"@ {
        spec_parse_u64(value)
    } else {
        None
    }
}

/// Decides whether a stored settings row reconfigures the scheduler:
/// `Some(seconds)` exactly when the key is `refresh_interval_seconds`
/// and the value parses as a whole number.
pub fn refresh_interval_update(key: &str, value: &str) -> (r: Option<u64>)
    ensures
        r == spec_refresh_interval_update(key@, value@),
{
    if str_eq_str(key, "refresh_interval_seconds") {
        parse_u64(value)
    } else {
        None
    }
}

/// The timestamp a day window reaches back to: `now` minus the days in
/// seconds, clamped into the timestamp range.
pub open spec fn spec_cutoff_timestamp(now: i64, days: i64) -> int {
    spec_clamp_i64(now as int - days as int * 86400)
}

/// Computes how far back a window of whole days reaches from `now`:
/// queries return rows at or after this cutoff, and retention cleanup
/// deletes rows before it.
pub fn cutoff_timestamp(now: i64, days: i64) -> (r: i64)
    ensures
        r as int == spec_cutoff_timestamp(now, days),
{
    let wide: i128 = (now as i128) - (days as i128) * 86400;
    if wide > i64::MAX as i128 {
        i64::MAX
    } else if wide < i64::MIN as i128 {
        i64::MIN
    } else {
        wide as i64
    }
}

} // verus!
