//! The status color the tray icon shows for a usage percentage.

use vstd::prelude::*;

verus! {

/// The color for a usage percentage given in tenths of a percent: red at
/// or above 90%, yellow at or above 70%, green below.
pub open spec fn spec_status_color(percentage_tenths: int) -> Seq<char> {
    if percentage_tenths >= 900 {
        "red"@
    } else if percentage_tenths >= 700 {
        "yellow"@
    } else {
        "green"@
    }
}

/// Picks the tray status color for a usage percentage in tenths of a
/// percent.
pub fn get_tray_status_color(percentage_tenths: i64) -> (r: &'static str)
    ensures
        r@ == spec_status_color(percentage_tenths as int),
{
    if percentage_tenths >= 900 {
        "red"
    } else if percentage_tenths >= 700 {
        "yellow"
    } else {
        "green"
    }
}

} // verus!
