//! Angle units and normalization.
//!
//! Angles are carried as `i64` millidegrees. An azimuth is well formed when it
//! lies in `[0, 360000)`; `normalize_azimuth_mdeg` brings any raw angle into
//! that range, congruent to the input modulo one full turn.

use vstd::prelude::*;

verus! {

/// An azimuth in millidegrees lies in `[0, 360°)`.
pub open spec fn azimuth_wf(az_mdeg: i64) -> bool {
    0 <= az_mdeg < 360_000
}

/// Normalize a raw azimuth (for example the output of a four-quadrant
/// arctangent, in `(-180°, 180°]`) into `[0°, 360°)`.
///
/// Every azimuth the library emits passes through this function, so all of
/// them lie in `[0, 360°)`.
pub fn normalize_azimuth_mdeg(az_mdeg: i64) -> (r: i64)
    requires
        -36_000_000 <= az_mdeg <= 36_000_000,
    ensures
        azimuth_wf(r),
        (r - az_mdeg) % 360_000int == 0,
{
    let rem: i64 = az_mdeg % 360_000;
    if rem < 0 {
        rem + 360_000
    } else {
        rem
    }
}

/// Compass direction of a normalized azimuth, over eight sectors of 45°
/// centered on the cardinal and intercardinal directions.
pub fn azimuth_to_cardinal(azimuth_mdeg: i64) -> (r: &'static str)
    requires
        azimuth_wf(azimuth_mdeg),
    ensures
        (337_500 <= azimuth_mdeg || azimuth_mdeg < 22_500) ==> r@ == "N"@,
        (22_500 <= azimuth_mdeg < 67_500) ==> r@ == "NE"@,
        (67_500 <= azimuth_mdeg < 112_500) ==> r@ == "E"@,
        (112_500 <= azimuth_mdeg < 157_500) ==> r@ == "SE"@,
        (157_500 <= azimuth_mdeg < 202_500) ==> r@ == "S"@,
        (202_500 <= azimuth_mdeg < 247_500) ==> r@ == "SW"@,
        (247_500 <= azimuth_mdeg < 292_500) ==> r@ == "W"@,
        (292_500 <= azimuth_mdeg < 337_500) ==> r@ == "NW"@,
{
    if azimuth_mdeg >= 337_500 || azimuth_mdeg < 22_500 {
        "N"
    } else if azimuth_mdeg < 67_500 {
        "NE"
    } else if azimuth_mdeg < 112_500 {
        "E"
    } else if azimuth_mdeg < 157_500 {
        "SE"
    } else if azimuth_mdeg < 202_500 {
        "S"
    } else if azimuth_mdeg < 247_500 {
        "SW"
    } else if azimuth_mdeg < 292_500 {
        "W"
    } else {
        "NW"
    }
}

} // verus!
