//! Doppler shift and link-viability heuristics.
//!
//! Frequencies are hertz, speeds millimeters per second. The radial-velocity
//! approximation `speed * cos(elevation)` is deliberately coarse — it ignores
//! the true line-of-sight velocity projection — and is kept as the documented
//! heuristic rather than corrected. The cosine of the elevation is handed in
//! by the caller (scaled by 1e9), since trigonometry lives outside the
//! library.

use vstd::prelude::*;

use crate::satellite::SatellitePosition;

verus! {

/// Speed of light, millimeters per second.
pub const SPEED_OF_LIGHT_MM_S: i64 = 299_792_458_000;

/// Scale of a cosine handed to `calculate_doppler_shift`: 1.0 is 1e9.
pub const COS_SCALE: i64 = 1_000_000_000;

/// Qualitative signal estimate for a link at given look angles.
#[derive(Clone, Copy, Debug, PartialEq, Eq, Structural)]
pub enum SignalStrength {
    Excellent,
    Good,
    Fair,
    Poor,
    NoSignal,
}

impl SignalStrength {
    /// Display name of the estimate.
    pub fn as_str(&self) -> (r: &str)
        ensures
            self is Excellent ==> r@ == "Excellent"@,
            self is Good ==> r@ == "Good"@,
            self is Fair ==> r@ == "Fair"@,
            self is Poor ==> r@ == "Poor"@,
            self is NoSignal ==> r@ == "No Signal"@,
    {
        match self {
            SignalStrength::Excellent => "Excellent",
            SignalStrength::Good => "Good",
            SignalStrength::Fair => "Fair",
            SignalStrength::Poor => "Poor",
            SignalStrength::NoSignal => "No Signal",
        }
    }
}

/// The classification table: elevation (millidegrees) and range (meters)
/// grade the link from `Excellent` down to `NoSignal`.
pub open spec fn spec_signal_strength(elevation_mdeg: int, range_m: int) -> SignalStrength {
    if elevation_mdeg >= 45_000 && range_m < 2_000_000 {
        SignalStrength::Excellent
    } else if elevation_mdeg >= 30_000 && range_m < 2_500_000 {
        SignalStrength::Good
    } else if elevation_mdeg >= 15_000 && range_m < 3_000_000 {
        SignalStrength::Fair
    } else if elevation_mdeg >= 5_000 {
        SignalStrength::Poor
    } else {
        SignalStrength::NoSignal
    }
}

/// Doppler-shifted frequencies for one instant.
#[derive(Clone, Copy, Debug, PartialEq, Eq, Structural)]
pub struct DopplerShift {
    /// Nominal downlink frequency, hertz.
    pub downlink_hz: i64,
    /// Shift the receiver sees on the downlink, hertz.
    pub downlink_shift_hz: i64,
    /// Downlink frequency as observed on the ground, hertz.
    pub downlink_observed_hz: i64,
    /// Nominal uplink frequency, hertz.
    pub uplink_hz: i64,
    /// Pre-compensation to apply on the uplink, hertz.
    pub uplink_shift_hz: i64,
    /// Uplink frequency to actually transmit, hertz.
    pub uplink_corrected_hz: i64,
}

/// Assessment of whether contact is worth attempting right now.
#[derive(Clone, Debug)]
pub struct CommunicationWindow {
    pub is_viable: bool,
    pub reason: String,
    pub signal_strength_estimate: SignalStrength,
    pub recommended_mode: Option<String>,
}

/// The radial-velocity heuristic: `speed * cos(elevation)` above the horizon,
/// zero below it. Positive means receding.
pub open spec fn spec_radial_velocity_mm_s(
    elevation_mdeg: int,
    velocity_mm_s: int,
    cos_elevation_e9: int,
) -> int {
    if elevation_mdeg > 0 {
        (velocity_mm_s * cos_elevation_e9) / 1_000_000_000
    } else {
        0
    }
}

/// Doppler shift of the down- and uplink at one instant.
///
/// `cos_elevation_e9` is the cosine of the position's elevation angle, scaled
/// by 1e9 and computed by the caller. A receding object (positive radial
/// velocity) lowers the observed downlink frequency; the uplink is
/// pre-compensated in the opposite direction.
pub fn calculate_doppler_shift(
    position: &SatellitePosition,
    cos_elevation_e9: i64,
    downlink_hz: i64,
    uplink_hz: i64,
) -> (d: DopplerShift)
    requires
        0 <= position.velocity_mm_s <= 100_000_000,
        0 <= cos_elevation_e9 <= COS_SCALE,
        0 <= downlink_hz <= 50_000_000_000,
        0 <= uplink_hz <= 50_000_000_000,
    ensures
        d.downlink_hz == downlink_hz,
        d.uplink_hz == uplink_hz,
        d.downlink_shift_hz == -(spec_radial_velocity_mm_s(
            position.elevation_mdeg as int,
            position.velocity_mm_s as int,
            cos_elevation_e9 as int,
        ) * downlink_hz / (SPEED_OF_LIGHT_MM_S as int)),
        d.downlink_observed_hz == downlink_hz + d.downlink_shift_hz,
        d.uplink_shift_hz == spec_radial_velocity_mm_s(
            position.elevation_mdeg as int,
            position.velocity_mm_s as int,
            cos_elevation_e9 as int,
        ) * uplink_hz / (SPEED_OF_LIGHT_MM_S as int),
        d.uplink_corrected_hz == uplink_hz + d.uplink_shift_hz,
{
    proof {
        assert(0 <= position.velocity_mm_s * cos_elevation_e9 <= 100_000_000_000_000_000)
            by (nonlinear_arith)
            requires
                0 <= position.velocity_mm_s <= 100_000_000,
                0 <= cos_elevation_e9 <= 1_000_000_000;
    }
    let radial_mm_s: i64 = if position.elevation_mdeg > 0 {
        (position.velocity_mm_s * cos_elevation_e9) / COS_SCALE
    } else {
        0
    };
    proof {
        assert(0 <= radial_mm_s * downlink_hz <= 5_000_000_000_000_000_000) by (nonlinear_arith)
            requires
                0 <= radial_mm_s <= 100_000_000,
                0 <= downlink_hz <= 50_000_000_000;
        assert(0 <= radial_mm_s * uplink_hz <= 5_000_000_000_000_000_000) by (nonlinear_arith)
            requires
                0 <= radial_mm_s <= 100_000_000,
                0 <= uplink_hz <= 50_000_000_000;
    }
    let downlink_shift_hz: i64 = -((radial_mm_s * downlink_hz) / SPEED_OF_LIGHT_MM_S);
    let uplink_shift_hz: i64 = (radial_mm_s * uplink_hz) / SPEED_OF_LIGHT_MM_S;
    DopplerShift {
        downlink_hz,
        downlink_shift_hz,
        downlink_observed_hz: downlink_hz + downlink_shift_hz,
        uplink_hz,
        uplink_shift_hz,
        uplink_corrected_hz: uplink_hz + uplink_shift_hz,
    }
}

/// Grade the link at a position and decide whether contact is viable.
///
/// A position below the horizon short-circuits to a non-viable `NoSignal`
/// window whatever the range; otherwise the classification table grades the
/// link, contact is viable from 10° up with any signal, and a mode is
/// recommended down to 10°.
pub fn evaluate_communication_window(position: &SatellitePosition) -> (w: CommunicationWindow)
    ensures
        !position.is_visible ==> {
            &&& !w.is_viable
            &&& w.signal_strength_estimate == SignalStrength::NoSignal
            &&& w.recommended_mode is None
            &&& w.reason@ == "Satellite below horizon"@
        },
        position.is_visible ==> {
            &&& w.signal_strength_estimate == spec_signal_strength(
                position.elevation_mdeg as int,
                position.range_m as int,
            )
            &&& w.is_viable == (position.elevation_mdeg >= 10_000
                && spec_signal_strength(position.elevation_mdeg as int, position.range_m as int)
                != SignalStrength::NoSignal)
            &&& position.elevation_mdeg >= 30_000 ==> (w.recommended_mode matches Some(m)
                && m@ == "FM/SSB"@)
            &&& (15_000 <= position.elevation_mdeg < 30_000) ==> (w.recommended_mode matches Some(
                m,
            ) && m@ == "SSB"@)
            &&& (10_000 <= position.elevation_mdeg < 15_000) ==> (w.recommended_mode matches Some(
                m,
            ) && m@ == "SSB (difficult)"@)
            &&& position.elevation_mdeg < 10_000 ==> w.recommended_mode is None
            &&& w.is_viable ==> w.reason@ == "Good pass"@
            &&& !w.is_viable ==> w.reason@ == "Elevation too low for reliable contact"@
        },
{
    if !position.is_visible {
        return CommunicationWindow {
            is_viable: false,
            reason: "Satellite below horizon".to_owned(),
            signal_strength_estimate: SignalStrength::NoSignal,
            recommended_mode: None,
        };
    }
    let elevation_mdeg: i64 = position.elevation_mdeg;
    let range_m: i64 = position.range_m;
    let signal_strength: SignalStrength = if elevation_mdeg >= 45_000 && range_m < 2_000_000 {
        SignalStrength::Excellent
    } else if elevation_mdeg >= 30_000 && range_m < 2_500_000 {
        SignalStrength::Good
    } else if elevation_mdeg >= 15_000 && range_m < 3_000_000 {
        SignalStrength::Fair
    } else if elevation_mdeg >= 5_000 {
        SignalStrength::Poor
    } else {
        SignalStrength::NoSignal
    };
    let is_viable: bool = elevation_mdeg >= 10_000 && !(signal_strength
        == SignalStrength::NoSignal);
    let recommended_mode: Option<String> = if elevation_mdeg >= 30_000 {
        Some("FM/SSB".to_owned())
    } else if elevation_mdeg >= 15_000 {
        Some("SSB".to_owned())
    } else if elevation_mdeg >= 10_000 {
        Some("SSB (difficult)".to_owned())
    } else {
        None
    };
    let reason: String = if is_viable {
        "Good pass".to_owned()
    } else {
        "Elevation too low for reliable contact".to_owned()
    };
    CommunicationWindow { is_viable, reason, signal_strength_estimate: signal_strength, recommended_mode }
}

} // verus!
