use crabtrack::pass_prediction::LookAngles;
use crabtrack::radio::SignalStrength;
use crabtrack::radio::calculate_doppler_shift;
use crabtrack::radio::evaluate_communication_window;
use crabtrack::satellite::SatellitePosition;

fn position(elevation_mdeg: i64, range_m: i64, velocity_mm_s: i64) -> SatellitePosition {
    SatellitePosition::new(
        String::from("TEST SAT"),
        1_704_067_200_000,
        10_000_000,
        20_000_000,
        420_000,
        velocity_mm_s,
        LookAngles::new(120_000, elevation_mdeg, range_m),
    )
}

#[test]
fn test_excellent_link() {
    // Elevation 50°, range 1500 km: excellent, viable, FM/SSB recommended.
    let pos = position(50_000, 1_500_000, 7_000_000);
    assert!(pos.is_visible);
    let win = evaluate_communication_window(&pos);
    assert_eq!(win.signal_strength_estimate, SignalStrength::Excellent);
    assert!(win.is_viable);
    assert_eq!(win.recommended_mode.as_deref(), Some("FM/SSB"));
    assert_eq!(win.signal_strength_estimate.as_str(), "Excellent");
}

#[test]
fn test_below_horizon_never_viable() {
    // Elevation -5°: not visible, no signal, whatever the range.
    for range_m in [100_000, 1_500_000, 900_000_000] {
        let pos = position(-5_000, range_m, 7_000_000);
        assert!(!pos.is_visible);
        let win = evaluate_communication_window(&pos);
        assert!(!win.is_viable);
        assert_eq!(win.signal_strength_estimate, SignalStrength::NoSignal);
        assert_eq!(win.recommended_mode, None);
        assert_eq!(win.reason, "Satellite below horizon");
    }
}

#[test]
fn test_classification_table() {
    let cases = [
        (45_000, 1_999_999, SignalStrength::Excellent),
        (45_000, 2_000_000, SignalStrength::Good),
        (44_999, 1_500_000, SignalStrength::Good),
        (30_000, 2_499_999, SignalStrength::Good),
        (30_000, 2_500_000, SignalStrength::Fair),
        (15_000, 2_999_999, SignalStrength::Fair),
        (15_000, 3_000_000, SignalStrength::Poor),
        (5_000, 9_000_000, SignalStrength::Poor),
        (4_999, 1_000_000, SignalStrength::NoSignal),
    ];
    for (elevation, range, expected) in cases {
        let win = evaluate_communication_window(&position(elevation, range, 7_000_000));
        assert_eq!(win.signal_strength_estimate, expected, "el {} range {}", elevation, range);
    }
}

#[test]
fn test_viability_needs_ten_degrees() {
    // Poor signal at 9.999°: graded, but not viable and no mode recommended.
    let win = evaluate_communication_window(&position(9_999, 2_800_000, 7_000_000));
    assert_eq!(win.signal_strength_estimate, SignalStrength::Poor);
    assert!(!win.is_viable);
    assert_eq!(win.recommended_mode, None);
    assert_eq!(win.reason, "Elevation too low for reliable contact");

    let win = evaluate_communication_window(&position(10_000, 2_800_000, 7_000_000));
    assert_eq!(win.signal_strength_estimate, SignalStrength::Poor);
    assert!(win.is_viable);
    assert_eq!(win.recommended_mode.as_deref(), Some("SSB (difficult)"));

    let win = evaluate_communication_window(&position(20_000, 2_800_000, 7_000_000));
    assert_eq!(win.recommended_mode.as_deref(), Some("SSB"));
}

#[test]
fn test_doppler_shift_exact() {
    // 7 km/s at 60° elevation: cos = 0.5, radial velocity 3.5 km/s receding.
    let pos = position(60_000, 1_200_000, 7_000_000);
    let d = calculate_doppler_shift(&pos, 500_000_000, 437_000_000, 145_000_000);
    assert_eq!(d.downlink_hz, 437_000_000);
    assert_eq!(d.downlink_shift_hz, -5_101);
    assert_eq!(d.downlink_observed_hz, 437_000_000 - 5_101);
    assert_eq!(d.uplink_hz, 145_000_000);
    assert_eq!(d.uplink_shift_hz, 1_692);
    assert_eq!(d.uplink_corrected_hz, 145_000_000 + 1_692);
}

#[test]
fn test_doppler_zero_below_horizon() {
    let pos = position(-5_000, 1_200_000, 7_000_000);
    let d = calculate_doppler_shift(&pos, 996_194_698, 437_000_000, 145_000_000);
    assert_eq!(d.downlink_shift_hz, 0);
    assert_eq!(d.downlink_observed_hz, 437_000_000);
    assert_eq!(d.uplink_shift_hz, 0);
    assert_eq!(d.uplink_corrected_hz, 145_000_000);
}

#[test]
fn test_signal_strength_names() {
    assert_eq!(SignalStrength::Excellent.as_str(), "Excellent");
    assert_eq!(SignalStrength::Good.as_str(), "Good");
    assert_eq!(SignalStrength::Fair.as_str(), "Fair");
    assert_eq!(SignalStrength::Poor.as_str(), "Poor");
    assert_eq!(SignalStrength::NoSignal.as_str(), "No Signal");
}
