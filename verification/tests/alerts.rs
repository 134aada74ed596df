use crabtrack::alerts::all_passes_bounded;
use crabtrack::alerts::compute_alerts;
use crabtrack::config::AlertsConfig;
use crabtrack::pass_prediction::SatellitePass;
use crabtrack::satellite::Satellite;

const LINE1: &str = "1 25544U 98067A   24001.50000000  .00000000  00000-0  00000-0 0    05";
const LINE2: &str = "2 25544  51.6400 297.8590 0001218  88.9267 338.1310 15.49000000    08";

const NOW_MS: i64 = 1_704_067_200_000;

fn pass_at(aos_offset_ms: i64, max_elevation_mdeg: i64) -> SatellitePass {
    let aos = NOW_MS + aos_offset_ms;
    SatellitePass {
        aos_time_ms: aos,
        los_time_ms: aos + 600_000,
        max_elevation_mdeg,
        max_elevation_time_ms: aos + 300_000,
        aos_azimuth_mdeg: 10_000,
        max_azimuth_mdeg: 20_000,
        los_azimuth_mdeg: 30_000,
        duration_seconds: 600,
        max_range_m: 1_200_000,
    }
}

fn satellite_with_passes(passes: Vec<SatellitePass>) -> Satellite {
    let mut sat = Satellite::from_tle("ISS (ZARYA)", LINE1.as_bytes(), LINE2.as_bytes()).unwrap();
    sat.passes = passes;
    sat
}

fn alert_config() -> AlertsConfig {
    AlertsConfig {
        enabled: true,
        alert_before_pass: 10,
        min_elevation_for_alert_mdeg: 20_000,
        play_sound: false,
    }
}

#[test]
fn test_alert_within_lead_time() {
    // A 40° pass eight minutes out, with a ten-minute lead: one alert.
    let sats = vec![satellite_with_passes(vec![pass_at(8 * 60_000, 40_000)])];
    let alerts = compute_alerts(&sats, NOW_MS, &alert_config());
    assert_eq!(alerts.len(), 1);
    assert_eq!(alerts[0].satellite_name, "ISS (ZARYA)");
    assert_eq!(alerts[0].time_until_minutes, 8);
    assert_eq!(alerts[0].pass.max_elevation_mdeg, 40_000);
}

#[test]
fn test_no_alert_beyond_lead_time() {
    // The same pass fifteen minutes out: outside the lead time, no alert.
    let sats = vec![satellite_with_passes(vec![pass_at(15 * 60_000, 40_000)])];
    let alerts = compute_alerts(&sats, NOW_MS, &alert_config());
    assert!(alerts.is_empty());
}

#[test]
fn test_alert_exactly_at_lead_time() {
    // Ten minutes out with a ten-minute lead: still alerted.
    let sats = vec![satellite_with_passes(vec![pass_at(10 * 60_000, 40_000)])];
    let alerts = compute_alerts(&sats, NOW_MS, &alert_config());
    assert_eq!(alerts.len(), 1);
    assert_eq!(alerts[0].time_until_minutes, 10);
}

#[test]
fn test_no_alert_below_elevation_threshold() {
    let sats = vec![satellite_with_passes(vec![pass_at(8 * 60_000, 15_000)])];
    let alerts = compute_alerts(&sats, NOW_MS, &alert_config());
    assert!(alerts.is_empty());
}

#[test]
fn test_no_alert_for_started_pass() {
    // A pass already in progress is not a future pass.
    let sats = vec![satellite_with_passes(vec![pass_at(-60_000, 40_000)])];
    let alerts = compute_alerts(&sats, NOW_MS, &alert_config());
    assert!(alerts.is_empty());
}

#[test]
fn test_alerts_disabled() {
    let sats = vec![satellite_with_passes(vec![pass_at(8 * 60_000, 40_000)])];
    let mut cfg = alert_config();
    cfg.enabled = false;
    assert!(compute_alerts(&sats, NOW_MS, &cfg).is_empty());
}

#[test]
fn test_only_next_pass_considered() {
    // The nearest future pass is too low: no alert, even though a later,
    // higher pass would qualify on its own.
    let sats = vec![satellite_with_passes(vec![
        pass_at(-30 * 60_000, 80_000),
        pass_at(5 * 60_000, 10_000),
        pass_at(9 * 60_000, 80_000),
    ])];
    let alerts = compute_alerts(&sats, NOW_MS, &alert_config());
    assert!(alerts.is_empty());
}

#[test]
fn test_one_alert_per_object() {
    let sats = vec![
        satellite_with_passes(vec![pass_at(3 * 60_000, 30_000), pass_at(9 * 60_000, 50_000)]),
        satellite_with_passes(vec![pass_at(2 * 60_000, 90_000)]),
    ];
    let alerts = compute_alerts(&sats, NOW_MS, &alert_config());
    assert_eq!(alerts.len(), 2);
    assert_eq!(alerts[0].time_until_minutes, 3);
    assert_eq!(alerts[1].time_until_minutes, 2);
}

#[test]
fn test_all_passes_bounded_checker() {
    let sats = vec![satellite_with_passes(vec![pass_at(8 * 60_000, 40_000)])];
    assert!(all_passes_bounded(&sats));
    let mut wild = pass_at(0, 40_000);
    wild.aos_time_ms = i64::MAX - 1;
    let bad = vec![satellite_with_passes(vec![wild])];
    assert!(!all_passes_bounded(&bad));
}

#[test]
fn test_get_next_pass() {
    let sat = satellite_with_passes(vec![
        pass_at(-30 * 60_000, 80_000),
        pass_at(5 * 60_000, 10_000),
        pass_at(9 * 60_000, 80_000),
    ]);
    let next = sat.get_next_pass(NOW_MS).unwrap();
    assert_eq!(next.aos_time_ms, NOW_MS + 5 * 60_000);
    assert!(sat.get_next_pass(NOW_MS + 10 * 60_000).is_none());
}
