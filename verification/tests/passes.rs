use crabtrack::angles::azimuth_to_cardinal;
use crabtrack::angles::normalize_azimuth_mdeg;
use crabtrack::controls::ConfigField;
use crabtrack::controls::decimal_string;
use crabtrack::controls::truncate_string;
use crabtrack::pass_prediction::LookAngles;
use crabtrack::config::PredictionConfig;
use crabtrack::pass_prediction::Sample;
use crabtrack::pass_prediction::predict_passes;
use crabtrack::pass_prediction::sample_times;
use crabtrack::pass_prediction::samples_well_formed;

fn sample(time_s: i64, elevation_mdeg: i64, azimuth_mdeg: i64, range_m: i64) -> Sample {
    Sample::new(
        time_s * 1000,
        LookAngles::new(azimuth_mdeg, elevation_mdeg, range_m),
    )
}

fn config(num_passes: usize, min_elevation_mdeg: i64) -> PredictionConfig {
    PredictionConfig {
        num_passes,
        min_elevation_mdeg,
        search_days: 1,
        time_step_s: 60,
    }
}

#[test]
fn test_single_pass_detection() {
    let samples = vec![
        sample(0, -5_000, 5_000, 2_500_000),
        sample(60, 15_000, 10_000, 1_800_000),
        sample(120, 40_000, 20_000, 900_000),
        sample(180, 12_000, 30_000, 1_900_000),
        sample(240, -2_000, 40_000, 2_600_000),
    ];
    let passes = predict_passes(0, 0, &samples, &config(10, 10_000)).unwrap();
    assert_eq!(passes.len(), 1);
    let p = passes[0];
    assert_eq!(p.aos_time_ms, 60_000);
    assert_eq!(p.los_time_ms, 240_000);
    assert_eq!(p.max_elevation_mdeg, 40_000);
    assert_eq!(p.max_elevation_time_ms, 120_000);
    assert_eq!(p.aos_azimuth_mdeg, 10_000);
    assert_eq!(p.max_azimuth_mdeg, 20_000);
    assert_eq!(p.los_azimuth_mdeg, 40_000);
    assert_eq!(p.duration_seconds, 180);
    assert_eq!(p.max_range_m, 900_000);
    assert_eq!(p.duration_minutes(), 3);
    // The pass is well formed: AOS <= peak < LOS, peak above the threshold.
    assert!(p.aos_time_ms <= p.max_elevation_time_ms);
    assert!(p.max_elevation_time_ms < p.los_time_ms);
    assert!(p.max_elevation_mdeg >= 10_000);
    assert_eq!(p.duration_seconds, (p.los_time_ms - p.aos_time_ms) / 1000);
}

#[test]
fn test_peak_at_first_sample() {
    // A pass whose first sample is its highest: the peak coincides with AOS.
    let samples = vec![
        sample(0, -5_000, 5_000, 2_500_000),
        sample(60, 35_000, 10_000, 900_000),
        sample(120, 20_000, 20_000, 1_500_000),
        sample(180, -2_000, 30_000, 2_600_000),
    ];
    let passes = predict_passes(0, 0, &samples, &config(10, 10_000)).unwrap();
    assert_eq!(passes.len(), 1);
    assert_eq!(passes[0].aos_time_ms, 60_000);
    assert_eq!(passes[0].max_elevation_time_ms, 60_000);
    assert_eq!(passes[0].max_elevation_mdeg, 35_000);
    assert_eq!(passes[0].aos_azimuth_mdeg, passes[0].max_azimuth_mdeg);
}

#[test]
fn test_no_qualifying_samples_is_empty_not_error() {
    let samples = vec![
        sample(0, -5_000, 5_000, 2_500_000),
        sample(60, 2_000, 10_000, 2_200_000),
        sample(120, 9_999, 20_000, 2_000_000),
    ];
    let passes = predict_passes(0, 0, &samples, &config(10, 10_000)).unwrap();
    assert!(passes.is_empty());
}

#[test]
fn test_pass_count_cap() {
    let samples = vec![
        sample(0, 20_000, 10_000, 1_000_000),
        sample(60, -1_000, 20_000, 2_000_000),
        sample(120, 25_000, 30_000, 1_100_000),
        sample(180, -1_000, 40_000, 2_100_000),
    ];
    let all = predict_passes(0, 0, &samples, &config(10, 10_000)).unwrap();
    assert_eq!(all.len(), 2);
    let capped = predict_passes(0, 0, &samples, &config(1, 10_000)).unwrap();
    assert_eq!(capped.len(), 1);
    assert_eq!(capped[0], all[0]);
}

#[test]
fn test_unfinished_pass_is_dropped() {
    let samples = vec![
        sample(0, -5_000, 5_000, 2_500_000),
        sample(60, 15_000, 10_000, 1_800_000),
        sample(120, 30_000, 20_000, 1_000_000),
    ];
    let passes = predict_passes(0, 0, &samples, &config(10, 10_000)).unwrap();
    assert!(passes.is_empty());
}

#[test]
fn test_elevation_exactly_at_threshold_counts() {
    // A sample exactly at the threshold is inside the pass.
    let samples = vec![
        sample(0, -5_000, 5_000, 2_500_000),
        sample(60, 10_000, 10_000, 1_800_000),
        sample(120, -1_000, 20_000, 2_400_000),
    ];
    let passes = predict_passes(0, 0, &samples, &config(10, 10_000)).unwrap();
    assert_eq!(passes.len(), 1);
    assert_eq!(passes[0].aos_time_ms, 60_000);
    assert_eq!(passes[0].max_elevation_mdeg, 10_000);
}

#[test]
fn test_durations_are_step_multiples() {
    // Samples on a fixed 60 s schedule: every emitted duration is a positive
    // multiple of the step.
    let samples = vec![
        sample(0, -5_000, 5_000, 2_500_000),
        sample(60, 15_000, 10_000, 1_800_000),
        sample(120, 40_000, 20_000, 900_000),
        sample(180, -2_000, 30_000, 2_600_000),
        sample(240, 11_000, 40_000, 2_000_000),
        sample(300, -3_000, 50_000, 2_700_000),
    ];
    let passes = predict_passes(0, 0, &samples, &config(10, 10_000)).unwrap();
    assert_eq!(passes.len(), 2);
    for p in &passes {
        assert!(p.duration_seconds >= 60);
        assert_eq!(p.duration_seconds % 60, 0);
    }
    assert_eq!(passes[0].duration_seconds, 120);
    assert_eq!(passes[1].duration_seconds, 60);
}

#[test]
fn test_determinism() {
    let samples = vec![
        sample(0, -5_000, 5_000, 2_500_000),
        sample(60, 15_000, 10_000, 1_800_000),
        sample(120, -3_000, 30_000, 2_400_000),
    ];
    let first = predict_passes(0, 0, &samples, &config(10, 10_000)).unwrap();
    let second = predict_passes(0, 0, &samples, &config(10, 10_000)).unwrap();
    assert_eq!(first, second);
}

#[test]
fn test_sample_times_schedule() {
    let times = sample_times(0, 1, 60);
    assert_eq!(times.len(), 1440);
    assert_eq!(times[0], 0);
    assert_eq!(times[1], 60_000);
    assert_eq!(times[1439], 86_340_000);
    assert!(times.iter().all(|t| *t < 86_400_000));

    // A step that does not divide the window still covers it.
    let coarse = sample_times(0, 1, 86_399);
    assert_eq!(coarse.len(), 2);
}

#[test]
fn test_samples_well_formed_checker() {
    let good = vec![
        sample(0, -5_000, 5_000, 2_500_000),
        sample(60, 15_000, 10_000, 1_800_000),
    ];
    assert!(samples_well_formed(&good));

    // Out-of-order instants are rejected.
    let unordered = vec![
        sample(60, 15_000, 10_000, 1_800_000),
        sample(0, -5_000, 5_000, 2_500_000),
    ];
    assert!(!samples_well_formed(&unordered));

    // A raw, unnormalized azimuth is rejected.
    let raw = vec![Sample {
        time_ms: 0,
        angles: LookAngles {
            azimuth_mdeg: -90_000,
            elevation_mdeg: 10_000,
            range_m: 1_000_000,
        },
    }];
    assert!(!samples_well_formed(&raw));
}

#[test]
fn test_azimuth_normalization() {
    assert_eq!(normalize_azimuth_mdeg(0), 0);
    assert_eq!(normalize_azimuth_mdeg(-90_000), 270_000);
    assert_eq!(normalize_azimuth_mdeg(725_000), 5_000);
    assert_eq!(normalize_azimuth_mdeg(360_000), 0);
    let angles = LookAngles::new(-90_000, 10_000, 1_000_000);
    assert_eq!(angles.azimuth_mdeg, 270_000);
    // Every azimuth the library emits lies in [0, 360°).
    for raw in [-360_000, -180_001, -1, 0, 1, 359_999, 360_000, 719_999] {
        let az = normalize_azimuth_mdeg(raw);
        assert!((0..360_000).contains(&az), "raw {}", raw);
    }
}

#[test]
fn test_azimuth_to_cardinal_sectors() {
    assert_eq!(azimuth_to_cardinal(0), "N");
    assert_eq!(azimuth_to_cardinal(22_499), "N");
    assert_eq!(azimuth_to_cardinal(22_500), "NE");
    assert_eq!(azimuth_to_cardinal(90_000), "E");
    assert_eq!(azimuth_to_cardinal(135_000), "SE");
    assert_eq!(azimuth_to_cardinal(180_000), "S");
    assert_eq!(azimuth_to_cardinal(225_000), "SW");
    assert_eq!(azimuth_to_cardinal(270_000), "W");
    assert_eq!(azimuth_to_cardinal(292_500), "NW");
    assert_eq!(azimuth_to_cardinal(337_499), "NW");
    assert_eq!(azimuth_to_cardinal(337_500), "N");
}

#[test]
fn test_truncate_string() {
    assert_eq!(truncate_string("hello", 10), "hello");
    assert_eq!(truncate_string("hello", 5), "hello");
    assert_eq!(truncate_string("hello world", 8), "hello...");
    assert_eq!(truncate_string("hello", 2), "...");
}

#[test]
fn test_decimal_rendering() {
    assert_eq!(decimal_string(0), "0");
    assert_eq!(decimal_string(7), "7");
    assert_eq!(decimal_string(10), "10");
    assert_eq!(decimal_string(90), "90");
    assert_eq!(decimal_string(1_704_067_200_000), "1704067200000");
}

#[test]
fn test_config_field_cycle() {
    let mut field = ConfigField::Name;
    for _ in 0..11 {
        field = field.next();
    }
    assert_eq!(field, ConfigField::Name);
    assert_eq!(ConfigField::Name.next(), ConfigField::TleLine1);
    assert_eq!(ConfigField::Name.prev(), ConfigField::Notes);
    assert_eq!(ConfigField::Notes.next().prev(), ConfigField::Notes);
    assert_eq!(ConfigField::DownlinkFrequency.label(), "Downlink (MHz)");
}
