use chrono::TimeZone;
use chrono::Utc;
use crabtrack::config::PredictionConfig;
use crabtrack::pass_prediction::epoch_age_days;
use crabtrack::pass_prediction::predict_passes;
use crabtrack::time::EpochResolution;
use crabtrack::time::days_before_year;
use crabtrack::time::parse_tle_epoch;
use crabtrack::time::resolve_epoch_nearest;
use crabtrack::time::time_since_epoch_ms;
use crabtrack::time::year_start_ms;

const LINE1_2024: &str = "1 25544U 98067A   24001.50000000  .00000000  00000-0  00000-0 0    09";
const LINE1_1957: &str = "1 25544U 98067A   57001.50000000  .00000000  00000-0  00000-0 0    09";
const LINE1_2056: &str = "1 25544U 98067A   56364.00000000  .00000000  00000-0  00000-0 0    09";

#[test]
fn test_pivot_year_2000s() {
    let epoch = parse_tle_epoch(LINE1_2024.as_bytes()).unwrap();
    assert_eq!(epoch.year, 2024);
    assert_eq!(epoch.day, 1);
    assert_eq!(epoch.frac_e8, 50_000_000);
    // 2024-01-01T12:00:00Z
    assert_eq!(epoch.unix_ms, 1_704_067_200_000 + 43_200_000);
}

#[test]
fn test_pivot_year_1900s() {
    let epoch = parse_tle_epoch(LINE1_1957.as_bytes()).unwrap();
    assert_eq!(epoch.year, 1957);
}

#[test]
fn test_pivot_year_boundary() {
    let epoch = parse_tle_epoch(LINE1_2056.as_bytes()).unwrap();
    assert_eq!(epoch.year, 2056);
    assert_eq!(epoch.day, 364);
}

#[test]
fn test_epoch_day_one_is_year_start() {
    // Day-of-year 1.0 decodes to the year's first instant exactly.
    let line = "1 25544U 98067A   24001.00000000  .00000000  00000-0  00000-0 0    09";
    let epoch = parse_tle_epoch(line.as_bytes()).unwrap();
    assert_eq!(epoch.unix_ms, 1_704_067_200_000); // 2024-01-01T00:00:00Z
    assert_eq!(epoch.unix_ms, year_start_ms(2024));

    let line2000 = "1 25544U 98067A   00001.00000000  .00000000  00000-0  00000-0 0    09";
    let epoch2000 = parse_tle_epoch(line2000.as_bytes()).unwrap();
    assert_eq!(epoch2000.unix_ms, 946_684_800_000); // 2000-01-01T00:00:00Z
}

#[test]
fn test_malformed_epoch_field() {
    assert!(parse_tle_epoch("1 25544U".as_bytes()).is_err());
    let bad = "1 25544U 98067A   24A01.50000000  .00000000  00000-0  00000-0 0    09";
    assert!(parse_tle_epoch(bad.as_bytes()).is_err());
}

#[test]
fn test_year_start_matches_calendar() {
    for year in [1957, 1970, 1999, 2000, 2024, 2056] {
        let expected = Utc
            .with_ymd_and_hms(year, 1, 1, 0, 0, 0)
            .unwrap()
            .timestamp_millis();
        assert_eq!(year_start_ms(year), expected, "year {}", year);
    }
    assert_eq!(days_before_year(1970), 0);
    assert_eq!(days_before_year(1971), 365);
    assert_eq!(days_before_year(1969), -365);
}

#[test]
fn test_resolution_policies_agree_near_epoch() {
    // Epoch 2024 day 1.5; a month later both policies see the same elapsed time.
    let epoch = parse_tle_epoch(LINE1_2024.as_bytes()).unwrap();
    let now_ms = 1_706_745_600_000; // 2024-02-01T00:00:00Z
    let absolute = time_since_epoch_ms(&epoch, now_ms, EpochResolution::Absolute);
    let nearest = time_since_epoch_ms(&epoch, now_ms, EpochResolution::NearestYear);
    assert_eq!(absolute, now_ms - epoch.unix_ms);
    assert_eq!(absolute, nearest);
}

#[test]
fn test_nearest_year_reanchors_after_rollover() {
    // Epoch encoded as day 364 of 2023; a year later the same day-of-year is
    // re-anchored to 2024 rather than leaving a year-long offset.
    let line = "1 25544U 98067A   23364.00000000  .00000000  00000-0  00000-0 0    09";
    let epoch = parse_tle_epoch(line.as_bytes()).unwrap();
    assert_eq!(epoch.unix_ms, 1_703_894_400_000); // 2023-12-30T00:00:00Z
    let now_ms = 1_735_084_800_000; // 2024-12-25T00:00:00Z
    let resolved = resolve_epoch_nearest(&epoch, now_ms);
    assert_eq!(resolved, 1_735_430_400_000); // 2024-12-29T00:00:00Z
    let nearest = time_since_epoch_ms(&epoch, now_ms, EpochResolution::NearestYear);
    assert_eq!(nearest, -345_600_000); // four days before the re-anchored epoch
    let absolute = time_since_epoch_ms(&epoch, now_ms, EpochResolution::Absolute);
    assert_eq!(absolute, 31_190_400_000); // 361 days after the absolute epoch
}

#[test]
fn test_stale_elements_error() {
    let epoch_ms = 1_704_067_200_000i64; // 2024-01-01T00:00:00Z
    let now_ms = epoch_ms + 95 * 86_400_000; // 95 days later
    assert_eq!(epoch_age_days(epoch_ms, now_ms), 95);
    let config = PredictionConfig {
        num_passes: 10,
        min_elevation_mdeg: 10_000,
        search_days: 1,
        time_step_s: 30,
    };
    let result = predict_passes(epoch_ms, now_ms, &Vec::new(), &config);
    let err = result.unwrap_err();
    assert_eq!(err.age_days, 95);
    assert_eq!(
        err.message(),
        "element set epoch is 95 days old; refresh the element data"
    );

    // The guard sits exactly at 90 days.
    let at_limit = predict_passes(epoch_ms, epoch_ms + 90 * 86_400_000, &Vec::new(), &config);
    assert!(at_limit.is_ok());
    let over_limit = predict_passes(epoch_ms, epoch_ms + 91 * 86_400_000, &Vec::new(), &config);
    assert_eq!(over_limit.unwrap_err().age_days, 91);
}

#[test]
fn test_aged_but_usable_elements() {
    let epoch_ms = 1_704_067_200_000i64;
    let now_ms = epoch_ms + 40 * 86_400_000; // 40 days: warn range, still usable
    let config = PredictionConfig {
        num_passes: 10,
        min_elevation_mdeg: 10_000,
        search_days: 1,
        time_step_s: 30,
    };
    let result = predict_passes(epoch_ms, now_ms, &Vec::new(), &config);
    assert!(result.unwrap().is_empty());
}
