use crabtrack::errors::ParseError;
use crabtrack::pass_prediction::LookAngles;
use crabtrack::satellite::Satellite;
use crabtrack::satellite::SatellitePosition;

const LINE1: &str = "1 25544U 98067A   24001.50000000  .00000000  00000-0  00000-0 0    05";
const LINE2: &str = "2 25544  51.6400 297.8590 0001218  88.9267 338.1310 15.49000000    08";

#[test]
fn test_from_tle_parses_epoch_and_elements() {
    let sat = Satellite::from_tle("ISS (ZARYA)", LINE1.as_bytes(), LINE2.as_bytes()).unwrap();
    assert_eq!(sat.name, "ISS (ZARYA)");
    assert_eq!(sat.epoch.year, 2024);
    assert_eq!(sat.epoch.day, 1);
    assert_eq!(sat.epoch.frac_e8, 50_000_000);
    assert_eq!(sat.epoch.unix_ms, 1_704_110_400_000); // 2024-01-01T12:00:00Z
    assert!(sat.passes.is_empty());
    assert_eq!(sat.elements.norad_id, 25544);
}

#[test]
fn test_from_tle_rejects_bad_epoch_field() {
    let err = match Satellite::from_tle("X", "1 25544U".as_bytes(), LINE2.as_bytes()) {
        Ok(_) => panic!("expected a parse error"),
        Err(e) => e,
    };
    assert_eq!(err, ParseError::BadEpochField);
}

#[test]
fn test_from_tle_rejects_bad_elements() {
    // The epoch field is fine, but the line fails the element parser.
    let broken = "1 2554XU 98067A   24001.50000000  .00000000  00000-0  00000-0 0    09";
    let err = match Satellite::from_tle("X", broken.as_bytes(), LINE2.as_bytes()) {
        Ok(_) => panic!("expected a parse error"),
        Err(e) => e,
    };
    assert_eq!(err, ParseError::InvalidElements);
}

#[test]
fn test_from_tle_rejects_unsafe_checksum_byte() {
    // A 69-byte line whose checksum column is a space would make the element
    // parser subtract '0' from it; the library screens it out as a plain
    // parse error instead.
    let mut line1 = LINE1.as_bytes().to_vec();
    line1[68] = b' ';
    let err = match Satellite::from_tle("X", &line1, LINE2.as_bytes()) {
        Ok(_) => panic!("expected a parse error"),
        Err(e) => e,
    };
    assert_eq!(err, ParseError::InvalidElements);
}

#[test]
fn test_from_tle_rejects_non_ascii_line() {
    // The element parser reads fields as UTF-8 without checking; non-ASCII
    // bytes are screened out before it ever sees them.
    let mut line2 = LINE2.as_bytes().to_vec();
    line2[40] = 0xFF;
    let err = match Satellite::from_tle("X", LINE1.as_bytes(), &line2) {
        Ok(_) => panic!("expected a parse error"),
        Err(e) => e,
    };
    assert_eq!(err, ParseError::InvalidElements);
}

#[test]
fn test_position_visibility_flag() {
    let above = SatellitePosition::new(
        String::from("A"),
        1_704_067_200_000,
        0,
        0,
        420_000,
        7_000_000,
        LookAngles::new(10_000, 35_000, 800_000),
    );
    assert!(above.is_visible);
    assert!(above.doppler.is_none());
    assert!(above.comm_window.is_none());

    let below = SatellitePosition::new(
        String::from("B"),
        1_704_067_200_000,
        0,
        0,
        420_000,
        7_000_000,
        LookAngles::new(10_000, -5_000, 2_500_000),
    );
    assert!(!below.is_visible);

    let grazing = SatellitePosition::new(
        String::from("C"),
        1_704_067_200_000,
        0,
        0,
        420_000,
        7_000_000,
        LookAngles::new(10_000, 0, 2_500_000),
    );
    assert!(!grazing.is_visible);
}
