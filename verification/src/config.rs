//! Tracker configuration.
//!
//! The surrounding application reads these from its configuration file and
//! converts angles to millidegrees, coordinates to microdegrees and
//! frequencies to hertz before handing them to the library.

use vstd::prelude::*;

verus! {

/// The ground observer's location.
#[derive(Clone, Debug)]
pub struct ObserverConfig {
    pub name: String,
    /// Geodetic latitude, microdegrees north.
    pub latitude_udeg: i64,
    /// Geodetic longitude, microdegrees east.
    pub longitude_udeg: i64,
    /// Height above the WGS84 ellipsoid, meters.
    pub altitude_m: i64,
}

/// Which element sets to load and track.
#[derive(Clone, Debug)]
pub struct SatellitesConfig {
    pub tle_file: String,
    pub tracked_satellites: Vec<String>,
    pub max_satellites: usize,
}

/// Parameters of a pass search.
#[derive(Clone, Copy, Debug)]
pub struct PredictionConfig {
    /// Stop the sweep once this many passes were found.
    pub num_passes: usize,
    /// Horizon-crossing threshold, millidegrees.
    pub min_elevation_mdeg: i64,
    /// Length of the search window, whole days.
    pub search_days: u32,
    /// Sampling step, seconds.
    pub time_step_s: u32,
}

impl PredictionConfig {
    /// Ranges under which every sweep computation stays in bounds.
    pub open spec fn wf(self) -> bool {
        &&& 1 <= self.time_step_s
        &&& self.search_days <= 36_500
        &&& -90_000 <= self.min_elevation_mdeg <= 90_000
    }
}

/// Display refresh and layout switches.
#[derive(Clone, Copy, Debug)]
pub struct DisplayConfig {
    pub refresh_rate: u64,
    pub show_current_position: bool,
    pub show_all_positions: bool,
    pub show_sky_map: bool,
}

/// Radio link parameters.
#[derive(Clone, Copy, Debug)]
pub struct RadioConfig {
    pub enabled: bool,
    /// Downlink center frequency, hertz.
    pub downlink_hz: i64,
    /// Uplink center frequency, hertz.
    pub uplink_hz: i64,
    pub show_doppler: bool,
}

/// Pass alerting thresholds.
#[derive(Clone, Copy, Debug)]
pub struct AlertsConfig {
    pub enabled: bool,
    /// Alert lead time before AOS, minutes.
    pub alert_before_pass: i64,
    /// Only passes peaking at least this high raise an alert, millidegrees.
    pub min_elevation_for_alert_mdeg: i64,
    pub play_sound: bool,
}

/// The whole configuration.
#[derive(Clone, Debug)]
pub struct Config {
    pub observer: ObserverConfig,
    pub satellites: SatellitesConfig,
    pub prediction: PredictionConfig,
    pub display: DisplayConfig,
    pub radio: RadioConfig,
    pub alerts: AlertsConfig,
}

} // verus!
