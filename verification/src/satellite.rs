//! Tracked satellites: the element-set handle, its decoded epoch, and the
//! live position snapshot.
//!
//! The element set itself is the propagator's opaque handle; this module
//! parses the two element lines through the propagator's own parser, decodes
//! the epoch field exactly, and keeps the predicted passes beside the handle.

use vstd::prelude::*;

use crate::errors::ParseError;
use crate::pass_prediction::LookAngles;
use crate::pass_prediction::SatellitePass;
use crate::radio::CommunicationWindow;
use crate::radio::DopplerShift;
use crate::time::MAX_TIME_MS;
use crate::time::MIN_TIME_MS;
use crate::time::TleEpoch;
use crate::time::epoch_field_wf;
use crate::time::parse_tle_epoch;
use crate::time::pivot_year;
use crate::time::spec_epoch_day;
use crate::time::spec_epoch_frac_e8;
use crate::time::spec_epoch_unix_ms;
use crate::time::spec_epoch_year2;

verus! {

/// The propagator's element-set type, opaque to the library: it is produced
/// by the propagator's parser and only handed back to the propagator.
#[verifier::external_type_specification]
#[verifier::external_body]
pub struct ExElements(sgp4::Elements);

/// Whether the outside element parser accepts a pair of element lines. The
/// parser reads nothing but the bytes, so acceptance is a function of them
/// alone; the library does not restate the parser's many field checks.
pub uninterp spec fn sgp4_accepts(line1: Seq<u8>, line2: Seq<u8>) -> bool;

/// Bytes an element line may hold without tripping the outside parser's two
/// sharp edges: the parser reads fields as UTF-8 without checking (ASCII
/// input keeps that sound), and on a 69-byte line it subtracts `'0'` from the
/// checksum column before any range test (a byte below `'0'` would underflow).
pub open spec fn tle_line_safe(line: Seq<u8>) -> bool {
    &&& forall|i: int| 0 <= i < line.len() ==> #[trigger] line[i] <= 127
    &&& line.len() == 69 ==> line[68] >= 48
}

/// Decide `tle_line_safe` for a raw line.
fn tle_line_safe_exec(line: &[u8]) -> (r: bool)
    ensures
        r == tle_line_safe(line@),
{
    let mut i: usize = 0;
    while i < line.len()
        invariant
            0 <= i <= line@.len(),
            forall|j: int| 0 <= j < i ==> #[trigger] line@[j] <= 127,
        decreases line@.len() - i,
    {
        if line[i] > 127 {
            assert(!(line@[i as int] <= 127));
            return false;
        }
        i = i + 1;
    }
    if line.len() == 69 && line[68] < 48 {
        return false;
    }
    true
}

/// Relies on `sgp4::Elements::from_tle` to parse the two fixed-width element
/// lines into the propagator's handle: it succeeds exactly on the line pairs
/// the parser accepts (`sgp4_accepts`), and a rejection is collapsed into the
/// library's own error. The handle itself stays opaque and is only carried
/// through to the propagator. The `requires` keeps every admitted input away
/// from the parser's unchecked UTF-8 reads and its checksum-column
/// subtraction (see `tle_line_safe`), so the call cannot panic.
#[verifier::external_body]
fn elements_from_tle(name: &str, line1: &[u8], line2: &[u8]) -> (r: Result<
    sgp4::Elements,
    ParseError,
>)
    requires
        tle_line_safe(line1@),
        tle_line_safe(line2@),
    ensures
        r is Ok <==> sgp4_accepts(line1@, line2@),
        r matches Err(e) ==> e == ParseError::InvalidElements,
{
    match sgp4::Elements::from_tle(Some(name.to_string()), line1, line2) {
        Ok(elements) => Ok(elements),
        Err(_) => Err(ParseError::InvalidElements),
    }
}

/// A tracked object: its name, the propagator's element-set handle, the
/// decoded epoch, and the passes of the latest prediction run.
///
/// `elements` and `epoch` never change after parsing; `passes` is replaced
/// wholesale by each prediction run.
pub struct Satellite {
    pub name: String,
    pub elements: sgp4::Elements,
    pub epoch: TleEpoch,
    pub passes: Vec<SatellitePass>,
}

impl Satellite {
    /// A satellite starts with no predicted passes.
    pub fn new(name: String, elements: sgp4::Elements, epoch: TleEpoch) -> (r: Satellite)
        ensures
            r.name == name,
            r.elements == elements,
            r.epoch == epoch,
            r.passes@ == Seq::<SatellitePass>::empty(),
    {
        Satellite { name, elements, epoch, passes: Vec::new() }
    }

    /// Parse a two-line element set into a tracked satellite.
    ///
    /// The epoch field of the first line is decoded exactly (two-digit year
    /// through the 57 pivot, fractional day of year); a malformed field is
    /// rejected rather than papered over. The lines themselves go through
    /// the propagator's parser, which accepts or rejects them for its own
    /// reasons (`sgp4_accepts`); lines that would trip that parser's
    /// unchecked byte handling (`tle_line_safe`) are rejected here first.
    pub fn from_tle(name: &str, line1: &[u8], line2: &[u8]) -> (r: Result<Satellite, ParseError>)
        ensures
            (r matches Err(e) && e == ParseError::BadEpochField) <==> !epoch_field_wf(line1@),
            r is Ok <==> {
                &&& epoch_field_wf(line1@)
                &&& tle_line_safe(line1@)
                &&& tle_line_safe(line2@)
                &&& sgp4_accepts(line1@, line2@)
            },
            r matches Ok(sat) ==> {
                &&& sat.name@ == name@
                &&& sat.epoch.wf()
                &&& sat.epoch.year == pivot_year(spec_epoch_year2(line1@))
                &&& sat.epoch.day == spec_epoch_day(line1@)
                &&& sat.epoch.frac_e8 == spec_epoch_frac_e8(line1@)
                &&& sat.epoch.unix_ms == spec_epoch_unix_ms(line1@)
                &&& sat.passes@ == Seq::<SatellitePass>::empty()
            },
    {
        let epoch: TleEpoch = match parse_tle_epoch(line1) {
            Ok(e) => e,
            Err(e) => {
                return Err(e);
            },
        };
        if !tle_line_safe_exec(line1) || !tle_line_safe_exec(line2) {
            return Err(ParseError::InvalidElements);
        }
        let elements: sgp4::Elements = match elements_from_tle(name, line1, line2) {
            Ok(elements) => elements,
            Err(e) => {
                return Err(e);
            },
        };
        Ok(Satellite::new(name.to_owned(), elements, epoch))
    }

    /// The first pass in list order that still lies strictly in the future.
    ///
    /// Prediction emits passes in time order, so this is the nearest
    /// upcoming pass.
    pub fn get_next_pass(&self, now_ms: i64) -> (r: Option<SatellitePass>)
        ensures
            r == spec_next_pass(self.passes@, now_ms as int),
    {
        let mut i: usize = 0;
        while i < self.passes.len()
            invariant
                0 <= i <= self.passes@.len(),
                spec_first_future_from(self.passes@, i as int, now_ms as int) == spec_next_pass(
                    self.passes@,
                    now_ms as int,
                ),
            decreases self.passes@.len() - i,
        {
            if self.passes[i].aos_time_ms > now_ms {
                return Some(self.passes[i]);
            }
            i = i + 1;
        }
        None
    }
}

/// The first pass from index `i` on whose acquisition lies strictly after
/// `now`.
pub open spec fn spec_first_future_from(
    passes: Seq<SatellitePass>,
    i: int,
    now_ms: int,
) -> Option<SatellitePass>
    decreases passes.len() - i,
{
    if i < 0 || i >= passes.len() {
        Option::None
    } else if passes[i].aos_time_ms > now_ms {
        Option::Some(passes[i])
    } else {
        spec_first_future_from(passes, i + 1, now_ms)
    }
}

/// The nearest strictly-future pass of a time-ordered pass list.
pub open spec fn spec_next_pass(passes: Seq<SatellitePass>, now_ms: int) -> Option<SatellitePass> {
    spec_first_future_from(passes, 0, now_ms)
}

/// If `get_next_pass` returns a pass, it is the first future pass in list
/// order; if it returns nothing, no pass lies in the future.
pub proof fn lemma_next_pass_characterization(passes: Seq<SatellitePass>, now_ms: int)
    ensures
        spec_next_pass(passes, now_ms) matches Option::Some(p) ==> exists|k: int|
            {
                &&& 0 <= k < passes.len()
                &&& #[trigger] passes[k] == p
                &&& passes[k].aos_time_ms > now_ms
                &&& forall|j: int| 0 <= j < k ==> #[trigger] passes[j].aos_time_ms <= now_ms
            },
        spec_next_pass(passes, now_ms) is None ==> forall|k: int|
            0 <= k < passes.len() ==> #[trigger] passes[k].aos_time_ms <= now_ms,
{
    lemma_first_future_from_characterization(passes, 0, now_ms);
}

proof fn lemma_first_future_from_characterization(passes: Seq<SatellitePass>, i: int, now_ms: int)
    requires
        0 <= i <= passes.len(),
    ensures
        spec_first_future_from(passes, i, now_ms) matches Option::Some(p) ==> exists|k: int|
            {
                &&& i <= k < passes.len()
                &&& #[trigger] passes[k] == p
                &&& passes[k].aos_time_ms > now_ms
                &&& forall|j: int| i <= j < k ==> #[trigger] passes[j].aos_time_ms <= now_ms
            },
        spec_first_future_from(passes, i, now_ms) is None ==> forall|k: int|
            i <= k < passes.len() ==> #[trigger] passes[k].aos_time_ms <= now_ms,
    decreases passes.len() - i,
{
    if i < passes.len() && passes[i].aos_time_ms <= now_ms {
        lemma_first_future_from_characterization(passes, i + 1, now_ms);
        match spec_first_future_from(passes, i + 1, now_ms) {
            Option::Some(p) => {
                let k = choose|k: int|
                    {
                        &&& i + 1 <= k < passes.len()
                        &&& #[trigger] passes[k] == p
                        &&& passes[k].aos_time_ms > now_ms
                        &&& forall|j: int|
                            i + 1 <= j < k ==> #[trigger] passes[j].aos_time_ms <= now_ms
                    };
                assert(forall|j: int| i <= j < k ==> #[trigger] passes[j].aos_time_ms <= now_ms);
            },
            Option::None => {},
        }
    }
}

/// Live snapshot of a tracked object over the observer, recomputed each
/// refresh cycle.
///
/// Coordinates are microdegrees, altitudes and ranges meters, speeds
/// millimeters per second; look angles are millidegrees.
#[derive(Clone, Debug)]
pub struct SatellitePosition {
    pub name: String,
    /// Snapshot instant, Unix milliseconds.
    pub time_ms: i64,
    /// Geodetic latitude under the object, microdegrees.
    pub latitude_udeg: i64,
    /// Geodetic longitude under the object, microdegrees.
    pub longitude_udeg: i64,
    /// Height above the ellipsoid, meters.
    pub altitude_m: i64,
    /// Orbital speed, millimeters per second.
    pub velocity_mm_s: i64,
    /// Azimuth from the observer, millidegrees in `[0, 360°)`.
    pub azimuth_mdeg: i64,
    /// Elevation above the observer's horizon, millidegrees.
    pub elevation_mdeg: i64,
    /// Distance from the observer, meters.
    pub range_m: i64,
    /// The object stands above the horizon.
    pub is_visible: bool,
    /// Doppler data, filled in when the radio is enabled.
    pub doppler: Option<DopplerShift>,
    /// Link assessment, filled in when the radio is enabled.
    pub comm_window: Option<CommunicationWindow>,
}

impl SatellitePosition {
    /// The visibility flag agrees with the elevation and the look angles are
    /// in range.
    pub open spec fn wf(self) -> bool {
        &&& self.is_visible == (self.elevation_mdeg > 0)
        &&& crate::angles::azimuth_wf(self.azimuth_mdeg)
        &&& -90_000 <= self.elevation_mdeg <= 90_000
        &&& 0 <= self.range_m
        &&& 0 <= self.velocity_mm_s
    }

    /// Assemble a snapshot; the visibility flag is computed, never supplied:
    /// an object is visible exactly when its elevation is positive.
    pub fn new(
        name: String,
        time_ms: i64,
        latitude_udeg: i64,
        longitude_udeg: i64,
        altitude_m: i64,
        velocity_mm_s: i64,
        angles: LookAngles,
    ) -> (r: SatellitePosition)
        requires
            MIN_TIME_MS <= time_ms <= MAX_TIME_MS,
            angles.wf(),
            0 <= velocity_mm_s,
        ensures
            r.wf(),
            r.name == name,
            r.time_ms == time_ms,
            r.latitude_udeg == latitude_udeg,
            r.longitude_udeg == longitude_udeg,
            r.altitude_m == altitude_m,
            r.velocity_mm_s == velocity_mm_s,
            r.azimuth_mdeg == angles.azimuth_mdeg,
            r.elevation_mdeg == angles.elevation_mdeg,
            r.range_m == angles.range_m,
            r.is_visible == (angles.elevation_mdeg > 0),
            r.doppler is None,
            r.comm_window is None,
    {
        SatellitePosition {
            name,
            time_ms,
            latitude_udeg,
            longitude_udeg,
            altitude_m,
            velocity_mm_s,
            azimuth_mdeg: angles.azimuth_mdeg,
            elevation_mdeg: angles.elevation_mdeg,
            range_m: angles.range_m,
            is_visible: angles.elevation_mdeg > 0,
            doppler: None,
            comm_window: None,
        }
    }
}

} // verus!
