//! The fixed ground observer.

use vstd::prelude::*;

verus! {

/// A ground station at a fixed geodetic location.
///
/// Coordinates are microdegrees, altitude meters above the WGS84 ellipsoid.
/// The Earth-fixed Cartesian conversion is floating-point work and lives with
/// the frame transforms outside the library.
#[derive(Clone, Debug)]
pub struct Observer {
    pub name: String,
    /// Geodetic latitude, microdegrees north.
    pub latitude_udeg: i64,
    /// Geodetic longitude, microdegrees east.
    pub longitude_udeg: i64,
    /// Height above the ellipsoid, meters.
    pub altitude_m: i64,
}

impl Observer {
    /// The coordinates denote a point on Earth.
    pub open spec fn wf(self) -> bool {
        &&& -90_000_000 <= self.latitude_udeg <= 90_000_000
        &&& -180_000_000 <= self.longitude_udeg <= 180_000_000
        &&& -500_000 <= self.altitude_m <= 10_000_000
    }

    /// An observer at the given location.
    pub fn new(name: String, latitude_udeg: i64, longitude_udeg: i64, altitude_m: i64) -> (r:
        Observer)
        requires
            -90_000_000 <= latitude_udeg <= 90_000_000,
            -180_000_000 <= longitude_udeg <= 180_000_000,
            -500_000 <= altitude_m <= 10_000_000,
        ensures
            r.wf(),
            r.name == name,
            r.latitude_udeg == latitude_udeg,
            r.longitude_udeg == longitude_udeg,
            r.altitude_m == altitude_m,
    {
        Observer { name, latitude_udeg, longitude_udeg, altitude_m }
    }
}

} // verus!
