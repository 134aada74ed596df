//! Pass prediction and tracking support for satellite ground-station work.
//!
//! The library models time in Unix milliseconds, angles in millidegrees,
//! distances in meters and speeds in millimeters per second, so that the
//! orbital bookkeeping — epoch decoding, horizon-crossing detection, link
//! classification and alerting — is exact integer arithmetic with verified
//! contracts. Floating-point frame transforms and the SGP4 propagator itself
//! live outside the library and hand it plain sampled values.

pub mod alerts;
pub mod angles;
pub mod config;
pub mod controls;
pub mod errors;
pub mod observer;
pub mod pass_prediction;
pub mod radio;
pub mod satellite;
pub mod time;
