//! Verified core of an environmental-risk service: geospatial sensor store,
//! external-client response handling, weather feature derivation, and risk
//! tier interpretation, with the orchestrator's partial-failure composition.
//!
//! All quantities are fixed-point integers: coordinates in microdegrees,
//! temperatures in hundredths of a degree Fahrenheit, wind speeds in
//! hundredths of a mile per hour, probabilities in parts per million.
use vstd::prelude::*;

pub mod clients;
pub mod features;
pub mod geo;
pub mod models;
pub mod orchestrator;
pub mod risk;
pub mod store;
pub mod text;
pub mod wkt;

verus! {

/// Latitude is valid when it lies in [-90, 90] degrees, in microdegrees.
pub open spec fn valid_lat_udeg(lat: i64) -> bool {
    -90_000_000 <= lat <= 90_000_000
}

/// Longitude is valid when it lies in [-180, 180] degrees, in microdegrees.
pub open spec fn valid_lon_udeg(lon: i64) -> bool {
    -180_000_000 <= lon <= 180_000_000
}

/// Checks the latitude range; mirrors `valid_lat_udeg`.
pub fn is_valid_lat_udeg(lat: i64) -> (r: bool)
    ensures
        r == valid_lat_udeg(lat),
{
    -90_000_000 <= lat && lat <= 90_000_000
}

/// Checks the longitude range; mirrors `valid_lon_udeg`.
pub fn is_valid_lon_udeg(lon: i64) -> (r: bool)
    ensures
        r == valid_lon_udeg(lon),
{
    -180_000_000 <= lon && lon <= 180_000_000
}

} // verus!
