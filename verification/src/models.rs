//! Sensor records as the store keeps them, and the flattened location view
//! handed to callers.
//!
//! A stored sensor carries its location as textual point data; the view
//! carries plain microdegree coordinates read from that text. A row whose
//! location text is missing or malformed degrades to coordinate zero rather
//! than failing the query it appears in. Timestamps are store-assigned epoch
//! seconds and optional.
use crate::wkt::parse_point_udeg;
use crate::wkt::parse_point_wkt;
use vstd::prelude::*;

verus! {

/// A persisted sensor row: identity, display name, data-source label, the
/// textual point location, and optional store-assigned timestamps.
#[derive(Debug, Clone)]
pub struct Sensor {
    pub id: i32,
    pub name: String,
    pub data_source: String,
    pub location: Option<String>,
    pub created_at: Option<i64>,
    pub updated_at: Option<i64>,
}

/// A sensor with its location flattened to coordinates, the shape query
/// results are returned in.
#[derive(Debug, Clone, PartialEq)]
pub struct SensorLocation {
    pub id: i32,
    pub name: String,
    pub data_source: String,
    pub latitude_udeg: i64,
    pub longitude_udeg: i64,
}

/// A sensor to be inserted; the store assigns identity and timestamps.
#[derive(Debug, Clone)]
pub struct NewSensor {
    pub name: String,
    pub data_source: String,
    pub latitude_udeg: i64,
    pub longitude_udeg: i64,
}

/// The location view of a stored sensor: coordinates read from the point
/// text (x = longitude, y = latitude), zero when the text is absent or
/// malformed.
pub open spec fn spec_sensor_location(s: Sensor) -> SensorLocation {
    let pt = match s.location {
        Some(l) => parse_point_udeg(l@),
        None => (0int, 0int),
    };
    SensorLocation {
        id: s.id,
        name: s.name,
        data_source: s.data_source,
        latitude_udeg: pt.1 as i64,
        longitude_udeg: pt.0 as i64,
    }
}

/// The location views of a whole row sequence, in row order.
pub open spec fn locations_of(ss: Seq<Sensor>) -> Seq<SensorLocation> {
    ss.map_values(|s: Sensor| spec_sensor_location(s))
}

impl From<Sensor> for SensorLocation {
    /// Flattens a row to its location view, reading the point text.
    fn from(sensor: Sensor) -> (r: SensorLocation) {
        let (lon, lat): (i64, i64) = match &sensor.location {
            Some(l) => parse_point_wkt(l.as_str()),
            None => (0i64, 0i64),
        };
        SensorLocation {
            id: sensor.id,
            name: sensor.name,
            data_source: sensor.data_source,
            latitude_udeg: lat,
            longitude_udeg: lon,
        }
    }
}

impl vstd::std_specs::convert::FromSpecImpl<Sensor> for SensorLocation {
    open spec fn obeys_from_spec() -> bool {
        true
    }

    open spec fn from_spec(s: Sensor) -> SensorLocation {
        spec_sensor_location(s)
    }
}

} // verus!
