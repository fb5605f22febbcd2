//! Data shapes and decision logic of the two external data clients: the
//! air-quality-by-area lookup and the weather-by-coordinate lookup.
//!
//! The transport itself lives outside the library; what stands here is the
//! typed failure taxonomy, the response shapes as plain fixed-point values,
//! and the handling of a fetched air-quality record set.
//!
//! Temperature is carried in hundredths of a degree Fahrenheit end to end;
//! a caller fetching from a metric upstream converts before constructing a
//! `WeatherData`. Wind speed is hundredths of a mile per hour, wind
//! direction hundredths of a degree, humidity whole percent.
use crate::text::dec_digits;
use crate::text::u64_to_dec_string;
use vstd::prelude::*;

verus! {

/// Why an external fetch yielded no value: unreachable upstream, a
/// non-success status, an unreadable body, a missing key, or an empty
/// result set.
#[derive(Debug, Clone, PartialEq)]
pub enum ClientError {
    MissingApiKey,
    Network(String),
    UpstreamStatus(u16),
    MalformedResponse(String),
    EmptyResult,
}

impl ClientError {
    /// The human-readable cause text.
    pub open spec fn spec_message(&self) -> Seq<char> {
        match self {
            ClientError::MissingApiKey => "missing API key"@,
            ClientError::Network(c) => "request failed: "@ + c@,
            ClientError::UpstreamStatus(code) => "request failed with status: "@ + dec_digits(
                *code as nat,
            ),
            ClientError::MalformedResponse(c) => "failed to parse response: "@ + c@,
            ClientError::EmptyResult => "no data found"@,
        }
    }

    /// Renders the cause text.
    pub fn message(&self) -> (m: String)
        ensures
            m@ == self.spec_message(),
    {
        match self {
            ClientError::MissingApiKey => "missing API key".to_owned(),
            ClientError::Network(c) => {
                let mut s = "request failed: ".to_owned();
                s.append(c.as_str());
                s
            },
            ClientError::UpstreamStatus(code) => {
                let mut s = "request failed with status: ".to_owned();
                let digits = u64_to_dec_string(*code as u64);
                s.append(digits.as_str());
                s
            },
            ClientError::MalformedResponse(c) => {
                let mut s = "failed to parse response: ".to_owned();
                s.append(c.as_str());
                s
            },
            ClientError::EmptyResult => "no data found".to_owned(),
        }
    }
}

/// The API keys the two clients authenticate with; read from the process
/// environment by the caller. A missing key fails each call from that
/// client with `ClientError::MissingApiKey`, never the process.
#[derive(Debug, Clone)]
pub struct Config {
    pub airnow_api_key: String,
    pub weather_api_key: String,
}

/// The category block of an air-quality record: ordinal and label.
#[derive(Debug, Clone, PartialEq)]
pub struct CategoryInfo {
    pub number: i32,
    pub name: String,
}

/// One air-quality observation record as the upstream reports it.
/// Coordinates are carried in microdegrees.
#[derive(Debug, Clone)]
pub struct AirNowResponse {
    pub aqi: i32,
    pub category: CategoryInfo,
    pub date_observed: String,
    pub hour_observed: i32,
    pub local_time_zone: String,
    pub reporting_area: String,
    pub state_code: String,
    pub latitude_udeg: i64,
    pub longitude_udeg: i64,
}

/// The air-quality value handed onward: the index and its category label.
#[derive(Debug, Clone, PartialEq)]
pub struct AirQualityIndex {
    pub aqi: i32,
    pub category: String,
}

/// The index-and-label pair of a record.
pub open spec fn spec_air_quality_of(r: AirNowResponse) -> AirQualityIndex {
    AirQualityIndex { aqi: r.aqi, category: r.category.name }
}

impl From<AirNowResponse> for AirQualityIndex {
    /// Keeps the index and the category label of a record.
    fn from(response: AirNowResponse) -> (r: AirQualityIndex) {
        AirQualityIndex { aqi: response.aqi, category: response.category.name }
    }
}

impl vstd::std_specs::convert::FromSpecImpl<AirNowResponse> for AirQualityIndex {
    open spec fn obeys_from_spec() -> bool {
        true
    }

    open spec fn from_spec(r: AirNowResponse) -> AirQualityIndex {
        spec_air_quality_of(r)
    }
}

/// Reduces a fetched record set to its first record's air-quality value; an
/// empty set is the empty-result failure, exactly then.
pub fn first_air_quality(records: Vec<AirNowResponse>) -> (r: Result<
    AirQualityIndex,
    ClientError,
>)
    ensures
        records@.len() == 0 ==> r == Err::<AirQualityIndex, ClientError>(ClientError::EmptyResult),
        records@.len() > 0 ==> (r matches Ok(a) && a == spec_air_quality_of(records@[0])),
{
    let mut records = records;
    if records.len() == 0 {
        Err(ClientError::EmptyResult)
    } else {
        let first = records.remove(0);
        Ok(AirQualityIndex::from(first))
    }
}

/// A weather observation at a coordinate, in the fixed-point units of the
/// crate: hundredths of a degree Fahrenheit, whole percent, hundredths of a
/// mile per hour, hundredths of a degree of bearing.
#[derive(Debug, Clone, Copy, PartialEq, Eq, Structural)]
pub struct WeatherData {
    pub temperature_cf: i64,
    pub humidity_pct: u8,
    pub wind_speed_cmph: u32,
    pub wind_direction_cdeg: u32,
}

/// An observation whose values lie in the domain the feature derivation is
/// stated over: humidity a percentage, temperature within +-10000 degrees.
pub open spec fn weather_wf(w: WeatherData) -> bool {
    &&& w.humidity_pct <= 100
    &&& -1_000_000 <= w.temperature_cf <= 1_000_000
}

/// Checks `weather_wf`.
pub fn weather_data_wf(w: &WeatherData) -> (r: bool)
    ensures
        r == weather_wf(*w),
{
    w.humidity_pct <= 100 && -1_000_000 <= w.temperature_cf && w.temperature_cf <= 1_000_000
}

} // verus!
