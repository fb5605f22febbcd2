//! The aggregation orchestrator: composes store queries, the two external
//! fetch results and the risk model's output into the three response
//! shapes, applying each operation's partial-failure policy.
//!
//! The environmental snapshot always succeeds: each failed section
//! degrades to its documented placeholder and the failure is annotated
//! in-band in the `error` field. The sensor listing degrades to an empty
//! list the same way. The risk pipeline short-circuits instead: any stage
//! failure yields an error response with no partial result. The caller
//! performs the fetches and the model invocation and hands the results in;
//! every decision after that point is made here.
use crate::clients::AirQualityIndex;
use crate::clients::ClientError;
use crate::clients::WeatherData;
use crate::clients::weather_wf;
use crate::features::RiskFeatures;
use crate::features::derive_features;
use crate::features::spec_derive_features;
use crate::models::SensorLocation;
use crate::risk::ModelError;
use crate::risk::get_risk_description;
use crate::risk::risk_tier;
use crate::risk::spec_risk_description;
use crate::risk::spec_risk_tier;
use vstd::prelude::*;

verus! {

/// Radius of the snapshot's nearest-sensor query, in kilometres.
pub const SNAPSHOT_RADIUS_KM: u64 = 25;

/// Radius of the point form of the sensor listing, in kilometres.
pub const LISTING_RADIUS_KM: u64 = 50;

/// Fallback latitude when the snapshot request omits one.
pub const DEFAULT_LATITUDE_UDEG: i64 = 44_129_200;

/// Fallback longitude when the snapshot request omits one.
pub const DEFAULT_LONGITUDE_UDEG: i64 = -121_768_900;

/// Relies on chrono's `Utc::now` and its RFC 3339 rendering for response
/// timestamps; nothing is assumed of the clock's value.
#[verifier::external_body]
fn now_rfc3339() -> String {
    chrono::Utc::now().to_rfc3339()
}

/// Why the store yielded no rows: the given connection or query failure.
#[derive(Debug, Clone, PartialEq)]
pub enum StoreError {
    Unavailable(String),
}

impl StoreError {
    /// The human-readable cause text.
    pub open spec fn spec_message(&self) -> Seq<char> {
        match self {
            StoreError::Unavailable(c) => c@,
        }
    }

    /// Renders the cause text.
    pub fn message(&self) -> (m: String)
        ensures
            m@ == self.spec_message(),
    {
        match self {
            StoreError::Unavailable(c) => c.clone(),
        }
    }
}

/// The snapshot's in-band annotation for a failed air-quality fetch.
pub open spec fn aq_failure_message(e: ClientError) -> Seq<char> {
    "Failed to fetch air quality data: "@ + e.spec_message()
}

/// The snapshot's in-band annotation for a failed weather fetch.
pub open spec fn weather_failure_message(e: ClientError) -> Seq<char> {
    "Failed to fetch weather data: "@ + e.spec_message()
}

/// The snapshot's in-band annotation when both fetches failed.
pub open spec fn both_failure_message(a: ClientError, w: ClientError) -> Seq<char> {
    "Failed to fetch data - AQI: "@ + a.spec_message() + ", Weather: "@ + w.spec_message()
}

/// The listing's in-band annotation for a failed store query.
pub open spec fn store_failure_message(e: StoreError) -> Seq<char> {
    "Failed to fetch sensors: "@ + e.spec_message()
}

/// The risk response's annotation for a failed model invocation.
pub open spec fn model_failure_message(e: ModelError) -> Seq<char> {
    "Failed to make risk prediction: "@ + e.spec_message()
}

/// Renders `aq_failure_message`.
pub fn aq_failure_text(e: &ClientError) -> (m: String)
    ensures
        m@ == aq_failure_message(*e),
{
    let mut s = "Failed to fetch air quality data: ".to_owned();
    let cause = e.message();
    s.append(cause.as_str());
    s
}

/// Renders `weather_failure_message`.
pub fn weather_failure_text(e: &ClientError) -> (m: String)
    ensures
        m@ == weather_failure_message(*e),
{
    let mut s = "Failed to fetch weather data: ".to_owned();
    let cause = e.message();
    s.append(cause.as_str());
    s
}

/// Renders `both_failure_message`.
pub fn both_failure_text(a: &ClientError, w: &ClientError) -> (m: String)
    ensures
        m@ == both_failure_message(*a, *w),
{
    let mut s = "Failed to fetch data - AQI: ".to_owned();
    let ac = a.message();
    s.append(ac.as_str());
    s.append(", Weather: ");
    let wc = w.message();
    s.append(wc.as_str());
    s
}

/// Renders `store_failure_message`.
pub fn store_failure_text(e: &StoreError) -> (m: String)
    ensures
        m@ == store_failure_message(*e),
{
    let mut s = "Failed to fetch sensors: ".to_owned();
    let cause = e.message();
    s.append(cause.as_str());
    s
}

/// Renders `model_failure_message`.
pub fn model_failure_text(e: &ModelError) -> (m: String)
    ensures
        m@ == model_failure_message(*e),
{
    let mut s = "Failed to make risk prediction: ".to_owned();
    let cause = e.message();
    s.append(cause.as_str());
    s
}

/// The snapshot's coordinates: the supplied ones, with the fixed fallback
/// for each that is omitted.
pub fn resolve_coordinates(lat: Option<i64>, lon: Option<i64>) -> (c: (i64, i64))
    ensures
        (lat matches Some(a) ==> c.0 == a) && (lat is None ==> c.0 == DEFAULT_LATITUDE_UDEG),
        (lon matches Some(o) ==> c.1 == o) && (lon is None ==> c.1 == DEFAULT_LONGITUDE_UDEG),
{
    let la = match lat {
        Some(a) => a,
        None => DEFAULT_LATITUDE_UDEG,
    };
    let lo = match lon {
        Some(o) => o,
        None => DEFAULT_LONGITUDE_UDEG,
    };
    (la, lo)
}

/// The fixed area code the snapshot's air-quality lookup uses as a
/// regional proxy, whatever coordinate was asked for.
pub fn snapshot_area_code() -> (z: String)
    ensures
        z@ == "97601"@,
{
    "97601".to_owned()
}

/// The fixed coordinates of the legacy status lookup, used whatever area
/// code the request names.
pub fn status_coordinates() -> (c: (i64, i64))
    ensures
        c.0 == 42_190_000,
        c.1 == -121_780_000,
{
    (42_190_000, -121_780_000)
}

/// A geographic point echoed in a response.
#[derive(Debug, Clone, Copy, PartialEq, Eq, Structural)]
pub struct LocationSection {
    pub latitude_udeg: i64,
    pub longitude_udeg: i64,
}

/// The air-quality section of the snapshot.
#[derive(Debug, Clone, PartialEq)]
pub struct AirQualitySection {
    pub aqi: i32,
    pub category: String,
    pub location: String,
    pub timestamp: String,
}

/// The environmental snapshot: every section present, failed ones degraded
/// to placeholders, failures annotated in `error`.
#[derive(Debug, Clone, PartialEq)]
pub struct EnvironmentalResponse {
    pub air_quality: AirQualitySection,
    pub weather: WeatherData,
    pub location: LocationSection,
    pub sensors: Vec<SensorLocation>,
    pub error: Option<String>,
}

/// The placeholder weather section: all fields zero.
pub open spec fn zero_weather() -> WeatherData {
    WeatherData { temperature_cf: 0, humidity_pct: 0, wind_speed_cmph: 0, wind_direction_cdeg: 0 }
}

/// Assembles the environmental snapshot from the three sub-results. The
/// air-quality and weather sections each degrade independently — a failed
/// fetch becomes index zero with category `Data Unavailable`, or an
/// all-zero weather block — and a failed sensor query becomes an empty
/// list with no annotation, as the store's failure is not surfaced here.
pub fn environmental_snapshot(
    latitude_udeg: i64,
    longitude_udeg: i64,
    air: Result<AirQualityIndex, ClientError>,
    weather: Result<WeatherData, ClientError>,
    sensors: Result<Vec<SensorLocation>, StoreError>,
) -> (r: EnvironmentalResponse)
    ensures
        r.location.latitude_udeg == latitude_udeg,
        r.location.longitude_udeg == longitude_udeg,
        r.air_quality.location@ == "Altamont, Oregon"@,
        (air matches Ok(a) ==> r.air_quality.aqi == a.aqi && r.air_quality.category == a.category),
        (air is Err ==> r.air_quality.aqi == 0 && r.air_quality.category@ == "Data Unavailable"@),
        (weather matches Ok(w) ==> r.weather == w),
        (weather is Err ==> r.weather == zero_weather()),
        (sensors matches Ok(v) ==> r.sensors@ == v@),
        (sensors is Err ==> r.sensors@ == Seq::<SensorLocation>::empty()),
        (match (air, weather) {
            (Ok(_), Ok(_)) => r.error is None,
            (Err(ae), Ok(_)) => r.error matches Some(m) && m@ == aq_failure_message(ae),
            (Ok(_), Err(we)) => r.error matches Some(m) && m@ == weather_failure_message(we),
            (Err(ae), Err(we)) => r.error matches Some(m) && m@ == both_failure_message(ae, we),
        }),
{
    let ts = now_rfc3339();
    let nearby: Vec<SensorLocation> = match sensors {
        Ok(v) => v,
        Err(_) => Vec::new(),
    };
    let location = LocationSection { latitude_udeg, longitude_udeg };
    match (air, weather) {
        (Ok(a), Ok(w)) => EnvironmentalResponse {
            air_quality: AirQualitySection {
                aqi: a.aqi,
                category: a.category,
                location: "Altamont, Oregon".to_owned(),
                timestamp: ts,
            },
            weather: w,
            location,
            sensors: nearby,
            error: None,
        },
        (Err(ae), Ok(w)) => EnvironmentalResponse {
            air_quality: AirQualitySection {
                aqi: 0,
                category: "Data Unavailable".to_owned(),
                location: "Altamont, Oregon".to_owned(),
                timestamp: ts,
            },
            weather: w,
            location,
            sensors: nearby,
            error: Some(aq_failure_text(&ae)),
        },
        (Ok(a), Err(we)) => EnvironmentalResponse {
            air_quality: AirQualitySection {
                aqi: a.aqi,
                category: a.category,
                location: "Altamont, Oregon".to_owned(),
                timestamp: ts,
            },
            weather: WeatherData {
                temperature_cf: 0,
                humidity_pct: 0,
                wind_speed_cmph: 0,
                wind_direction_cdeg: 0,
            },
            location,
            sensors: nearby,
            error: Some(weather_failure_text(&we)),
        },
        (Err(ae), Err(we)) => EnvironmentalResponse {
            air_quality: AirQualitySection {
                aqi: 0,
                category: "Data Unavailable".to_owned(),
                location: "Altamont, Oregon".to_owned(),
                timestamp: ts,
            },
            weather: WeatherData {
                temperature_cf: 0,
                humidity_pct: 0,
                wind_speed_cmph: 0,
                wind_direction_cdeg: 0,
            },
            location,
            sensors: nearby,
            error: Some(both_failure_text(&ae, &we)),
        },
    }
}

/// The three mutually exclusive forms of the sensor listing.
#[derive(Debug, Clone, Copy, PartialEq, Eq, Structural)]
pub enum SensorQuery {
    Bounds { min_lat_udeg: i64, min_lon_udeg: i64, max_lat_udeg: i64, max_lon_udeg: i64 },
    Near { latitude_udeg: i64, longitude_udeg: i64 },
    All,
}

/// Which form the supplied parameters select: a complete bounding box
/// first, else a complete point, else the unconditional listing.
pub open spec fn spec_select_sensor_query(
    min_lat: Option<i64>,
    min_lon: Option<i64>,
    max_lat: Option<i64>,
    max_lon: Option<i64>,
    lat: Option<i64>,
    lon: Option<i64>,
) -> SensorQuery {
    match (min_lat, min_lon, max_lat, max_lon) {
        (Some(a), Some(b), Some(c), Some(d)) => SensorQuery::Bounds {
            min_lat_udeg: a,
            min_lon_udeg: b,
            max_lat_udeg: c,
            max_lon_udeg: d,
        },
        _ => match (lat, lon) {
            (Some(x), Some(y)) => SensorQuery::Near { latitude_udeg: x, longitude_udeg: y },
            _ => SensorQuery::All,
        },
    }
}

/// Selects the listing form by the precedence bounding box, then point,
/// then unconditional.
pub fn select_sensor_query(
    min_lat: Option<i64>,
    min_lon: Option<i64>,
    max_lat: Option<i64>,
    max_lon: Option<i64>,
    lat: Option<i64>,
    lon: Option<i64>,
) -> (q: SensorQuery)
    ensures
        q == spec_select_sensor_query(min_lat, min_lon, max_lat, max_lon, lat, lon),
{
    match (min_lat, min_lon, max_lat, max_lon) {
        (Some(a), Some(b), Some(c), Some(d)) => SensorQuery::Bounds {
            min_lat_udeg: a,
            min_lon_udeg: b,
            max_lat_udeg: c,
            max_lon_udeg: d,
        },
        _ => match (lat, lon) {
            (Some(x), Some(y)) => SensorQuery::Near { latitude_udeg: x, longitude_udeg: y },
            _ => SensorQuery::All,
        },
    }
}

/// The sensor listing: the rows with their count, or an empty degraded
/// listing with the failure annotated.
#[derive(Debug, Clone, PartialEq)]
pub struct SensorListResponse {
    pub sensors: Vec<SensorLocation>,
    pub count: usize,
    pub timestamp: String,
    pub error: Option<String>,
}

/// Assembles the listing response: a successful query is returned with its
/// count and no annotation; a failed one degrades to an empty list with
/// count zero and the failure annotated, still a success shape.
pub fn sensor_listing(result: Result<Vec<SensorLocation>, StoreError>) -> (r: SensorListResponse)
    ensures
        (result matches Ok(v) ==> r.sensors@ == v@ && r.count == v@.len() && r.error is None),
        (result matches Err(e) ==> r.sensors@.len() == 0 && r.count == 0 && (r.error matches Some(
            m,
        ) && m@ == store_failure_message(e))),
{
    let ts = now_rfc3339();
    match result {
        Ok(v) => {
            let count = v.len();
            SensorListResponse { sensors: v, count, timestamp: ts, error: None }
        },
        Err(e) => SensorListResponse {
            sensors: Vec::new(),
            count: 0,
            timestamp: ts,
            error: Some(store_failure_text(&e)),
        },
    }
}

/// The legacy combined status: air-quality fields when that fetch
/// succeeded, weather fields when that one did, an `error` annotation
/// exactly when either failed.
#[derive(Debug, Clone, PartialEq)]
pub struct StatusResponse {
    pub aqi: Option<i32>,
    pub aqi_category: Option<String>,
    pub temperature_cf: Option<i64>,
    pub humidity_pct: Option<u8>,
    pub wind_speed_cmph: Option<u32>,
    pub wind_direction_cdeg: Option<u32>,
    pub error: Option<String>,
}

/// Assembles the legacy status from the two fetch results. Each upstream's
/// fields are present exactly when its fetch succeeded, and `error` is
/// absent exactly when both succeeded.
pub fn legacy_status(
    air: Result<AirQualityIndex, ClientError>,
    weather: Result<WeatherData, ClientError>,
) -> (r: StatusResponse)
    ensures
        (air matches Ok(a) ==> r.aqi == Some(a.aqi) && (r.aqi_category matches Some(c) && c@
            == a.category@)),
        (air is Err ==> r.aqi is None && r.aqi_category is None),
        (weather matches Ok(w) ==> r.temperature_cf == Some(w.temperature_cf) && r.humidity_pct
            == Some(w.humidity_pct) && r.wind_speed_cmph == Some(w.wind_speed_cmph)
            && r.wind_direction_cdeg == Some(w.wind_direction_cdeg)),
        (weather is Err ==> r.temperature_cf is None && r.humidity_pct is None && r.wind_speed_cmph
            is None && r.wind_direction_cdeg is None),
        (match (air, weather) {
            (Ok(_), Ok(_)) => r.error is None,
            (Err(ae), Ok(_)) => r.error matches Some(m) && m@ == aq_failure_message(ae),
            (Ok(_), Err(we)) => r.error matches Some(m) && m@ == weather_failure_message(we),
            (Err(ae), Err(we)) => r.error matches Some(m) && m@ == both_failure_message(ae, we),
        }),
{
    match (air, weather) {
        (Ok(a), Ok(w)) => StatusResponse {
            aqi: Some(a.aqi),
            aqi_category: Some(a.category),
            temperature_cf: Some(w.temperature_cf),
            humidity_pct: Some(w.humidity_pct),
            wind_speed_cmph: Some(w.wind_speed_cmph),
            wind_direction_cdeg: Some(w.wind_direction_cdeg),
            error: None,
        },
        (Err(ae), Ok(w)) => StatusResponse {
            aqi: None,
            aqi_category: None,
            temperature_cf: Some(w.temperature_cf),
            humidity_pct: Some(w.humidity_pct),
            wind_speed_cmph: Some(w.wind_speed_cmph),
            wind_direction_cdeg: Some(w.wind_direction_cdeg),
            error: Some(aq_failure_text(&ae)),
        },
        (Ok(a), Err(we)) => StatusResponse {
            aqi: Some(a.aqi),
            aqi_category: Some(a.category),
            temperature_cf: None,
            humidity_pct: None,
            wind_speed_cmph: None,
            wind_direction_cdeg: None,
            error: Some(weather_failure_text(&we)),
        },
        (Err(ae), Err(we)) => StatusResponse {
            aqi: None,
            aqi_category: None,
            temperature_cf: None,
            humidity_pct: None,
            wind_speed_cmph: None,
            wind_direction_cdeg: None,
            error: Some(both_failure_text(&ae, &we)),
        },
    }
}

/// The risk prediction response: either the full payload or an error with
/// the echoed location, never a partial result.
#[derive(Debug, Clone, PartialEq)]
pub struct RiskResponse {
    pub location: LocationSection,
    pub probability_ppm: Option<u32>,
    pub level: Option<String>,
    pub description: Option<String>,
    pub weather: Option<WeatherData>,
    pub model_inputs: Option<RiskFeatures>,
    pub error: Option<String>,
    pub timestamp: String,
}

/// First stage of the risk pipeline: a fetched observation becomes the
/// feature vector; a failed fetch short-circuits with its cause.
pub fn risk_features_stage(weather: Result<WeatherData, ClientError>) -> (r: Result<
    RiskFeatures,
    ClientError,
>)
    requires
        (weather matches Ok(w) ==> weather_wf(w)),
    ensures
        (weather matches Ok(w) ==> r == Ok::<RiskFeatures, ClientError>(spec_derive_features(w))),
        (weather matches Err(e) ==> r == Err::<RiskFeatures, ClientError>(e)),
{
    match weather {
        Ok(w) => Ok(derive_features(&w)),
        Err(e) => Err(e),
    }
}

/// Assembles the full risk payload: the probability, its tier's level
/// label and description, the observed weather and the model inputs.
pub fn risk_success_response(
    latitude_udeg: i64,
    longitude_udeg: i64,
    weather: WeatherData,
    model_inputs: RiskFeatures,
    probability_ppm: u32,
) -> (r: RiskResponse)
    ensures
        r.location.latitude_udeg == latitude_udeg,
        r.location.longitude_udeg == longitude_udeg,
        r.probability_ppm == Some(probability_ppm),
        (r.level matches Some(l) && l@ == spec_risk_tier(probability_ppm as int).spec_level_name()),
        (r.description matches Some(d) && d@ == spec_risk_description(
            spec_risk_tier(probability_ppm as int).spec_level_name(),
        )),
        r.weather == Some(weather),
        r.model_inputs == Some(model_inputs),
        r.error is None,
{
    let tier = risk_tier(probability_ppm);
    let level = tier.level_name();
    let description = get_risk_description(level.as_str());
    RiskResponse {
        location: LocationSection { latitude_udeg, longitude_udeg },
        probability_ppm: Some(probability_ppm),
        level: Some(level),
        description: Some(description),
        weather: Some(weather),
        model_inputs: Some(model_inputs),
        error: None,
        timestamp: now_rfc3339(),
    }
}

/// Assembles the short-circuited risk response: the error and the echoed
/// location, with no partial payload.
pub fn risk_failure_response(latitude_udeg: i64, longitude_udeg: i64, message: String) -> (r:
    RiskResponse)
    ensures
        r.location.latitude_udeg == latitude_udeg,
        r.location.longitude_udeg == longitude_udeg,
        r.probability_ppm is None,
        r.level is None,
        r.description is None,
        r.weather is None,
        r.model_inputs is None,
        (r.error matches Some(m) && m@ == message@),
{
    RiskResponse {
        location: LocationSection { latitude_udeg, longitude_udeg },
        probability_ppm: None,
        level: None,
        description: None,
        weather: None,
        model_inputs: None,
        error: Some(message),
        timestamp: now_rfc3339(),
    }
}

} // verus!
