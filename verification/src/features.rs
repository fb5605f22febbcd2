//! Feature derivation: the pure map from a weather observation to the
//! fixed five-element vector the risk classifier consumes.
//!
//! Every feature is in hundredths of its unit. The order — temperature,
//! humidity, wind speed, precipitation, drought index — is part of the
//! model contract and must not change without retraining the model.
//!
//! Precipitation is fixed at zero: no historical precipitation source is
//! wired up yet; a real seven-day feed would replace that constant.
//! The drought index assumes the temperature is already in Fahrenheit,
//! which this crate carries end to end.
use crate::clients::WeatherData;
use crate::clients::weather_wf;
use vstd::prelude::*;

verus! {

/// The classifier's input vector: temperature (hundredths °F), humidity
/// (hundredths of a percent), wind speed (hundredths of mph), seven-day
/// precipitation (hundredths of an inch), drought index (hundredths of a
/// point on a 0–100 scale).
#[derive(Debug, Clone, Copy, PartialEq, Eq, Structural)]
pub struct RiskFeatures {
    pub temperature_cf: i64,
    pub humidity_cpct: i64,
    pub wind_speed_cmph: i64,
    pub precipitation_cin: i64,
    pub drought_index_c: i64,
}

/// Drought index in hundredths: fifty times the sum of the normalised
/// temperature excess over 32 °F and the humidity deficit, clamped to
/// [0, 10000]. The temperature term halves with truncation toward zero.
pub open spec fn spec_drought_index_c(t_cf: int, h: int) -> int {
    let temp_term = if t_cf >= 3200 {
        (t_cf - 3200) / 2
    } else {
        -((3200 - t_cf) / 2)
    };
    let raw = temp_term + 50 * (100 - h);
    if raw < 0 {
        0
    } else if raw > 10000 {
        10000
    } else {
        raw
    }
}

/// Computes the drought index from an observation.
pub fn calculate_drought_index(weather: &WeatherData) -> (r: i64)
    requires
        weather_wf(*weather),
    ensures
        r == spec_drought_index_c(weather.temperature_cf as int, weather.humidity_pct as int),
        0 <= r <= 10000,
{
    let t_cf = weather.temperature_cf;
    let temp_term: i64 = if t_cf >= 3200 {
        ((t_cf - 3200) as u64 / 2) as i64
    } else {
        -((((3200 - t_cf) as u64) / 2) as i64)
    };
    let raw: i64 = temp_term + 50 * (100 - (weather.humidity_pct as i64));
    if raw < 0 {
        0
    } else if raw > 10000 {
        10000
    } else {
        raw
    }
}

/// The derived feature vector of an observation: temperature, humidity and
/// wind speed carried over (humidity rescaled to hundredths), zero
/// precipitation, and the drought index.
pub open spec fn spec_derive_features(w: WeatherData) -> RiskFeatures {
    RiskFeatures {
        temperature_cf: w.temperature_cf,
        humidity_cpct: ((w.humidity_pct as int) * 100) as i64,
        wind_speed_cmph: w.wind_speed_cmph as i64,
        precipitation_cin: 0,
        drought_index_c: spec_drought_index_c(
            w.temperature_cf as int,
            w.humidity_pct as int,
        ) as i64,
    }
}

/// Derives the feature vector; pure, no effects.
pub fn derive_features(weather: &WeatherData) -> (f: RiskFeatures)
    requires
        weather_wf(*weather),
    ensures
        f == spec_derive_features(*weather),
{
    RiskFeatures {
        temperature_cf: weather.temperature_cf,
        humidity_cpct: (weather.humidity_pct as i64) * 100,
        wind_speed_cmph: weather.wind_speed_cmph as i64,
        precipitation_cin: 0,
        drought_index_c: calculate_drought_index(weather),
    }
}

impl RiskFeatures {
    /// The flat vector in the model's fixed order: temperature, humidity,
    /// wind speed, precipitation, drought index.
    pub fn to_vector(&self) -> (v: Vec<i64>)
        ensures
            v@ =~= seq![
                self.temperature_cf,
                self.humidity_cpct,
                self.wind_speed_cmph,
                self.precipitation_cin,
                self.drought_index_c,
            ],
    {
        let mut v: Vec<i64> = Vec::new();
        v.push(self.temperature_cf);
        v.push(self.humidity_cpct);
        v.push(self.wind_speed_cmph);
        v.push(self.precipitation_cin);
        v.push(self.drought_index_c);
        v
    }
}

/// Derivation is deterministic: equal observations yield equal feature
/// vectors.
pub proof fn lemma_features_deterministic(a: WeatherData, b: WeatherData)
    requires
        a == b,
    ensures
        spec_derive_features(a) == spec_derive_features(b),
{
}

/// For every observation in the stated domain, the derived precipitation
/// is exactly zero and the drought index lies in [0, 10000], however
/// extreme the temperature or humidity.
pub proof fn lemma_features_bounds(w: WeatherData)
    requires
        weather_wf(w),
    ensures
        spec_derive_features(w).precipitation_cin == 0,
        0 <= spec_derive_features(w).drought_index_c <= 10000,
{
}

} // verus!
