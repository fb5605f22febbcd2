use helios_core::clients::AirQualityIndex;
use helios_core::clients::ClientError;
use helios_core::clients::WeatherData;
use helios_core::features::derive_features;
use helios_core::models::SensorLocation;
use helios_core::orchestrator::SensorQuery;
use helios_core::orchestrator::StoreError;
use helios_core::orchestrator::environmental_snapshot;
use helios_core::orchestrator::legacy_status;
use helios_core::orchestrator::resolve_coordinates;
use helios_core::orchestrator::risk_failure_response;
use helios_core::orchestrator::risk_features_stage;
use helios_core::orchestrator::risk_success_response;
use helios_core::orchestrator::select_sensor_query;
use helios_core::orchestrator::sensor_listing;
use helios_core::orchestrator::snapshot_area_code;
use helios_core::orchestrator::status_coordinates;
use helios_core::orchestrator::weather_failure_text;
use helios_core::risk::ModelError;
use helios_core::risk::RiskTier;
use helios_core::risk::get_risk_description;
use helios_core::risk::risk_from_distribution;
use helios_core::risk::risk_tier;

fn sample_weather() -> WeatherData {
    WeatherData {
        temperature_cf: 8_800,
        humidity_pct: 35,
        wind_speed_cmph: 1_550,
        wind_direction_cdeg: 22_500,
    }
}

fn sample_air() -> AirQualityIndex {
    AirQualityIndex { aqi: 57, category: "Moderate".to_string() }
}

fn sample_sensor() -> SensorLocation {
    SensorLocation {
        id: 1,
        name: "Bend-NE 27th Street".to_string(),
        data_source: "AirNow".to_string(),
        latitude_udeg: 44_058_200,
        longitude_udeg: -121_276_700,
    }
}

#[test]
fn tier_mapping_partitions_the_unit_interval() {
    assert_eq!(risk_tier(800_000), RiskTier::Extreme);
    assert_eq!(risk_tier(799_990), RiskTier::High);
    assert_eq!(risk_tier(0), RiskTier::Minimal);
    assert_eq!(risk_tier(1_000_000), RiskTier::Extreme);
    assert_eq!(risk_tier(600_000), RiskTier::High);
    assert_eq!(risk_tier(599_999), RiskTier::Moderate);
    assert_eq!(risk_tier(400_000), RiskTier::Moderate);
    assert_eq!(risk_tier(399_999), RiskTier::Low);
    assert_eq!(risk_tier(200_000), RiskTier::Low);
    assert_eq!(risk_tier(199_999), RiskTier::Minimal);
}

#[test]
fn tier_descriptions_cover_each_level_and_a_catch_all() {
    assert!(get_risk_description("EXTREME").starts_with("Extreme fire danger."));
    assert!(get_risk_description("HIGH").starts_with("High fire danger."));
    assert!(get_risk_description("MODERATE").starts_with("Moderate fire danger."));
    assert!(get_risk_description("LOW").starts_with("Low fire danger."));
    assert!(get_risk_description("MINIMAL").starts_with("Minimal fire danger."));
    assert_eq!(
        get_risk_description("SOMETHING ELSE"),
        "Fire risk assessment unavailable."
    );
}

#[test]
fn risk_class_mass_is_read_from_entry_one() {
    assert_eq!(risk_from_distribution(&vec![120_000, 880_000]), Ok(880_000));
    assert_eq!(
        risk_from_distribution(&vec![1_000_000]),
        Err(ModelError::InvalidOutput)
    );
    assert_eq!(
        risk_from_distribution(&vec![0, 1_000_001]),
        Err(ModelError::InvalidOutput)
    );
    assert_eq!(risk_from_distribution(&Vec::new()), Err(ModelError::InvalidOutput));
    assert_eq!(
        ModelError::InferenceFailed("engine gone".to_string()).message(),
        "inference failed: engine gone"
    );
}

#[test]
fn snapshot_degrades_air_quality_and_keeps_weather() {
    let r = environmental_snapshot(
        44_100_000,
        -121_700_000,
        Err(ClientError::Network("boom".to_string())),
        Ok(sample_weather()),
        Ok(vec![sample_sensor()]),
    );
    assert_eq!(r.air_quality.aqi, 0);
    assert_eq!(r.air_quality.category, "Data Unavailable");
    assert_eq!(r.weather, sample_weather());
    assert_eq!(r.location.latitude_udeg, 44_100_000);
    assert_eq!(r.location.longitude_udeg, -121_700_000);
    assert_eq!(r.sensors.len(), 1);
    let message = r.error.expect("the failed fetch must be annotated");
    assert!(message.contains("air quality"));
    assert_eq!(message, "Failed to fetch air quality data: request failed: boom");
}

#[test]
fn snapshot_succeeds_cleanly_when_everything_succeeds() {
    let r = environmental_snapshot(
        44_100_000,
        -121_700_000,
        Ok(sample_air()),
        Ok(sample_weather()),
        Ok(Vec::new()),
    );
    assert_eq!(r.air_quality.aqi, 57);
    assert_eq!(r.air_quality.category, "Moderate");
    assert_eq!(r.air_quality.location, "Altamont, Oregon");
    assert_eq!(r.weather, sample_weather());
    assert!(r.error.is_none());
}

#[test]
fn snapshot_zeroes_weather_on_its_failure() {
    let r = environmental_snapshot(
        44_100_000,
        -121_700_000,
        Ok(sample_air()),
        Err(ClientError::UpstreamStatus(503)),
        Ok(Vec::new()),
    );
    assert_eq!(r.weather.temperature_cf, 0);
    assert_eq!(r.weather.humidity_pct, 0);
    assert_eq!(r.weather.wind_speed_cmph, 0);
    assert_eq!(r.weather.wind_direction_cdeg, 0);
    assert_eq!(
        r.error.expect("the failed fetch must be annotated"),
        "Failed to fetch weather data: request failed with status: 503"
    );
}

#[test]
fn snapshot_reports_both_failures_and_empties_sensors() {
    let r = environmental_snapshot(
        44_100_000,
        -121_700_000,
        Err(ClientError::MissingApiKey),
        Err(ClientError::EmptyResult),
        Err(StoreError::Unavailable("pool exhausted".to_string())),
    );
    assert!(r.sensors.is_empty());
    assert_eq!(
        r.error.expect("both failed fetches must be annotated"),
        "Failed to fetch data - AQI: missing API key, Weather: no data found"
    );
}

#[test]
fn listing_prefers_bounds_over_point_over_all() {
    // both a bounding box and a point supplied: the box wins
    let q = select_sensor_query(
        Some(44_000_000),
        Some(-122_000_000),
        Some(45_000_000),
        Some(-121_000_000),
        Some(44_100_000),
        Some(-121_700_000),
    );
    assert_eq!(
        q,
        SensorQuery::Bounds {
            min_lat_udeg: 44_000_000,
            min_lon_udeg: -122_000_000,
            max_lat_udeg: 45_000_000,
            max_lon_udeg: -121_000_000,
        }
    );
    // an incomplete box falls through to the point
    let q = select_sensor_query(
        Some(44_000_000),
        None,
        Some(45_000_000),
        Some(-121_000_000),
        Some(44_100_000),
        Some(-121_700_000),
    );
    assert_eq!(
        q,
        SensorQuery::Near { latitude_udeg: 44_100_000, longitude_udeg: -121_700_000 }
    );
    // nothing supplied: the unconditional listing
    assert_eq!(select_sensor_query(None, None, None, None, None, None), SensorQuery::All);
}

#[test]
fn listing_reports_count_and_degrades_on_store_failure() {
    let ok = sensor_listing(Ok(vec![sample_sensor()]));
    assert_eq!(ok.count, 1);
    assert_eq!(ok.sensors.len(), 1);
    assert!(ok.error.is_none());

    let failed = sensor_listing(Err(StoreError::Unavailable("connection reset".to_string())));
    assert_eq!(failed.count, 0);
    assert!(failed.sensors.is_empty());
    assert_eq!(
        failed.error.expect("a failed query must be annotated"),
        "Failed to fetch sensors: connection reset"
    );
}

#[test]
fn legacy_status_carries_both_upstreams_with_no_error() {
    let r = legacy_status(Ok(sample_air()), Ok(sample_weather()));
    assert_eq!(r.aqi, Some(57));
    assert_eq!(r.aqi_category, Some("Moderate".to_string()));
    assert_eq!(r.temperature_cf, Some(8_800));
    assert_eq!(r.humidity_pct, Some(35));
    assert_eq!(r.wind_speed_cmph, Some(1_550));
    assert_eq!(r.wind_direction_cdeg, Some(22_500));
    assert!(r.error.is_none());
}

#[test]
fn legacy_status_drops_the_failed_side_and_annotates() {
    let r = legacy_status(Err(ClientError::UpstreamStatus(500)), Ok(sample_weather()));
    assert!(r.aqi.is_none());
    assert!(r.aqi_category.is_none());
    assert_eq!(r.temperature_cf, Some(8_800));
    assert!(r.error.is_some());

    let r = legacy_status(Ok(sample_air()), Err(ClientError::EmptyResult));
    assert_eq!(r.aqi, Some(57));
    assert!(r.temperature_cf.is_none());
    assert_eq!(
        r.error.expect("the failed fetch must be annotated"),
        "Failed to fetch weather data: no data found"
    );
}

#[test]
fn risk_pipeline_short_circuits_on_weather_failure() {
    let staged = risk_features_stage(Err(ClientError::MissingApiKey));
    let e = staged.expect_err("a failed fetch must short-circuit");
    let r = risk_failure_response(44_100_000, -121_700_000, weather_failure_text(&e));
    assert!(r.probability_ppm.is_none());
    assert!(r.level.is_none());
    assert!(r.description.is_none());
    assert!(r.weather.is_none());
    assert!(r.model_inputs.is_none());
    assert_eq!(r.location.latitude_udeg, 44_100_000);
    assert_eq!(
        r.error.expect("the failure must be annotated"),
        "Failed to fetch weather data: missing API key"
    );
}

#[test]
fn risk_pipeline_reports_the_full_payload_on_success() {
    let w = sample_weather();
    let features = risk_features_stage(Ok(w)).expect("a fetched observation derives features");
    assert_eq!(features, derive_features(&w));
    let r = risk_success_response(44_100_000, -121_700_000, w, features, 654_321);
    assert_eq!(r.probability_ppm, Some(654_321));
    assert_eq!(r.level, Some("HIGH".to_string()));
    assert_eq!(
        r.description,
        Some("High fire danger. Exercise extreme caution with any potential ignition sources.".to_string())
    );
    assert_eq!(r.weather, Some(w));
    assert_eq!(r.model_inputs, Some(features));
    assert!(r.error.is_none());
}

#[test]
fn snapshot_defaults_and_fixed_lookups_hold() {
    assert_eq!(resolve_coordinates(None, None), (44_129_200, -121_768_900));
    assert_eq!(
        resolve_coordinates(Some(10_000_000), None),
        (10_000_000, -121_768_900)
    );
    assert_eq!(
        resolve_coordinates(Some(10_000_000), Some(20_000_000)),
        (10_000_000, 20_000_000)
    );
    assert_eq!(snapshot_area_code(), "97601");
    assert_eq!(status_coordinates(), (42_190_000, -121_780_000));
}
