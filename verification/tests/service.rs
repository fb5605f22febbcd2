use helios_core::clients::AirNowResponse;
use helios_core::clients::AirQualityIndex;
use helios_core::clients::CategoryInfo;
use helios_core::clients::ClientError;
use helios_core::clients::WeatherData;
use helios_core::clients::first_air_quality;
use helios_core::features::RiskFeatures;
use helios_core::features::calculate_drought_index;
use helios_core::features::derive_features;
use helios_core::geo::GeoBoundingBox;
use helios_core::geo::dist_sq_m;
use helios_core::geo::point_in_box;
use helios_core::models::NewSensor;
use helios_core::models::Sensor;
use helios_core::models::SensorLocation;
use helios_core::store::SensorStore;
use helios_core::wkt::format_point_wkt;
use helios_core::wkt::parse_point_wkt;

fn observation(temp_cf: i64, humidity: u8, wind_cmph: u32, dir_cdeg: u32) -> WeatherData {
    WeatherData {
        temperature_cf: temp_cf,
        humidity_pct: humidity,
        wind_speed_cmph: wind_cmph,
        wind_direction_cdeg: dir_cdeg,
    }
}

fn new_sensor(name: &str, lat_udeg: i64, lon_udeg: i64) -> NewSensor {
    NewSensor {
        name: name.to_string(),
        data_source: "AirNow".to_string(),
        latitude_udeg: lat_udeg,
        longitude_udeg: lon_udeg,
    }
}

#[test]
fn wkt_format_writes_longitude_first() {
    let text = format_point_wkt(-122_603_700, 45_487_100);
    assert_eq!(text, "POINT(-122.603700 45.487100)");
}

#[test]
fn wkt_round_trip_preserves_coordinates() {
    let text = format_point_wkt(-121_276_700, 44_058_200);
    let (lon, lat) = parse_point_wkt(&text);
    assert_eq!(lon, -121_276_700);
    assert_eq!(lat, 44_058_200);
}

#[test]
fn wkt_parse_reads_plain_decimal_points() {
    let (lon, lat) = parse_point_wkt("POINT(-122.6037 45.4871)");
    assert_eq!(lon, -122_603_700);
    assert_eq!(lat, 45_487_100);
}

#[test]
fn wkt_parse_degrades_malformed_tokens_to_zero() {
    assert_eq!(parse_point_wkt("POINT(abc 44.1)"), (0, 44_100_000));
    assert_eq!(parse_point_wkt("POINT(1e5 2.0)"), (0, 2_000_000));
    assert_eq!(parse_point_wkt("POINT(1.2.3 4)"), (0, 4_000_000));
}

#[test]
fn wkt_parse_degrades_missing_tokens_to_origin() {
    assert_eq!(parse_point_wkt(""), (0, 0));
    assert_eq!(parse_point_wkt("POINT()"), (0, 0));
    assert_eq!(parse_point_wkt("POINT(1.5)"), (0, 0));
}

#[test]
fn wkt_parse_tolerates_missing_wrapper_and_extra_spaces() {
    assert_eq!(parse_point_wkt("1.5 -2.25"), (1_500_000, -2_250_000));
    assert_eq!(parse_point_wkt("POINT(  7.000001   -0.5  )"), (7_000_001, -500_000));
}

#[test]
fn wkt_parse_truncates_beyond_six_fraction_digits() {
    assert_eq!(parse_point_wkt("POINT(0.1234567 0.9999999)"), (123_456, 999_999));
}

#[test]
fn wkt_parse_rejects_oversized_integer_part() {
    assert_eq!(parse_point_wkt("POINT(1234567890 1)"), (0, 1_000_000));
}

#[test]
fn bounding_box_membership_is_boundary_inclusive() {
    let b = GeoBoundingBox {
        min_lat_udeg: 44_000_000,
        min_lon_udeg: -122_000_000,
        max_lat_udeg: 45_000_000,
        max_lon_udeg: -121_000_000,
    };
    assert!(point_in_box(&b, 44_000_000, -122_000_000));
    assert!(point_in_box(&b, 45_000_000, -121_000_000));
    assert!(point_in_box(&b, 44_500_000, -121_500_000));
    assert!(!point_in_box(&b, 43_999_999, -121_500_000));
    assert!(!point_in_box(&b, 44_500_000, -120_999_999));
}

#[test]
fn distance_shrinks_east_west_extent_with_latitude() {
    // one degree of longitude at the equator: the full metre length
    let at_equator = dist_sq_m(0, 0, 0, 1_000_000);
    assert_eq!(at_equator, 111_320u64 * 111_320u64);
    // at sixty degrees latitude the rational cosine is exactly one half
    let at_sixty = dist_sq_m(60_000_000, 0, 60_000_000, 1_000_000);
    assert_eq!(at_sixty, 55_660u64 * 55_660u64);
    assert!(at_sixty < at_equator);
}

#[test]
fn insert_then_list_round_trips_coordinates() {
    let mut store = SensorStore::new();
    let id = store.insert_sensor(new_sensor("Bend-NE 27th Street", 44_058_200, -121_276_700));
    assert_eq!(id, 1);
    let all = store.get_all_sensors();
    assert_eq!(all.len(), 1);
    assert_eq!(all[0].id, 1);
    assert_eq!(all[0].name, "Bend-NE 27th Street");
    assert_eq!(all[0].latitude_udeg, 44_058_200);
    assert_eq!(all[0].longitude_udeg, -121_276_700);
}

#[test]
fn insert_assigns_sequential_ids() {
    let mut store = SensorStore::new();
    assert_eq!(store.insert_sensor(new_sensor("a", 1_000_000, 2_000_000)), 1);
    assert_eq!(store.insert_sensor(new_sensor("b", 3_000_000, 4_000_000)), 2);
    assert_eq!(store.insert_sensor(new_sensor("c", 5_000_000, 6_000_000)), 3);
    assert_eq!(store.get_sensor_count(), 3);
}

#[test]
fn all_sensors_are_ordered_by_name() {
    let mut store = SensorStore::new();
    store.insert_sensor(new_sensor("Portland-SE Lafayette", 45_487_100, -122_603_700));
    store.insert_sensor(new_sensor("Bend-NE 27th Street", 44_058_200, -121_276_700));
    store.insert_sensor(new_sensor("Eugene-Amazon Park", 44_046_200, -123_035_100));
    let all = store.get_all_sensors();
    let names: Vec<&str> = all.iter().map(|s| s.name.as_str()).collect();
    assert_eq!(
        names,
        vec!["Bend-NE 27th Street", "Eugene-Amazon Park", "Portland-SE Lafayette"]
    );
}

#[test]
fn sensors_in_bounds_returns_exactly_the_contained() {
    let mut store = SensorStore::new();
    store.insert_sensor(new_sensor("inside", 44_500_000, -121_500_000));
    store.insert_sensor(new_sensor("on-boundary", 45_000_000, -121_000_000));
    store.insert_sensor(new_sensor("outside", 46_000_000, -121_500_000));
    let found = store.get_sensors_in_bounds(44_000_000, -122_000_000, 45_000_000, -121_000_000);
    let names: Vec<&str> = found.iter().map(|s| s.name.as_str()).collect();
    assert_eq!(names, vec!["inside", "on-boundary"]);
}

#[test]
fn sensors_in_bounds_is_empty_on_inverted_bounds() {
    let mut store = SensorStore::new();
    store.insert_sensor(new_sensor("somewhere", 44_500_000, -121_500_000));
    let found = store.get_sensors_in_bounds(45_000_000, -121_000_000, 44_000_000, -122_000_000);
    assert!(found.is_empty());
}

#[test]
fn sensors_near_point_orders_nearest_first_within_radius() {
    let mut store = SensorStore::new();
    // along the equator-adjacent meridian the metre mapping is plain
    store.insert_sensor(new_sensor("far", 0, 600_000)); // about 66.8 km east
    store.insert_sensor(new_sensor("near", 0, 100_000)); // about 11.1 km east
    store.insert_sensor(new_sensor("middle", 0, 300_000)); // about 33.4 km east
    let found = store.get_sensors_near_point(0, 0, 50);
    let names: Vec<&str> = found.iter().map(|s| s.name.as_str()).collect();
    assert_eq!(names, vec!["near", "middle"]);
    // every returned sensor is within the radius in squared metres
    for s in &found {
        let d = dist_sq_m(0, 0, s.latitude_udeg, s.longitude_udeg);
        assert!(d <= 50_000u64 * 50_000u64);
    }
}

#[test]
fn sensors_near_point_ranks_the_centre_row_first() {
    let mut store = SensorStore::new();
    store.insert_sensor(new_sensor("east", 0, 100_000));
    store.insert_sensor(new_sensor("centre", 0, 0));
    let found = store.get_sensors_near_point(0, 0, 50);
    assert_eq!(found.len(), 2);
    assert_eq!(found[0].name, "centre");
    assert_eq!(found[1].name, "east");
}

#[test]
fn location_view_degrades_malformed_row_text() {
    let row = Sensor {
        id: 7,
        name: "broken".to_string(),
        data_source: "AirNow".to_string(),
        location: Some("POINT(not numbers)".to_string()),
        created_at: None,
        updated_at: None,
    };
    let view = SensorLocation::from(row);
    assert_eq!(view.id, 7);
    assert_eq!(view.latitude_udeg, 0);
    assert_eq!(view.longitude_udeg, 0);
}

#[test]
fn location_view_handles_absent_text() {
    let row = Sensor {
        id: 8,
        name: "missing".to_string(),
        data_source: "AirNow".to_string(),
        location: None,
        created_at: None,
        updated_at: None,
    };
    let view = SensorLocation::from(row);
    assert_eq!(view.latitude_udeg, 0);
    assert_eq!(view.longitude_udeg, 0);
}

#[test]
fn feature_derivation_is_deterministic_and_pins_precipitation() {
    let w = observation(9_500, 20, 1_200, 18_000);
    let a = derive_features(&w);
    let b = derive_features(&w);
    assert_eq!(a, b);
    assert_eq!(a.precipitation_cin, 0);
    assert_eq!(a.temperature_cf, 9_500);
    assert_eq!(a.humidity_cpct, 2_000);
    assert_eq!(a.wind_speed_cmph, 1_200);
}

#[test]
fn drought_index_has_exact_value_for_known_input() {
    // 95 degrees Fahrenheit, twenty percent humidity:
    // (9500 - 3200) / 2 + 50 * 80 = 3150 + 4000 = 7150 hundredths
    let w = observation(9_500, 20, 0, 0);
    assert_eq!(calculate_drought_index(&w), 7_150);
}

#[test]
fn drought_index_clamps_at_both_ends() {
    // five hundred degrees clamps to the top of the scale
    let hot = observation(50_000, 10, 0, 0);
    assert_eq!(calculate_drought_index(&hot), 10_000);
    // freezing and saturated air clamps to zero
    let cold = observation(-10_000, 100, 0, 0);
    assert_eq!(calculate_drought_index(&cold), 0);
}

#[test]
fn feature_vector_keeps_the_model_order() {
    let f = RiskFeatures {
        temperature_cf: 1,
        humidity_cpct: 2,
        wind_speed_cmph: 3,
        precipitation_cin: 4,
        drought_index_c: 5,
    };
    assert_eq!(f.to_vector(), vec![1, 2, 3, 4, 5]);
}

#[test]
fn first_air_quality_takes_the_first_record() {
    let records = vec![
        AirNowResponse {
            aqi: 42,
            category: CategoryInfo { number: 1, name: "Good".to_string() },
            date_observed: "2024-07-01".to_string(),
            hour_observed: 14,
            local_time_zone: "PST".to_string(),
            reporting_area: "Klamath Falls".to_string(),
            state_code: "OR".to_string(),
            latitude_udeg: 42_224_900,
            longitude_udeg: -121_781_700,
        },
        AirNowResponse {
            aqi: 99,
            category: CategoryInfo { number: 2, name: "Moderate".to_string() },
            date_observed: "2024-07-01".to_string(),
            hour_observed: 14,
            local_time_zone: "PST".to_string(),
            reporting_area: "Klamath Falls".to_string(),
            state_code: "OR".to_string(),
            latitude_udeg: 42_224_900,
            longitude_udeg: -121_781_700,
        },
    ];
    let got = first_air_quality(records).expect("a record should be found");
    assert_eq!(got, AirQualityIndex { aqi: 42, category: "Good".to_string() });
}

#[test]
fn first_air_quality_reports_an_empty_result_set() {
    assert_eq!(first_air_quality(Vec::new()), Err(ClientError::EmptyResult));
}

#[test]
fn client_error_messages_carry_their_cause() {
    assert_eq!(
        ClientError::UpstreamStatus(404).message(),
        "request failed with status: 404"
    );
    assert_eq!(
        ClientError::Network("connection refused".to_string()).message(),
        "request failed: connection refused"
    );
    assert_eq!(ClientError::MissingApiKey.message(), "missing API key");
    assert_eq!(ClientError::EmptyResult.message(), "no data found");
    assert_eq!(
        ClientError::MalformedResponse("bad json".to_string()).message(),
        "failed to parse response: bad json"
    );
}

#[test]
fn empty_store_lists_nothing() {
    let store = SensorStore::new();
    assert_eq!(store.get_sensor_count(), 0);
    assert!(store.get_all_sensors().is_empty());
    assert!(store
        .get_sensors_in_bounds(-90_000_000, -180_000_000, 90_000_000, 180_000_000)
        .is_empty());
    assert!(store.get_sensors_near_point(0, 0, 40_000).is_empty());
}
