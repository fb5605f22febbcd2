//! Geometry of the sensor queries: the inclusive bounding-box predicate and
//! an integer model of geodesic distance.
//!
//! Distances are compared as squared metres. The east-west metre length of a
//! microdegree shrinks with latitude; the scale factor is a rational cosine
//! approximation (Bhaskara's), so distances stay correct away from the
//! equator, unlike a planar treatment of raw coordinates. Longitude
//! differences are taken arithmetically; spans across the antimeridian are
//! not folded.
use vstd::prelude::*;

verus! {

/// Metres per degree of latitude on the reference ellipsoid, rounded.
pub const METERS_PER_DEGREE: u64 = 111_320;

/// An axis-aligned latitude/longitude rectangle, in microdegrees.
/// Callers are expected to supply min <= max on each axis; a violated
/// expectation yields an empty query result, never a failure.
#[derive(Clone, Copy, PartialEq, Eq, Structural, Debug)]
pub struct GeoBoundingBox {
    pub min_lat_udeg: i64,
    pub min_lon_udeg: i64,
    pub max_lat_udeg: i64,
    pub max_lon_udeg: i64,
}

/// A point lies in a box when each coordinate lies between the bounds,
/// boundary included.
pub open spec fn in_box(b: GeoBoundingBox, lat_udeg: i64, lon_udeg: i64) -> bool {
    b.min_lat_udeg <= lat_udeg <= b.max_lat_udeg && b.min_lon_udeg <= lon_udeg <= b.max_lon_udeg
}

/// Decides the inclusive bounding-box predicate.
pub fn point_in_box(b: &GeoBoundingBox, lat_udeg: i64, lon_udeg: i64) -> (r: bool)
    ensures
        r == in_box(*b, lat_udeg, lon_udeg),
{
    b.min_lat_udeg <= lat_udeg && lat_udeg <= b.max_lat_udeg && b.min_lon_udeg <= lon_udeg
        && lon_udeg <= b.max_lon_udeg
}

/// Absolute value.
pub open spec fn abs_spec(a: int) -> int {
    if a >= 0 {
        a
    } else {
        -a
    }
}

/// Absolute difference.
pub open spec fn abs_diff(a: int, b: int) -> int {
    if a >= b {
        a - b
    } else {
        b - a
    }
}

/// Cosine of an angle given in whole degrees, scaled by 1000, by Bhaskara's
/// rational approximation: cos x ~ 4y / (40500 - y) with y = 8100 - x^2.
pub open spec fn spec_cos_milli(deg: int) -> int
    recommends
        0 <= deg <= 90,
{
    (4000 * (8100 - deg * deg)) / (40500 - (8100 - deg * deg))
}

/// Computes `spec_cos_milli`; the result never exceeds the scale.
pub fn cos_milli(deg: u64) -> (r: u64)
    requires
        deg <= 90,
    ensures
        r == spec_cos_milli(deg as int),
        r <= 1000,
{
    proof {
        assert(deg * deg <= 8100) by (nonlinear_arith)
            requires
                deg <= 90,
        ;
    }
    let y: u64 = 8100 - deg * deg;
    let r: u64 = (4000 * y) / (40500 - y);
    proof {
        assert(r <= 1000) by (nonlinear_arith)
            requires
                r == (4000 * y) / (40500 - y),
                4000 * y <= 32_400_000,
                32400 <= 40500 - y <= 40500,
        ;
    }
    r
}

/// Midpoint latitude in whole degrees, used to scale east-west extent.
pub open spec fn spec_mid_lat_deg(lat_a: int, lat_b: int) -> int {
    abs_spec(lat_a + lat_b) / 2 / 1_000_000
}

/// North-south separation in metres (truncated).
pub open spec fn spec_lat_meters(lat_a: int, lat_b: int) -> int {
    abs_diff(lat_a, lat_b) * METERS_PER_DEGREE / 1_000_000
}

/// East-west separation in metres (truncated), scaled by the cosine of the
/// midpoint latitude.
pub open spec fn spec_lon_meters(lat_a: int, lat_b: int, lon_a: int, lon_b: int) -> int {
    abs_diff(lon_a, lon_b) * METERS_PER_DEGREE * spec_cos_milli(spec_mid_lat_deg(lat_a, lat_b))
        / 1_000_000_000
}

/// Squared distance in metres between two points, the model every radius
/// comparison and every nearest-first ordering is stated against.
pub open spec fn spec_dist_sq_m(lat_a: int, lon_a: int, lat_b: int, lon_b: int) -> int {
    spec_lat_meters(lat_a, lat_b) * spec_lat_meters(lat_a, lat_b) + spec_lon_meters(
        lat_a,
        lat_b,
        lon_a,
        lon_b,
    ) * spec_lon_meters(lat_a, lat_b, lon_a, lon_b)
}

/// Computes `spec_dist_sq_m` for valid coordinates.
pub fn dist_sq_m(lat_a: i64, lon_a: i64, lat_b: i64, lon_b: i64) -> (r: u64)
    requires
        crate::valid_lat_udeg(lat_a),
        crate::valid_lon_udeg(lon_a),
        crate::valid_lat_udeg(lat_b),
        crate::valid_lon_udeg(lon_b),
    ensures
        r == spec_dist_sq_m(lat_a as int, lon_a as int, lat_b as int, lon_b as int),
{
    let dlat: u64 = if lat_a >= lat_b {
        (lat_a - lat_b) as u64
    } else {
        (lat_b - lat_a) as u64
    };
    let dlon: u64 = if lon_a >= lon_b {
        (lon_a - lon_b) as u64
    } else {
        (lon_b - lon_a) as u64
    };
    let lat_sum: i64 = lat_a + lat_b;
    let sum_abs: u64 = if lat_sum >= 0 {
        lat_sum as u64
    } else {
        (-lat_sum) as u64
    };
    let mid_deg: u64 = sum_abs / 2 / 1_000_000;
    proof {
        assert(sum_abs / 2 <= 90_000_000) by (nonlinear_arith)
            requires
                sum_abs <= 180_000_000,
        ;
        assert(mid_deg <= 90) by (nonlinear_arith)
            requires
                mid_deg == sum_abs / 2 / 1_000_000,
                sum_abs / 2 <= 90_000_000,
        ;
    }
    let cosm: u64 = cos_milli(mid_deg);
    proof {
        assert(dlat * METERS_PER_DEGREE <= 180_000_000 * 111_320) by (nonlinear_arith)
            requires
                dlat <= 180_000_000,
        ;
        assert(dlon * METERS_PER_DEGREE <= 360_000_000 * 111_320) by (nonlinear_arith)
            requires
                dlon <= 360_000_000,
        ;
    }
    let dy: u64 = dlat * METERS_PER_DEGREE / 1_000_000;
    let dx_wide: u64 = dlon * METERS_PER_DEGREE;
    proof {
        assert(dx_wide * cosm <= 40_075_200_000_000 * 1000) by (nonlinear_arith)
            requires
                dx_wide <= 40_075_200_000_000,
                cosm <= 1000,
        ;
    }
    let dx: u64 = dx_wide * cosm / 1_000_000_000;
    proof {
        assert(dy <= 20_037_600) by (nonlinear_arith)
            requires
                dy == dlat * 111_320 as int / 1_000_000,
                dlat * 111_320 <= 20_037_600_000_000,
        ;
        assert(dx <= 40_075_200) by (nonlinear_arith)
            requires
                dx == dx_wide * cosm / 1_000_000_000,
                dx_wide * cosm <= 40_075_200_000_000_000,
        ;
        assert(dy * dy + dx * dx <= 20_037_600 * 20_037_600 + 40_075_200 * 40_075_200)
            by (nonlinear_arith)
            requires
                dy <= 20_037_600,
                dx <= 40_075_200,
        ;
    }
    dy * dy + dx * dx
}

} // verus!
