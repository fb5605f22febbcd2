//! The sensor store: an in-memory geospatial table of sensor rows with the
//! query contracts of the service — membership by inclusive bounding box,
//! proximity by squared-metre distance with a nearest-first ordering, an
//! unconditional listing ordered by display name, and an insert that assigns
//! sequential identities and writes the location as textual point data
//! (longitude first).
use crate::geo::GeoBoundingBox;
use crate::geo::dist_sq_m;
use crate::geo::in_box;
use crate::geo::spec_dist_sq_m;
use crate::models::NewSensor;
use crate::models::Sensor;
use crate::models::SensorLocation;
use crate::models::locations_of;
use crate::models::spec_sensor_location;
use crate::text::lemma_lex_le_total;
use crate::text::lemma_lex_le_trans;
use crate::text::lex_le;
use crate::text::str_lex_le;
use crate::wkt::format_point_wkt;
use crate::wkt::parse_point_wkt;
use crate::wkt::point_wkt_chars;
use vstd::prelude::*;

verus! {

/// Reads a row's location view without consuming the row.
pub fn sensor_location_of(s: &Sensor) -> (r: SensorLocation)
    ensures
        r == spec_sensor_location(*s),
{
    let (lon, lat): (i64, i64) = match &s.location {
        Some(l) => parse_point_wkt(l.as_str()),
        None => (0i64, 0i64),
    };
    SensorLocation {
        id: s.id,
        name: s.name.clone(),
        data_source: s.data_source.clone(),
        latitude_udeg: lat,
        longitude_udeg: lon,
    }
}

/// Ascending display-name order.
pub open spec fn sorted_by_name(s: Seq<SensorLocation>) -> bool {
    forall|i: int, j: int|
        #![trigger s[i], s[j]]
        0 <= i < j < s.len() ==> lex_le(s[i].name@, s[j].name@)
}

/// Both coordinates of the view lie in the coordinate domain.
pub open spec fn sl_valid(sl: SensorLocation) -> bool {
    crate::valid_lat_udeg(sl.latitude_udeg) && crate::valid_lon_udeg(sl.longitude_udeg)
}

/// Squared-metre distance of a view from a centre point.
pub open spec fn dist_key(clat: int, clon: int, sl: SensorLocation) -> int {
    spec_dist_sq_m(clat, clon, sl.latitude_udeg as int, sl.longitude_udeg as int)
}

/// Nearest-first order from a centre point.
pub open spec fn sorted_by_distance(s: Seq<SensorLocation>, clat: int, clon: int) -> bool {
    forall|i: int, j: int|
        #![trigger s[i], s[j]]
        0 <= i < j < s.len() ==> dist_key(clat, clon, s[i]) <= dist_key(clat, clon, s[j])
}

/// A view is within the radius: its coordinates are in the coordinate
/// domain and its squared distance is at most the squared radius in metres.
/// A row whose parsed location lies outside the domain is never near.
pub open spec fn near_ok(clat: int, clon: int, radius_km: int, sl: SensorLocation) -> bool {
    sl_valid(sl) && dist_key(clat, clon, sl) <= (radius_km * 1000) * (radius_km * 1000)
}

/// The views of the rows inside the box, in row order.
pub open spec fn in_bounds_locations(ss: Seq<Sensor>, b: GeoBoundingBox) -> Seq<SensorLocation> {
    locations_of(ss).filter(
        |sl: SensorLocation| in_box(b, sl.latitude_udeg, sl.longitude_udeg),
    )
}

/// The views of the rows within the radius, in row order.
pub open spec fn near_locations(ss: Seq<Sensor>, clat: int, clon: int, radius_km: int) -> Seq<
    SensorLocation,
> {
    locations_of(ss).filter(|sl: SensorLocation| near_ok(clat, clon, radius_km, sl))
}

/// One filter step: filtering a sequence extended by one element.
pub proof fn lemma_filter_push<A>(s: Seq<A>, pred: spec_fn(A) -> bool, x: A)
    ensures
        s.push(x).filter(pred) == if pred(x) {
            s.filter(pred).push(x)
        } else {
            s.filter(pred)
        },
{
    reveal(Seq::filter);
    assert(s.push(x).drop_last() =~= s);
    assert(s.push(x).last() == x);
}

/// Finds an index of a name none of the others precedes.
#[verifier::loop_isolation(false)]
fn min_name_index(v: &Vec<SensorLocation>) -> (m: usize)
    requires
        v@.len() > 0,
    ensures
        m < v@.len(),
        forall|q: int| 0 <= q < v@.len() ==> lex_le(v@[m as int].name@, (#[trigger] v@[q]).name@),
{
    let mut m: usize = 0;
    let mut k: usize = 1;
    proof {
        lemma_lex_le_total(v@[0].name@, v@[0].name@);
    }
    while k < v.len()
        invariant
            0 <= m < k <= v@.len(),
            forall|q: int| 0 <= q < k ==> lex_le(v@[m as int].name@, (#[trigger] v@[q]).name@),
        decreases v@.len() - k,
    {
        if str_lex_le(v[k].name.as_str(), v[m].name.as_str()) {
            proof {
                lemma_lex_le_total(v@[k as int].name@, v@[k as int].name@);
                assert forall|q: int| 0 <= q < k + 1 implies lex_le(
                    v@[k as int].name@,
                    (#[trigger] v@[q]).name@,
                ) by {
                    if q < k {
                        lemma_lex_le_trans(v@[k as int].name@, v@[m as int].name@, v@[q].name@);
                    }
                }
            }
            m = k;
        } else {
            proof {
                lemma_lex_le_total(v@[m as int].name@, v@[k as int].name@);
            }
        }
        k = k + 1;
    }
    m
}

/// Sorts the views into ascending display-name order.
#[verifier::loop_isolation(false)]
#[verifier::rlimit(60)]
pub fn sort_by_name(v: Vec<SensorLocation>) -> (r: Vec<SensorLocation>)
    ensures
        r@.to_multiset() == v@.to_multiset(),
        sorted_by_name(r@),
{
    broadcast use vstd::seq_lib::group_to_multiset_ensures;

    let mut src = v;
    let mut out: Vec<SensorLocation> = Vec::new();
    proof {
        assert(out@.to_multiset().add(src@.to_multiset()) =~= v@.to_multiset());
    }
    while src.len() > 0
        invariant
            out@.to_multiset().add(src@.to_multiset()) == v@.to_multiset(),
            sorted_by_name(out@),
            forall|p: int, q: int|
                #![trigger out@[p], src@[q]]
                0 <= p < out@.len() && 0 <= q < src@.len() ==> lex_le(
                    out@[p].name@,
                    src@[q].name@,
                ),
        decreases src@.len(),
    {
        let m = min_name_index(&src);
        let ghost osrc = src@;
        let ghost oout = out@;
        let x = src.remove(m);
        out.push(x);
        proof {
            assert(osrc.contains(x));
            assert(osrc.to_multiset().count(x) > 0);
            assert(out@.to_multiset().add(src@.to_multiset()) =~= v@.to_multiset());
            assert forall|i: int, j: int|
                #![trigger out@[i], out@[j]]
                0 <= i < j < out@.len() implies lex_le(out@[i].name@, out@[j].name@) by {
                if j < out@.len() - 1 {
                    assert(out@[i] == oout[i] && out@[j] == oout[j]);
                } else {
                    assert(out@[j] == x);
                    if i < oout.len() {
                        assert(out@[i] == oout[i]);
                        assert(lex_le(oout[i].name@, osrc[m as int].name@));
                    }
                }
            }
            assert forall|p: int, q: int|
                #![trigger out@[p], src@[q]]
                0 <= p < out@.len() && 0 <= q < src@.len() implies lex_le(
                out@[p].name@,
                src@[q].name@,
            ) by {
                let qq = if q < m {
                    q
                } else {
                    q + 1
                };
                assert(src@[q] == osrc[qq]);
                if p < oout.len() {
                    assert(out@[p] == oout[p]);
                } else {
                    assert(out@[p] == x);
                    assert(lex_le(osrc[m as int].name@, osrc[qq].name@));
                }
            }
        }
    }
    out
}

/// Finds an index of a view none of the others is nearer than.
#[verifier::loop_isolation(false)]
fn min_distance_index(v: &Vec<SensorLocation>, clat: i64, clon: i64) -> (m: usize)
    requires
        v@.len() > 0,
        crate::valid_lat_udeg(clat),
        crate::valid_lon_udeg(clon),
        forall|i: int| 0 <= i < v@.len() ==> sl_valid(#[trigger] v@[i]),
    ensures
        m < v@.len(),
        forall|q: int|
            0 <= q < v@.len() ==> dist_key(clat as int, clon as int, v@[m as int]) <= dist_key(
                clat as int,
                clon as int,
                #[trigger] v@[q],
            ),
{
    let mut m: usize = 0;
    let mut k: usize = 1;
    let s0 = &v[0];
    let mut best: u64 = dist_sq_m(clat, clon, s0.latitude_udeg, s0.longitude_udeg);
    while k < v.len()
        invariant
            0 <= m < k <= v@.len(),
            best == dist_key(clat as int, clon as int, v@[m as int]),
            forall|q: int|
                0 <= q < k ==> dist_key(clat as int, clon as int, v@[m as int]) <= dist_key(
                    clat as int,
                    clon as int,
                    #[trigger] v@[q],
                ),
        decreases v@.len() - k,
    {
        let sk = &v[k];
        let d = dist_sq_m(clat, clon, sk.latitude_udeg, sk.longitude_udeg);
        if d < best {
            m = k;
            best = d;
        }
        k = k + 1;
    }
    m
}

/// Sorts the views into nearest-first order from a centre point.
#[verifier::loop_isolation(false)]
#[verifier::rlimit(60)]
pub fn sort_by_distance(v: Vec<SensorLocation>, clat: i64, clon: i64) -> (r: Vec<SensorLocation>)
    requires
        crate::valid_lat_udeg(clat),
        crate::valid_lon_udeg(clon),
        forall|i: int| 0 <= i < v@.len() ==> sl_valid(#[trigger] v@[i]),
    ensures
        r@.to_multiset() == v@.to_multiset(),
        sorted_by_distance(r@, clat as int, clon as int),
{
    broadcast use vstd::seq_lib::group_to_multiset_ensures;

    let mut src = v;
    let mut out: Vec<SensorLocation> = Vec::new();
    proof {
        assert(out@.to_multiset().add(src@.to_multiset()) =~= v@.to_multiset());
    }
    while src.len() > 0
        invariant
            out@.to_multiset().add(src@.to_multiset()) == v@.to_multiset(),
            sorted_by_distance(out@, clat as int, clon as int),
            forall|i: int| 0 <= i < src@.len() ==> sl_valid(#[trigger] src@[i]),
            forall|p: int, q: int|
                #![trigger out@[p], src@[q]]
                0 <= p < out@.len() && 0 <= q < src@.len() ==> dist_key(
                    clat as int,
                    clon as int,
                    out@[p],
                ) <= dist_key(clat as int, clon as int, src@[q]),
        decreases src@.len(),
    {
        let m = min_distance_index(&src, clat, clon);
        let ghost osrc = src@;
        let ghost oout = out@;
        let x = src.remove(m);
        out.push(x);
        proof {
            assert(osrc.contains(x));
            assert(osrc.to_multiset().count(x) > 0);
            assert(out@.to_multiset().add(src@.to_multiset()) =~= v@.to_multiset());
            assert forall|i: int, j: int|
                #![trigger out@[i], out@[j]]
                0 <= i < j < out@.len() implies dist_key(clat as int, clon as int, out@[i])
                <= dist_key(clat as int, clon as int, out@[j]) by {
                if j < out@.len() - 1 {
                    assert(out@[i] == oout[i] && out@[j] == oout[j]);
                } else {
                    assert(out@[j] == x);
                    if i < oout.len() {
                        assert(out@[i] == oout[i]);
                        assert(dist_key(clat as int, clon as int, oout[i]) <= dist_key(
                            clat as int,
                            clon as int,
                            osrc[m as int],
                        ));
                    }
                }
            }
            assert forall|p: int, q: int|
                #![trigger out@[p], src@[q]]
                0 <= p < out@.len() && 0 <= q < src@.len() implies dist_key(
                clat as int,
                clon as int,
                out@[p],
            ) <= dist_key(clat as int, clon as int, src@[q]) by {
                let qq = if q < m {
                    q
                } else {
                    q + 1
                };
                assert(src@[q] == osrc[qq]);
                if p < oout.len() {
                    assert(out@[p] == oout[p]);
                } else {
                    assert(out@[p] == x);
                    assert(dist_key(clat as int, clon as int, osrc[m as int]) <= dist_key(
                        clat as int,
                        clon as int,
                        osrc[qq],
                    ));
                }
            }
        }
    }
    out
}

/// The row a successful insert appends: the assigned identity, the given
/// name and source, the location as point text with longitude first, and no
/// timestamps yet.
pub open spec fn inserted_row_matches(row: Sensor, s: NewSensor, id: i32) -> bool {
    &&& row.id == id
    &&& row.name == s.name
    &&& row.data_source == s.data_source
    &&& (row.location matches Some(l) && l@ == point_wkt_chars(
        s.longitude_udeg as int,
        s.latitude_udeg as int,
    ))
    &&& row.created_at is None
    &&& row.updated_at is None
}

/// A row written by an insert reads back to the inserted coordinates: the
/// longitude-first point text round-trips, so the row's location view
/// carries exactly the latitude and longitude that were inserted.
pub proof fn lemma_insert_roundtrip(row: Sensor, s: NewSensor, id: i32)
    requires
        inserted_row_matches(row, s, id),
        crate::valid_lat_udeg(s.latitude_udeg),
        crate::valid_lon_udeg(s.longitude_udeg),
    ensures
        spec_sensor_location(row).latitude_udeg == s.latitude_udeg,
        spec_sensor_location(row).longitude_udeg == s.longitude_udeg,
        spec_sensor_location(row).id == id,
        spec_sensor_location(row).name == s.name,
{
    crate::wkt::lemma_wkt_roundtrip(s.longitude_udeg, s.latitude_udeg);
}

/// After an insert, the listing model holds the new row's view: the views
/// of the extended rows are the old views plus that view, so the full
/// listing contains it.
pub proof fn lemma_insert_visible(rows: Seq<Sensor>, row: Sensor)
    ensures
        locations_of(rows.push(row)) == locations_of(rows).push(spec_sensor_location(row)),
        locations_of(rows.push(row)).contains(spec_sensor_location(row)),
{
    assert(locations_of(rows.push(row)) =~= locations_of(rows).push(spec_sensor_location(row)));
    assert(locations_of(rows.push(row))[rows.len() as int] == spec_sensor_location(row));
}

/// The in-memory geospatial table. Identities are assigned sequentially
/// from one, so row `i` holds id `i + 1`.
pub struct SensorStore {
    sensors: Vec<Sensor>,
    next_id: i32,
}

impl SensorStore {
    /// The stored rows, in insertion order.
    pub closed spec fn rows(&self) -> Seq<Sensor> {
        self.sensors@
    }

    /// The identity the next insert will assign.
    pub closed spec fn next_assigned_id(&self) -> int {
        self.next_id as int
    }

    /// Well-formed: identities are the row positions shifted by one.
    pub closed spec fn wf(&self) -> bool {
        &&& self.next_id as int == self.sensors@.len() + 1
        &&& forall|i: int| 0 <= i < self.sensors@.len() ==> (#[trigger] self.sensors@[i]).id == i
            + 1
    }

    /// An empty store.
    pub fn new() -> (s: Self)
        ensures
            s.wf(),
            s.rows() == Seq::<Sensor>::empty(),
    {
        SensorStore { sensors: Vec::new(), next_id: 1 }
    }

    /// Number of stored rows.
    pub fn get_sensor_count(&self) -> (n: usize)
        ensures
            n == self.rows().len(),
    {
        self.sensors.len()
    }

    /// Inserts a sensor: assigns the next identity and stores the point
    /// with x = longitude, y = latitude.
    pub fn insert_sensor(&mut self, sensor: NewSensor) -> (id: i32)
        requires
            old(self).wf(),
            old(self).rows().len() < 0x7FFF_FFFE,
            crate::valid_lat_udeg(sensor.latitude_udeg),
            crate::valid_lon_udeg(sensor.longitude_udeg),
        ensures
            final(self).wf(),
            final(self).rows().len() == old(self).rows().len() + 1,
            final(self).rows().drop_last() == old(self).rows(),
            id as int == old(self).next_assigned_id(),
            inserted_row_matches(final(self).rows().last(), sensor, id),
    {
        let id = self.next_id;
        let location = format_point_wkt(sensor.longitude_udeg, sensor.latitude_udeg);
        let row = Sensor {
            id,
            name: sensor.name,
            data_source: sensor.data_source,
            location: Some(location),
            created_at: None,
            updated_at: None,
        };
        self.sensors.push(row);
        self.next_id = id + 1;
        proof {
            assert(final(self).rows().drop_last() =~= old(self).rows());
        }
        id
    }

    /// All sensors, ascending by display name.
    #[verifier::loop_isolation(false)]
    pub fn get_all_sensors(&self) -> (r: Vec<SensorLocation>)
        ensures
            r@.to_multiset() == locations_of(self.rows()).to_multiset(),
            sorted_by_name(r@),
    {
        let mut out: Vec<SensorLocation> = Vec::new();
        let mut i: usize = 0;
        proof {
            assert(locations_of(self.rows().take(0)) =~= Seq::<SensorLocation>::empty());
        }
        while i < self.sensors.len()
            invariant
                i <= self.rows().len(),
                out@ == locations_of(self.rows().take(i as int)),
            decreases self.rows().len() - i,
        {
            let sl = sensor_location_of(&self.sensors[i]);
            out.push(sl);
            proof {
                assert(locations_of(self.rows().take(i + 1)) =~= locations_of(
                    self.rows().take(i as int),
                ).push(spec_sensor_location(self.rows()[i as int])));
            }
            i = i + 1;
        }
        proof {
            assert(self.rows().take(self.rows().len() as int) =~= self.rows());
        }
        sort_by_name(out)
    }

    /// The sensors whose point lies in the box, boundary included,
    /// ascending by display name.
    #[verifier::loop_isolation(false)]
    pub fn get_sensors_in_bounds(
        &self,
        min_lat: i64,
        min_lon: i64,
        max_lat: i64,
        max_lon: i64,
    ) -> (r: Vec<SensorLocation>)
        ensures
            r@.to_multiset() == in_bounds_locations(
                self.rows(),
                GeoBoundingBox {
                    min_lat_udeg: min_lat,
                    min_lon_udeg: min_lon,
                    max_lat_udeg: max_lat,
                    max_lon_udeg: max_lon,
                },
            ).to_multiset(),
            sorted_by_name(r@),
    {
        let b = GeoBoundingBox {
            min_lat_udeg: min_lat,
            min_lon_udeg: min_lon,
            max_lat_udeg: max_lat,
            max_lon_udeg: max_lon,
        };
        let mut out: Vec<SensorLocation> = Vec::new();
        let mut i: usize = 0;
        proof {
            reveal(Seq::filter);
            assert(in_bounds_locations(self.rows().take(0), b) =~= Seq::<SensorLocation>::empty());
        }
        while i < self.sensors.len()
            invariant
                i <= self.rows().len(),
                out@ == in_bounds_locations(self.rows().take(i as int), b),
            decreases self.rows().len() - i,
        {
            let sl = sensor_location_of(&self.sensors[i]);
            let keep = crate::geo::point_in_box(&b, sl.latitude_udeg, sl.longitude_udeg);
            proof {
                assert(locations_of(self.rows().take(i + 1)) =~= locations_of(
                    self.rows().take(i as int),
                ).push(spec_sensor_location(self.rows()[i as int])));
                lemma_filter_push(
                    locations_of(self.rows().take(i as int)),
                    |sl: SensorLocation| in_box(b, sl.latitude_udeg, sl.longitude_udeg),
                    spec_sensor_location(self.rows()[i as int]),
                );
            }
            if keep {
                out.push(sl);
            }
            i = i + 1;
        }
        proof {
            assert(self.rows().take(self.rows().len() as int) =~= self.rows());
        }
        sort_by_name(out)
    }

    /// The sensors within the radius of the point, nearest first by
    /// squared-metre distance. The radius is given in kilometres and
    /// converted to metres.
    #[verifier::loop_isolation(false)]
    pub fn get_sensors_near_point(
        &self,
        latitude_udeg: i64,
        longitude_udeg: i64,
        radius_km: u64,
    ) -> (r: Vec<SensorLocation>)
        requires
            crate::valid_lat_udeg(latitude_udeg),
            crate::valid_lon_udeg(longitude_udeg),
            radius_km <= 40_000,
        ensures
            r@.to_multiset() == near_locations(
                self.rows(),
                latitude_udeg as int,
                longitude_udeg as int,
                radius_km as int,
            ).to_multiset(),
            sorted_by_distance(r@, latitude_udeg as int, longitude_udeg as int),
    {
        let radius_m: u64 = radius_km * 1000;
        proof {
            assert(radius_m * radius_m <= 40_000_000 * 40_000_000) by (nonlinear_arith)
                requires
                    radius_m <= 40_000_000,
            ;
        }
        let radius_sq: u64 = radius_m * radius_m;
        let mut out: Vec<SensorLocation> = Vec::new();
        let mut i: usize = 0;
        proof {
            reveal(Seq::filter);
            assert(near_locations(
                self.rows().take(0),
                latitude_udeg as int,
                longitude_udeg as int,
                radius_km as int,
            ) =~= Seq::<SensorLocation>::empty());
        }
        while i < self.sensors.len()
            invariant
                i <= self.rows().len(),
                out@ == near_locations(
                    self.rows().take(i as int),
                    latitude_udeg as int,
                    longitude_udeg as int,
                    radius_km as int,
                ),
            decreases self.rows().len() - i,
        {
            let sl = sensor_location_of(&self.sensors[i]);
            let keep = if crate::is_valid_lat_udeg(sl.latitude_udeg) && crate::is_valid_lon_udeg(
                sl.longitude_udeg,
            ) {
                let d = dist_sq_m(latitude_udeg, longitude_udeg, sl.latitude_udeg, sl.longitude_udeg);
                d <= radius_sq
            } else {
                false
            };
            proof {
                assert(locations_of(self.rows().take(i + 1)) =~= locations_of(
                    self.rows().take(i as int),
                ).push(spec_sensor_location(self.rows()[i as int])));
                lemma_filter_push(
                    locations_of(self.rows().take(i as int)),
                    |sl: SensorLocation| near_ok(
                        latitude_udeg as int,
                        longitude_udeg as int,
                        radius_km as int,
                        sl,
                    ),
                    spec_sensor_location(self.rows()[i as int]),
                );
            }
            if keep {
                out.push(sl);
            }
            i = i + 1;
        }
        proof {
            assert(self.rows().take(self.rows().len() as int) =~= self.rows());
            broadcast use vstd::seq_lib::group_filter_ensures;

            assert forall|i: int| 0 <= i < out@.len() implies sl_valid(#[trigger] out@[i]) by {
                assert(near_ok(
                    latitude_udeg as int,
                    longitude_udeg as int,
                    radius_km as int,
                    out@[i],
                ));
            }
        }
        sort_by_distance(out, latitude_udeg, longitude_udeg)
    }
}

} // verus!
