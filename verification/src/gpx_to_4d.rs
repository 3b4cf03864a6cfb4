//! The local projector: fixes become points of a flat tangent frame.
//!
//! The first fix is the anchor. It becomes the frame's origin at time zero;
//! every later fix becomes its east-north-up offset against the anchor, in
//! millimeters, with the elapsed whole seconds since the anchor's instant.
//! A fix without elevation or timestamp leaves the projection undefined, so
//! the whole input must carry both; the caller checks before calling, as
//! the projection owes no partial result.

use vstd::prelude::*;

use crate::gpx_reader::GpxPoint;
use geoconv::{Degrees, Lle, Meters, Wgs84};

verus! {

/// One fix in the local tangent frame: east, north and up offsets in
/// millimeters against the anchor, and whole seconds since the anchor.
#[derive(Debug, Clone, Copy, PartialEq, Eq)]
pub struct Point4D {
    pub x_mm: i64,
    pub y_mm: i64,
    pub z_mm: i64,
    pub secs: i64,
}

impl Point4D {
    /// The anchor's own image: the frame's origin at time zero.
    pub open spec fn spec_origin() -> Point4D {
        Point4D { x_mm: 0, y_mm: 0, z_mm: 0, secs: 0 }
    }

    pub fn origin() -> (p: Point4D)
        ensures
            p == Point4D::spec_origin(),
    {
        Point4D { x_mm: 0, y_mm: 0, z_mm: 0, secs: 0 }
    }
}

/// The east, north and up offsets, in millimeters, of a geodetic position
/// against an anchor position, under the WGS84 tangent-plane transform.
/// Latitudes and longitudes are nano-degrees, elevations nano-meters.
pub uninterp spec fn enu_offset_mm(
    anchor_lat: int,
    anchor_lon: int,
    anchor_ele: int,
    lat: int,
    lon: int,
    ele: int,
) -> (int, int, int);

/// Relies on geoconv: `Lle::<Wgs84>::new` and `Lle::enu_to` give the
/// east-north-up offsets of one position against another, a function of the
/// two positions alone (the platform's floating-point math is taken as
/// fixed). Nano units become floating-point degrees and meters on the way
/// in; meters become whole millimeters on the way out.
#[verifier::external_body]
fn enu_offset_exec(a_lat: i64, a_lon: i64, a_ele: i64, lat: i64, lon: i64, ele: i64) -> (r: (
    i64,
    i64,
    i64,
))
    ensures
        ((r.0 as int, r.1 as int, r.2 as int) == enu_offset_mm(
            a_lat as int,
            a_lon as int,
            a_ele as int,
            lat as int,
            lon as int,
            ele as int,
        )),
{
    let s = Meters::new(1_000_000_000 as _).as_float();
    let f = [a_lat, a_lon, a_ele, lat, lon, ele].map(|v| Meters::new(v as _).as_float() / s);
    let enu = Lle::<Wgs84>::new(Degrees::new(f[0]), Degrees::new(f[1]), Meters::new(f[2])).enu_to(
        &Lle::<Wgs84>::new(Degrees::new(f[3]), Degrees::new(f[4]), Meters::new(f[5])),
    );
    let k = Meters::new(1_000 as _).as_float();
    ((enu.east.as_float() * k) as i64, (enu.north.as_float() * k) as i64, (enu.up.as_float() * k) as i64)
}

/// A fix carries what the projection reads.
pub open spec fn fix_projectable(p: GpxPoint) -> bool {
    p.elevation_nano is Some && p.time_s is Some
}

/// Every fix carries elevation and timestamp, and no fix precedes the
/// anchor or stands further than the clock arithmetic reaches.
pub open spec fn projectable(points: Seq<GpxPoint>) -> bool {
    &&& forall|i: int| 0 <= i < points.len() ==> fix_projectable(#[trigger] points[i])
    &&& forall|i: int|
        0 <= i < points.len() ==> (#[trigger] points[i]).time_s->0 >= points[0].time_s->0
            && points[i].time_s->0 - points[0].time_s->0 <= i64::MAX
}

/// The local-frame image of fix `p` against anchor `a`.
pub open spec fn project_one(a: GpxPoint, p: GpxPoint) -> Point4D {
    let e = enu_offset_mm(
        a.lat_nano as int,
        a.lon_nano as int,
        a.elevation_nano->0 as int,
        p.lat_nano as int,
        p.lon_nano as int,
        p.elevation_nano->0 as int,
    );
    Point4D {
        x_mm: e.0 as i64,
        y_mm: e.1 as i64,
        z_mm: e.2 as i64,
        secs: (p.time_s->0 - a.time_s->0) as i64,
    }
}

/// Project a whole fix sequence into the anchor's local frame.
#[verifier::loop_isolation(false)]
pub fn convert(points: Vec<GpxPoint>) -> (out: Vec<Point4D>)
    requires
        projectable(points@),
    ensures
        out@.len() == points@.len(),
        points@.len() > 0 ==> out@[0] == Point4D::spec_origin(),
        forall|i: int| 1 <= i < points@.len() ==> out@[i] == project_one(points@[0], points@[i]),
{
    let mut out: Vec<Point4D> = Vec::new();
    if points.len() == 0 {
        return out;
    }
    let anchor = points[0];
    let a_ele = anchor.elevation_nano.unwrap();
    let a_time = anchor.time_s.unwrap();
    out.push(Point4D::origin());
    let mut i: usize = 1;
    while i < points.len()
        invariant
            1 <= i <= points@.len(),
            out@.len() == i,
            out@[0] == Point4D::spec_origin(),
            forall|j: int| 1 <= j < i ==> out@[j] == project_one(points@[0], points@[j]),
        decreases points@.len() - i,
    {
        let p = points[i];
        let e = enu_offset_exec(
            anchor.lat_nano,
            anchor.lon_nano,
            a_ele,
            p.lat_nano,
            p.lon_nano,
            p.elevation_nano.unwrap(),
        );
        out.push(Point4D { x_mm: e.0, y_mm: e.1, z_mm: e.2, secs: p.time_s.unwrap() - a_time });
        i = i + 1;
    }
    out
}

/// For chronologically ordered input the projected elapsed seconds start
/// at zero, never go below it, and never decrease along the sequence.
pub proof fn lemma_projection_elapsed_monotone(points: Seq<GpxPoint>, out: Seq<Point4D>)
    requires
        projectable(points),
        out.len() == points.len(),
        points.len() > 0 ==> out[0] == Point4D::spec_origin(),
        forall|i: int| 1 <= i < points.len() ==> out[i] == project_one(points[0], points[i]),
        forall|i: int|
            0 <= i < points.len() - 1 ==> (#[trigger] points[i]).time_s->0 <= points[i
                + 1].time_s->0,
    ensures
        forall|i: int| 0 <= i < out.len() ==> (#[trigger] out[i]).secs >= 0,
        forall|i: int| 0 <= i < out.len() - 1 ==> (#[trigger] out[i]).secs <= out[i + 1].secs,
{
    assert forall|i: int| 0 <= i < out.len() implies (#[trigger] out[i]).secs >= 0 by {
        if i > 0 {
            assert(points[i].time_s->0 >= points[0].time_s->0);
        }
    }
    assert forall|i: int| 0 <= i < out.len() - 1 implies (#[trigger] out[i]).secs <= out[i
        + 1].secs by {
        assert(points[i].time_s->0 <= points[i + 1].time_s->0);
        if i > 0 {
            assert(points[i].time_s->0 >= points[0].time_s->0);
        }
        assert(points[i + 1].time_s->0 - points[0].time_s->0 <= i64::MAX);
    }
}

} // verus!
