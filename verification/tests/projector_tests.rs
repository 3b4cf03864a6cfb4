use gpx_kalman::gpx_reader::GpxPoint;
use gpx_kalman::gpx_to_4d::{convert, Point4D};

fn fix(lat_nano: i64, lon_nano: i64, ele_nano: i64, time_s: i64) -> GpxPoint {
    GpxPoint {
        lat_nano,
        lon_nano,
        elevation_nano: Some(ele_nano),
        time_s: Some(time_s),
        heart_rate: None,
        cadence: None,
    }
}

const LAT: i64 = 44_470_588_000;
const LON: i64 = 26_114_664_000;
const ELE: i64 = 76_100_000_000;
const T0: i64 = 1_692_895_798;

#[test]
fn anchor_becomes_the_origin() {
    let points = vec![
        fix(LAT, LON, ELE, T0),
        fix(LAT + 1_000_000, LON, ELE, T0 + 10),
    ];
    let out = convert(points);
    assert_eq!(out.len(), 2);
    assert_eq!(out[0], Point4D { x_mm: 0, y_mm: 0, z_mm: 0, secs: 0 });
}

#[test]
fn single_fix_projects_to_the_origin_alone() {
    let out = convert(vec![fix(LAT, LON, ELE, T0)]);
    assert_eq!(out.len(), 1);
    assert_eq!(out[0], Point4D { x_mm: 0, y_mm: 0, z_mm: 0, secs: 0 });
}

#[test]
fn empty_input_projects_to_nothing() {
    let out = convert(Vec::new());
    assert_eq!(out.len(), 0);
}

#[test]
fn elapsed_seconds_are_exact_and_monotone() {
    let points = vec![
        fix(LAT, LON, ELE, T0),
        fix(LAT + 100_000, LON, ELE, T0 + 10),
        fix(LAT + 200_000, LON, ELE, T0 + 25),
        fix(LAT + 300_000, LON, ELE, T0 + 25),
    ];
    let out = convert(points);
    let secs: Vec<i64> = out.iter().map(|p| p.secs).collect();
    assert_eq!(secs, vec![0, 10, 25, 25]);
    for w in secs.windows(2) {
        assert!(w[0] <= w[1]);
    }
}

#[test]
fn a_step_north_in_latitude_is_a_northward_offset() {
    // One thousandth of a degree of latitude is close to 111 meters north.
    let points = vec![
        fix(LAT, LON, ELE, T0),
        fix(LAT + 1_000_000, LON, ELE, T0 + 1),
    ];
    let out = convert(points);
    let p = out[1];
    assert!(p.y_mm > 100_000 && p.y_mm < 120_000, "north {} mm", p.y_mm);
    assert!(p.x_mm.abs() < 2_000, "east {} mm", p.x_mm);
    assert!(p.z_mm.abs() < 2_000, "up {} mm", p.z_mm);
}

#[test]
fn a_step_east_in_longitude_is_an_eastward_offset() {
    // One thousandth of a degree of longitude at this latitude is close to
    // 79 meters east.
    let points = vec![
        fix(LAT, LON, ELE, T0),
        fix(LAT, LON + 1_000_000, ELE, T0 + 1),
    ];
    let out = convert(points);
    let p = out[1];
    assert!(p.x_mm > 70_000 && p.x_mm < 90_000, "east {} mm", p.x_mm);
    assert!(p.y_mm.abs() < 2_000, "north {} mm", p.y_mm);
}

#[test]
fn a_climb_is_an_upward_offset() {
    let points = vec![
        fix(LAT, LON, ELE, T0),
        fix(LAT, LON, ELE + 10_000_000_000, T0 + 1),
    ];
    let out = convert(points);
    let p = out[1];
    assert!(p.z_mm > 9_000 && p.z_mm < 11_000, "up {} mm", p.z_mm);
    assert!(p.x_mm.abs() < 1_000 && p.y_mm.abs() < 1_000);
}
