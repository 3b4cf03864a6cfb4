use gpx_kalman::gpx_reader::parse_gpx;
use gpx_kalman::gpx_to_4d::{convert, Point4D};
use gpx_kalman::kalman_filter::kalman_filter;

#[test]
fn parse_project_and_smooth_a_whole_track() {
    let mut doc = String::from("<gpx>");
    for i in 0..5 {
        doc.push_str(&format!(
            r#"<trkpt lat="44.47{i}" lon="26.11"><ele>76.1</ele><time>2023-08-24T16:49:5{i}Z</time></trkpt>"#
        ));
    }
    doc.push_str("</gpx>");

    let parsed = parse_gpx(doc.as_bytes());
    assert!(!parsed.coordinate_fault && !parsed.xml_fault);
    assert_eq!(parsed.points.len(), 5);

    let local = convert(parsed.points);
    assert_eq!(local.len(), 5);
    assert_eq!(local[0], Point4D { x_mm: 0, y_mm: 0, z_mm: 0, secs: 0 });
    for (i, p) in local.iter().enumerate() {
        assert_eq!(p.secs, i as i64);
    }
    // Each step of a thousandth of a degree in latitude is close to 111
    // meters of northing.
    for w in local.windows(2) {
        let step = w[1].y_mm - w[0].y_mm;
        assert!(step > 100_000 && step < 120_000, "north step {} mm", step);
    }

    let smoothed = kalman_filter(&local, 1_000_000, 1_000_000);
    assert_eq!(smoothed.len(), local.len());
    for p in &smoothed {
        assert_eq!(p.z_mm, 0);
        assert_eq!(p.secs, 0);
    }
    // The weak prior keeps the early estimates near the measurements.
    assert!((smoothed[0].y_mm - local[0].y_mm).abs() < 2_000);
}
