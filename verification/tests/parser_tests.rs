use gpx_kalman::gpx_reader::{parse_gpx, scan_events, GpxEvent, GpxPoint, Warning};

fn single_point_doc() -> &'static str {
    r#"
        <gpx xmlns:gpxtpx="http://www.garmin.com/xmlschemas/TrackPointExtension/v1">
            <trkpt lat="44.4705880" lon="26.1146640">
                <ele>76.1</ele>
                <time>2023-08-24T16:49:58Z</time>
                <extensions>
                    <gpxtpx:TrackPointExtension>
                        <gpxtpx:hr>93</gpxtpx:hr>
                        <gpxtpx:cad>49</gpxtpx:cad>
                    </gpxtpx:TrackPointExtension>
                </extensions>
            </trkpt>
        </gpx>
        "#
}

#[test]
fn test_parse_gpx() {
    let points = parse_gpx(single_point_doc().as_bytes()).points;

    let expected_point = GpxPoint {
        lat_nano: 44_470_588_000,
        lon_nano: 26_114_664_000,
        elevation_nano: Some(76_100_000_000),
        time_s: Some(1_692_895_798),
        heart_rate: Some(93),
        cadence: Some(49),
    };

    assert_eq!(points.len(), 1);
    assert_eq!(points[0], expected_point);
}

#[test]
fn clean_parse_reports_nothing() {
    let out = parse_gpx(single_point_doc().as_bytes());
    assert!(out.warnings.is_empty());
    assert!(!out.coordinate_fault);
    assert!(!out.xml_fault);
}

#[test]
fn heart_rate_outside_extensions_is_ignored() {
    let doc = r#"<gpx>
        <trkpt lat="1.0" lon="2.0">
            <hr>150</hr>
        </trkpt>
    </gpx>"#;
    let out = parse_gpx(doc.as_bytes());
    assert_eq!(out.points.len(), 1);
    assert_eq!(out.points[0].heart_rate, None);
    assert!(out.warnings.contains(&Warning::HeartRateOutsideExtensions));
}

#[test]
fn heart_rate_outside_any_point_is_ignored() {
    let doc = r#"<gpx>
        <hr>150</hr>
        <trkpt lat="1.0" lon="2.0"></trkpt>
    </gpx>"#;
    let out = parse_gpx(doc.as_bytes());
    assert_eq!(out.points.len(), 1);
    assert_eq!(out.points[0].heart_rate, None);
    assert!(out.warnings.contains(&Warning::HeartRateOutsideExtensions));
}

#[test]
fn cadence_outside_extensions_is_ignored() {
    let doc = r#"<gpx><trkpt lat="1" lon="2"><cad>9</cad></trkpt></gpx>"#;
    let out = parse_gpx(doc.as_bytes());
    assert_eq!(out.points[0].cadence, None);
    assert!(out.warnings.contains(&Warning::CadenceOutsideExtensions));
}

#[test]
fn elevation_outside_point_warns() {
    let doc = r#"<gpx><ele>76.1</ele><trkpt lat="1" lon="2"></trkpt></gpx>"#;
    let out = parse_gpx(doc.as_bytes());
    assert_eq!(out.points[0].elevation_nano, None);
    assert!(out.warnings.contains(&Warning::ElevationOutsidePoint));
}

#[test]
fn time_outside_point_passes_in_silence() {
    let doc = r#"<gpx><time>2023-08-24T16:49:58Z</time><trkpt lat="1" lon="2"></trkpt></gpx>"#;
    let out = parse_gpx(doc.as_bytes());
    assert_eq!(out.points.len(), 1);
    assert_eq!(out.points[0].time_s, None);
    assert!(out.warnings.is_empty());
}

#[test]
fn bad_elevation_text_warns_and_leaves_field_unset() {
    let doc = r#"<gpx><trkpt lat="1" lon="2"><ele>tall</ele></trkpt></gpx>"#;
    let out = parse_gpx(doc.as_bytes());
    assert_eq!(out.points.len(), 1);
    assert_eq!(out.points[0].elevation_nano, None);
    assert!(out.warnings.contains(&Warning::BadElevation));
}

#[test]
fn bad_time_text_warns_and_leaves_field_unset() {
    let doc = r#"<gpx><trkpt lat="1" lon="2"><time>yesterday</time></trkpt></gpx>"#;
    let out = parse_gpx(doc.as_bytes());
    assert_eq!(out.points[0].time_s, None);
    assert!(out.warnings.contains(&Warning::BadTime));
}

#[test]
fn bad_heart_rate_text_warns() {
    let doc = r#"<gpx><trkpt lat="1" lon="2"><extensions><hr>fast</hr></extensions></trkpt></gpx>"#;
    let out = parse_gpx(doc.as_bytes());
    assert_eq!(out.points[0].heart_rate, None);
    assert!(out.warnings.contains(&Warning::BadHeartRate));
}

#[test]
fn bad_cadence_text_warns() {
    let doc = r#"<gpx><trkpt lat="1" lon="2"><extensions><cad>slow</cad></extensions></trkpt></gpx>"#;
    let out = parse_gpx(doc.as_bytes());
    assert_eq!(out.points[0].cadence, None);
    assert!(out.warnings.contains(&Warning::BadCadence));
}

#[test]
fn malformed_latitude_is_a_hard_fault() {
    let doc = r#"<gpx><trkpt lat="north" lon="2"></trkpt></gpx>"#;
    let out = parse_gpx(doc.as_bytes());
    assert!(out.coordinate_fault);
}

#[test]
fn malformed_longitude_is_a_hard_fault() {
    let doc = r#"<gpx><trkpt lat="1" lon=""></trkpt></gpx>"#;
    let out = parse_gpx(doc.as_bytes());
    assert!(out.coordinate_fault);
}

fn three_point_doc() -> String {
    let mut doc = String::from("<gpx>");
    for i in 0..3 {
        doc.push_str(&format!(
            r#"<trkpt lat="44.{i}" lon="26.{i}"><ele>7{i}</ele></trkpt>"#
        ));
    }
    doc.push_str("</gpx>");
    doc
}

#[test]
fn truncated_document_keeps_completed_points() {
    let doc = three_point_doc();
    // Cut the text right after the second complete point.
    let second_close = doc.match_indices("</trkpt>").nth(1).unwrap().0 + "</trkpt>".len();
    let cut = &doc[..second_close];
    let out = parse_gpx(cut.as_bytes());
    assert!(out.xml_fault);
    assert_eq!(out.points.len(), 2);
    assert_eq!(out.points[0].lat_nano, 44_000_000_000);
    assert_eq!(out.points[1].lat_nano, 44_100_000_000);
}

#[test]
fn whole_document_yields_all_points() {
    let out = parse_gpx(three_point_doc().as_bytes());
    assert!(!out.xml_fault);
    assert_eq!(out.points.len(), 3);
}

#[test]
fn scan_emits_on_close_only() {
    // An opened but never closed point emits nothing.
    let events = vec![
        GpxEvent::Start(
            b"trkpt".to_vec(),
            vec![(b"lat".to_vec(), b"1.5".to_vec()), (b"lon".to_vec(), b"2.5".to_vec())],
        ),
    ];
    let out = scan_events(&events);
    assert_eq!(out.points.len(), 0);

    let events = vec![
        GpxEvent::Start(
            b"trkpt".to_vec(),
            vec![(b"lat".to_vec(), b"1.5".to_vec()), (b"lon".to_vec(), b"2.5".to_vec())],
        ),
        GpxEvent::End(b"trkpt".to_vec()),
    ];
    let out = scan_events(&events);
    assert_eq!(out.points.len(), 1);
    assert_eq!(out.points[0].lat_nano, 1_500_000_000);
    assert_eq!(out.points[0].lon_nano, 2_500_000_000);
}

#[test]
fn timestamp_parse_is_not_the_text_itself() {
    // The instant comes back as epoch seconds, not as the written digits:
    // one minute later in the text moves the value by exactly sixty.
    let doc_a = r#"<gpx><trkpt lat="1" lon="2"><time>2023-08-24T16:49:58Z</time></trkpt></gpx>"#;
    let doc_b = r#"<gpx><trkpt lat="1" lon="2"><time>2023-08-24T16:50:58Z</time></trkpt></gpx>"#;
    let a = parse_gpx(doc_a.as_bytes()).points[0].time_s.unwrap();
    let b = parse_gpx(doc_b.as_bytes()).points[0].time_s.unwrap();
    assert_eq!(a, 1_692_895_798);
    assert_eq!(b - a, 60);
}

#[test]
fn last_coordinate_attribute_wins() {
    let events = vec![
        GpxEvent::Start(
            b"trkpt".to_vec(),
            vec![
                (b"lat".to_vec(), b"1.0".to_vec()),
                (b"lat".to_vec(), b"3.0".to_vec()),
                (b"lon".to_vec(), b"2.0".to_vec()),
            ],
        ),
        GpxEvent::End(b"trkpt".to_vec()),
    ];
    let out = scan_events(&events);
    assert_eq!(out.points[0].lat_nano, 3_000_000_000);
}

#[test]
fn first_malformed_coordinate_stops_the_scan() {
    let events = vec![
        GpxEvent::Start(b"trkpt".to_vec(), vec![(b"lat".to_vec(), b"bad".to_vec())]),
        GpxEvent::End(b"trkpt".to_vec()),
    ];
    let out = scan_events(&events);
    assert!(out.coordinate_fault);
    assert_eq!(out.points.len(), 0);
}
