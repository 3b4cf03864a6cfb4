use gpx_kalman::gpx_to_4d::Point4D;
use gpx_kalman::kalman_filter::kalman_filter;

fn pt(x_mm: i64, y_mm: i64) -> Point4D {
    Point4D { x_mm, y_mm, z_mm: 0, secs: 0 }
}

/// One unit of the micro-scaled tuning parameters.
const ONE: i64 = 1_000_000;

#[test]
fn output_length_equals_input_length() {
    for n in [1usize, 2, 5, 40] {
        let points: Vec<Point4D> = (0..n as i64).map(|i| pt(i * 10, -i * 5)).collect();
        let out = kalman_filter(&points, ONE, ONE);
        assert_eq!(out.len(), points.len());
    }
}

#[test]
fn up_axis_and_elapsed_time_are_zeroed() {
    let points = vec![
        Point4D { x_mm: 1000, y_mm: 2000, z_mm: 777, secs: 5 },
        Point4D { x_mm: 2000, y_mm: 1000, z_mm: 888, secs: 9 },
    ];
    let out = kalman_filter(&points, ONE, ONE);
    for p in &out {
        assert_eq!(p.z_mm, 0);
        assert_eq!(p.secs, 0);
    }
}

#[test]
fn two_point_run_has_exact_fixed_point_values() {
    let points = vec![pt(1000, 2000), pt(2000, 1000)];
    let out = kalman_filter(&points, ONE, ONE);
    // The weak prior leaves the first estimate almost on the measurement;
    // the second pulls toward the second measurement with a little memory.
    assert_eq!(out[0], pt(999, 1998));
    assert_eq!(out[1], pt(1999, 1005));
}

#[test]
fn an_early_point_is_trusted_to_the_measurement() {
    let points = vec![pt(500_000, -250_000)];
    let out = kalman_filter(&points, ONE, ONE);
    // Within a tenth of a percent of the measurement.
    assert!((out[0].x_mm - 500_000).abs() < 500, "x {}", out[0].x_mm);
    assert!((out[0].y_mm + 250_000).abs() < 500, "y {}", out[0].y_mm);
}

fn total_displacement(points: &[Point4D]) -> i64 {
    points
        .windows(2)
        .map(|w| (w[1].x_mm - w[0].x_mm).abs() + (w[1].y_mm - w[0].y_mm).abs())
        .sum()
}

#[test]
fn oscillation_is_damped_when_the_sensor_is_distrusted() {
    // Points flap half a meter around a fixed spot; the sensor is rated a
    // thousand times noisier than the model, so the filtered track must
    // move strictly less than the raw one.
    let eps: i64 = 500;
    let points: Vec<Point4D> = (0..40)
        .map(|i| pt(10_000 + if i % 2 == 0 { eps } else { -eps }, 20_000))
        .collect();
    let out = kalman_filter(&points, 10_000, 10 * ONE);
    assert_eq!(out.len(), points.len());
    let raw = total_displacement(&points);
    let filtered = total_displacement(&out);
    assert!(
        filtered < raw,
        "filtered displacement {} not below raw {}",
        filtered,
        raw
    );
}

#[test]
fn a_constant_acceleration_curve_is_tracked_through_noise() {
    // The model matches the truth exactly, the model uncertainty is tiny
    // and the sensor is distrusted: late filtered points must sit closer
    // to the smooth curve than the noise floor.
    let true_curve: Vec<(i64, i64)> = (0..60).map(|t: i64| (100 * t * t, 50 * t * t)).collect();
    let noisy: Vec<Point4D> = true_curve
        .iter()
        .enumerate()
        .map(|(i, &(x, y))| {
            pt(
                x + ((i as i64 * 7919) % 601) - 300,
                y + ((i as i64 * 4271) % 601) - 300,
            )
        })
        .collect();
    let out = kalman_filter(&noisy, 1_000, 10 * ONE);
    let mut worst: i64 = 0;
    for i in 30..60 {
        let (tx, ty) = true_curve[i];
        worst = worst
            .max((out[i].x_mm - tx).abs())
            .max((out[i].y_mm - ty).abs());
    }
    assert!(worst <= 150, "late residual {} mm", worst);
}
