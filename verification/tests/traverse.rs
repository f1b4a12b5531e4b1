use create_kml_file::{calc_bounds, run, walk_points, Axis, Leg, NamedPoint, TraverseError};
use geo::{Destination, Geodesic, Point};

fn named(x_e9: i64, y_e9: i64, name: &str) -> NamedPoint {
    NamedPoint::new(x_e9, y_e9, name.to_string())
}

/// Walks a parcel's legs with the geodesic formula and assembles the
/// full point sequence in nanodegrees, start included.
fn walk(parcel: &create_kml_file::Parcel) -> Vec<NamedPoint> {
    let mut cur = Point::new(parcel.start.x() as f64 * 1e-9, parcel.start.y() as f64 * 1e-9);
    let mut dests: Vec<Option<(i64, i64)>> = Vec::new();
    for leg in &parcel.legs {
        let az = leg.az_nas as f64 / 3_600_000_000_000.0f64;
        let dist = leg.dist_m_e13 as f64 * 1e-13;
        let dest = Geodesic.destination(cur, az, dist);
        dests.push(Some((to_e9(dest.x()), to_e9(dest.y()))));
        cur = dest;
    }
    walk_points(&parcel.start, &parcel.legs, &dests).unwrap()
}

fn to_e9(v: f64) -> i64 {
    (v * 1e9).round() as i64
}

#[test]
fn closure_gap_under_tolerance_passes() {
    // 9.9e-7 degrees = 990 nanodegrees of closing error on each axis
    let pts = vec![named(0, 0, "start"), named(100, -50, "mid"), named(990, -990, "close")];
    let bounds = calc_bounds(pts).unwrap();
    assert_eq!(bounds.len(), 2);
    assert_eq!(bounds[0].name, "start");
    assert_eq!(bounds[1].name, "mid");
}

#[test]
fn closure_gap_over_tolerance_on_x_fails() {
    // 1.1e-6 degrees = 1100 nanodegrees on the longitude axis
    let pts = vec![named(0, 0, "start"), named(1100, 0, "far")];
    let e = calc_bounds(pts).unwrap_err();
    assert_eq!(e, TraverseError::TraverseDoesNotClose { axis: Axis::X, magnitude_e9: 1100 });
}

#[test]
fn closure_gap_over_tolerance_on_y_fails() {
    let pts = vec![named(0, 0, "start"), named(0, -1100, "far")];
    let e = calc_bounds(pts).unwrap_err();
    assert_eq!(e, TraverseError::TraverseDoesNotClose { axis: Axis::Y, magnitude_e9: 1100 });
}

#[test]
fn closure_exact_boundary_fails() {
    // exactly the tolerance is out: the comparison is strict
    let pts = vec![named(0, 0, "start"), named(1000, 0, "far")];
    let e = calc_bounds(pts).unwrap_err();
    assert_eq!(e, TraverseError::TraverseDoesNotClose { axis: Axis::X, magnitude_e9: 1000 });
}

#[test]
fn single_point_traverse_closes_to_empty() {
    let pts = vec![named(7, 7, "start")];
    let bounds = calc_bounds(pts).unwrap();
    assert_eq!(bounds.len(), 0);
}

#[test]
fn walk_points_reports_first_failed_leg() {
    let start = named(0, 0, "start");
    let legs = vec![
        Leg { az_nas: 0, dist_m_e13: 1, name: "a".to_string() },
        Leg { az_nas: 0, dist_m_e13: 1, name: "b".to_string() },
    ];
    let dests = vec![Some((5, 5)), None];
    let e = walk_points(&start, &legs, &dests).unwrap_err();
    assert_eq!(e, TraverseError::GeodesicComputationFailed { leg: 1 });
}

#[test]
fn walk_points_labels_each_destination() {
    let start = named(1, 2, "start");
    let legs = vec![Leg { az_nas: 7, dist_m_e13: 9, name: "corner".to_string() }];
    let dests = vec![Some((30, 40))];
    let pts = walk_points(&start, &legs, &dests).unwrap();
    assert_eq!(pts.len(), 2);
    assert_eq!(pts[0].name, "start");
    assert_eq!((pts[1].x(), pts[1].y()), (30, 40));
    assert_eq!(pts[1].name, "corner");
}

#[test]
fn geodesic_round_trip_returns_within_nanodegree_tolerance() {
    // A leg and its reciprocal leg bring the point back to the start.
    // The reciprocal of the forward azimuth differs from the true
    // back-azimuth by the meridian convergence over the leg, so the
    // nanodegree tolerance holds for short legs; longer east-heading
    // legs (tens of meters) already drift by a few nanodegrees.
    let p = Point::new(-84.151764, 39.603480);
    let az = 101.94638888888889f64;
    let dist = 10.0f64;
    let out = Geodesic.destination(p, az, dist);
    let back = Geodesic.destination(out, (az + 180.0) % 360.0, dist);
    assert!((back.x() - p.x()).abs() < 1e-9, "lon drift {}", back.x() - p.x());
    assert!((back.y() - p.y()).abs() < 1e-9, "lat drift {}", back.y() - p.y());
}

#[test]
fn single_leg_end_to_end_matches_reference() {
    let lines = vec!["S 78 03 13 E 171.48 Corner18".to_string()];
    let parcel = run("39.603480 -84.151764 POB", &lines).unwrap();
    // azimuth 180° − (78 + 3/60 + 13/3600)° = 101.946388…° exactly in
    // nano-arcseconds, distance 52.2671040 m exactly
    assert_eq!(parcel.legs[0].az_nas, 367_007_000_000_000);
    assert_eq!(parcel.legs[0].dist_m_e13, 522_671_040_000_000);
    let pts = walk(&parcel);
    assert_eq!(pts.len(), 2);
    // reference destination computed independently with Karney's geodesic
    // routines for this azimuth and distance
    let exp_lon = -84.15116876f64;
    let exp_lat = 39.60338287f64;
    let got_lon = pts[1].x() as f64 * 1e-9;
    let got_lat = pts[1].y() as f64 * 1e-9;
    assert!((got_lon - exp_lon).abs() < 1e-6, "lon {:.9} vs {:.9}", got_lon, exp_lon);
    assert!((got_lat - exp_lat).abs() < 1e-6, "lat {:.9} vs {:.9}", got_lat, exp_lat);
}

#[test]
fn four_leg_square_closes_with_four_points() {
    let lines = vec![
        "N 0 0 0 E 100 c1".to_string(),
        "N 90 0 0 E 100 c2".to_string(),
        "S 0 0 0 E 100 c3".to_string(),
        "S 90 0 0 W 100 c4".to_string(),
    ];
    let parcel = run("39.600000 -84.150000 start", &lines).unwrap();
    let pts = walk(&parcel);
    assert_eq!(pts.len(), 5);
    let bounds = calc_bounds(pts).unwrap();
    assert_eq!(bounds.len(), 4);
    assert_eq!(bounds[0].name, "start");
    assert_eq!(bounds[3].name, "c3");
}
