use create_kml_file::decimal::parse_decimal_e9;
use create_kml_file::{
    get_azimuth_distance, get_starting_location, parse_bearing_line, run, DirKind, Field,
    TraverseError,
};

#[test]
fn start_record_parses_exactly() {
    let p = get_starting_location("39.603480 -84.151764 POB marker\n").unwrap();
    assert_eq!(p.y(), 39_603_480_000);
    assert_eq!(p.x(), -84_151_764_000);
    assert_eq!(p.name, "POB marker");
}

#[test]
fn start_record_bad_latitude() {
    let e = get_starting_location("abc -84.1 POB").unwrap_err();
    assert_eq!(
        e,
        TraverseError::MalformedRecord { field: Field::Latitude, raw: "abc".to_string() }
    );
}

#[test]
fn start_record_bad_longitude() {
    let e = get_starting_location("39.6 eighty POB").unwrap_err();
    assert_eq!(
        e,
        TraverseError::MalformedRecord { field: Field::Longitude, raw: "eighty".to_string() }
    );
}

#[test]
fn bearing_line_parses_exactly() {
    // S 78°03'13" E at 171.48 ft: azimuth 180° − 78°03'13" = 367007 arcseconds,
    // distance 171.48 ft × 0.3048 = 52.2671040 m exactly.
    let leg = parse_bearing_line("S 78 03 13 E 171.48 Corner 18").unwrap();
    assert_eq!(leg.az_nas, 367_007_000_000_000);
    assert_eq!(leg.dist_m_e13, 522_671_040_000_000);
    assert_eq!(leg.name, "Corner 18");
}

#[test]
fn bearing_line_reparse_is_identical() {
    let a = parse_bearing_line("S 78 03 13 E 171.48 Corner 18").unwrap();
    let b = parse_bearing_line("S 78 03 13 E 171.48 Corner 18").unwrap();
    assert_eq!(a.az_nas, b.az_nas);
    assert_eq!(a.dist_m_e13, b.dist_m_e13);
    assert_eq!(a.name, b.name);
}

#[test]
fn bearing_line_five_fields_is_malformed_distance() {
    // only five fields: the sixth (distance) field is empty and reported
    let e = parse_bearing_line("S 78 03 13 E").unwrap_err();
    assert_eq!(e, TraverseError::MalformedRecord { field: Field::Distance, raw: "".to_string() });
}

#[test]
fn bearing_line_bad_face() {
    let e = parse_bearing_line("Q 1 2 3 E 10 x").unwrap_err();
    assert_eq!(e, TraverseError::InvalidDirection { kind: DirKind::Face, raw: "Q".to_string() });
}

#[test]
fn bearing_line_bad_turn() {
    let e = parse_bearing_line("N 1 2 3 Z 10 x").unwrap_err();
    assert_eq!(e, TraverseError::InvalidDirection { kind: DirKind::Turn, raw: "Z".to_string() });
}

#[test]
fn bearing_line_lowercase_face_rejected() {
    let e = parse_bearing_line("n 1 2 3 E 10 x").unwrap_err();
    assert_eq!(e, TraverseError::InvalidDirection { kind: DirKind::Face, raw: "n".to_string() });
}

#[test]
fn blank_line_is_invalid_face() {
    let e = parse_bearing_line("   ").unwrap_err();
    assert_eq!(e, TraverseError::InvalidDirection { kind: DirKind::Face, raw: "".to_string() });
}

#[test]
fn bearing_file_stops_at_first_bad_line() {
    let lines = vec![
        "N 10 0 0 E 100 c1".to_string(),
        "N 90 0 0 E 100 c2".to_string(),
        "N 90 bad 0 E 100 c3".to_string(),
    ];
    let e = get_azimuth_distance(&lines).unwrap_err();
    assert_eq!(e, TraverseError::MalformedRecord { field: Field::Minutes, raw: "bad".to_string() });
}

#[test]
fn bearing_file_parses_all_lines_in_order() {
    let lines = vec!["N 10 0 0 E 100 c1".to_string(), "S 0 0 0 E 50 c2".to_string()];
    let legs = get_azimuth_distance(&lines).unwrap();
    assert_eq!(legs.len(), 2);
    assert_eq!(legs[0].az_nas, 36_000_000_000_000);
    assert_eq!(legs[0].name, "c1");
    assert_eq!(legs[1].az_nas, 648_000_000_000_000);
    assert_eq!(legs[1].name, "c2");
}

#[test]
fn run_combines_start_and_legs() {
    let lines = vec!["N 0 0 0 E 100 c1".to_string()];
    let parcel = run("1.5 -2.25 Origin stone", &lines).unwrap();
    assert_eq!(parcel.start.y(), 1_500_000_000);
    assert_eq!(parcel.start.x(), -2_250_000_000);
    assert_eq!(parcel.start.name, "Origin stone");
    assert_eq!(parcel.legs.len(), 1);
    assert_eq!(parcel.legs[0].az_nas, 0);
    // 100 ft = 30.48 m exactly
    assert_eq!(parcel.legs[0].dist_m_e13, 304_800_000_000_000);
}

#[test]
fn run_reports_start_failure_first() {
    let lines = vec!["Q 0 0 0 E 100 c1".to_string()];
    let e = run("bad -2.25 Origin", &lines).unwrap_err();
    assert_eq!(e, TraverseError::MalformedRecord { field: Field::Latitude, raw: "bad".to_string() });
}

#[test]
fn decimal_accepted_forms() {
    assert_eq!(parse_decimal_e9("12"), Some(12_000_000_000));
    assert_eq!(parse_decimal_e9("+12.5"), Some(12_500_000_000));
    assert_eq!(parse_decimal_e9("-0.000000001"), Some(-1));
    assert_eq!(parse_decimal_e9("1."), Some(1_000_000_000));
    assert_eq!(parse_decimal_e9(".5"), Some(500_000_000));
    assert_eq!(parse_decimal_e9("-.5"), Some(-500_000_000));
    assert_eq!(parse_decimal_e9("0000171.48"), Some(171_480_000_000));
    assert_eq!(parse_decimal_e9("1000000"), Some(1_000_000_000_000_000));
}

#[test]
fn decimal_rejected_forms() {
    assert_eq!(parse_decimal_e9(""), None);
    assert_eq!(parse_decimal_e9("+"), None);
    assert_eq!(parse_decimal_e9("."), None);
    assert_eq!(parse_decimal_e9("1e5"), None);
    assert_eq!(parse_decimal_e9("inf"), None);
    assert_eq!(parse_decimal_e9("1.0000000001"), None);
    assert_eq!(parse_decimal_e9("1000001"), None);
    assert_eq!(parse_decimal_e9("12a"), None);
    assert_eq!(parse_decimal_e9("1-2"), None);
    assert_eq!(parse_decimal_e9("1.2.3"), None);
}
