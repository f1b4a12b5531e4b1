use create_kml_file::{bearing_to_azimuth, FaceDir, TurnDir};

const DEG_NAS: i64 = 3_600_000_000_000;
const FULL_NAS: i64 = 360 * DEG_NAS;

#[test]
fn azimuth_north_east() {
    let az = bearing_to_azimuth(FaceDir::N, 10_000_000_000, 0, 0, TurnDir::E);
    assert_eq!(az, 10 * DEG_NAS);
    assert!(0 <= az && az < FULL_NAS);
}

#[test]
fn azimuth_north_west_wraps_around() {
    // N 10° W must come out as 350°, not −10°
    let az = bearing_to_azimuth(FaceDir::N, 10_000_000_000, 0, 0, TurnDir::W);
    assert_eq!(az, 350 * DEG_NAS);
    assert!(0 <= az && az < FULL_NAS);
}

#[test]
fn azimuth_south_east() {
    let az = bearing_to_azimuth(FaceDir::S, 10_000_000_000, 0, 0, TurnDir::E);
    assert_eq!(az, 170 * DEG_NAS);
    assert!(0 <= az && az < FULL_NAS);
}

#[test]
fn azimuth_south_west() {
    let az = bearing_to_azimuth(FaceDir::S, 10_000_000_000, 0, 0, TurnDir::W);
    assert_eq!(az, 190 * DEG_NAS);
    assert!(0 <= az && az < FULL_NAS);
}

#[test]
fn azimuth_combines_minutes_and_seconds() {
    // 78°03'13" from south toward east: 648000 − 280993 = 367007 arcseconds
    let az = bearing_to_azimuth(FaceDir::S, 78_000_000_000, 3_000_000_000, 13_000_000_000, TurnDir::E);
    assert_eq!(az, 367_007_000_000_000);
}

#[test]
fn azimuth_boundary_values_stay_in_range() {
    // 0° and just under 180° on every face/turn combination
    let faces = [FaceDir::N, FaceDir::S];
    let turns = [TurnDir::E, TurnDir::W];
    let angles: [(i64, i64, i64); 3] = [
        (0, 0, 0),
        (89_000_000_000, 59_000_000_000, 59_000_000_000),
        (179_000_000_000, 59_000_000_000, 59_999_999_999),
    ];
    for f in faces {
        for t in turns {
            for (d, m, s) in angles {
                let az = bearing_to_azimuth(f, d, m, s, t);
                assert!(0 <= az && az < FULL_NAS, "azimuth {} out of range", az);
            }
        }
    }
}
