use vstd::prelude::*;

use crate::bearing::{
    angle_nas, azimuth_nas, bearing_to_azimuth, face_of, turn_of, FaceDir, TurnDir,
};
use crate::decimal::{dec_val_e9, dec_wf, parse_decimal_e9};
use crate::error::{DirKind, Field, TraverseError};
use crate::point::NamedPoint;
use crate::tokenize::{
    lemma_run_len_is, lemma_split_n_len, next_token, rest_after_token, skip_ws, split_n,
    split_whitespace_n, trim_spec, trim_str,
};

verus! {

/// One leg of a traverse as the record reader hands it to the walking
/// collaborator: a navigational azimuth in nano-arcseconds, a distance in
/// units of 1e-13 meters (feet scaled by 1e9 times the exact conversion
/// factor 3048/10000), and the corner's label.
#[derive(Debug)]
pub struct Leg {
    pub az_nas: i64,
    pub dist_m_e13: i64,
    pub name: String,
}

/// A trimmed line carries no leading whitespace, so splitting it skips
/// nothing up front.
proof fn lemma_skip_ws_of_trimmed(s: Seq<char>)
    ensures
        skip_ws(trim_spec(s)) == trim_spec(s),
{
    let t = trim_spec(s);
    crate::tokenize::lemma_run_len_bounds(s, true);
    crate::tokenize::lemma_ws_suffix_le(skip_ws(s));
    if t.len() > 0 {
        assert(t[0] == skip_ws(s)[0]);
        lemma_run_len_is(t, true, 0);
    } else {
        lemma_run_len_is(t, true, 0);
    }
    assert(skip_ws(t) =~= t);
}

/// The seven fields of a bearing/distance record line, in order: face,
/// degrees, minutes, seconds, turn, distance, and the label, which is
/// everything after the first six tokens.
pub open spec fn bearing_toks(line: Seq<char>) -> Seq<Seq<char>> {
    split_n(trim_spec(line), 7)
}

/// Whether a bearing/distance line is well formed: recognized face and
/// turn tokens, and four numeric fields that parse as bounded decimals.
pub open spec fn bearing_line_wf(line: Seq<char>) -> bool {
    let t = bearing_toks(line);
    &&& face_of(t[0]) is Some
    &&& dec_wf(t[1])
    &&& dec_wf(t[2])
    &&& dec_wf(t[3])
    &&& turn_of(t[4]) is Some
    &&& dec_wf(t[5])
}

/// The line's combined angle in nano-arcseconds.
pub open spec fn line_angle_nas(line: Seq<char>) -> int {
    let t = bearing_toks(line);
    angle_nas(dec_val_e9(t[1]), dec_val_e9(t[2]), dec_val_e9(t[3]))
}

/// The line's navigational azimuth in nano-arcseconds.
pub open spec fn line_az_nas(line: Seq<char>) -> int {
    let t = bearing_toks(line);
    azimuth_nas(face_of(t[0]).unwrap(), turn_of(t[4]).unwrap(), line_angle_nas(line))
}

/// The line's distance converted from feet to meters with the exact
/// factor 3048/10000, in units of 1e-13 meters.
pub open spec fn line_dist_m_e13(line: Seq<char>) -> int {
    let t = bearing_toks(line);
    dec_val_e9(t[5]) * 3048
}

/// The line's label: the remainder after the first six tokens.
pub open spec fn line_name(line: Seq<char>) -> Seq<char> {
    bearing_toks(line)[6]
}

/// Which failure a malformed bearing line produces: the fields are checked
/// in order — face, degrees, minutes, seconds, turn, distance — and the
/// first offender is reported together with its raw token.
pub open spec fn bearing_line_err(e: TraverseError, line: Seq<char>) -> bool {
    let t = bearing_toks(line);
    if face_of(t[0]) is None {
        e matches TraverseError::InvalidDirection { kind, raw } && kind == DirKind::Face && raw@
            == t[0]
    } else if !dec_wf(t[1]) {
        e matches TraverseError::MalformedRecord { field, raw } && field == Field::Degrees && raw@
            == t[1]
    } else if !dec_wf(t[2]) {
        e matches TraverseError::MalformedRecord { field, raw } && field == Field::Minutes && raw@
            == t[2]
    } else if !dec_wf(t[3]) {
        e matches TraverseError::MalformedRecord { field, raw } && field == Field::Seconds && raw@
            == t[3]
    } else if turn_of(t[4]) is None {
        e matches TraverseError::InvalidDirection { kind, raw } && kind == DirKind::Turn && raw@
            == t[4]
    } else if !dec_wf(t[5]) {
        e matches TraverseError::MalformedRecord { field, raw } && field == Field::Distance && raw@
            == t[5]
    } else {
        false
    }
}

/// Parses one bearing/distance line — for example
/// `S 78 03 13 E 171.48 Corner 18` — into a leg.  A blank line has an
/// empty face token and is therefore rejected as an invalid direction.
pub fn parse_bearing_line(line: &str) -> (r: Result<Leg, TraverseError>)
    ensures
        r is Ok <==> bearing_line_wf(line@),
        r matches Ok(leg) ==> leg.az_nas == line_az_nas(line@) && leg.dist_m_e13 == line_dist_m_e13(
            line@,
        ) && leg.name@ == line_name(line@),
        r matches Err(e) ==> bearing_line_err(e, line@),
{
    let trimmed = trim_str(line);
    let mut it = split_whitespace_n(trimmed, 7);
    let t0 = it.next().unwrap();
    let t1 = it.next().unwrap();
    let t2 = it.next().unwrap();
    let t3 = it.next().unwrap();
    let t4 = it.next().unwrap();
    let t5 = it.next().unwrap();
    let t6 = it.next().unwrap();
    proof {
        lemma_skip_ws_of_trimmed(line@);
        let s = trim_spec(line@);
        let r1 = rest_after_token(s);
        let r2 = rest_after_token(r1);
        let r3 = rest_after_token(r2);
        let r4 = rest_after_token(r3);
        let r5 = rest_after_token(r4);
        let r6 = rest_after_token(r5);
        lemma_split_n_len(r1, 6nat);
        lemma_split_n_len(r2, 5nat);
        lemma_split_n_len(r3, 4nat);
        lemma_split_n_len(r4, 3nat);
        lemma_split_n_len(r5, 2nat);
        assert(split_n(s, 7nat) == seq![next_token(s)] + split_n(r1, 6nat));
        assert(split_n(r1, 6nat) == seq![next_token(r1)] + split_n(r2, 5nat));
        assert(split_n(r2, 5nat) == seq![next_token(r2)] + split_n(r3, 4nat));
        assert(split_n(r3, 4nat) == seq![next_token(r3)] + split_n(r4, 3nat));
        assert(split_n(r4, 3nat) == seq![next_token(r4)] + split_n(r5, 2nat));
        assert(split_n(r5, 2nat) == seq![next_token(r5)] + split_n(r6, 1nat));
        assert(split_n(r6, 1nat) == seq![r6]);
        assert(bearing_toks(line@)[0] == t0@);
        assert(bearing_toks(line@)[1] == t1@);
        assert(bearing_toks(line@)[2] == t2@);
        assert(bearing_toks(line@)[3] == t3@);
        assert(bearing_toks(line@)[4] == t4@);
        assert(bearing_toks(line@)[5] == t5@);
        assert(bearing_toks(line@)[6] == t6@);
    }
    let face = match FaceDir::from_str(t0) {
        Ok(f) => f,
        Err(e) => {
            return Err(e);
        },
    };
    let deg = match parse_decimal_e9(t1) {
        Some(v) => v,
        None => {
            return Err(TraverseError::MalformedRecord { field: Field::Degrees, raw: t1.to_owned() });
        },
    };
    let min = match parse_decimal_e9(t2) {
        Some(v) => v,
        None => {
            return Err(TraverseError::MalformedRecord { field: Field::Minutes, raw: t2.to_owned() });
        },
    };
    let sec = match parse_decimal_e9(t3) {
        Some(v) => v,
        None => {
            return Err(TraverseError::MalformedRecord { field: Field::Seconds, raw: t3.to_owned() });
        },
    };
    let turn = match TurnDir::from_str(t4) {
        Ok(t) => t,
        Err(e) => {
            return Err(e);
        },
    };
    let dist_ft = match parse_decimal_e9(t5) {
        Some(v) => v,
        None => {
            return Err(
                TraverseError::MalformedRecord { field: Field::Distance, raw: t5.to_owned() },
            );
        },
    };
    let az = bearing_to_azimuth(face, deg, min, sec, turn);
    let dist = dist_ft * 3048;
    Ok(Leg { az_nas: az, dist_m_e13: dist, name: t6.to_owned() })
}

/// Parses every line of a bearing/distance file, one leg per line, in
/// order.  Processing stops at the first malformed line, whose failure is
/// returned.
pub fn get_azimuth_distance(lines: &Vec<String>) -> (r: Result<Vec<Leg>, TraverseError>)
    ensures
        r is Ok <==> (forall|i: int| 0 <= i < lines@.len() ==> bearing_line_wf(lines@[i]@)),
        r matches Ok(legs) ==> legs@.len() == lines@.len() && (forall|i: int|
            0 <= i < lines@.len() ==> (#[trigger] legs@[i]).az_nas == line_az_nas(lines@[i]@)
                && legs@[i].dist_m_e13 == line_dist_m_e13(lines@[i]@) && legs@[i].name@
                == line_name(lines@[i]@)),
        r matches Err(e) ==> (exists|i: int|
            #![auto]
            0 <= i < lines@.len() && !bearing_line_wf(lines@[i]@) && (forall|j: int|
                0 <= j < i ==> bearing_line_wf(lines@[j]@)) && bearing_line_err(e, lines@[i]@)),
{
    let mut legs: Vec<Leg> = Vec::new();
    let mut idx: usize = 0;
    while idx < lines.len()
        invariant
            idx <= lines@.len(),
            legs@.len() == idx,
            forall|j: int| 0 <= j < idx ==> bearing_line_wf(lines@[j]@),
            forall|i: int|
                0 <= i < idx ==> (#[trigger] legs@[i]).az_nas == line_az_nas(lines@[i]@)
                    && legs@[i].dist_m_e13 == line_dist_m_e13(lines@[i]@) && legs@[i].name@
                    == line_name(lines@[i]@),
        decreases lines@.len() - idx,
    {
        match parse_bearing_line(lines[idx].as_str()) {
            Ok(leg) => {
                legs.push(leg);
            },
            Err(e) => {
                return Err(e);
            },
        }
        idx = idx + 1;
    }
    Ok(legs)
}

/// The three fields of a starting-point record: latitude, longitude, and
/// the label, which is everything after the first two tokens.
pub open spec fn start_toks(text: Seq<char>) -> Seq<Seq<char>> {
    split_n(trim_spec(text), 3)
}

/// Whether a starting-point record is well formed: its latitude and
/// longitude parse as bounded decimals.
pub open spec fn start_wf(text: Seq<char>) -> bool {
    &&& dec_wf(start_toks(text)[0])
    &&& dec_wf(start_toks(text)[1])
}

/// The record's latitude in nanodegrees.
pub open spec fn start_lat_e9(text: Seq<char>) -> int {
    dec_val_e9(start_toks(text)[0])
}

/// The record's longitude in nanodegrees.
pub open spec fn start_lon_e9(text: Seq<char>) -> int {
    dec_val_e9(start_toks(text)[1])
}

/// The record's label.
pub open spec fn start_name(text: Seq<char>) -> Seq<char> {
    start_toks(text)[2]
}

/// Which failure a malformed starting-point record produces: latitude is
/// checked before longitude and the first offender reported with its
/// token.
pub open spec fn start_err(e: TraverseError, text: Seq<char>) -> bool {
    let t = start_toks(text);
    if !dec_wf(t[0]) {
        e matches TraverseError::MalformedRecord { field, raw } && field == Field::Latitude && raw@
            == t[0]
    } else if !dec_wf(t[1]) {
        e matches TraverseError::MalformedRecord { field, raw } && field == Field::Longitude
            && raw@ == t[1]
    } else {
        false
    }
}

/// Parses a starting-point record — `<latitude> <longitude> <label>` —
/// into the traverse's first point.  The label may contain embedded
/// whitespace: it is the whole remainder of the trimmed record.
pub fn get_starting_location(text: &str) -> (r: Result<NamedPoint, TraverseError>)
    ensures
        r is Ok <==> start_wf(text@),
        r matches Ok(p) ==> p.x_e9 == start_lon_e9(text@) && p.y_e9 == start_lat_e9(text@)
            && p.name@ == start_name(text@),
        r matches Err(e) ==> start_err(e, text@),
{
    let trimmed = trim_str(text);
    let mut it = split_whitespace_n(trimmed, 3);
    let t0 = it.next().unwrap();
    let t1 = it.next().unwrap();
    let t2 = it.next().unwrap();
    proof {
        lemma_skip_ws_of_trimmed(text@);
        let s = trim_spec(text@);
        let r1 = rest_after_token(s);
        let r2 = rest_after_token(r1);
        lemma_split_n_len(r1, 2nat);
        assert(split_n(s, 3nat) == seq![next_token(s)] + split_n(r1, 2nat));
        assert(split_n(r1, 2nat) == seq![next_token(r1)] + split_n(r2, 1nat));
        assert(split_n(r2, 1nat) == seq![r2]);
        assert(start_toks(text@)[0] == t0@);
        assert(start_toks(text@)[1] == t1@);
        assert(start_toks(text@)[2] == t2@);
    }
    let lat = match parse_decimal_e9(t0) {
        Some(v) => v,
        None => {
            return Err(
                TraverseError::MalformedRecord { field: Field::Latitude, raw: t0.to_owned() },
            );
        },
    };
    let lon = match parse_decimal_e9(t1) {
        Some(v) => v,
        None => {
            return Err(
                TraverseError::MalformedRecord { field: Field::Longitude, raw: t1.to_owned() },
            );
        },
    };
    Ok(NamedPoint::new(lon, lat, t2.to_owned()))
}

/// Parsing is a pure function of the record's text: equal well-formed
/// bearing lines denote the same azimuth, distance, and label, so
/// re-parsing the same record yields an identical triple.
pub proof fn lemma_parse_idempotent(l1: Seq<char>, l2: Seq<char>)
    requires
        l1 == l2,
    ensures
        line_az_nas(l1) == line_az_nas(l2),
        line_dist_m_e13(l1) == line_dist_m_e13(l2),
        line_name(l1) == line_name(l2),
{
}

/// A parcel's parsed inputs: its starting point and its legs, ready for
/// the geodesic-walking collaborator.
#[derive(Debug)]
pub struct Parcel {
    pub start: NamedPoint,
    pub legs: Vec<Leg>,
}

/// Runs the in-memory core for one parcel up to the geodesic walk: reads
/// the starting-point record and every bearing/distance line, stopping at
/// the first failure.
pub fn run(start_text: &str, bearing_lines: &Vec<String>) -> (r: Result<Parcel, TraverseError>)
    ensures
        r is Ok <==> start_wf(start_text@) && (forall|i: int|
            0 <= i < bearing_lines@.len() ==> bearing_line_wf(bearing_lines@[i]@)),
        r matches Ok(p) ==> p.start.x_e9 == start_lon_e9(start_text@) && p.start.y_e9
            == start_lat_e9(start_text@) && p.start.name@ == start_name(start_text@)
            && p.legs@.len() == bearing_lines@.len() && (forall|i: int|
            0 <= i < bearing_lines@.len() ==> (#[trigger] p.legs@[i]).az_nas == line_az_nas(
                bearing_lines@[i]@,
            ) && p.legs@[i].dist_m_e13 == line_dist_m_e13(bearing_lines@[i]@) && p.legs@[i].name@
                == line_name(bearing_lines@[i]@)),
        r matches Err(e) ==> if !start_wf(start_text@) {
            start_err(e, start_text@)
        } else {
            exists|i: int|
                #![auto]
                0 <= i < bearing_lines@.len() && !bearing_line_wf(bearing_lines@[i]@) && (forall|
                    j: int,
                |
                    0 <= j < i ==> bearing_line_wf(bearing_lines@[j]@)) && bearing_line_err(
                    e,
                    bearing_lines@[i]@,
                )
        },
{
    let start = match get_starting_location(start_text) {
        Ok(p) => p,
        Err(e) => {
            return Err(e);
        },
    };
    let legs = match get_azimuth_distance(bearing_lines) {
        Ok(l) => l,
        Err(e) => {
            return Err(e);
        },
    };
    Ok(Parcel { start, legs })
}

} // verus!
