use vstd::prelude::*;

use crate::error::{DirKind, TraverseError};

verus! {

/// One full turn (360 degrees) in nano-arcseconds, the fixed-point unit in
/// which azimuths are held: 360 * 3600 arcseconds, each split into 1e9.
pub const FULL_TURN_NAS: i64 = 1_296_000_000_000_000;

/// Half a turn (180 degrees) in nano-arcseconds.
pub const HALF_TURN_NAS: i64 = 648_000_000_000_000;

pub use crate::decimal::MAX_FIELD_E9;

/// The quadrant face of a surveyor bearing: measured from north or south.
#[derive(Debug, Clone, Copy, PartialEq, Eq, Structural)]
pub enum FaceDir {
    N,
    S,
}

/// The turn direction of a surveyor bearing: rotated toward east or west.
#[derive(Debug, Clone, Copy, PartialEq, Eq, Structural)]
pub enum TurnDir {
    E,
    W,
}

/// The face a token denotes: exactly the single uppercase letter
/// `N` or `S`, case-sensitively; anything else is rejected.
pub open spec fn face_of(s: Seq<char>) -> Option<FaceDir> {
    if s == seq!['N'] {
        Some(FaceDir::N)
    } else if s == seq!['S'] {
        Some(FaceDir::S)
    } else {
        None
    }
}

/// The turn a token denotes: exactly the single uppercase letter
/// `E` or `W`, case-sensitively; anything else is rejected.
pub open spec fn turn_of(s: Seq<char>) -> Option<TurnDir> {
    if s == seq!['E'] {
        Some(TurnDir::E)
    } else if s == seq!['W'] {
        Some(TurnDir::W)
    } else {
        None
    }
}

impl FaceDir {
    /// Parses a face token, reporting an `InvalidDirection` failure that
    /// carries the offending token when it is not `N` or `S`.
    pub fn from_str(s: &str) -> (r: Result<FaceDir, TraverseError>)
        ensures
            r is Ok <==> face_of(s@) is Some,
            r matches Ok(f) ==> face_of(s@) == Some(f),
            r matches Err(e) ==> (e matches TraverseError::InvalidDirection { kind, raw }
                && kind == DirKind::Face && raw@ == s@),
    {
        if s.unicode_len() == 1 {
            let c = s.get_char(0);
            if c == 'N' {
                proof {
                    assert(s@ =~= seq!['N']);
                }
                return Ok(FaceDir::N);
            }
            if c == 'S' {
                proof {
                    assert(s@ =~= seq!['S']);
                }
                return Ok(FaceDir::S);
            }
        }
        proof {
            assert(s@ == seq!['N'] ==> s@ =~= seq!['N']);
            assert(s@ == seq!['S'] ==> s@ =~= seq!['S']);
        }
        Err(TraverseError::InvalidDirection { kind: DirKind::Face, raw: s.to_owned() })
    }
}

impl TurnDir {
    /// Parses a turn token, reporting an `InvalidDirection` failure that
    /// carries the offending token when it is not `E` or `W`.
    pub fn from_str(s: &str) -> (r: Result<TurnDir, TraverseError>)
        ensures
            r is Ok <==> turn_of(s@) is Some,
            r matches Ok(t) ==> turn_of(s@) == Some(t),
            r matches Err(e) ==> (e matches TraverseError::InvalidDirection { kind, raw }
                && kind == DirKind::Turn && raw@ == s@),
    {
        if s.unicode_len() == 1 {
            let c = s.get_char(0);
            if c == 'E' {
                proof {
                    assert(s@ =~= seq!['E']);
                }
                return Ok(TurnDir::E);
            }
            if c == 'W' {
                proof {
                    assert(s@ =~= seq!['W']);
                }
                return Ok(TurnDir::W);
            }
        }
        proof {
            assert(s@ == seq!['E'] ==> s@ =~= seq!['E']);
            assert(s@ == seq!['W'] ==> s@ =~= seq!['W']);
        }
        Err(TraverseError::InvalidDirection { kind: DirKind::Turn, raw: s.to_owned() })
    }
}

/// The decimal angle `deg + min/60 + sec/3600`, expressed exactly in
/// nano-arcseconds when each part is given scaled by 1e9.
pub open spec fn angle_nas(deg_e9: int, min_e9: int, sec_e9: int) -> int {
    deg_e9 * 3600 + min_e9 * 60 + sec_e9
}

/// The quadrant rule before wraparound: an angle measured from north opens
/// eastward as-is and westward negated; measured from south it is taken
/// from half a turn, eastward short and westward past.
pub open spec fn raw_azimuth_nas(face: FaceDir, turn: TurnDir, a: int) -> int {
    match (face, turn) {
        (FaceDir::N, TurnDir::E) => a,
        (FaceDir::N, TurnDir::W) => -a,
        (FaceDir::S, TurnDir::E) => HALF_TURN_NAS - a,
        (FaceDir::S, TurnDir::W) => HALF_TURN_NAS + a,
    }
}

/// The navigational azimuth of a bearing: the quadrant rule's result,
/// pushed up by one full turn when it came out negative.
pub open spec fn azimuth_nas(face: FaceDir, turn: TurnDir, a: int) -> int {
    let raw = raw_azimuth_nas(face, turn, a);
    if raw < 0 {
        raw + FULL_TURN_NAS
    } else {
        raw
    }
}

/// Converts a surveyor bearing (face, degrees/minutes/seconds, turn) into
/// a navigational azimuth in nano-arcseconds, exactly as `azimuth_nas`
/// states.  The angle parts arrive scaled by 1e9, as the record reader
/// produces them.
pub fn bearing_to_azimuth(face: FaceDir, deg: i64, min: i64, sec: i64, turn: TurnDir) -> (az: i64)
    requires
        -MAX_FIELD_E9 <= deg <= MAX_FIELD_E9,
        -MAX_FIELD_E9 <= min <= MAX_FIELD_E9,
        -MAX_FIELD_E9 <= sec <= MAX_FIELD_E9,
    ensures
        az == azimuth_nas(face, turn, angle_nas(deg as int, min as int, sec as int)),
{
    let angle: i64 = deg * 3600 + min * 60 + sec;
    let raw: i64 = match (face, turn) {
        (FaceDir::N, TurnDir::E) => angle,
        (FaceDir::N, TurnDir::W) => -angle,
        (FaceDir::S, TurnDir::E) => HALF_TURN_NAS - angle,
        (FaceDir::S, TurnDir::W) => HALF_TURN_NAS + angle,
    };
    if raw < 0 {
        raw + FULL_TURN_NAS
    } else {
        raw
    }
}

/// For every face/turn combination, a bearing whose angle lies within
/// [0, 180) degrees resolves to an azimuth in [0, 360) degrees.
pub proof fn lemma_azimuth_in_range(face: FaceDir, turn: TurnDir, a: int)
    requires
        0 <= a < HALF_TURN_NAS as int,
    ensures
        0 <= azimuth_nas(face, turn, a) < FULL_TURN_NAS as int,
{
}

} // verus!
