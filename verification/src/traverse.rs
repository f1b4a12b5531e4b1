use vstd::prelude::*;

use crate::error::{Axis, TraverseError};
use crate::point::NamedPoint;
use crate::record::Leg;

verus! {

/// Assembles the walked traverse from the geodesic results: the sequence
/// begins with the starting point and continues with one point per leg,
/// each carrying that leg's label and the destination the walking
/// collaborator computed for it (in nanodegrees, longitude then
/// latitude).  A leg whose destination the formula could not produce is
/// handed in as `None`; the first such leg aborts the walk and is
/// reported by index.
pub fn walk_points(
    start: &NamedPoint,
    legs: &Vec<Leg>,
    destinations: &Vec<Option<(i64, i64)>>,
) -> (r: Result<Vec<NamedPoint>, TraverseError>)
    requires
        destinations@.len() == legs@.len(),
    ensures
        r is Ok <==> (forall|i: int| 0 <= i < destinations@.len() ==> destinations@[i] is Some),
        r matches Ok(pts) ==> pts@.len() == legs@.len() + 1 && pts@[0] == *start && (forall|i: int|
            0 <= i < legs@.len() ==> (#[trigger] pts@[i + 1]).x_e9 == destinations@[i].unwrap().0
                && pts@[i + 1].y_e9 == destinations@[i].unwrap().1 && pts@[i + 1].name
                == legs@[i].name),
        r matches Err(e) ==> (exists|i: int|
            #![auto]
            0 <= i < destinations@.len() && destinations@[i] is None && (forall|j: int|
                0 <= j < i ==> destinations@[j] is Some) && e
                == TraverseError::GeodesicComputationFailed { leg: i as usize }),
{
    let mut pts: Vec<NamedPoint> = Vec::new();
    pts.push(start.clone_point());
    let mut idx: usize = 0;
    while idx < legs.len()
        invariant
            destinations@.len() == legs@.len(),
            idx <= legs@.len(),
            pts@.len() == idx + 1,
            pts@[0] == *start,
            forall|j: int| 0 <= j < idx ==> destinations@[j] is Some,
            forall|i: int|
                0 <= i < idx ==> (#[trigger] pts@[i + 1]).x_e9 == destinations@[i].unwrap().0
                    && pts@[i + 1].y_e9 == destinations@[i].unwrap().1 && pts@[i + 1].name
                    == legs@[i].name,
        decreases legs@.len() - idx,
    {
        match destinations[idx] {
            Some(d) => {
                pts.push(NamedPoint::new(d.0, d.1, legs[idx].name.clone()));
            },
            None => {
                return Err(TraverseError::GeodesicComputationFailed { leg: idx });
            },
        }
        idx = idx + 1;
    }
    Ok(pts)
}

/// The closure tolerance: one thousand nanodegrees, i.e. 1e-6 degrees,
/// applied to each coordinate axis independently.  This compares angular
/// differences, not geodesic distance, so its physical meaning varies
/// with latitude; the policy is kept as the record formats expect it.
pub const CLOSE_TOL_E9: i64 = 1000;

/// Absolute difference between the last and the first point of a walked
/// sequence on the longitude axis, in nanodegrees.
pub open spec fn close_gap_x(s: Seq<NamedPoint>) -> int {
    vstd::math::abs(s.last().x_e9 - s[0].x_e9) as int
}

/// Absolute difference between the last and the first point of a walked
/// sequence on the latitude axis, in nanodegrees.
pub open spec fn close_gap_y(s: Seq<NamedPoint>) -> int {
    vstd::math::abs(s.last().y_e9 - s[0].y_e9) as int
}

/// Whether a walked sequence closes: on each axis its last point lies
/// strictly within the tolerance of its first.
pub open spec fn closes(s: Seq<NamedPoint>) -> bool {
    close_gap_x(s) < CLOSE_TOL_E9 && close_gap_y(s) < CLOSE_TOL_E9
}

/// Validates closure of a walked traverse — the starting point followed by
/// one point per leg — and trims the final point, which on success is
/// geometrically redundant with the first, leaving the finished boundary
/// polygon.  On failure the longitude axis is reported when it is out of
/// tolerance (it is compared first), otherwise the latitude axis, together
/// with the magnitude of the mismatch.
pub fn calc_bounds(bounds: Vec<NamedPoint>) -> (r: Result<Vec<NamedPoint>, TraverseError>)
    requires
        bounds@.len() >= 1,
    ensures
        r is Ok <==> closes(bounds@),
        r matches Ok(b) ==> b@ == bounds@.drop_last(),
        r matches Err(e) ==> (e matches TraverseError::TraverseDoesNotClose { axis, magnitude_e9 }
            && (axis == Axis::X <==> close_gap_x(bounds@) >= CLOSE_TOL_E9)
            && (axis == Axis::X ==> magnitude_e9 == close_gap_x(bounds@))
            && (axis == Axis::Y ==> close_gap_x(bounds@) < CLOSE_TOL_E9 && magnitude_e9
                == close_gap_y(bounds@))),
{
    let n = bounds.len();
    let fx = bounds[0].x_e9;
    let fy = bounds[0].y_e9;
    let lx = bounds[n - 1].x_e9;
    let ly = bounds[n - 1].y_e9;
    let dx: i128 = lx as i128 - fx as i128;
    let adx: i128 = if dx < 0 {
        -dx
    } else {
        dx
    };
    if adx >= CLOSE_TOL_E9 as i128 {
        return Err(TraverseError::TraverseDoesNotClose { axis: Axis::X, magnitude_e9: adx });
    }
    let dy: i128 = ly as i128 - fy as i128;
    let ady: i128 = if dy < 0 {
        -dy
    } else {
        dy
    };
    if ady >= CLOSE_TOL_E9 as i128 {
        return Err(TraverseError::TraverseDoesNotClose { axis: Axis::Y, magnitude_e9: ady });
    }
    // the last point repeats the first within tolerance, so it is dropped
    let mut trimmed = bounds;
    trimmed.pop();
    Ok(trimmed)
}

} // verus!
