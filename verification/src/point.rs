use vstd::prelude::*;

verus! {

/// A geographic coordinate paired with a human-readable label.  The
/// coordinate is held in nanodegrees — degrees scaled by 1e9, exact
/// fixed point — with `x_e9` the longitude and `y_e9` the latitude, the
/// axis convention the rendering collaborators expect.
#[derive(Debug, Clone)]
pub struct NamedPoint {
    pub x_e9: i64,
    pub y_e9: i64,
    pub name: String,
}

impl NamedPoint {
    /// Builds a point from longitude and latitude in nanodegrees.
    pub fn new(x_e9: i64, y_e9: i64, name: String) -> (r: NamedPoint)
        ensures
            r.x_e9 == x_e9,
            r.y_e9 == y_e9,
            r.name == name,
    {
        NamedPoint { x_e9, y_e9, name }
    }

    /// Copies the point, field for field.
    pub fn clone_point(&self) -> (r: NamedPoint)
        ensures
            r == *self,
    {
        NamedPoint { x_e9: self.x_e9, y_e9: self.y_e9, name: self.name.clone() }
    }

    /// Longitude in nanodegrees.
    pub fn x(&self) -> (r: i64)
        ensures
            r == self.x_e9,
    {
        self.x_e9
    }

    /// Latitude in nanodegrees.
    pub fn y(&self) -> (r: i64)
        ensures
            r == self.y_e9,
    {
        self.y_e9
    }
}

} // verus!
