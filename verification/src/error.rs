use vstd::prelude::*;

verus! {

/// Which numeric field of a record failed to parse.
#[derive(Debug, Clone, Copy, PartialEq, Eq)]
pub enum Field {
    Latitude,
    Longitude,
    Degrees,
    Minutes,
    Seconds,
    Distance,
}

/// Which of the two direction tokens of a bearing call was unrecognized.
#[derive(Debug, Clone, Copy, PartialEq, Eq)]
pub enum DirKind {
    Face,
    Turn,
}

/// Which coordinate axis failed the closure comparison
/// (`X` is longitude, `Y` is latitude).
#[derive(Debug, Clone, Copy, PartialEq, Eq)]
pub enum Axis {
    X,
    Y,
}

/// A failure while resolving one parcel's traverse.
///
/// The core exposes structured failure values and leaves their
/// presentation to the caller.
#[derive(Debug, Clone, PartialEq, Eq)]
pub enum TraverseError {
    /// A face or turn token was not one of its two accepted literals;
    /// `raw` is the offending token.
    InvalidDirection { kind: DirKind, raw: String },
    /// A numeric field was missing or did not parse as a decimal number;
    /// `raw` is the offending token.
    MalformedRecord { field: Field, raw: String },
    /// The geodesic formula could not produce a destination for the leg
    /// with this index.  Produced by the walking collaborator, never by
    /// the in-memory core itself.
    GeodesicComputationFailed { leg: usize },
    /// The walked polygon's last point does not coincide with its first:
    /// the absolute difference on `axis` was `magnitude_e9` nanodegrees,
    /// at or above the tolerance of one thousand nanodegrees.
    TraverseDoesNotClose { axis: Axis, magnitude_e9: i128 },
}

} // verus!
