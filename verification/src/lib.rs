//! Core of a land-survey traverse resolver.
//!
//! A traverse is a starting geographic coordinate plus an ordered list of
//! surveyor bearing-and-distance calls.  This library parses the records,
//! converts each quadrant bearing into a navigational azimuth, and checks
//! that the walked boundary closes back on its starting point, yielding a
//! closed polygon.  Geographic angles are held as exact fixed-point
//! integers (nanodegrees, and nano-arcseconds for azimuths), so every rule
//! is stated and proved over plain integer arithmetic; the geodesic
//! projection itself and all file handling live with outside collaborators
//! that exchange plain values with this core.

pub mod bearing;
pub mod decimal;
pub mod error;
pub mod kml;
pub mod point;
pub mod record;
pub mod tokenize;
pub mod traverse;

pub use bearing::{bearing_to_azimuth, FaceDir, TurnDir};
pub use error::{Axis, DirKind, Field, TraverseError};
pub use kml::get_style_kml;
pub use point::NamedPoint;
pub use record::{get_azimuth_distance, get_starting_location, parse_bearing_line, run, Leg, Parcel};
pub use tokenize::{split_whitespace_n, SplitWhitespaceN};
pub use traverse::{calc_bounds, walk_points};

use vstd::prelude::*;

verus! {

} // verus!
