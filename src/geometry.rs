//! Geometry units as read from a shapefile.
//!
//! Coordinates are carried as the IEEE-754 bit patterns of their `f64`
//! values: the library never computes on them, it only places them in
//! output documents, and the bit pattern keeps every value exactly.
use vstd::prelude::*;

verus! {

/// A two-dimensional position; `x` and `y` are `f64` bit patterns.
#[derive(Clone, Copy, Debug, PartialEq, Eq, Structural)]
pub struct Coord {
    pub x: u64,
    pub y: u64,
}

/// A position with elevation; each field is an `f64` bit pattern.
#[derive(Clone, Copy, Debug, PartialEq, Eq, Structural)]
pub struct CoordZ {
    pub x: u64,
    pub y: u64,
    pub z: u64,
}

/// One geometry unit. Polylines hold their parts and polygons their
/// rings, each an ordered list of positions. The variants whose content
/// no encoder reads carry none.
#[derive(Clone, Debug)]
pub enum Shape {
    NullShape,
    Point(Coord),
    PointM(Coord),
    PointZ(CoordZ),
    Polyline(Vec<Vec<Coord>>),
    PolylineM(Vec<Vec<Coord>>),
    PolylineZ(Vec<Vec<Coord>>),
    Polygon(Vec<Vec<Coord>>),
    PolygonM,
    PolygonZ,
    Multipoint,
    MultipointM,
    MultipointZ,
    Multipatch,
}

} // verus!
