//! The PostGIS SQL types that geometries are stored as.
use vstd::prelude::*;

verus! {

/// The PostGIS `geometry` SQL type.
pub struct Geometry;

/// The PostGIS `geography` SQL type; it shares the EWKB wire format of `geometry`.
pub struct Geography;

} // verus!
