//! PostGIS geometries for Diesel: turning geometries into a stream of processor events,
//! and building geometries back from such a stream.
pub mod points;
pub mod geometry;
pub mod processor;
pub mod events;
pub mod reader;
pub mod geozero_geometry;
pub mod writer;
pub mod roundtrip;
pub mod sql_types;
