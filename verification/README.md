# geozero_postgis

PostGIS geometries for Diesel, verified with Verus.

- `src/points.rs`: the point kinds (`Point`, `PointZ`, `PointM`, `PointZM`, `AnyPoint`) and
  `PointT`, their uniform interface. Coordinates are the bit patterns of `f64` values.
- `src/geometry.rs`: line strings, polygons, multi-geometries, collections, their models and
  their dimension flags.
- `src/processor.rs`: geometry processors (`GeomProcessor`), the events they take, `run`
  (events fed in order, stopping at the first error) and `EventRecorder`.
- `src/events.rs`: the event stream of each geometry.
- `src/reader.rs`, `src/geozero_geometry.rs`: handing geometries to a processor
  (`GeozeroGeometry::process_geom`), with their dimensions and SRID.
- `src/writer.rs`: `PostgisDieselWriter`, which builds a geometry back from events, and
  `GeometryContainer::from_geometry`.
- `src/roundtrip.rs`: what the writer builds from the events of a geometry: the geometry
  itself, with its SRID on every part.
- `app/`: Diesel SQL types and raw EWKB columns, conversions from and to postgis_diesel's
  floating-point geometries, and error texts.
