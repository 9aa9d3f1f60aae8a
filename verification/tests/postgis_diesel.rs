//! Tests for the postgis_diesel geometry types, exercised through the public API.
//!
//! Coordinates are `f64` values carried as their bit patterns; WKT text is produced from the
//! events that `process_geom` hands to an `EventRecorder`.

use geozero_postgis::geometry::{
    GeometryCollection, GeometryContainer, LineString, MultiLineString, MultiPoint, MultiPolygon,
    Polygon,
};
use geozero_postgis::geozero_geometry::GeozeroGeometry;
use geozero_postgis::points::{AnyPoint, Point, PointM, PointT, PointZ, PointZM};
use geozero_postgis::processor::{CoordDimensions, EventRecorder, GeomEvent, GeozeroError};

const SRID: Option<u32> = Some(4326);

fn c(v: f64) -> u64 {
    v.to_bits()
}

fn f(v: u64) -> f64 {
    f64::from_bits(v)
}

fn points(coords: &[(f64, f64)]) -> Vec<Point> {
    coords
        .iter()
        .map(|&(x, y)| Point::new(c(x), c(y), SRID))
        .collect()
}

fn line_string(coords: &[(f64, f64)]) -> LineString<Point> {
    LineString {
        points: points(coords),
        srid: SRID,
    }
}

fn polygon(rings: &[&[(f64, f64)]]) -> Polygon<Point> {
    Polygon {
        rings: rings.iter().map(|ring| points(ring)).collect(),
        srid: SRID,
    }
}

const RING: &[(f64, f64)] = &[(0.0, 0.0), (1.0, 0.0), (1.0, 1.0), (0.0, 0.0)];

/// Compares the flags we care about.
fn zm(dims: CoordDimensions) -> (bool, bool) {
    (dims.z, dims.m)
}

/// Builds a geometry over `P` by handing `geom` to a new writer, exercising both directions.
fn roundtrip<G, P>(geom: &G) -> GeometryContainer<P>
where
    G: GeozeroGeometry,
    P: PointT,
{
    GeometryContainer::<P>::from_geometry(geom).unwrap()
}

/// WKT text of the events of a geometry, for a writer that wants `dims`.
struct Wkt<'a> {
    events: &'a [GeomEvent],
    pos: usize,
    dims: CoordDimensions,
}

impl<'a> Wkt<'a> {
    fn next(&mut self) -> GeomEvent {
        let e = self.events[self.pos];
        self.pos += 1;
        e
    }

    fn peek(&self) -> GeomEvent {
        self.events[self.pos]
    }

    fn coord(&self, e: GeomEvent) -> String {
        match e {
            GeomEvent::Xy { x, y, .. } => format!("{} {}", f(x), f(y)),
            GeomEvent::Coordinate { x, y, z, m, .. } => {
                let mut s = format!("{} {}", f(x), f(y));
                if let (true, Some(z)) = (self.dims.z, z) {
                    s += &format!(" {}", f(z));
                }
                if let (true, Some(m)) = (self.dims.m, m) {
                    s += &format!(" {}", f(m));
                }
                s
            }
            other => panic!("expected a coordinate, got {other:?}"),
        }
    }

    fn coords_until_end(&mut self) -> String {
        let mut parts = Vec::new();
        loop {
            match self.peek() {
                GeomEvent::Xy { .. } | GeomEvent::Coordinate { .. } => {
                    let e = self.next();
                    parts.push(self.coord(e));
                }
                _ => {
                    self.next();
                    return parts.join(",");
                }
            }
        }
    }

    fn members_until_end(&mut self) -> String {
        let mut parts = Vec::new();
        loop {
            match self.peek() {
                GeomEvent::MultiPointEnd(_)
                | GeomEvent::MultiLineStringEnd(_)
                | GeomEvent::MultiPolygonEnd(_)
                | GeomEvent::PolygonEnd { .. }
                | GeomEvent::GeometryCollectionEnd(_) => {
                    self.next();
                    return parts.join(",");
                }
                _ => parts.push(self.geometry()),
            }
        }
    }

    fn geometry(&mut self) -> String {
        match self.next() {
            GeomEvent::PointBegin(_) => {
                let e = self.next();
                let s = self.coord(e);
                self.next();
                format!("POINT({s})")
            }
            GeomEvent::LineStringBegin { tagged, .. } => {
                let s = self.coords_until_end();
                if tagged {
                    format!("LINESTRING({s})")
                } else {
                    format!("({s})")
                }
            }
            GeomEvent::PolygonBegin { tagged, .. } => {
                let s = self.members_until_end();
                if tagged {
                    format!("POLYGON({s})")
                } else {
                    format!("({s})")
                }
            }
            GeomEvent::MultiPointBegin { .. } => format!("MULTIPOINT({})", self.coords_until_end()),
            GeomEvent::MultiLineStringBegin { .. } => {
                format!("MULTILINESTRING({})", self.members_until_end())
            }
            GeomEvent::MultiPolygonBegin { .. } => {
                format!("MULTIPOLYGON({})", self.members_until_end())
            }
            GeomEvent::GeometryCollectionBegin { .. } => {
                format!("GEOMETRYCOLLECTION({})", self.members_until_end())
            }
            other => panic!("unexpected event {other:?}"),
        }
    }
}

trait ToWkt {
    fn to_wkt(&self) -> Result<String, GeozeroError>;
    fn to_wkt_ndim(&self, dims: CoordDimensions) -> Result<String, GeozeroError>;
}

impl<G: GeozeroGeometry> ToWkt for G {
    fn to_wkt(&self) -> Result<String, GeozeroError> {
        self.to_wkt_ndim(CoordDimensions::xy())
    }

    fn to_wkt_ndim(&self, dims: CoordDimensions) -> Result<String, GeozeroError> {
        let mut recorder = EventRecorder::new(dims);
        self.process_geom(&mut recorder)?;
        let events = recorder.events();
        assert!(matches!(events[0], GeomEvent::Srid(_)));
        let mut wkt = Wkt {
            events: &events[1..],
            pos: 0,
            dims,
        };
        Ok(wkt.geometry())
    }
}

#[test]
fn postgis_diesel_geometries_to_wkt() {
    assert_eq!(Point::new(c(1.0), c(2.0), SRID).to_wkt().unwrap(), "POINT(1 2)");
    assert_eq!(
        line_string(&[(0.0, 0.0), (1.0, 1.0)]).to_wkt().unwrap(),
        "LINESTRING(0 0,1 1)"
    );
    assert_eq!(
        polygon(&[RING]).to_wkt().unwrap(),
        polygon(&[RING]).to_wkt().unwrap(),
        "POLYGON((0 0,1 0,1 1,0 0))"
    );
    assert_eq!(polygon(&[RING]).to_wkt().unwrap(), "POLYGON((0 0,1 0,1 1,0 0))");

    let multi_point = MultiPoint {
        points: points(&[(1.0, 2.0), (3.0, 4.0)]),
        srid: SRID,
    };
    assert_eq!(multi_point.to_wkt().unwrap(), "MULTIPOINT(1 2,3 4)");

    let multi_line_string = MultiLineString {
        lines: vec![
            line_string(&[(0.0, 0.0), (1.0, 1.0)]),
            line_string(&[(2.0, 2.0), (3.0, 3.0)]),
        ],
        srid: SRID,
    };
    assert_eq!(
        multi_line_string.to_wkt().unwrap(),
        "MULTILINESTRING((0 0,1 1),(2 2,3 3))"
    );

    let multi_polygon = MultiPolygon {
        polygons: vec![polygon(&[RING])],
        srid: SRID,
    };
    assert_eq!(
        multi_polygon.to_wkt().unwrap(),
        "MULTIPOLYGON(((0 0,1 0,1 1,0 0)))"
    );

    let collection = GeometryCollection {
        geometries: vec![
            GeometryContainer::Point(Point::new(c(1.0), c(2.0), SRID)),
            GeometryContainer::LineString(line_string(&[(0.0, 0.0), (1.0, 1.0)])),
        ],
        srid: SRID,
    };
    assert_eq!(
        collection.to_wkt().unwrap(),
        "GEOMETRYCOLLECTION(POINT(1 2),LINESTRING(0 0,1 1))"
    );
}

#[test]
fn postgis_diesel_polygon_rings_to_wkt() {
    let poly = polygon(&[
        &[
            (0.0, 0.0),
            (10.0, 0.0),
            (10.0, 10.0),
            (0.0, 10.0),
            (0.0, 0.0),
        ],
        &[(1.0, 1.0), (2.0, 1.0), (2.0, 2.0), (1.0, 2.0), (1.0, 1.0)],
    ]);
    assert_eq!(
        poly.to_wkt().unwrap(),
        "POLYGON((0 0,10 0,10 10,0 10,0 0),(1 1,2 1,2 2,1 2,1 1))"
    );
}

#[test]
fn postgis_diesel_coordinate_dimensions_to_wkt() {
    let xym = CoordDimensions {
        z: false,
        m: true,
        t: false,
        tm: false,
    };

    assert_eq!(Point::new(c(1.0), c(2.0), SRID).to_wkt().unwrap(), "POINT(1 2)");
    assert_eq!(
        PointZ::new(c(1.0), c(2.0), c(3.0), SRID)
            .to_wkt_ndim(CoordDimensions::xyz())
            .unwrap(),
        "POINT(1 2 3)"
    );
    // An M value is emitted as the third coordinate when only the M dimension is enabled
    assert_eq!(
        PointM::new(c(1.0), c(2.0), c(3.0), SRID).to_wkt_ndim(xym).unwrap(),
        "POINT(1 2 3)"
    );
    assert_eq!(
        PointZM::new(c(1.0), c(2.0), c(3.0), c(4.0), SRID)
            .to_wkt_ndim(CoordDimensions::xyzm())
            .unwrap(),
        "POINT(1 2 3 4)"
    );
    assert_eq!(
        AnyPoint::PointZ(PointZ::new(c(1.0), c(2.0), c(3.0), SRID))
            .to_wkt_ndim(CoordDimensions::xyz())
            .unwrap(),
        "POINT(1 2 3)"
    );

    let line = LineString {
        points: vec![
            PointZ::new(c(0.0), c(0.0), c(10.0), SRID),
            PointZ::new(c(1.0), c(1.0), c(20.0), SRID),
        ],
        srid: SRID,
    };
    assert_eq!(
        line.to_wkt_ndim(CoordDimensions::xyz()).unwrap(),
        "LINESTRING(0 0 10,1 1 20)"
    );
}

#[test]
fn postgis_diesel_dims_and_srid_are_reported() {
    let point = Point::new(c(1.0), c(2.0), SRID);
    assert_eq!(GeozeroGeometry::srid(&point), Some(4326));
    assert_eq!(zm(GeozeroGeometry::dims(&point)), (false, false));

    let point_z = PointZ::new(c(1.0), c(2.0), c(3.0), Some(7415));
    assert_eq!(GeozeroGeometry::srid(&point_z), Some(7415));
    assert_eq!(zm(GeozeroGeometry::dims(&point_z)), (true, false));

    let measured = PointM::new(c(1.0), c(2.0), c(3.0), SRID);
    assert_eq!(zm(GeozeroGeometry::dims(&measured)), (false, true));

    let measured_3d = PointZM::new(c(1.0), c(2.0), c(3.0), c(4.0), SRID);
    assert_eq!(zm(GeozeroGeometry::dims(&measured_3d)), (true, true));

    // Containers take their dimensions from their first point
    let line = line_string(&[(0.0, 0.0), (1.0, 1.0)]);
    assert_eq!(GeozeroGeometry::srid(&line), Some(4326));
    assert_eq!(zm(GeozeroGeometry::dims(&line)), (false, false));

    // ...and report XY when they are empty
    let empty = LineString::<PointZ> {
        points: Vec::new(),
        srid: SRID,
    };
    assert_eq!(zm(GeozeroGeometry::dims(&empty)), (false, false));
}

#[test]
fn postgis_diesel_geometry_container_delegates_to_inner_geometry() {
    let container = GeometryContainer::Point(PointZ::new(c(1.0), c(2.0), c(3.0), SRID));
    assert_eq!(
        container.to_wkt_ndim(CoordDimensions::xyz()).unwrap(),
        "POINT(1 2 3)"
    );
    assert_eq!(GeozeroGeometry::srid(&container), Some(4326));
    assert_eq!(zm(GeozeroGeometry::dims(&container)), (true, false));

    let container = GeometryContainer::Polygon(polygon(&[RING]));
    assert_eq!(container.to_wkt().unwrap(), "POLYGON((0 0,1 0,1 1,0 0))");
}

#[test]
fn postgis_diesel_geometries_from_ewkb() {
    let point = Point::new(c(1.0), c(2.0), SRID);
    match roundtrip::<_, Point>(&point) {
        GeometryContainer::Point(p) => {
            assert_eq!((f(p.x), f(p.y), p.srid), (1.0, 2.0, SRID));
        }
        other => panic!("Expected Point, got {other:?}"),
    }

    let line = line_string(&[(0.0, 0.0), (1.0, 1.0), (2.0, 3.0)]);
    match roundtrip::<_, Point>(&line) {
        GeometryContainer::LineString(result) => {
            assert_eq!(result.points.len(), 3);
            assert_eq!((f(result.points[2].x), f(result.points[2].y)), (2.0, 3.0));
            assert_eq!(result.srid, SRID);
        }
        other => panic!("Expected LineString, got {other:?}"),
    }

    let poly = polygon(&[RING]);
    match roundtrip::<_, Point>(&poly) {
        GeometryContainer::Polygon(result) => {
            assert_eq!(result.rings.len(), 1);
            assert_eq!(result.rings[0].len(), 4);
            assert_eq!(result.srid, SRID);
        }
        other => panic!("Expected Polygon, got {other:?}"),
    }

    let multi_point = MultiPoint {
        points: points(&[(1.0, 2.0), (3.0, 4.0)]),
        srid: SRID,
    };
    match roundtrip::<_, Point>(&multi_point) {
        GeometryContainer::MultiPoint(result) => {
            assert_eq!(result.points.len(), 2);
            assert_eq!((f(result.points[0].x), f(result.points[1].x)), (1.0, 3.0));
            assert_eq!(result.srid, SRID);
        }
        other => panic!("Expected MultiPoint, got {other:?}"),
    }

    let multi_line_string = MultiLineString {
        lines: vec![
            line_string(&[(0.0, 0.0), (1.0, 1.0)]),
            line_string(&[(2.0, 2.0), (3.0, 3.0)]),
        ],
        srid: SRID,
    };
    match roundtrip::<_, Point>(&multi_line_string) {
        GeometryContainer::MultiLineString(result) => {
            assert_eq!(result.lines.len(), 2);
            assert_eq!(f(result.lines[1].points[0].x), 2.0);
            assert_eq!(result.srid, SRID);
        }
        other => panic!("Expected MultiLineString, got {other:?}"),
    }

    let multi_polygon = MultiPolygon {
        polygons: vec![polygon(&[RING])],
        srid: SRID,
    };
    match roundtrip::<_, Point>(&multi_polygon) {
        GeometryContainer::MultiPolygon(result) => {
            assert_eq!(result.polygons.len(), 1);
            assert_eq!(result.polygons[0].rings[0].len(), 4);
            assert_eq!(result.srid, SRID);
        }
        other => panic!("Expected MultiPolygon, got {other:?}"),
    }
}

#[test]
fn postgis_diesel_geometry_collection_from_ewkb() {
    let collection = GeometryContainer::GeometryCollection(GeometryCollection {
        geometries: vec![
            GeometryContainer::Point(Point::new(c(1.0), c(2.0), SRID)),
            GeometryContainer::LineString(line_string(&[(0.0, 0.0), (1.0, 1.0)])),
        ],
        srid: SRID,
    });

    match roundtrip::<_, Point>(&collection) {
        GeometryContainer::GeometryCollection(result) => {
            assert_eq!(result.srid, SRID);
            assert!(matches!(
                result.geometries[..],
                [
                    GeometryContainer::Point(_),
                    GeometryContainer::LineString(_)
                ]
            ));
        }
        other => panic!("Expected GeometryCollection, got {other:?}"),
    }
}

#[test]
fn postgis_diesel_coordinate_dimensions_from_ewkb() {
    match roundtrip::<_, PointZ>(&PointZ::new(c(1.0), c(2.0), c(3.0), SRID)) {
        GeometryContainer::Point(p) => {
            assert_eq!((f(p.x), f(p.y), f(p.z), p.srid), (1.0, 2.0, 3.0, SRID))
        }
        other => panic!("Expected PointZ, got {other:?}"),
    }

    match roundtrip::<_, PointM>(&PointM::new(c(1.0), c(2.0), c(3.0), SRID)) {
        GeometryContainer::Point(p) => {
            assert_eq!((f(p.x), f(p.y), f(p.m), p.srid), (1.0, 2.0, 3.0, SRID))
        }
        other => panic!("Expected PointM, got {other:?}"),
    }

    match roundtrip::<_, PointZM>(&PointZM::new(c(1.0), c(2.0), c(3.0), c(4.0), SRID)) {
        GeometryContainer::Point(p) => {
            assert_eq!(
                (f(p.x), f(p.y), f(p.z), f(p.m), p.srid),
                (1.0, 2.0, 3.0, 4.0, SRID)
            );
        }
        other => panic!("Expected PointZM, got {other:?}"),
    }

    let any = AnyPoint::PointZ(PointZ::new(c(1.0), c(2.0), c(3.0), SRID));
    match roundtrip::<_, AnyPoint>(&any) {
        GeometryContainer::Point(AnyPoint::PointZ(p)) => {
            assert_eq!((f(p.x), f(p.y), f(p.z), p.srid), (1.0, 2.0, 3.0, SRID));
        }
        other => panic!("Expected AnyPoint::PointZ, got {other:?}"),
    }
}
