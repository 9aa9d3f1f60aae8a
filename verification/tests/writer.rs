//! Tests of the writer, the event streams and the point constructors on concrete values.

use geozero_postgis::geometry::{
    GeometryCollection, GeometryContainer, LineString, MultiLineString, MultiPoint, MultiPolygon,
    Polygon,
};
use geozero_postgis::geozero_geometry::{dims_from_flag, srid_to_i32, GeozeroGeometry};
use geozero_postgis::points::{
    AnyPoint, Point, PointConstructorError, PointKind, PointM, PointT, PointZ, PointZM,
    DIMENSION_M, DIMENSION_NONE, DIMENSION_Z, DIMENSION_ZM,
};
use geozero_postgis::processor::{
    CoordDimensions, EventRecorder, GeomEvent, GeomProcessor, GeozeroError,
};
use geozero_postgis::sql_types::{Geography, Geometry};
use geozero_postgis::writer::PostgisDieselWriter;

fn c(v: f64) -> u64 {
    v.to_bits()
}

fn message(r: Result<(), GeozeroError>) -> String {
    match r {
        Err(GeozeroError::Geometry(msg)) => msg,
        other => panic!("expected a geometry error, got {other:?}"),
    }
}

#[test]
fn writer_builds_a_point_from_events() {
    let mut w = PostgisDieselWriter::<Point>::new();
    w.srid(Some(4326)).unwrap();
    w.point_begin(0).unwrap();
    w.xy(c(1.0), c(2.0), 0).unwrap();
    w.point_end(0).unwrap();
    assert_eq!(
        w.take_geometry(),
        Some(GeometryContainer::Point(Point::new(c(1.0), c(2.0), Some(4326))))
    );
    // The geometry is handed out once
    assert_eq!(w.take_geometry(), None);
}

#[test]
fn writer_reports_each_misplaced_event() {
    let mut w = PostgisDieselWriter::<Point>::new();
    assert_eq!(message(w.xy(c(1.0), c(2.0), 0)), "Not ready for coords");
    assert_eq!(message(w.point_end(0)), "No coords for Point");
    assert_eq!(message(w.multipoint_end(0)), "No coords for MultiPoint");
    assert_eq!(message(w.linestring_end(true, 0)), "No coords for LineString");
    assert_eq!(message(w.multilinestring_end(0)), "No lines for MultiLineString");
    assert_eq!(message(w.polygon_end(true, 0)), "Missing rings for Polygon");
    assert_eq!(message(w.multipolygon_end(0)), "Missing polygons for MultiPolygon");
    assert_eq!(message(w.geometrycollection_end(0)), "Unexpected geometry type");

    w.point_begin(0).unwrap();
    assert_eq!(message(w.point_end(0)), "Empty point");

    w.linestring_begin(false, 0, 0).unwrap();
    assert_eq!(message(w.linestring_end(false, 0)), "Missing container for LineString");

    w.polygon_begin(false, 0, 0).unwrap();
    assert_eq!(message(w.polygon_end(false, 0)), "Missing container for Polygon");
    assert_eq!(w.take_geometry(), None);
}

#[test]
fn writer_reports_points_it_cannot_build() {
    let mut w = PostgisDieselWriter::<PointZ>::new();
    w.point_begin(0).unwrap();
    match w.xy(c(1.0), c(2.0), 0) {
        Err(GeozeroError::Point(e)) => assert_eq!(e, PointConstructorError::MissingZ(PointKind::PointZ)),
        other => panic!("expected a point error, got {other:?}"),
    }

    let mut w = PostgisDieselWriter::<Point>::new();
    w.point_begin(0).unwrap();
    match w.coordinate(c(1.0), c(2.0), Some(c(3.0)), None, None, None, 0) {
        Err(GeozeroError::Point(e)) => assert_eq!(
            e,
            PointConstructorError::UnexpectedZOrM {
                z: Some(c(3.0)),
                m: None
            }
        ),
        other => panic!("expected a point error, got {other:?}"),
    }

    // A two-dimensional point cannot become a PointZ
    let point = Point::new(c(1.0), c(2.0), Some(4326));
    match GeometryContainer::<PointZ>::from_geometry(&point) {
        Err(GeozeroError::Point(e)) => assert_eq!(e, PointConstructorError::MissingZ(PointKind::PointZ)),
        other => panic!("expected a point error, got {other:?}"),
    }
}

#[test]
fn writer_nests_geometry_collections() {
    let inner = GeometryContainer::GeometryCollection(GeometryCollection {
        geometries: vec![GeometryContainer::Point(Point::new(c(5.0), c(6.0), Some(1)))],
        srid: Some(1),
    });
    let outer = GeometryContainer::GeometryCollection(GeometryCollection {
        geometries: vec![
            inner,
            GeometryContainer::MultiPoint(MultiPoint {
                points: vec![Point::new(c(1.0), c(1.0), Some(1))],
                srid: Some(1),
            }),
        ],
        srid: Some(1),
    });
    let back = GeometryContainer::<Point>::from_geometry(&outer).unwrap();
    assert_eq!(back, outer);
}

#[test]
fn writer_puts_the_outer_srid_everywhere() {
    // Members carry other SRIDs than the collection; the writer gives them all the collection's
    let collection = GeometryContainer::GeometryCollection(GeometryCollection {
        geometries: vec![
            GeometryContainer::Point(Point::new(c(1.0), c(2.0), Some(7))),
            GeometryContainer::LineString(LineString {
                points: vec![Point::new(c(0.0), c(0.0), None)],
                srid: None,
            }),
        ],
        srid: Some(4326),
    });
    let expected = GeometryContainer::GeometryCollection(GeometryCollection {
        geometries: vec![
            GeometryContainer::Point(Point::new(c(1.0), c(2.0), Some(4326))),
            GeometryContainer::LineString(LineString {
                points: vec![Point::new(c(0.0), c(0.0), Some(4326))],
                srid: Some(4326),
            }),
        ],
        srid: Some(4326),
    });
    assert_eq!(GeometryContainer::<Point>::from_geometry(&collection).unwrap(), expected);
}

#[test]
fn writer_round_trips_every_kind_of_geometry() {
    let s = Some(3857);
    let p = |x: f64, y: f64, z: f64, m: f64| PointZM::new(c(x), c(y), c(z), c(m), s);
    let ring = vec![p(0.0, 0.0, 1.0, 2.0), p(1.0, 0.0, 1.0, 2.0), p(0.0, 0.0, 1.0, 2.0)];
    let polygon = || Polygon {
        rings: vec![ring.clone(), ring.clone()],
        srid: s,
    };
    let geometries = vec![
        GeometryContainer::Point(p(1.0, 2.0, 3.0, 4.0)),
        GeometryContainer::LineString(LineString {
            points: ring.clone(),
            srid: s,
        }),
        GeometryContainer::Polygon(polygon()),
        GeometryContainer::MultiPoint(MultiPoint {
            points: ring.clone(),
            srid: s,
        }),
        GeometryContainer::MultiLineString(MultiLineString {
            lines: vec![
                LineString {
                    points: ring.clone(),
                    srid: s,
                },
                LineString {
                    points: Vec::new(),
                    srid: s,
                },
            ],
            srid: s,
        }),
        GeometryContainer::MultiPolygon(MultiPolygon {
            polygons: vec![polygon(), Polygon { rings: Vec::new(), srid: s }],
            srid: s,
        }),
    ];
    for g in geometries {
        assert_eq!(GeometryContainer::<PointZM>::from_geometry(&g).unwrap(), g);
    }
}

#[test]
fn events_of_a_polygon() {
    let polygon = Polygon {
        rings: vec![vec![Point::new(c(0.0), c(1.0), None), Point::new(c(2.0), c(3.0), None)]],
        srid: Some(4326),
    };
    let mut recorder = EventRecorder::new(CoordDimensions::xy());
    polygon.process_geom(&mut recorder).unwrap();
    assert_eq!(
        recorder.events(),
        &vec![
            GeomEvent::Srid(Some(4326)),
            GeomEvent::PolygonBegin {
                tagged: true,
                size: 1,
                idx: 0
            },
            GeomEvent::LineStringBegin {
                tagged: false,
                size: 2,
                idx: 0
            },
            GeomEvent::Xy {
                x: c(0.0),
                y: c(1.0),
                idx: 0
            },
            GeomEvent::Xy {
                x: c(2.0),
                y: c(3.0),
                idx: 1
            },
            GeomEvent::LineStringEnd {
                tagged: false,
                idx: 0
            },
            GeomEvent::PolygonEnd {
                tagged: true,
                idx: 0
            },
        ]
    );
}

#[test]
fn events_of_a_measured_point_carry_full_coordinates() {
    let point = PointM::new(c(1.0), c(2.0), c(3.0), None);
    let mut recorder = EventRecorder::new(CoordDimensions {
        z: false,
        m: true,
        t: false,
        tm: false,
    });
    assert!(recorder.multi_dim());
    point.process_geom(&mut recorder).unwrap();
    assert_eq!(
        recorder.events(),
        &vec![
            GeomEvent::Srid(None),
            GeomEvent::PointBegin(0),
            GeomEvent::Coordinate {
                x: c(1.0),
                y: c(2.0),
                z: None,
                m: Some(c(3.0)),
                t: None,
                tm: None,
                idx: 0
            },
            GeomEvent::PointEnd(0),
        ]
    );
}

#[test]
fn collection_members_are_numbered_without_srid() {
    let collection = GeometryCollection {
        geometries: vec![
            GeometryContainer::Point(Point::new(c(1.0), c(2.0), Some(9))),
            GeometryContainer::Point(Point::new(c(3.0), c(4.0), Some(9))),
        ],
        srid: Some(9),
    };
    let mut recorder = EventRecorder::new(CoordDimensions::xy());
    collection.process_geom(&mut recorder).unwrap();
    let events = recorder.events();
    assert_eq!(events.len(), 9);
    assert_eq!(events[0], GeomEvent::Srid(Some(9)));
    assert_eq!(events[1], GeomEvent::GeometryCollectionBegin { size: 2, idx: 0 });
    assert_eq!(events[2], GeomEvent::PointBegin(0));
    assert_eq!(events[5], GeomEvent::PointBegin(1));
    assert_eq!(events[8], GeomEvent::GeometryCollectionEnd(0));
    assert_eq!(
        events.iter().filter(|e| matches!(e, GeomEvent::Srid(_))).count(),
        1
    );
}

#[test]
fn point_constructors_check_z_and_m() {
    assert_eq!(
        PointZ::new_point(c(72.0), c(63.0), None, None, None),
        Err(PointConstructorError::MissingZ(PointKind::PointZ))
    );
    assert_eq!(
        Point::new_point(c(72.0), c(63.0), None, Some(c(10.0)), None),
        Err(PointConstructorError::UnexpectedZOrM {
            z: Some(c(10.0)),
            m: None
        })
    );
    assert_eq!(
        PointM::new_point(c(1.0), c(2.0), None, Some(c(3.0)), Some(c(4.0))),
        Err(PointConstructorError::UnexpectedZ { z: Some(c(3.0)) })
    );
    assert_eq!(
        PointZ::new_point(c(1.0), c(2.0), None, Some(c(3.0)), Some(c(4.0))),
        Err(PointConstructorError::UnexpectedM { m: Some(c(4.0)) })
    );
    assert_eq!(
        PointZM::new_point(c(1.0), c(2.0), None, Some(c(3.0)), None),
        Err(PointConstructorError::MissingM(PointKind::PointZM))
    );
    assert_eq!(
        AnyPoint::new_point(c(1.0), c(2.0), Some(1), None, Some(c(4.0))),
        Ok(AnyPoint::PointM(PointM::new(c(1.0), c(2.0), c(4.0), Some(1))))
    );
    assert_eq!(
        AnyPoint::new_point(c(1.0), c(2.0), Some(1), Some(c(3.0)), Some(c(4.0))),
        Ok(AnyPoint::PointZM(PointZM::new(c(1.0), c(2.0), c(3.0), c(4.0), Some(1))))
    );
    assert_eq!(
        AnyPoint::PointZ(PointZ::new(c(1.0), c(2.0), c(3.0), None)).dimension(),
        DIMENSION_Z
    );
}

#[test]
fn dimension_flags_and_srids() {
    let zm = |d: CoordDimensions| (d.z, d.m, d.t, d.tm);
    assert_eq!(zm(dims_from_flag(DIMENSION_NONE)), (false, false, false, false));
    assert_eq!(zm(dims_from_flag(DIMENSION_Z)), (true, false, false, false));
    assert_eq!(zm(dims_from_flag(DIMENSION_M)), (false, true, false, false));
    assert_eq!(zm(dims_from_flag(DIMENSION_ZM)), (true, true, false, false));
    assert_eq!(srid_to_i32(Some(4326)), Some(4326));
    assert_eq!(srid_to_i32(Some(u32::MAX)), Some(-1));
    assert_eq!(srid_to_i32(None), None);

    // An SRID beyond i32 survives the trip through the writer
    let point = Point::new(c(1.0), c(2.0), Some(u32::MAX));
    assert_eq!(
        GeometryContainer::<Point>::from_geometry(&point).unwrap(),
        GeometryContainer::Point(point)
    );

    // A polygon takes its dimensions from the first point of its first ring
    let polygon = Polygon {
        rings: vec![vec![PointM::new(c(0.0), c(0.0), c(1.0), None)]],
        srid: None,
    };
    assert_eq!(polygon.dimension(), DIMENSION_M);
    assert_eq!(zm(polygon.dims()), (false, true, false, false));
    let empty = MultiPolygon::<PointM> {
        polygons: Vec::new(),
        srid: None,
    };
    assert_eq!(empty.dimension(), DIMENSION_NONE);
    let _ = (Geometry, Geography);
}
