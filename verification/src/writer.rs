//! Building geometries from a stream of processor events.
use vstd::prelude::*;

use crate::geometry::{
    geometry_models, GeometryCollection, GeometryContainer, GeometryModel, LineString,
    MultiLineString, MultiLineStringModel, MultiPoint, MultiPolygon, MultiPolygonModel, PathModel,
    Polygon, PolygonModel,
};
use crate::geozero_geometry::GeozeroGeometry;
use crate::points::PointT;
use crate::processor::{
    outcome, run, CoordDimensions, GeomEvent, GeomProcessor, GeozeroError, GeozeroErrorModel,
};

verus! {

/// Generator for geometries over the point type `P`.
pub struct PostgisDieselWriter<P> {
    geom: Option<GeometryContainer<P>>,
    srid: Option<u32>,
    // Enclosing geometry collections, innermost last
    collections: Vec<Vec<GeometryContainer<P>>>,
    // Polygons of a multi-polygon
    polygons: Option<Vec<Polygon<P>>>,
    // Rings of a polygon, or lines of a multi-linestring
    line_strings: Option<Vec<Vec<P>>>,
    // Coordinates of a point or line string
    coords: Option<Vec<P>>,
}

/// Model of a `PostgisDieselWriter`.
#[verifier::ext_equal]
pub struct WriterModel<P> {
    /// The finished geometry, once there is one.
    pub geom: Option<GeometryModel<P>>,
    /// The SRID given to every geometry and point built.
    pub srid: Option<u32>,
    /// The members gathered so far by each open geometry collection, innermost last.
    pub collections: Seq<Seq<GeometryModel<P>>>,
    /// The polygons of an open multi-polygon.
    pub polygons: Option<Seq<PolygonModel<P>>>,
    /// The rings of an open polygon, or the lines of an open multi-line-string.
    pub line_strings: Option<Seq<Seq<P>>>,
    /// The points of an open point, multi-point or line string.
    pub coords: Option<Seq<P>>,
}

/// A geometry error with this message.
pub open spec fn geometry_error(msg: Seq<char>) -> Option<GeozeroErrorModel> {
    Some(GeozeroErrorModel::Geometry(msg))
}

impl<P: PointT> WriterModel<P> {
    /// A writer that has been given nothing.
    pub open spec fn initial() -> WriterModel<P> {
        WriterModel {
            geom: None,
            srid: None,
            collections: Seq::empty(),
            polygons: None,
            line_strings: None,
            coords: None,
        }
    }

    /// Attaches a finished geometry to the innermost open collection, or makes it the
    /// result when no collection is open.
    pub open spec fn finish(self, g: GeometryModel<P>) -> WriterModel<P> {
        if self.collections.len() > 0 {
            WriterModel {
                collections: self.collections.update(
                    self.collections.len() - 1,
                    self.collections.last().push(g),
                ),
                ..self
            }
        } else {
            WriterModel { geom: Some(g), ..self }
        }
    }

    /// Builds a point with the writer's SRID and adds it to the open points.
    pub open spec fn add_point(
        self,
        x: u64,
        y: u64,
        z: Option<u64>,
        m: Option<u64>,
    ) -> (WriterModel<P>, Option<GeozeroErrorModel>) {
        match P::construct(x, y, self.srid, z, m) {
            Err(e) => (self, Some(GeozeroErrorModel::Point(e))),
            Ok(p) => match self.coords {
                None => (self, geometry_error("Not ready for coords"@)),
                Some(c) => (WriterModel { coords: Some(c.push(p)), ..self }, None),
            },
        }
    }

    /// The writer's response to one event.
    pub open spec fn step(self, event: GeomEvent) -> (WriterModel<P>, Option<GeozeroErrorModel>) {
        let srid = self.srid;
        match event {
            GeomEvent::Srid(s) => (
                WriterModel {
                    srid: match s {
                        Some(v) => Some(v as u32),
                        None => None,
                    },
                    ..self
                },
                None,
            ),
            GeomEvent::Xy { x, y, idx } => self.add_point(x, y, None, None),
            GeomEvent::Coordinate { x, y, z, m, t, tm, idx } => self.add_point(x, y, z, m),
            GeomEvent::PointBegin(_) => (WriterModel { coords: Some(Seq::empty()), ..self }, None),
            GeomEvent::PointEnd(_) => {
                let taken = WriterModel { coords: None, ..self };
                match self.coords {
                    None => (taken, geometry_error("No coords for "@ + "Point"@)),
                    Some(c) => if c.len() == 0 {
                        (taken, geometry_error("Empty point"@))
                    } else {
                        (taken.finish(GeometryModel::Point(c[0])), None)
                    },
                }
            },
            GeomEvent::MultiPointBegin { size, idx } => (
                WriterModel { coords: Some(Seq::empty()), ..self },
                None,
            ),
            GeomEvent::MultiPointEnd(_) => {
                let taken = WriterModel { coords: None, ..self };
                match self.coords {
                    None => (taken, geometry_error("No coords for "@ + "MultiPoint"@)),
                    Some(c) => (
                        taken.finish(GeometryModel::MultiPoint(PathModel { points: c, srid })),
                        None,
                    ),
                }
            },
            GeomEvent::LineStringBegin { tagged, size, idx } => (
                WriterModel { coords: Some(Seq::empty()), ..self },
                None,
            ),
            GeomEvent::LineStringEnd { tagged, idx } => {
                let taken = WriterModel { coords: None, ..self };
                match self.coords {
                    None => (taken, geometry_error("No coords for "@ + "LineString"@)),
                    Some(c) => if tagged {
                        (
                            taken.finish(GeometryModel::LineString(PathModel { points: c, srid })),
                            None,
                        )
                    } else {
                        match self.line_strings {
                            None => (taken, geometry_error("Missing container for LineString"@)),
                            Some(ls) => (
                                WriterModel { line_strings: Some(ls.push(c)), ..taken },
                                None,
                            ),
                        }
                    },
                }
            },
            GeomEvent::MultiLineStringBegin { size, idx } => (
                WriterModel { line_strings: Some(Seq::empty()), ..self },
                None,
            ),
            GeomEvent::MultiLineStringEnd(_) => {
                let taken = WriterModel { line_strings: None, ..self };
                match self.line_strings {
                    None => (taken, geometry_error("No lines for MultiLineString"@)),
                    Some(lines) => (
                        taken.finish(
                            GeometryModel::MultiLineString(
                                MultiLineStringModel {
                                    lines: lines.map_values(
                                        |points: Seq<P>| PathModel { points, srid },
                                    ),
                                    srid,
                                },
                            ),
                        ),
                        None,
                    ),
                }
            },
            GeomEvent::PolygonBegin { tagged, size, idx } => (
                WriterModel { line_strings: Some(Seq::empty()), ..self },
                None,
            ),
            GeomEvent::PolygonEnd { tagged, idx } => {
                let taken = WriterModel { line_strings: None, ..self };
                match self.line_strings {
                    None => (taken, geometry_error("Missing rings for Polygon"@)),
                    Some(rings) => {
                        let polygon = PolygonModel { rings, srid };
                        if tagged {
                            (taken.finish(GeometryModel::Polygon(polygon)), None)
                        } else {
                            match self.polygons {
                                None => (taken, geometry_error("Missing container for Polygon"@)),
                                Some(ps) => (
                                    WriterModel { polygons: Some(ps.push(polygon)), ..taken },
                                    None,
                                ),
                            }
                        }
                    },
                }
            },
            GeomEvent::MultiPolygonBegin { size, idx } => (
                WriterModel { polygons: Some(Seq::empty()), ..self },
                None,
            ),
            GeomEvent::MultiPolygonEnd(_) => {
                let taken = WriterModel { polygons: None, ..self };
                match self.polygons {
                    None => (taken, geometry_error("Missing polygons for MultiPolygon"@)),
                    Some(polygons) => (
                        taken.finish(
                            GeometryModel::MultiPolygon(
                                MultiPolygonModel { polygons, srid },
                            ),
                        ),
                        None,
                    ),
                }
            },
            GeomEvent::GeometryCollectionBegin { size, idx } => (
                WriterModel { collections: self.collections.push(Seq::empty()), ..self },
                None,
            ),
            GeomEvent::GeometryCollectionEnd(_) => {
                if self.collections.len() == 0 {
                    (self, geometry_error("Unexpected geometry type"@))
                } else {
                    let popped = WriterModel { collections: self.collections.drop_last(), ..self };
                    (
                        popped.finish(
                            GeometryModel::GeometryCollection {
                                geometries: self.collections.last(),
                                srid,
                            },
                        ),
                        None,
                    )
                }
            },
        }
    }
}

impl<P> View for PostgisDieselWriter<P> {
    type V = WriterModel<P>;

    closed spec fn view(&self) -> WriterModel<P> {
        WriterModel {
            geom: match self.geom {
                Some(g) => Some(g@),
                None => None,
            },
            srid: self.srid,
            collections: self.collections@.map_values(
                |c: Vec<GeometryContainer<P>>| geometry_models(c@),
            ),
            polygons: match self.polygons {
                Some(ps) => Some(ps@.map_values(|p: Polygon<P>| p@)),
                None => None,
            },
            line_strings: match self.line_strings {
                Some(ls) => Some(ls@.map_values(|l: Vec<P>| l@)),
                None => None,
            },
            coords: match self.coords {
                Some(c) => Some(c@),
                None => None,
            },
        }
    }
}

impl<P: PointT> Default for PostgisDieselWriter<P> {
    fn default() -> (r: Self)
        ensures
            r@ == (WriterModel::<P>::initial()),
    {
        PostgisDieselWriter {
            geom: None,
            srid: None,
            collections: Vec::new(),
            polygons: None,
            line_strings: None,
            coords: None,
        }
    }
}

impl<P: PointT> PostgisDieselWriter<P> {
    /// A writer that has been given nothing.
    pub fn new() -> (r: Self)
        ensures
            r@ == (WriterModel::<P>::initial()),
    {
        Self::default()
    }

    /// Hands out the finished geometry, if there is one, and forgets it.
    pub fn take_geometry(&mut self) -> (r: Option<GeometryContainer<P>>)
        ensures
            (match r {
                Some(g) => old(self)@.geom == Some(g@),
                None => old(self)@.geom is None,
            }),
            final(self)@ == (WriterModel { geom: None, ..old(self)@ }),
    {
        let r = self.geom.take();
        proof {
            assert(self@ =~= WriterModel { geom: None, ..old(self)@ });
        }
        r
    }
}

impl<P: PointT> PostgisDieselWriter<P> {
    /// A point with the writer's SRID.
    fn make_point(&self, x: u64, y: u64, z: Option<u64>, m: Option<u64>) -> (r: Result<
        P,
        GeozeroError,
    >)
        ensures
            (match P::construct(x, y, self@.srid, z, m) {
                Ok(p) => r == Ok::<P, GeozeroError>(p),
                Err(e) => r matches Err(err) && err@ == GeozeroErrorModel::Point(e),
            }),
    {
        match P::new_point(x, y, self.srid, z, m) {
            Ok(p) => Ok(p),
            Err(e) => Err(GeozeroError::Point(e)),
        }
    }

    /// Adds a point to the open points.
    fn push_coord(&mut self, point: P) -> (r: Result<(), GeozeroError>)
        ensures
            (final(self)@, outcome(r)) == (match old(self)@.coords {
                None => (old(self)@, geometry_error("Not ready for coords"@)),
                Some(c) => (WriterModel { coords: Some(c.push(point)), ..old(self)@ }, None),
            }),
    {
        match self.coords.take() {
            Some(mut coords) => {
                coords.push(point);
                self.coords = Some(coords);
                proof {
                    assert(self@ =~= WriterModel { coords: Some(old(self)@.coords->0.push(point)), ..old(self)@ });
                }
                Ok(())
            },
            None => {
                proof {
                    assert(self@ =~= old(self)@);
                }
                Err(GeozeroError::Geometry(String::from_str("Not ready for coords")))
            },
        }
    }

    /// Hands out the open points, closing them; `geometry` names what they are for.
    fn take_coords(&mut self, geometry: &str) -> (r: Result<Vec<P>, GeozeroError>)
        ensures
            final(self)@ == (WriterModel { coords: None, ..old(self)@ }),
            (match old(self)@.coords {
                None => r matches Err(e) && e@ == GeozeroErrorModel::Geometry(
                    "No coords for "@ + geometry@,
                ),
                Some(c) => r matches Ok(v) && v@ == c,
            }),
    {
        let taken = self.coords.take();
        proof {
            assert(self@ =~= WriterModel { coords: None, ..old(self)@ });
        }
        match taken {
            Some(coords) => Ok(coords),
            None => {
                let mut msg = String::from_str("No coords for ");
                msg.append(geometry);
                Err(GeozeroError::Geometry(msg))
            },
        }
    }

    /// Attaches a completed geometry to the enclosing collection, or to the output if there
    /// is none.
    fn finish_geometry(&mut self, geometry: GeometryContainer<P>) -> (r: Result<(), GeozeroError>)
        ensures
            final(self)@ == old(self)@.finish(geometry@),
            r is Ok,
    {
        match self.collections.pop() {
            Some(mut collection) => {
                collection.push(geometry);
                self.collections.push(collection);
                proof {
                    let old_c = old(self)@.collections;
                    crate::geometry::lemma_geometry_models_push(old(self).collections@.last()@, geometry);
                    assert(self@.collections =~= old_c.update(
                        old_c.len() - 1,
                        old_c.last().push(geometry@),
                    ));
                    assert(self@ =~= old(self)@.finish(geometry@));
                }
            },
            None => {
                self.geom = Some(geometry);
                proof {
                    assert(self@ =~= old(self)@.finish(geometry@));
                }
            },
        }
        Ok(())
    }
}

/// Turns the collected point sequences into line strings with the given SRID.
fn lines_from_points<P: PointT>(lines: Vec<Vec<P>>, srid: Option<u32>) -> (r: Vec<LineString<P>>)
    ensures
        r@.map_values(|l: LineString<P>| l@) =~= lines@.map_values(|l: Vec<P>| l@).map_values(
            |points: Seq<P>| PathModel { points, srid },
        ),
{
    let mut out: Vec<LineString<P>> = Vec::with_capacity(lines.len());
    let ghost all = lines@;
    for points in it: lines
        invariant
            all == it.seq(),
            out@.len() == it.index(),
            forall|j: int|
                0 <= j < it.index() ==> (#[trigger] out@[j])@ == (PathModel { points: all[j]@, srid }),
    {
        out.push(LineString { points, srid });
    }
    out
}

impl<P: PointT> GeomProcessor for PostgisDieselWriter<P> {
    open spec fn dimensions_of(state: WriterModel<P>) -> CoordDimensions {
        CoordDimensions { z: true, m: true, t: false, tm: false }
    }

    open spec fn accept(state: WriterModel<P>, event: GeomEvent) -> (
        WriterModel<P>,
        Option<GeozeroErrorModel>,
    ) {
        state.step(event)
    }

    proof fn lemma_accept_keeps_dimensions(state: WriterModel<P>, event: GeomEvent) {
    }

    fn dimensions(&self) -> (r: CoordDimensions) {
        CoordDimensions::xyzm()
    }

    fn srid(&mut self, srid: Option<i32>) -> (r: Result<(), GeozeroError>) {
        self.srid = match srid {
            Some(s) => Some(s as u32),
            None => None,
        };
        proof {
            assert(self@ =~= old(self)@.step(GeomEvent::Srid(srid)).0);
        }
        Ok(())
    }

    fn xy(&mut self, x: u64, y: u64, idx: usize) -> (r: Result<(), GeozeroError>) {
        let point = match self.make_point(x, y, None, None) {
            Ok(p) => p,
            Err(e) => return Err(e),
        };
        self.push_coord(point)
    }

    fn coordinate(
        &mut self,
        x: u64,
        y: u64,
        z: Option<u64>,
        m: Option<u64>,
        t: Option<u64>,
        tm: Option<u64>,
        idx: usize,
    ) -> (r: Result<(), GeozeroError>) {
        let point = match self.make_point(x, y, z, m) {
            Ok(p) => p,
            Err(e) => return Err(e),
        };
        self.push_coord(point)
    }

    fn point_begin(&mut self, idx: usize) -> (r: Result<(), GeozeroError>) {
        self.coords = Some(Vec::with_capacity(1));
        proof {
            assert(self@ =~= old(self)@.step(GeomEvent::PointBegin(idx)).0);
        }
        Ok(())
    }

    fn point_end(&mut self, idx: usize) -> (r: Result<(), GeozeroError>) {
        let coords = match self.take_coords("Point") {
            Ok(c) => c,
            Err(e) => return Err(e),
        };
        if coords.len() == 0 {
            return Err(GeozeroError::Geometry(String::from_str("Empty point")));
        }
        let point = coords[0];
        self.finish_geometry(GeometryContainer::Point(point))
    }

    fn multipoint_begin(&mut self, size: usize, idx: usize) -> (r: Result<(), GeozeroError>) {
        self.coords = Some(Vec::with_capacity(size));
        proof {
            assert(self@ =~= old(self)@.step(GeomEvent::MultiPointBegin { size, idx }).0);
        }
        Ok(())
    }

    fn multipoint_end(&mut self, idx: usize) -> (r: Result<(), GeozeroError>) {
        let points = match self.take_coords("MultiPoint") {
            Ok(c) => c,
            Err(e) => return Err(e),
        };
        let srid = self.srid;
        self.finish_geometry(GeometryContainer::MultiPoint(MultiPoint { points, srid }))
    }

    fn linestring_begin(&mut self, tagged: bool, size: usize, idx: usize) -> (r: Result<
        (),
        GeozeroError,
    >) {
        self.coords = Some(Vec::with_capacity(size));
        proof {
            assert(self@ =~= old(self)@.step(GeomEvent::LineStringBegin { tagged, size, idx }).0);
        }
        Ok(())
    }

    fn linestring_end(&mut self, tagged: bool, idx: usize) -> (r: Result<(), GeozeroError>) {
        let points = match self.take_coords("LineString") {
            Ok(c) => c,
            Err(e) => return Err(e),
        };
        if tagged {
            let srid = self.srid;
            return self.finish_geometry(GeometryContainer::LineString(LineString { points, srid }));
        }
        // Untagged: a ring of the enclosing polygon, or a line of the enclosing multi-linestring
        match self.line_strings.take() {
            Some(mut line_strings) => {
                line_strings.push(points);
                self.line_strings = Some(line_strings);
                proof {
                    let before = old(self)@;
                    assert(self@ =~= before.step(GeomEvent::LineStringEnd { tagged, idx }).0);
                }
                Ok(())
            },
            None => Err(
                GeozeroError::Geometry(String::from_str("Missing container for LineString")),
            ),
        }
    }

    fn multilinestring_begin(&mut self, size: usize, idx: usize) -> (r: Result<(), GeozeroError>) {
        self.line_strings = Some(Vec::with_capacity(size));
        proof {
            assert(self@ =~= old(self)@.step(GeomEvent::MultiLineStringBegin { size, idx }).0);
        }
        Ok(())
    }

    fn multilinestring_end(&mut self, idx: usize) -> (r: Result<(), GeozeroError>) {
        let taken = self.line_strings.take();
        let lines = match taken {
            Some(lines) => lines,
            None => {
                proof {
                    assert(self@ =~= old(self)@.step(GeomEvent::MultiLineStringEnd(idx)).0);
                }
                return Err(
                    GeozeroError::Geometry(String::from_str("No lines for MultiLineString")),
                );
            },
        };
        let srid = self.srid;
        let lines = lines_from_points(lines, srid);
        self.finish_geometry(
            GeometryContainer::MultiLineString(MultiLineString { lines, srid }),
        )
    }

    fn polygon_begin(&mut self, tagged: bool, size: usize, idx: usize) -> (r: Result<
        (),
        GeozeroError,
    >) {
        self.line_strings = Some(Vec::with_capacity(size));
        proof {
            assert(self@ =~= old(self)@.step(GeomEvent::PolygonBegin { tagged, size, idx }).0);
        }
        Ok(())
    }

    fn polygon_end(&mut self, tagged: bool, idx: usize) -> (r: Result<(), GeozeroError>) {
        let taken = self.line_strings.take();
        let rings = match taken {
            Some(rings) => rings,
            None => {
                proof {
                    assert(self@ =~= old(self)@.step(GeomEvent::PolygonEnd { tagged, idx }).0);
                }
                return Err(GeozeroError::Geometry(String::from_str("Missing rings for Polygon")));
            },
        };
        let polygon = Polygon { rings, srid: self.srid };
        if tagged {
            return self.finish_geometry(GeometryContainer::Polygon(polygon));
        }
        // Untagged: a member of the enclosing multi-polygon
        match self.polygons.take() {
            Some(mut polygons) => {
                polygons.push(polygon);
                self.polygons = Some(polygons);
                proof {
                    let before = old(self)@;
                    assert(self@ =~= before.step(GeomEvent::PolygonEnd { tagged, idx }).0);
                }
                Ok(())
            },
            None => {
                proof {
                    assert(self@ =~= old(self)@.step(GeomEvent::PolygonEnd { tagged, idx }).0);
                }
                Err(GeozeroError::Geometry(String::from_str("Missing container for Polygon")))
            },
        }
    }

    fn multipolygon_begin(&mut self, size: usize, idx: usize) -> (r: Result<(), GeozeroError>) {
        self.polygons = Some(Vec::with_capacity(size));
        proof {
            assert(self@ =~= old(self)@.step(GeomEvent::MultiPolygonBegin { size, idx }).0);
        }
        Ok(())
    }

    fn multipolygon_end(&mut self, idx: usize) -> (r: Result<(), GeozeroError>) {
        let taken = self.polygons.take();
        let polygons = match taken {
            Some(polygons) => polygons,
            None => {
                proof {
                    assert(self@ =~= old(self)@.step(GeomEvent::MultiPolygonEnd(idx)).0);
                }
                return Err(
                    GeozeroError::Geometry(String::from_str("Missing polygons for MultiPolygon")),
                );
            },
        };
        let srid = self.srid;
        self.finish_geometry(GeometryContainer::MultiPolygon(MultiPolygon { polygons, srid }))
    }

    fn geometrycollection_begin(&mut self, size: usize, idx: usize) -> (r: Result<
        (),
        GeozeroError,
    >) {
        self.collections.push(Vec::with_capacity(size));
        proof {
            assert(self@ =~= old(self)@.step(GeomEvent::GeometryCollectionBegin { size, idx }).0);
        }
        Ok(())
    }

    fn geometrycollection_end(&mut self, idx: usize) -> (r: Result<(), GeozeroError>) {
        let geometries = match self.collections.pop() {
            Some(g) => g,
            None => {
                return Err(GeozeroError::Geometry(String::from_str("Unexpected geometry type")));
            },
        };
        let srid = self.srid;
        self.finish_geometry(
            GeometryContainer::GeometryCollection(GeometryCollection { geometries, srid }),
        )
    }
}

impl<P: PointT> GeometryContainer<P> {
    /// Builds a geometry over the point type `P` by handing `source` to a new writer.
    pub fn from_geometry<G: GeozeroGeometry>(source: &G) -> (r: Result<Self, GeozeroError>)
        ensures
            ({
                let (after, err) = run::<PostgisDieselWriter<P>>(
                    WriterModel::initial(),
                    source.events_for(true),
                );
                match err {
                    Some(e) => r matches Err(x) && x@ == e,
                    None => match after.geom {
                        Some(g) => r matches Ok(x) && x@ == g,
                        None => r matches Err(x) && x@ == GeozeroErrorModel::Geometry(
                            "Missing geometry"@,
                        ),
                    },
                }
            }),
    {
        let mut writer = PostgisDieselWriter::<P>::new();
        let processed = source.process_geom(&mut writer);
        if let Err(e) = processed {
            return Err(e);
        }
        match writer.take_geometry() {
            Some(g) => Ok(g),
            None => Err(GeozeroError::Geometry(String::from_str("Missing geometry"))),
        }
    }
}

} // verus!
