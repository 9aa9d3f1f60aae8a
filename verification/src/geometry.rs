//! Geometry containers over a point type, and their mathematical models.
use vstd::prelude::*;

use crate::points::{PointT, DIMENSION_NONE};

verus! {

/// A line string.
#[derive(Debug, PartialEq)]
pub struct LineString<P> {
    pub points: Vec<P>,
    pub srid: Option<u32>,
}

/// A polygon: its rings, each a sequence of points.
#[derive(Debug, PartialEq)]
pub struct Polygon<P> {
    pub rings: Vec<Vec<P>>,
    pub srid: Option<u32>,
}

/// A collection of points.
#[derive(Debug, PartialEq)]
pub struct MultiPoint<P> {
    pub points: Vec<P>,
    pub srid: Option<u32>,
}

/// A collection of line strings.
#[derive(Debug, PartialEq)]
pub struct MultiLineString<P> {
    pub lines: Vec<LineString<P>>,
    pub srid: Option<u32>,
}

/// A collection of polygons.
#[derive(Debug, PartialEq)]
pub struct MultiPolygon<P> {
    pub polygons: Vec<Polygon<P>>,
    pub srid: Option<u32>,
}

/// A collection of arbitrary geometries.
#[derive(Debug, PartialEq)]
pub struct GeometryCollection<P> {
    pub geometries: Vec<GeometryContainer<P>>,
    pub srid: Option<u32>,
}

/// Any geometry.
#[derive(Debug, PartialEq)]
pub enum GeometryContainer<P> {
    Point(P),
    LineString(LineString<P>),
    Polygon(Polygon<P>),
    MultiPoint(MultiPoint<P>),
    MultiLineString(MultiLineString<P>),
    MultiPolygon(MultiPolygon<P>),
    GeometryCollection(GeometryCollection<P>),
}

/// Model of a line string or of a multi-point: its points and its SRID.
pub struct PathModel<P> {
    pub points: Seq<P>,
    pub srid: Option<u32>,
}

/// Model of a polygon.
pub struct PolygonModel<P> {
    pub rings: Seq<Seq<P>>,
    pub srid: Option<u32>,
}

/// Model of a multi-line-string.
pub struct MultiLineStringModel<P> {
    pub lines: Seq<PathModel<P>>,
    pub srid: Option<u32>,
}

/// Model of a multi-polygon.
pub struct MultiPolygonModel<P> {
    pub polygons: Seq<PolygonModel<P>>,
    pub srid: Option<u32>,
}

/// Model of any geometry.
pub enum GeometryModel<P> {
    Point(P),
    LineString(PathModel<P>),
    Polygon(PolygonModel<P>),
    MultiPoint(PathModel<P>),
    MultiLineString(MultiLineStringModel<P>),
    MultiPolygon(MultiPolygonModel<P>),
    GeometryCollection { geometries: Seq<GeometryModel<P>>, srid: Option<u32> },
}

impl<P> View for LineString<P> {
    type V = PathModel<P>;

    open spec fn view(&self) -> PathModel<P> {
        PathModel { points: self.points@, srid: self.srid }
    }
}

impl<P> View for MultiPoint<P> {
    type V = PathModel<P>;

    open spec fn view(&self) -> PathModel<P> {
        PathModel { points: self.points@, srid: self.srid }
    }
}

impl<P> View for Polygon<P> {
    type V = PolygonModel<P>;

    open spec fn view(&self) -> PolygonModel<P> {
        PolygonModel { rings: self.rings@.map_values(|r: Vec<P>| r@), srid: self.srid }
    }
}

impl<P> View for MultiLineString<P> {
    type V = MultiLineStringModel<P>;

    open spec fn view(&self) -> MultiLineStringModel<P> {
        MultiLineStringModel {
            lines: self.lines@.map_values(|l: LineString<P>| l@),
            srid: self.srid,
        }
    }
}

impl<P> View for MultiPolygon<P> {
    type V = MultiPolygonModel<P>;

    open spec fn view(&self) -> MultiPolygonModel<P> {
        MultiPolygonModel {
            polygons: self.polygons@.map_values(|p: Polygon<P>| p@),
            srid: self.srid,
        }
    }
}

/// Model of a geometry.
pub open spec fn geometry_model<P>(g: GeometryContainer<P>) -> GeometryModel<P>
    decreases g,
{
    match g {
        GeometryContainer::Point(p) => GeometryModel::Point(p),
        GeometryContainer::LineString(l) => GeometryModel::LineString(l@),
        GeometryContainer::Polygon(p) => GeometryModel::Polygon(p@),
        GeometryContainer::MultiPoint(m) => GeometryModel::MultiPoint(m@),
        GeometryContainer::MultiLineString(m) => GeometryModel::MultiLineString(m@),
        GeometryContainer::MultiPolygon(m) => GeometryModel::MultiPolygon(m@),
        GeometryContainer::GeometryCollection(c) => {
            let members = c.geometries@;
            GeometryModel::GeometryCollection {
                geometries: geometry_models(members),
                srid: c.srid,
            }
        },
    }
}

/// Models of a sequence of geometries.
pub open spec fn geometry_models<P>(gs: Seq<GeometryContainer<P>>) -> Seq<GeometryModel<P>>
    decreases gs,
{
    if gs.len() == 0 {
        Seq::empty()
    } else {
        geometry_models(gs.drop_last()).push(geometry_model(gs.last()))
    }
}

impl<P> View for GeometryContainer<P> {
    type V = GeometryModel<P>;

    open spec fn view(&self) -> GeometryModel<P> {
        geometry_model(*self)
    }
}

impl<P> View for GeometryCollection<P> {
    type V = GeometryModel<P>;

    open spec fn view(&self) -> GeometryModel<P> {
        GeometryModel::GeometryCollection {
            geometries: geometry_models(self.geometries@),
            srid: self.srid,
        }
    }
}

/// The SRID of a geometry: a point's own, or the container's.
pub open spec fn geometry_srid<P: PointT>(g: GeometryModel<P>) -> Option<u32> {
    match g {
        GeometryModel::Point(p) => p.srid_of(),
        GeometryModel::LineString(l) => l.srid,
        GeometryModel::Polygon(p) => p.srid,
        GeometryModel::MultiPoint(m) => m.srid,
        GeometryModel::MultiLineString(m) => m.srid,
        GeometryModel::MultiPolygon(m) => m.srid,
        GeometryModel::GeometryCollection { geometries, srid } => srid,
    }
}

/// The dimension flag of a sequence of points: that of the first, or none when empty.
pub open spec fn points_dimension<P: PointT>(points: Seq<P>) -> u32 {
    if points.len() > 0 {
        points[0].dimension_of()
    } else {
        0
    }
}

/// The dimension flag of a polygon: that of its first point, or none.
pub open spec fn rings_dimension<P: PointT>(rings: Seq<Seq<P>>) -> u32 {
    if rings.len() > 0 {
        points_dimension(rings[0])
    } else {
        0
    }
}

/// The dimension flag of a geometry: that of its first point, or none when it has none.
pub open spec fn geometry_dimension<P: PointT>(g: GeometryModel<P>) -> u32
    decreases g,
{
    match g {
        GeometryModel::Point(p) => p.dimension_of(),
        GeometryModel::LineString(l) => points_dimension(l.points),
        GeometryModel::Polygon(p) => rings_dimension(p.rings),
        GeometryModel::MultiPoint(m) => points_dimension(m.points),
        GeometryModel::MultiLineString(m) => if m.lines.len() > 0 {
            points_dimension(m.lines[0].points)
        } else {
            0
        },
        GeometryModel::MultiPolygon(m) => if m.polygons.len() > 0 {
            rings_dimension(m.polygons[0].rings)
        } else {
            0
        },
        GeometryModel::GeometryCollection { geometries, srid } => if geometries.len() > 0 {
            geometry_dimension(geometries[0])
        } else {
            0
        },
    }
}

/// The first point of a sequence of points, if any.
pub open spec fn first_of<P>(points: Seq<P>) -> Option<P> {
    if points.len() > 0 {
        Some(points[0])
    } else {
        None
    }
}

/// The point a geometry leads with: a point itself, the first point of a line string or
/// multi-point, of the first ring of a polygon, of the first line of a multi-line-string, of
/// the first ring of the first polygon of a multi-polygon, and the point the first member of a
/// collection leads with; none where the first part has no point.
pub open spec fn leading_point<P>(g: GeometryModel<P>) -> Option<P>
    decreases g,
{
    match g {
        GeometryModel::Point(p) => Some(p),
        GeometryModel::LineString(l) => first_of(l.points),
        GeometryModel::Polygon(p) => if p.rings.len() > 0 {
            first_of(p.rings[0])
        } else {
            None
        },
        GeometryModel::MultiPoint(m) => first_of(m.points),
        GeometryModel::MultiLineString(m) => if m.lines.len() > 0 {
            first_of(m.lines[0].points)
        } else {
            None
        },
        GeometryModel::MultiPolygon(m) => if m.polygons.len() > 0 && m.polygons[0].rings.len()
            > 0 {
            first_of(m.polygons[0].rings[0])
        } else {
            None
        },
        GeometryModel::GeometryCollection { geometries, srid } => if geometries.len() > 0 {
            leading_point(geometries[0])
        } else {
            None
        },
    }
}

/// A geometry's dimension flag is the flag of the point it leads with, and no flag when it
/// leads with none.
pub proof fn lemma_dimension_of_leading_point<P: PointT>(g: GeometryModel<P>)
    ensures
        geometry_dimension(g) == (match leading_point(g) {
            Some(p) => p.dimension_of(),
            None => DIMENSION_NONE,
        }),
    decreases g,
{
    if let GeometryModel::GeometryCollection { geometries, srid } = g {
        if geometries.len() > 0 {
            lemma_dimension_of_leading_point(geometries[0]);
        }
    }
}

/// A point's dimension flag, as a geometry, is its own.
pub proof fn lemma_point_dimension<P: PointT>(p: P)
    ensures
        geometry_dimension(GeometryModel::Point(p)) == p.dimension_of(),
{
}

/// A multi-line-string's dimension flag is that of the first point of its first line, and no
/// flag when there is no such point.
pub proof fn lemma_multilinestring_dimension<P: PointT>(m: MultiLineStringModel<P>)
    ensures
        m.lines.len() > 0 && m.lines[0].points.len() > 0 ==> geometry_dimension(
            GeometryModel::MultiLineString(m),
        ) == m.lines[0].points[0].dimension_of(),
        m.lines.len() == 0 || m.lines[0].points.len() == 0 ==> geometry_dimension(
            GeometryModel::MultiLineString(m),
        ) == DIMENSION_NONE,
{
}

/// A collection's dimension flag is that of its first member, and no flag when it is empty.
pub proof fn lemma_collection_dimension<P: PointT>(
    geometries: Seq<GeometryModel<P>>,
    srid: Option<u32>,
)
    ensures
        geometries.len() > 0 ==> geometry_dimension(
            GeometryModel::GeometryCollection { geometries, srid },
        ) == geometry_dimension(geometries[0]),
        geometries.len() == 0 ==> geometry_dimension(
            GeometryModel::GeometryCollection { geometries, srid },
        ) == DIMENSION_NONE,
{
}

/// The models of a sequence with one more geometry.
pub proof fn lemma_geometry_models_push<P>(gs: Seq<GeometryContainer<P>>, g: GeometryContainer<P>)
    ensures
        geometry_models(gs.push(g)) == geometry_models(gs).push(g@),
{
    assert(gs.push(g).drop_last() =~= gs);
}

/// The models of a sequence of geometries are the models of its members, in order.
pub proof fn lemma_geometry_models_index<P>(gs: Seq<GeometryContainer<P>>)
    ensures
        geometry_models(gs).len() == gs.len(),
        forall|k: int| 0 <= k < gs.len() ==> #[trigger] geometry_models(gs)[k] == geometry_model(gs[k]),
    decreases gs.len(),
{
    if gs.len() > 0 {
        lemma_geometry_models_index(gs.drop_last());
    }
}


impl<P: PointT> LineString<P> {
    /// The dimension flag of the first point, or none when there is no point.
    pub fn dimension(&self) -> (r: u32)
        ensures
            r == points_dimension(self.points@),
    {
        if self.points.len() > 0 {
            self.points[0].dimension()
        } else {
            DIMENSION_NONE
        }
    }
}

impl<P: PointT> MultiPoint<P> {
    /// The dimension flag of the first point, or none when there is no point.
    pub fn dimension(&self) -> (r: u32)
        ensures
            r == points_dimension(self.points@),
    {
        if self.points.len() > 0 {
            self.points[0].dimension()
        } else {
            DIMENSION_NONE
        }
    }
}

impl<P: PointT> Polygon<P> {
    /// The dimension flag of the first point of the first ring, or none.
    pub fn dimension(&self) -> (r: u32)
        ensures
            r == rings_dimension(self@.rings),
    {
        if self.rings.len() > 0 && self.rings[0].len() > 0 {
            self.rings[0][0].dimension()
        } else {
            DIMENSION_NONE
        }
    }
}

impl<P: PointT> MultiLineString<P> {
    /// The dimension flag of the first line, or none when there is no line.
    pub fn dimension(&self) -> (r: u32)
        ensures
            r == geometry_dimension(GeometryModel::MultiLineString(self@)),
            self.lines.len() > 0 && self.lines@[0].points.len() > 0 ==> r
                == self.lines@[0].points@[0].dimension_of(),
            self.lines.len() == 0 || self.lines@[0].points.len() == 0 ==> r == DIMENSION_NONE,
    {
        if self.lines.len() > 0 {
            self.lines[0].dimension()
        } else {
            DIMENSION_NONE
        }
    }
}

impl<P: PointT> MultiPolygon<P> {
    /// The dimension flag of the first polygon, or none when there is no polygon.
    pub fn dimension(&self) -> (r: u32)
        ensures
            r == geometry_dimension(GeometryModel::MultiPolygon(self@)),
            r == (match leading_point(GeometryModel::MultiPolygon(self@)) {
                Some(p) => p.dimension_of(),
                None => DIMENSION_NONE,
            }),
    {
        if self.polygons.len() > 0 {
            self.polygons[0].dimension()
        } else {
            DIMENSION_NONE
        }
    }
}

impl<P: PointT> GeometryCollection<P> {
    /// The dimension flag of the first member, or none when there is no member.
    pub fn dimension(&self) -> (r: u32)
        ensures
            r == geometry_dimension(self@),
            self.geometries.len() > 0 ==> r == geometry_dimension(self.geometries@[0]@),
            self.geometries.len() == 0 ==> r == DIMENSION_NONE,
        decreases self,
    {
        proof {
            lemma_geometry_models_index(self.geometries@);
        }
        if self.geometries.len() > 0 {
            self.geometries[0].dimension()
        } else {
            DIMENSION_NONE
        }
    }
}

impl<P: PointT> GeometryContainer<P> {
    /// The dimension flag of the geometry held.
    pub fn dimension(&self) -> (r: u32)
        ensures
            r == geometry_dimension(self@),
            r == (match leading_point(self@) {
                Some(p) => p.dimension_of(),
                None => DIMENSION_NONE,
            }),
        decreases self,
    {
        proof {
            lemma_dimension_of_leading_point(self@);
        }
        match self {
            GeometryContainer::Point(g) => g.dimension(),
            GeometryContainer::LineString(g) => g.dimension(),
            GeometryContainer::Polygon(g) => g.dimension(),
            GeometryContainer::MultiPoint(g) => g.dimension(),
            GeometryContainer::MultiLineString(g) => g.dimension(),
            GeometryContainer::MultiPolygon(g) => g.dimension(),
            GeometryContainer::GeometryCollection(g) => g.dimension(),
        }
    }
}

} // verus!
