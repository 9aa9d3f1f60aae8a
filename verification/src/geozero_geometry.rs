//! Geometries that can be handed to a processor, with their dimensions and SRID.
use vstd::prelude::*;

use crate::events::{container_events, geometry_events, srid_as_i32};
use crate::geometry::{
    geometry_dimension, geometry_srid, leading_point, lemma_dimension_of_leading_point,
    GeometryCollection, GeometryContainer, GeometryModel, LineString, MultiLineString, MultiPoint,
    MultiPolygon, Polygon,
};
use crate::points::{
    AnyPoint, Point, PointM, PointT, PointZ, PointZM, DIMENSION_M, DIMENSION_NONE, DIMENSION_Z,
};
use crate::processor::{
    lemma_run_empty, lemma_run_one, lemma_run_step, outcome, run, CoordDimensions, GeomEvent,
    GeomProcessor, GeozeroError,
};
use crate::reader::{
    process_collection, process_container, process_linestring, process_multilinestring,
    process_multipoint, process_multipolygon, process_point_geometry, process_polygon,
    wants_multi_dim,
};

verus! {

/// The coordinate dimensions that a dimension flag stands for: Z when its Z bit is set,
/// M when its M bit is set.
pub open spec fn dims_of_flag(dim: u32) -> CoordDimensions {
    CoordDimensions { z: dim & DIMENSION_Z != 0, m: dim & DIMENSION_M != 0, t: false, tm: false }
}

/// The coordinate dimensions that a dimension flag stands for.
pub fn dims_from_flag(dim: u32) -> (r: CoordDimensions)
    ensures
        r == dims_of_flag(dim),
{
    CoordDimensions { z: dim & DIMENSION_Z != 0, m: dim & DIMENSION_M != 0, t: false, tm: false }
}

/// An SRID as handed to a processor: the same 32 bits, read as a signed number.
pub fn srid_to_i32(srid: Option<u32>) -> (r: Option<i32>)
    ensures
        r == srid_as_i32(srid),
{
    match srid {
        Some(s) => Some(s as i32),
        None => None,
    }
}

/// A geometry that can be handed to a processor.
pub trait GeozeroGeometry {
    /// The events that `process_geom` hands to a processor; `md` tells whether the
    /// processor takes full coordinates.
    spec fn events_for(&self, md: bool) -> Seq<GeomEvent>;

    /// The coordinate dimensions of the geometry.
    spec fn dims_spec(&self) -> CoordDimensions;

    /// The SRID of the geometry, as handed to a processor.
    spec fn srid_spec(&self) -> Option<i32>;

    /// Hands the geometry to `processor`, stopping at the first error it returns.
    fn process_geom<Proc: GeomProcessor>(&self, processor: &mut Proc) -> (r: Result<
        (),
        GeozeroError,
    >)
        ensures
            (final(processor)@, outcome(r)) == run::<Proc>(
                old(processor)@,
                self.events_for(wants_multi_dim::<Proc>(old(processor)@)),
            ),
    ;

    fn dims(&self) -> (r: CoordDimensions)
        ensures
            r == self.dims_spec(),
    ;

    fn srid(&self) -> (r: Option<i32>)
        ensures
            r == self.srid_spec(),
    ;
}

/// Hands the SRID event to the processor; when it succeeds, what follows runs from the
/// state it leaves.
fn process_srid<Proc: GeomProcessor>(
    processor: &mut Proc,
    srid: Option<i32>,
    Ghost(body): Ghost<Seq<GeomEvent>>,
) -> (r: Result<(), GeozeroError>)
    ensures
        r is Err ==> (final(processor)@, outcome(r)) == run::<Proc>(
            old(processor)@,
            seq![GeomEvent::Srid(srid)] + body,
        ),
        r is Ok ==> run::<Proc>(old(processor)@, seq![GeomEvent::Srid(srid)] + body) == run::<
            Proc,
        >(final(processor)@, body),
        Proc::dimensions_of(final(processor)@) == Proc::dimensions_of(old(processor)@),
{
    let ghost start = processor@;
    let ghost head = seq![GeomEvent::Srid(srid)];
    proof {
        lemma_run_empty::<Proc>(start);
        lemma_run_one::<Proc>(start, head[0]);
        lemma_run_step::<Proc>(start, Seq::empty(), head, body, start);
        assert(Seq::<GeomEvent>::empty() + head =~= head);
        Proc::lemma_accept_keeps_dimensions(start, head[0]);
    }
    let r = processor.srid(srid);
    proof {
        if r is Ok {
            lemma_run_step::<Proc>(start, head, body, Seq::empty(), processor@);
        }
    }
    r
}

/// `process_geom` of a single point: its SRID, then the point at position 0.
fn process_point_geom<P: PointT, Proc: GeomProcessor>(point: &P, processor: &mut Proc) -> (r:
    Result<(), GeozeroError>)
    ensures
        (final(processor)@, outcome(r)) == run::<Proc>(
            old(processor)@,
            geometry_events(GeometryModel::Point(*point), wants_multi_dim::<Proc>(old(processor)@)),
        ),
{
    let ghost md = wants_multi_dim::<Proc>(processor@);
    let ghost body = container_events(GeometryModel::Point(*point), 0, md);
    let r = process_srid(processor, srid_to_i32(point.get_srid()), Ghost(body));
    if r.is_err() {
        return r;
    }
    process_point_geometry(point, 0, processor)
}

/// The coordinate dimensions of a single point.
fn point_dims<P: PointT>(point: &P) -> (r: CoordDimensions)
    ensures
        r == dims_of_flag(point.dimension_of()),
{
    dims_from_flag(point.dimension())
}

impl GeozeroGeometry for Point {
    open spec fn events_for(&self, md: bool) -> Seq<GeomEvent> {
        geometry_events(GeometryModel::Point(*self), md)
    }

    open spec fn dims_spec(&self) -> CoordDimensions {
        dims_of_flag(self.dimension_of())
    }

    open spec fn srid_spec(&self) -> Option<i32> {
        srid_as_i32(self.srid_of())
    }

    fn process_geom<Proc: GeomProcessor>(&self, processor: &mut Proc) -> (r: Result<
        (),
        GeozeroError,
    >) {
        process_point_geom(self, processor)
    }

    fn dims(&self) -> (r: CoordDimensions) {
        point_dims(self)
    }

    fn srid(&self) -> (r: Option<i32>)
        ensures
            r == srid_as_i32(self.srid),
    {
        srid_to_i32(self.get_srid())
    }
}

impl GeozeroGeometry for PointZ {
    open spec fn events_for(&self, md: bool) -> Seq<GeomEvent> {
        geometry_events(GeometryModel::Point(*self), md)
    }

    open spec fn dims_spec(&self) -> CoordDimensions {
        dims_of_flag(self.dimension_of())
    }

    open spec fn srid_spec(&self) -> Option<i32> {
        srid_as_i32(self.srid_of())
    }

    fn process_geom<Proc: GeomProcessor>(&self, processor: &mut Proc) -> (r: Result<
        (),
        GeozeroError,
    >) {
        process_point_geom(self, processor)
    }

    fn dims(&self) -> (r: CoordDimensions) {
        point_dims(self)
    }

    fn srid(&self) -> (r: Option<i32>)
        ensures
            r == srid_as_i32(self.srid),
    {
        srid_to_i32(self.get_srid())
    }
}

impl GeozeroGeometry for PointM {
    open spec fn events_for(&self, md: bool) -> Seq<GeomEvent> {
        geometry_events(GeometryModel::Point(*self), md)
    }

    open spec fn dims_spec(&self) -> CoordDimensions {
        dims_of_flag(self.dimension_of())
    }

    open spec fn srid_spec(&self) -> Option<i32> {
        srid_as_i32(self.srid_of())
    }

    fn process_geom<Proc: GeomProcessor>(&self, processor: &mut Proc) -> (r: Result<
        (),
        GeozeroError,
    >) {
        process_point_geom(self, processor)
    }

    fn dims(&self) -> (r: CoordDimensions) {
        point_dims(self)
    }

    fn srid(&self) -> (r: Option<i32>)
        ensures
            r == srid_as_i32(self.srid),
    {
        srid_to_i32(self.get_srid())
    }
}

impl GeozeroGeometry for PointZM {
    open spec fn events_for(&self, md: bool) -> Seq<GeomEvent> {
        geometry_events(GeometryModel::Point(*self), md)
    }

    open spec fn dims_spec(&self) -> CoordDimensions {
        dims_of_flag(self.dimension_of())
    }

    open spec fn srid_spec(&self) -> Option<i32> {
        srid_as_i32(self.srid_of())
    }

    fn process_geom<Proc: GeomProcessor>(&self, processor: &mut Proc) -> (r: Result<
        (),
        GeozeroError,
    >) {
        process_point_geom(self, processor)
    }

    fn dims(&self) -> (r: CoordDimensions) {
        point_dims(self)
    }

    fn srid(&self) -> (r: Option<i32>)
        ensures
            r == srid_as_i32(self.srid),
    {
        srid_to_i32(self.get_srid())
    }
}

impl GeozeroGeometry for AnyPoint {
    open spec fn events_for(&self, md: bool) -> Seq<GeomEvent> {
        geometry_events(GeometryModel::Point(*self), md)
    }

    open spec fn dims_spec(&self) -> CoordDimensions {
        dims_of_flag(self.dimension_of())
    }

    open spec fn srid_spec(&self) -> Option<i32> {
        srid_as_i32(self.srid_of())
    }

    fn process_geom<Proc: GeomProcessor>(&self, processor: &mut Proc) -> (r: Result<
        (),
        GeozeroError,
    >) {
        process_point_geom(self, processor)
    }

    fn dims(&self) -> (r: CoordDimensions) {
        point_dims(self)
    }

    fn srid(&self) -> (r: Option<i32>)
        ensures
            r == srid_as_i32(
                match self {
                    AnyPoint::Point(q) => q.srid,
                    AnyPoint::PointZ(q) => q.srid,
                    AnyPoint::PointM(q) => q.srid,
                    AnyPoint::PointZM(q) => q.srid,
                },
            ),
    {
        srid_to_i32(self.get_srid())
    }
}

impl<P: PointT> GeozeroGeometry for LineString<P> {
    open spec fn events_for(&self, md: bool) -> Seq<GeomEvent> {
        geometry_events(GeometryModel::LineString(self@), md)
    }

    open spec fn dims_spec(&self) -> CoordDimensions {
        dims_of_flag(geometry_dimension(GeometryModel::LineString(self@)))
    }

    open spec fn srid_spec(&self) -> Option<i32> {
        srid_as_i32(self.srid)
    }

    fn process_geom<Proc: GeomProcessor>(&self, processor: &mut Proc) -> (r: Result<
        (),
        GeozeroError,
    >) {
        let ghost md = wants_multi_dim::<Proc>(processor@);
        let ghost body = container_events(GeometryModel::LineString(self@), 0, md);
        let r = process_srid(processor, srid_to_i32(self.srid), Ghost(body));
        if r.is_err() {
            return r;
        }
        process_linestring(self, true, 0, processor)
    }

    fn dims(&self) -> (r: CoordDimensions) {
        dims_from_flag(self.dimension())
    }

    fn srid(&self) -> (r: Option<i32>) {
        srid_to_i32(self.srid)
    }
}

impl<P: PointT> GeozeroGeometry for Polygon<P> {
    open spec fn events_for(&self, md: bool) -> Seq<GeomEvent> {
        geometry_events(GeometryModel::Polygon(self@), md)
    }

    open spec fn dims_spec(&self) -> CoordDimensions {
        dims_of_flag(geometry_dimension(GeometryModel::Polygon(self@)))
    }

    open spec fn srid_spec(&self) -> Option<i32> {
        srid_as_i32(self.srid)
    }

    fn process_geom<Proc: GeomProcessor>(&self, processor: &mut Proc) -> (r: Result<
        (),
        GeozeroError,
    >) {
        let ghost md = wants_multi_dim::<Proc>(processor@);
        let ghost body = container_events(GeometryModel::Polygon(self@), 0, md);
        let r = process_srid(processor, srid_to_i32(self.srid), Ghost(body));
        if r.is_err() {
            return r;
        }
        process_polygon(self, true, 0, processor)
    }

    fn dims(&self) -> (r: CoordDimensions) {
        dims_from_flag(self.dimension())
    }

    fn srid(&self) -> (r: Option<i32>) {
        srid_to_i32(self.srid)
    }
}

impl<P: PointT> GeozeroGeometry for MultiPoint<P> {
    open spec fn events_for(&self, md: bool) -> Seq<GeomEvent> {
        geometry_events(GeometryModel::MultiPoint(self@), md)
    }

    open spec fn dims_spec(&self) -> CoordDimensions {
        dims_of_flag(geometry_dimension(GeometryModel::MultiPoint(self@)))
    }

    open spec fn srid_spec(&self) -> Option<i32> {
        srid_as_i32(self.srid)
    }

    fn process_geom<Proc: GeomProcessor>(&self, processor: &mut Proc) -> (r: Result<
        (),
        GeozeroError,
    >) {
        let ghost md = wants_multi_dim::<Proc>(processor@);
        let ghost body = container_events(GeometryModel::MultiPoint(self@), 0, md);
        let r = process_srid(processor, srid_to_i32(self.srid), Ghost(body));
        if r.is_err() {
            return r;
        }
        process_multipoint(self, 0, processor)
    }

    fn dims(&self) -> (r: CoordDimensions) {
        dims_from_flag(self.dimension())
    }

    fn srid(&self) -> (r: Option<i32>) {
        srid_to_i32(self.srid)
    }
}

impl<P: PointT> GeozeroGeometry for MultiLineString<P> {
    open spec fn events_for(&self, md: bool) -> Seq<GeomEvent> {
        geometry_events(GeometryModel::MultiLineString(self@), md)
    }

    open spec fn dims_spec(&self) -> CoordDimensions {
        dims_of_flag(geometry_dimension(GeometryModel::MultiLineString(self@)))
    }

    open spec fn srid_spec(&self) -> Option<i32> {
        srid_as_i32(self.srid)
    }

    fn process_geom<Proc: GeomProcessor>(&self, processor: &mut Proc) -> (r: Result<
        (),
        GeozeroError,
    >) {
        let ghost md = wants_multi_dim::<Proc>(processor@);
        let ghost body = container_events(
            GeometryModel::MultiLineString(self@),
            0,
            md,
        );
        let r = process_srid(processor, srid_to_i32(self.srid), Ghost(body));
        if r.is_err() {
            return r;
        }
        process_multilinestring(self, 0, processor)
    }

    fn dims(&self) -> (r: CoordDimensions) {
        dims_from_flag(self.dimension())
    }

    fn srid(&self) -> (r: Option<i32>) {
        srid_to_i32(self.srid)
    }
}

impl<P: PointT> GeozeroGeometry for MultiPolygon<P> {
    open spec fn events_for(&self, md: bool) -> Seq<GeomEvent> {
        geometry_events(GeometryModel::MultiPolygon(self@), md)
    }

    open spec fn dims_spec(&self) -> CoordDimensions {
        dims_of_flag(geometry_dimension(GeometryModel::MultiPolygon(self@)))
    }

    open spec fn srid_spec(&self) -> Option<i32> {
        srid_as_i32(self.srid)
    }

    fn process_geom<Proc: GeomProcessor>(&self, processor: &mut Proc) -> (r: Result<
        (),
        GeozeroError,
    >) {
        let ghost md = wants_multi_dim::<Proc>(processor@);
        let ghost body = container_events(GeometryModel::MultiPolygon(self@), 0, md);
        let r = process_srid(processor, srid_to_i32(self.srid), Ghost(body));
        if r.is_err() {
            return r;
        }
        process_multipolygon(self, 0, processor)
    }

    fn dims(&self) -> (r: CoordDimensions) {
        dims_from_flag(self.dimension())
    }

    fn srid(&self) -> (r: Option<i32>) {
        srid_to_i32(self.srid)
    }
}

impl<P: PointT> GeozeroGeometry for GeometryCollection<P> {
    open spec fn events_for(&self, md: bool) -> Seq<GeomEvent> {
        geometry_events(self@, md)
    }

    open spec fn dims_spec(&self) -> CoordDimensions {
        dims_of_flag(geometry_dimension(self@))
    }

    open spec fn srid_spec(&self) -> Option<i32> {
        srid_as_i32(self.srid)
    }

    fn process_geom<Proc: GeomProcessor>(&self, processor: &mut Proc) -> (r: Result<
        (),
        GeozeroError,
    >) {
        let ghost md = wants_multi_dim::<Proc>(processor@);
        let ghost body = container_events(self@, 0, md);
        let r = process_srid(processor, srid_to_i32(self.srid), Ghost(body));
        if r.is_err() {
            return r;
        }
        process_collection(self, 0, processor)
    }

    fn dims(&self) -> (r: CoordDimensions) {
        dims_from_flag(self.dimension())
    }

    fn srid(&self) -> (r: Option<i32>) {
        srid_to_i32(self.srid)
    }
}

impl<P: PointT> GeozeroGeometry for GeometryContainer<P> {
    open spec fn events_for(&self, md: bool) -> Seq<GeomEvent> {
        geometry_events(self@, md)
    }

    open spec fn dims_spec(&self) -> CoordDimensions {
        dims_of_flag(geometry_dimension(self@))
    }

    open spec fn srid_spec(&self) -> Option<i32> {
        srid_as_i32(geometry_srid(self@))
    }

    fn process_geom<Proc: GeomProcessor>(&self, processor: &mut Proc) -> (r: Result<
        (),
        GeozeroError,
    >) {
        let ghost md = wants_multi_dim::<Proc>(processor@);
        let ghost body = container_events(self@, 0, md);
        let r = process_srid(processor, self.srid(), Ghost(body));
        if r.is_err() {
            return r;
        }
        process_container(self, 0, processor)
    }

    fn dims(&self) -> (r: CoordDimensions) {
        dims_from_flag(self.dimension())
    }

    /// The SRID of the geometry held: a point's own, or the container's.
    fn srid(&self) -> (r: Option<i32>) {
        let srid = match self {
            GeometryContainer::Point(g) => g.get_srid(),
            GeometryContainer::LineString(g) => g.srid,
            GeometryContainer::Polygon(g) => g.srid,
            GeometryContainer::MultiPoint(g) => g.srid,
            GeometryContainer::MultiLineString(g) => g.srid,
            GeometryContainer::MultiPolygon(g) => g.srid,
            GeometryContainer::GeometryCollection(g) => g.srid,
        };
        srid_to_i32(srid)
    }
}

/// A geometry container hands a processor what the geometry it holds hands it, and reports
/// that geometry's dimensions and SRID.
pub proof fn lemma_container_delegates<P: PointT>(g: GeometryContainer<P>, md: bool)
    ensures
        (match g {
            GeometryContainer::Point(p) => g.events_for(md) == geometry_events(
                GeometryModel::Point(p),
                md,
            ) && g.dims_spec() == dims_of_flag(p.dimension_of()) && g.srid_spec() == srid_as_i32(
                p.srid_of(),
            ),
            GeometryContainer::LineString(l) => g.events_for(md) == l.events_for(md)
                && g.dims_spec() == l.dims_spec() && g.srid_spec() == l.srid_spec(),
            GeometryContainer::Polygon(l) => g.events_for(md) == l.events_for(md)
                && g.dims_spec() == l.dims_spec() && g.srid_spec() == l.srid_spec(),
            GeometryContainer::MultiPoint(l) => g.events_for(md) == l.events_for(md)
                && g.dims_spec() == l.dims_spec() && g.srid_spec() == l.srid_spec(),
            GeometryContainer::MultiLineString(l) => g.events_for(md) == l.events_for(md)
                && g.dims_spec() == l.dims_spec() && g.srid_spec() == l.srid_spec(),
            GeometryContainer::MultiPolygon(l) => g.events_for(md) == l.events_for(md)
                && g.dims_spec() == l.dims_spec() && g.srid_spec() == l.srid_spec(),
            GeometryContainer::GeometryCollection(l) => g.events_for(md) == l.events_for(md)
                && g.dims_spec() == l.dims_spec() && g.srid_spec() == l.srid_spec(),
        }),
{
}

/// The dimensions that the four dimension flags stand for.
pub proof fn lemma_dimension_flags()
    ensures
        dims_of_flag(0) == (CoordDimensions { z: false, m: false, t: false, tm: false }),
        dims_of_flag(DIMENSION_Z) == (CoordDimensions { z: true, m: false, t: false, tm: false }),
        dims_of_flag(DIMENSION_M) == (CoordDimensions { z: false, m: true, t: false, tm: false }),
        dims_of_flag(crate::points::DIMENSION_ZM) == (CoordDimensions {
            z: true,
            m: true,
            t: false,
            tm: false,
        }),
{
    assert(0u32 & 0x8000_0000u32 == 0 && 0u32 & 0x4000_0000u32 == 0) by (bit_vector);
    assert(0x8000_0000u32 & 0x8000_0000u32 != 0 && 0x8000_0000u32 & 0x4000_0000u32 == 0)
        by (bit_vector);
    assert(0x4000_0000u32 & 0x8000_0000u32 == 0 && 0x4000_0000u32 & 0x4000_0000u32 != 0)
        by (bit_vector);
    assert(0xC000_0000u32 & 0x8000_0000u32 != 0 && 0xC000_0000u32 & 0x4000_0000u32 != 0)
        by (bit_vector);
}

/// The events of a single point with these coordinates and SRID: the SRID, then the point
/// at position 0, with its Z and M values when the processor takes full coordinates.
pub open spec fn single_point_events(
    srid: Option<u32>,
    x: u64,
    y: u64,
    z: Option<u64>,
    m: Option<u64>,
    md: bool,
) -> Seq<GeomEvent> {
    seq![
        GeomEvent::Srid(srid_as_i32(srid)),
        GeomEvent::PointBegin(0),
        if md {
            GeomEvent::Coordinate { x, y, z, m, t: None, tm: None, idx: 0 }
        } else {
            GeomEvent::Xy { x, y, idx: 0 }
        },
        GeomEvent::PointEnd(0),
    ]
}

/// Each point kind hands a processor its SRID, its X and Y, and exactly the Z and M values
/// it has.
pub proof fn lemma_point_events(p: Point, pz: PointZ, pm: PointM, pzm: PointZM, md: bool)
    ensures
        p.events_for(md) == single_point_events(p.srid, p.x, p.y, None, None, md),
        pz.events_for(md) == single_point_events(pz.srid, pz.x, pz.y, Some(pz.z), None, md),
        pm.events_for(md) == single_point_events(pm.srid, pm.x, pm.y, None, Some(pm.m), md),
        pzm.events_for(md) == single_point_events(
            pzm.srid,
            pzm.x,
            pzm.y,
            Some(pzm.z),
            Some(pzm.m),
            md,
        ),
{
    assert(p.events_for(md) =~= single_point_events(p.srid, p.x, p.y, None, None, md));
    assert(pz.events_for(md) =~= single_point_events(pz.srid, pz.x, pz.y, Some(pz.z), None, md));
    assert(pm.events_for(md) =~= single_point_events(pm.srid, pm.x, pm.y, None, Some(pm.m), md));
    assert(pzm.events_for(md) =~= single_point_events(
        pzm.srid,
        pzm.x,
        pzm.y,
        Some(pzm.z),
        Some(pzm.m),
        md,
    ));
}

/// Any point hands a processor what the point it holds hands it: its SRID, its X and Y,
/// and exactly the Z and M values of its kind.
pub proof fn lemma_any_point_events(a: AnyPoint, md: bool)
    ensures
        a.events_for(md) == (match a {
            AnyPoint::Point(q) => single_point_events(q.srid, q.x, q.y, None, None, md),
            AnyPoint::PointZ(q) => single_point_events(q.srid, q.x, q.y, Some(q.z), None, md),
            AnyPoint::PointM(q) => single_point_events(q.srid, q.x, q.y, None, Some(q.m), md),
            AnyPoint::PointZM(q) => single_point_events(
                q.srid,
                q.x,
                q.y,
                Some(q.z),
                Some(q.m),
                md,
            ),
        }),
        a.events_for(md) == (match a {
            AnyPoint::Point(q) => q.events_for(md),
            AnyPoint::PointZ(q) => q.events_for(md),
            AnyPoint::PointM(q) => q.events_for(md),
            AnyPoint::PointZM(q) => q.events_for(md),
        }),
{
    match a {
        AnyPoint::Point(q) => {
            assert(a.events_for(md) =~= single_point_events(q.srid, q.x, q.y, None, None, md));
            assert(q.events_for(md) =~= single_point_events(q.srid, q.x, q.y, None, None, md));
        },
        AnyPoint::PointZ(q) => {
            assert(a.events_for(md) =~= single_point_events(q.srid, q.x, q.y, Some(q.z), None, md));
            assert(q.events_for(md) =~= single_point_events(q.srid, q.x, q.y, Some(q.z), None, md));
        },
        AnyPoint::PointM(q) => {
            assert(a.events_for(md) =~= single_point_events(q.srid, q.x, q.y, None, Some(q.m), md));
            assert(q.events_for(md) =~= single_point_events(q.srid, q.x, q.y, None, Some(q.m), md));
        },
        AnyPoint::PointZM(q) => {
            assert(a.events_for(md) =~= single_point_events(
                q.srid,
                q.x,
                q.y,
                Some(q.z),
                Some(q.m),
                md,
            ));
            assert(q.events_for(md) =~= single_point_events(
                q.srid,
                q.x,
                q.y,
                Some(q.z),
                Some(q.m),
                md,
            ));
        },
    }
}

/// Every point kind reports its own SRID, and hands a processor that SRID first.
pub proof fn lemma_point_srids(
    p: Point,
    pz: PointZ,
    pm: PointM,
    pzm: PointZM,
    a: AnyPoint,
    md: bool,
)
    ensures
        p.srid_spec() == srid_as_i32(p.srid),
        pz.srid_spec() == srid_as_i32(pz.srid),
        pm.srid_spec() == srid_as_i32(pm.srid),
        pzm.srid_spec() == srid_as_i32(pzm.srid),
        a.srid_spec() == srid_as_i32(
            match a {
                AnyPoint::Point(q) => q.srid,
                AnyPoint::PointZ(q) => q.srid,
                AnyPoint::PointM(q) => q.srid,
                AnyPoint::PointZM(q) => q.srid,
            },
        ),
        p.events_for(md)[0] == GeomEvent::Srid(p.srid_spec()),
        pz.events_for(md)[0] == GeomEvent::Srid(pz.srid_spec()),
        pm.events_for(md)[0] == GeomEvent::Srid(pm.srid_spec()),
        pzm.events_for(md)[0] == GeomEvent::Srid(pzm.srid_spec()),
        a.events_for(md)[0] == GeomEvent::Srid(a.srid_spec()),
{
}

/// Every geometry reports its own SRID (a point's own, or the container's), and hands a
/// processor that SRID first.
pub proof fn lemma_geometry_srids<P: PointT>(
    l: LineString<P>,
    poly: Polygon<P>,
    mp: MultiPoint<P>,
    mls: MultiLineString<P>,
    mpoly: MultiPolygon<P>,
    gc: GeometryCollection<P>,
    g: GeometryContainer<P>,
    md: bool,
)
    ensures
        l.srid_spec() == srid_as_i32(l.srid),
        poly.srid_spec() == srid_as_i32(poly.srid),
        mp.srid_spec() == srid_as_i32(mp.srid),
        mls.srid_spec() == srid_as_i32(mls.srid),
        mpoly.srid_spec() == srid_as_i32(mpoly.srid),
        gc.srid_spec() == srid_as_i32(gc.srid),
        g.srid_spec() == srid_as_i32(
            match g {
                GeometryContainer::Point(q) => q.srid_of(),
                GeometryContainer::LineString(x) => x.srid,
                GeometryContainer::Polygon(x) => x.srid,
                GeometryContainer::MultiPoint(x) => x.srid,
                GeometryContainer::MultiLineString(x) => x.srid,
                GeometryContainer::MultiPolygon(x) => x.srid,
                GeometryContainer::GeometryCollection(x) => x.srid,
            },
        ),
        l.events_for(md)[0] == GeomEvent::Srid(l.srid_spec()),
        poly.events_for(md)[0] == GeomEvent::Srid(poly.srid_spec()),
        mp.events_for(md)[0] == GeomEvent::Srid(mp.srid_spec()),
        mls.events_for(md)[0] == GeomEvent::Srid(mls.srid_spec()),
        mpoly.events_for(md)[0] == GeomEvent::Srid(mpoly.srid_spec()),
        gc.events_for(md)[0] == GeomEvent::Srid(gc.srid_spec()),
        g.events_for(md)[0] == GeomEvent::Srid(g.srid_spec()),
{
}

/// The coordinate dimensions of the point a geometry leads with, and none when it leads
/// with none.
pub open spec fn leading_dims<P: PointT>(g: GeometryModel<P>) -> CoordDimensions {
    match leading_point(g) {
        Some(p) => dims_of_flag(p.dimension_of()),
        None => dims_of_flag(DIMENSION_NONE),
    }
}

/// Every geometry reports the coordinate dimensions of the point it leads with.
pub proof fn lemma_dims_follow_leading_point<P: PointT>(
    l: LineString<P>,
    poly: Polygon<P>,
    mp: MultiPoint<P>,
    mls: MultiLineString<P>,
    mpoly: MultiPolygon<P>,
    gc: GeometryCollection<P>,
    g: GeometryContainer<P>,
)
    ensures
        l.dims_spec() == leading_dims(GeometryModel::LineString(l@)),
        poly.dims_spec() == leading_dims(GeometryModel::Polygon(poly@)),
        mp.dims_spec() == leading_dims(GeometryModel::MultiPoint(mp@)),
        mls.dims_spec() == leading_dims(GeometryModel::MultiLineString(mls@)),
        mpoly.dims_spec() == leading_dims(GeometryModel::MultiPolygon(mpoly@)),
        gc.dims_spec() == leading_dims(gc@),
        g.dims_spec() == leading_dims(g@),
{
    lemma_dimension_of_leading_point(GeometryModel::LineString(l@));
    lemma_dimension_of_leading_point(GeometryModel::Polygon(poly@));
    lemma_dimension_of_leading_point(GeometryModel::MultiPoint(mp@));
    lemma_dimension_of_leading_point(GeometryModel::MultiLineString(mls@));
    lemma_dimension_of_leading_point(GeometryModel::MultiPolygon(mpoly@));
    lemma_dimension_of_leading_point(gc@);
    lemma_dimension_of_leading_point(g@);
}

} // verus!
