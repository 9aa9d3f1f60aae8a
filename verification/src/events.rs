//! The event streams that describe geometries.
//!
//! A geometry is handed to a processor as a sequence of calls; these functions give that
//! sequence for the model of each geometry. `md` tells whether the processor takes full
//! coordinates (`Coordinate`) or X/Y pairs (`Xy`).
use vstd::prelude::*;

use crate::geometry::{geometry_srid, GeometryModel, PathModel, PolygonModel};
use crate::points::PointT;
use crate::processor::GeomEvent;

verus! {

/// The event for a point at position `idx`.
pub open spec fn point_event<P: PointT>(p: P, idx: usize, md: bool) -> GeomEvent {
    if md {
        GeomEvent::Coordinate {
            x: p.x_of(),
            y: p.y_of(),
            z: p.z_of(),
            m: p.m_of(),
            t: None,
            tm: None,
            idx,
        }
    } else {
        GeomEvent::Xy { x: p.x_of(), y: p.y_of(), idx }
    }
}

/// The events for a sequence of points, numbered from 0.
pub open spec fn points_events<P: PointT>(points: Seq<P>, md: bool) -> Seq<GeomEvent> {
    Seq::new(points.len(), |i: int| point_event(points[i], i as usize, md))
}

/// A line string (or, untagged, a ring or a member line) at position `idx`.
pub open spec fn path_events<P: PointT>(
    points: Seq<P>,
    tagged: bool,
    idx: usize,
    md: bool,
) -> Seq<GeomEvent> {
    seq![GeomEvent::LineStringBegin { tagged, size: points.len() as usize, idx }] + points_events(
        points,
        md,
    ) + seq![GeomEvent::LineStringEnd { tagged, idx }]
}

/// The events of the members of a sequence, numbered from 0, one after the other.
pub open spec fn concat_indexed<A>(
    items: Seq<A>,
    item_events: spec_fn(A, usize) -> Seq<GeomEvent>,
) -> Seq<GeomEvent>
    decreases items.len(),
{
    if items.len() == 0 {
        Seq::empty()
    } else {
        concat_indexed(items.drop_last(), item_events) + item_events(
            items.last(),
            (items.len() - 1) as usize,
        )
    }
}

/// The rings of a polygon, numbered from 0, each as an untagged line string.
pub open spec fn rings_events<P: PointT>(rings: Seq<Seq<P>>, md: bool) -> Seq<GeomEvent> {
    concat_indexed(rings, ring_events::<P>(md))
}

/// The events of the ring at position `i` of a polygon.
pub open spec fn ring_events<P: PointT>(md: bool) -> spec_fn(Seq<P>, usize) -> Seq<GeomEvent> {
    |ring: Seq<P>, i: usize| path_events(ring, false, i, md)
}

/// A polygon at position `idx`.
pub open spec fn polygon_events<P: PointT>(
    rings: Seq<Seq<P>>,
    tagged: bool,
    idx: usize,
    md: bool,
) -> Seq<GeomEvent> {
    seq![GeomEvent::PolygonBegin { tagged, size: rings.len() as usize, idx }] + rings_events(
        rings,
        md,
    ) + seq![GeomEvent::PolygonEnd { tagged, idx }]
}

/// A multi-point at position `idx`.
pub open spec fn multipoint_events<P: PointT>(points: Seq<P>, idx: usize, md: bool) -> Seq<
    GeomEvent,
> {
    seq![GeomEvent::MultiPointBegin { size: points.len() as usize, idx }] + points_events(
        points,
        md,
    ) + seq![GeomEvent::MultiPointEnd(idx)]
}

/// The lines of a multi-line-string, numbered from 0, each untagged.
pub open spec fn lines_events<P: PointT>(lines: Seq<PathModel<P>>, md: bool) -> Seq<GeomEvent> {
    concat_indexed(lines, line_events::<P>(md))
}

/// The events of the line at position `i` of a multi-line-string.
pub open spec fn line_events<P: PointT>(md: bool) -> spec_fn(PathModel<P>, usize) -> Seq<
    GeomEvent,
> {
    |line: PathModel<P>, i: usize| path_events(line.points, false, i, md)
}

/// A multi-line-string at position `idx`.
pub open spec fn multilinestring_events<P: PointT>(
    lines: Seq<PathModel<P>>,
    idx: usize,
    md: bool,
) -> Seq<GeomEvent> {
    seq![GeomEvent::MultiLineStringBegin { size: lines.len() as usize, idx }] + lines_events(
        lines,
        md,
    ) + seq![GeomEvent::MultiLineStringEnd(idx)]
}

/// The polygons of a multi-polygon, numbered from 0, each untagged.
pub open spec fn polygons_events<P: PointT>(polygons: Seq<PolygonModel<P>>, md: bool) -> Seq<
    GeomEvent,
> {
    concat_indexed(polygons, member_polygon_events::<P>(md))
}

/// The events of the polygon at position `i` of a multi-polygon.
pub open spec fn member_polygon_events<P: PointT>(md: bool) -> spec_fn(PolygonModel<P>, usize) -> Seq<
    GeomEvent,
> {
    |polygon: PolygonModel<P>, i: usize| polygon_events(polygon.rings, false, i, md)
}

/// A multi-polygon at position `idx`.
pub open spec fn multipolygon_events<P: PointT>(
    polygons: Seq<PolygonModel<P>>,
    idx: usize,
    md: bool,
) -> Seq<GeomEvent> {
    seq![GeomEvent::MultiPolygonBegin { size: polygons.len() as usize, idx }] + polygons_events(
        polygons,
        md,
    ) + seq![GeomEvent::MultiPolygonEnd(idx)]
}

/// A geometry at position `idx`, without an SRID event.
pub open spec fn container_events<P: PointT>(g: GeometryModel<P>, idx: usize, md: bool) -> Seq<
    GeomEvent,
>
    decreases g,
{
    match g {
        GeometryModel::Point(p) => seq![
            GeomEvent::PointBegin(idx),
            point_event(p, 0, md),
            GeomEvent::PointEnd(idx),
        ],
        GeometryModel::LineString(l) => path_events(l.points, true, idx, md),
        GeometryModel::Polygon(p) => polygon_events(p.rings, true, idx, md),
        GeometryModel::MultiPoint(m) => multipoint_events(m.points, idx, md),
        GeometryModel::MultiLineString(m) => multilinestring_events(m.lines, idx, md),
        GeometryModel::MultiPolygon(m) => multipolygon_events(m.polygons, idx, md),
        GeometryModel::GeometryCollection { geometries, srid } => seq![
            GeomEvent::GeometryCollectionBegin { size: geometries.len() as usize, idx },
        ] + members_events(geometries, md) + seq![GeomEvent::GeometryCollectionEnd(idx)],
    }
}

/// The members of a geometry collection, numbered from 0.
pub open spec fn members_events<P: PointT>(members: Seq<GeometryModel<P>>, md: bool) -> Seq<
    GeomEvent,
>
    decreases members,
{
    if members.len() == 0 {
        Seq::empty()
    } else {
        members_events(members.drop_last(), md) + container_events(
            members.last(),
            (members.len() - 1) as usize,
            md,
        )
    }
}

/// The SRID as handed to a processor.
pub open spec fn srid_as_i32(srid: Option<u32>) -> Option<i32> {
    match srid {
        Some(s) => Some(s as i32),
        None => None,
    }
}

/// A whole geometry, as `process_geom` hands it to a processor: its SRID, then the geometry
/// at position 0.
pub open spec fn geometry_events<P: PointT>(g: GeometryModel<P>, md: bool) -> Seq<GeomEvent> {
    seq![GeomEvent::Srid(srid_as_i32(geometry_srid(g)))] + container_events(g, 0, md)
}

/// The events of a prefix of a sequence are a prefix of the events of the whole sequence.
pub proof fn lemma_concat_indexed_prefix<A>(
    items: Seq<A>,
    item_events: spec_fn(A, usize) -> Seq<GeomEvent>,
    k: int,
)
    requires
        0 <= k <= items.len(),
    ensures
        concat_indexed(items, item_events) =~= concat_indexed(items.take(k), item_events)
            + concat_indexed(items, item_events).skip(
            concat_indexed(items.take(k), item_events).len() as int,
        ),
    decreases items.len(),
{
    if k == items.len() {
        assert(items.take(k) =~= items);
    } else {
        assert(items.drop_last().take(k) =~= items.take(k));
        lemma_concat_indexed_prefix(items.drop_last(), item_events, k);
    }
}

/// The events of one more member.
pub proof fn lemma_concat_indexed_push<A>(
    items: Seq<A>,
    item_events: spec_fn(A, usize) -> Seq<GeomEvent>,
    k: int,
)
    requires
        0 <= k < items.len(),
    ensures
        concat_indexed(items.take(k + 1), item_events) == concat_indexed(items.take(k), item_events)
            + item_events(items[k], k as usize),
{
    assert(items.take(k + 1).drop_last() =~= items.take(k));
}

/// The events of a prefix of the members of a collection are a prefix of the events of all.
pub proof fn lemma_members_events_prefix<P: PointT>(
    members: Seq<GeometryModel<P>>,
    md: bool,
    k: int,
)
    requires
        0 <= k <= members.len(),
    ensures
        members_events(members, md) =~= members_events(members.take(k), md) + members_events(
            members,
            md,
        ).skip(members_events(members.take(k), md).len() as int),
    decreases members.len(),
{
    if k == members.len() {
        assert(members.take(k) =~= members);
    } else {
        assert(members.drop_last().take(k) =~= members.take(k));
        lemma_members_events_prefix(members.drop_last(), md, k);
    }
}

/// The events of one more member of a collection.
pub proof fn lemma_members_events_push<P: PointT>(members: Seq<GeometryModel<P>>, md: bool, k: int)
    requires
        0 <= k < members.len(),
    ensures
        members_events(members.take(k + 1), md) == members_events(members.take(k), md)
            + container_events(members[k], k as usize, md),
{
    assert(members.take(k + 1).drop_last() =~= members.take(k));
}

} // verus!
