//! Handing geometries to a processor, as a sequence of events.
use vstd::prelude::*;

use crate::events::{
    concat_indexed, container_events, lemma_concat_indexed_prefix, lemma_concat_indexed_push,
    lemma_members_events_prefix, lemma_members_events_push, line_events, member_polygon_events,
    members_events, multilinestring_events, multipoint_events, multipolygon_events, path_events,
    point_event, points_events, polygon_events, ring_events,
};
use crate::geometry::{
    geometry_model, geometry_models, lemma_geometry_models_index, GeometryCollection,
    GeometryContainer, GeometryModel, LineString, MultiLineString, MultiPoint, MultiPolygon,
    PathModel, Polygon, PolygonModel,
};
use crate::points::PointT;
use crate::processor::{
    lemma_run_empty, lemma_run_one, lemma_run_step, multi_dim_of, outcome, run, GeomEvent,
    GeomProcessor, GeozeroError, GeozeroErrorModel,
};

verus! {

/// Whether a processor in this state takes full coordinates.
pub open spec fn wants_multi_dim<Proc: GeomProcessor>(state: Proc::V) -> bool {
    multi_dim_of(Proc::dimensions_of(state))
}

/// One more member of a sequence, handed to a processor after a prefix that succeeded.
proof fn lemma_member_step<Proc: GeomProcessor, A>(
    start: Proc::V,
    head: Seq<GeomEvent>,
    items: Seq<A>,
    item_events: spec_fn(A, usize) -> Seq<GeomEvent>,
    tail: Seq<GeomEvent>,
    k: int,
    mid: Proc::V,
)
    requires
        0 <= k < items.len(),
        run::<Proc>(start, head + concat_indexed(items.take(k), item_events)) == (mid, None::<
            GeozeroErrorModel,
        >),
    ensures
        run::<Proc>(start, head + concat_indexed(items.take(k + 1), item_events)) == run::<Proc>(
            mid,
            item_events(items[k], k as usize),
        ),
        run::<Proc>(mid, item_events(items[k], k as usize)).1 is Some ==> run::<Proc>(
            start,
            head + concat_indexed(items, item_events) + tail,
        ) == run::<Proc>(mid, item_events(items[k], k as usize)),
        Proc::dimensions_of(mid) == Proc::dimensions_of(start),
{
    let done = head + concat_indexed(items.take(k), item_events);
    let next = item_events(items[k], k as usize);
    let all = concat_indexed(items, item_events);
    let pre = concat_indexed(items.take(k + 1), item_events);
    lemma_concat_indexed_push(items, item_events, k);
    lemma_concat_indexed_prefix(items, item_events, k + 1);
    let rest = all.skip(pre.len() as int) + tail;
    lemma_run_step::<Proc>(start, done, next, rest, mid);
    assert(done + next =~= head + pre);
    assert(done + next + rest =~= head + all + tail);
}

/// Hands one point to the processor: as a full coordinate when the processor takes them,
/// else as an X/Y pair.
pub(crate) fn process_point<P: PointT, Proc: GeomProcessor>(
    point: &P,
    processor: &mut Proc,
    idx: usize,
) -> (r: Result<(), GeozeroError>)
    ensures
        (final(processor)@, outcome(r)) == run::<Proc>(
            old(processor)@,
            seq![point_event(*point, idx, wants_multi_dim::<Proc>(old(processor)@))],
        ),
{
    let ghost start = processor@;
    proof {
        lemma_run_one::<Proc>(start, point_event(*point, idx, wants_multi_dim::<Proc>(start)));
    }
    if processor.multi_dim() {
        processor.coordinate(
            point.get_x(),
            point.get_y(),
            point.get_z(),
            point.get_m(),
            None,
            None,
            idx,
        )
    } else {
        processor.xy(point.get_x(), point.get_y(), idx)
    }
}

/// Hands a sequence of points to the processor, numbered from 0.
pub(crate) fn process_points<P: PointT, Proc: GeomProcessor>(points: &Vec<P>, processor: &mut Proc) -> (r:
    Result<(), GeozeroError>)
    ensures
        (final(processor)@, outcome(r)) == run::<Proc>(
            old(processor)@,
            points_events(points@, wants_multi_dim::<Proc>(old(processor)@)),
        ),
{
    let ghost start = processor@;
    let ghost md = wants_multi_dim::<Proc>(start);
    let ghost all = points_events(points@, md);
    proof {
        lemma_run_empty::<Proc>(start);
        assert(all.take(0) =~= Seq::<GeomEvent>::empty());
    }
    let mut i: usize = 0;
    while i < points.len()
        invariant
            i <= points.len(),
            start == old(processor)@,
            md == wants_multi_dim::<Proc>(start),
            all == points_events(points@, md),
            run::<Proc>(start, all.take(i as int)) == (processor@, None::<
                GeozeroErrorModel,
            >),
        decreases points.len() - i,
    {
        let ghost mid = processor@;
        proof {
            lemma_run_step::<Proc>(start, all.take(i as int), seq![all[i as int]], all.skip(i + 1), mid);
            assert(all.take(i as int) + seq![all[i as int]] =~= all.take(i + 1));
            assert(all.take(i as int) + seq![all[i as int]] + all.skip(i + 1) =~= all);
        }
        let r = process_point(&points[i], processor, i);
        proof {
            assert(all[i as int] == point_event(points@[i as int], i, md));
            assert(seq![all[i as int]] =~= seq![point_event(points@[i as int], i, md)]);
        }
        if r.is_err() {
            return r;
        }
        i += 1;
    }
    proof {
        assert(all.take(i as int) =~= all);
    }
    Ok(())
}

/// Hands a line string to the processor at position `idx`; untagged, it is a ring of the
/// enclosing polygon or a line of the enclosing multi-line-string.
pub(crate) fn process_path<P: PointT, Proc: GeomProcessor>(
    points: &Vec<P>,
    tagged: bool,
    idx: usize,
    processor: &mut Proc,
) -> (r: Result<(), GeozeroError>)
    ensures
        (final(processor)@, outcome(r)) == run::<Proc>(
            old(processor)@,
            path_events(points@, tagged, idx, wants_multi_dim::<Proc>(old(processor)@)),
        ),
{
    let ghost start = processor@;
    let ghost md = wants_multi_dim::<Proc>(start);
    let ghost begin = seq![GeomEvent::LineStringBegin { tagged, size: points.len(), idx }];
    let ghost body = points_events(points@, md);
    let ghost end = seq![GeomEvent::LineStringEnd { tagged, idx }];
    proof {
        lemma_run_empty::<Proc>(start);
        lemma_run_one::<Proc>(start, begin[0]);
        lemma_run_step::<Proc>(start, Seq::empty(), begin, body + end, start);
        assert(Seq::<GeomEvent>::empty() + begin =~= begin);
        assert(begin + (body + end) =~= path_events(points@, tagged, idx, md));
    }
    let r = processor.linestring_begin(tagged, points.len(), idx);
    if r.is_err() {
        return r;
    }
    let ghost mid = processor@;
    proof {
        lemma_run_step::<Proc>(start, begin, body, end, mid);
    }
    let r = process_points(points, processor);
    if r.is_err() {
        return r;
    }
    let ghost mid2 = processor@;
    proof {
        lemma_run_one::<Proc>(mid2, end[0]);
        lemma_run_step::<Proc>(start, begin + body, end, Seq::empty(), mid2);
    }
    processor.linestring_end(tagged, idx)
}

/// Hands a polygon to the processor at position `idx`: its rings, numbered from 0, each as an
/// untagged line string. Untagged, the polygon is a member of the enclosing multi-polygon.
pub(crate) fn process_polygon<P: PointT, Proc: GeomProcessor>(
    poly: &Polygon<P>,
    tagged: bool,
    idx: usize,
    processor: &mut Proc,
) -> (r: Result<(), GeozeroError>)
    ensures
        (final(processor)@, outcome(r)) == run::<Proc>(
            old(processor)@,
            polygon_events(poly@.rings, tagged, idx, wants_multi_dim::<Proc>(old(processor)@)),
        ),
{
    let ghost start = processor@;
    let ghost md = wants_multi_dim::<Proc>(start);
    let ghost rings = poly@.rings;
    let ghost f = ring_events::<P>(md);
    let ghost begin = seq![GeomEvent::PolygonBegin { tagged, size: poly.rings.len(), idx }];
    let ghost end = seq![GeomEvent::PolygonEnd { tagged, idx }];
    proof {
        lemma_run_empty::<Proc>(start);
        lemma_run_one::<Proc>(start, begin[0]);
        lemma_run_step::<Proc>(start, Seq::empty(), begin, concat_indexed(rings, f) + end, start);
        assert(Seq::<GeomEvent>::empty() + begin =~= begin);
        assert(begin + (concat_indexed(rings, f) + end) =~= polygon_events(rings, tagged, idx, md));
    }
    let r = processor.polygon_begin(tagged, poly.rings.len(), idx);
    if r.is_err() {
        return r;
    }
    proof {
        assert(rings.take(0) =~= Seq::<Seq<P>>::empty());
        assert(begin + concat_indexed(rings.take(0), f) =~= begin);
    }
    let mut i: usize = 0;
    while i < poly.rings.len()
        invariant
            i <= poly.rings.len(),
            start == old(processor)@,
            md == wants_multi_dim::<Proc>(start),
            rings == poly@.rings,
            f == ring_events::<P>(md),
            begin == seq![GeomEvent::PolygonBegin { tagged, size: poly.rings.len(), idx }],
            end == seq![GeomEvent::PolygonEnd { tagged, idx }],
            run::<Proc>(start, begin + concat_indexed(rings.take(i as int), f)) == (
                processor@,
                None::<GeozeroErrorModel>,
            ),
        decreases poly.rings.len() - i,
    {
        let ghost mid = processor@;
        proof {
            lemma_member_step::<Proc, Seq<P>>(start, begin, rings, f, end, i as int, mid);
        }
        let r = process_path(&poly.rings[i], false, i, processor);
        if r.is_err() {
            proof {
                assert(polygon_events(rings, tagged, idx, md) =~= begin + concat_indexed(rings, f)
                    + end);
            }
            return r;
        }
        i += 1;
    }
    let ghost mid = processor@;
    proof {
        assert(rings.take(i as int) =~= rings);
        lemma_run_one::<Proc>(mid, end[0]);
        lemma_run_step::<Proc>(start, begin + concat_indexed(rings, f), end, Seq::empty(), mid);
        assert(polygon_events(rings, tagged, idx, md) =~= begin + concat_indexed(rings, f) + end);
    }
    processor.polygon_end(tagged, idx)
}

/// Hands a line string to the processor at position `idx`; untagged, it is a line of the
/// enclosing multi-line-string.
pub(crate) fn process_linestring<P: PointT, Proc: GeomProcessor>(
    ls: &LineString<P>,
    tagged: bool,
    idx: usize,
    processor: &mut Proc,
) -> (r: Result<(), GeozeroError>)
    ensures
        (final(processor)@, outcome(r)) == run::<Proc>(
            old(processor)@,
            path_events(ls@.points, tagged, idx, wants_multi_dim::<Proc>(old(processor)@)),
        ),
{
    process_path(&ls.points, tagged, idx, processor)
}

/// Hands a multi-point to the processor at position `idx`.
pub(crate) fn process_multipoint<P: PointT, Proc: GeomProcessor>(
    mp: &MultiPoint<P>,
    idx: usize,
    processor: &mut Proc,
) -> (r: Result<(), GeozeroError>)
    ensures
        (final(processor)@, outcome(r)) == run::<Proc>(
            old(processor)@,
            multipoint_events(mp@.points, idx, wants_multi_dim::<Proc>(old(processor)@)),
        ),
{
    let ghost start = processor@;
    let ghost md = wants_multi_dim::<Proc>(start);
    let ghost begin = seq![GeomEvent::MultiPointBegin { size: mp.points.len(), idx }];
    let ghost body = points_events(mp.points@, md);
    let ghost end = seq![GeomEvent::MultiPointEnd(idx)];
    proof {
        lemma_run_empty::<Proc>(start);
        lemma_run_one::<Proc>(start, begin[0]);
        lemma_run_step::<Proc>(start, Seq::empty(), begin, body + end, start);
        assert(Seq::<GeomEvent>::empty() + begin =~= begin);
        assert(begin + (body + end) =~= multipoint_events(mp.points@, idx, md));
    }
    let r = processor.multipoint_begin(mp.points.len(), idx);
    if r.is_err() {
        return r;
    }
    let ghost mid = processor@;
    proof {
        lemma_run_step::<Proc>(start, begin, body, end, mid);
    }
    let r = process_points(&mp.points, processor);
    if r.is_err() {
        return r;
    }
    let ghost mid2 = processor@;
    proof {
        lemma_run_one::<Proc>(mid2, end[0]);
        lemma_run_step::<Proc>(start, begin + body, end, Seq::empty(), mid2);
    }
    processor.multipoint_end(idx)
}

/// Hands a multi-line-string to the processor at position `idx`: its lines, numbered from 0,
/// each untagged.
pub(crate) fn process_multilinestring<P: PointT, Proc: GeomProcessor>(
    mls: &MultiLineString<P>,
    idx: usize,
    processor: &mut Proc,
) -> (r: Result<(), GeozeroError>)
    ensures
        (final(processor)@, outcome(r)) == run::<Proc>(
            old(processor)@,
            multilinestring_events(mls@.lines, idx, wants_multi_dim::<Proc>(old(processor)@)),
        ),
{
    let ghost start = processor@;
    let ghost md = wants_multi_dim::<Proc>(start);
    let ghost items = mls@.lines;
    let ghost f = line_events::<P>(md);
    let ghost begin = seq![GeomEvent::MultiLineStringBegin { size: mls.lines.len(), idx }];
    let ghost end = seq![GeomEvent::MultiLineStringEnd(idx)];
    proof {
        lemma_run_empty::<Proc>(start);
        lemma_run_one::<Proc>(start, begin[0]);
        lemma_run_step::<Proc>(start, Seq::empty(), begin, concat_indexed(items, f) + end, start);
        assert(Seq::<GeomEvent>::empty() + begin =~= begin);
        assert(begin + (concat_indexed(items, f) + end) =~= multilinestring_events(
            items,
            idx,
            md,
        ));
    }
    let r = processor.multilinestring_begin(mls.lines.len(), idx);
    if r.is_err() {
        return r;
    }
    proof {
        assert(items.take(0) =~= Seq::<PathModel<P>>::empty());
        assert(begin + concat_indexed(items.take(0), f) =~= begin);
    }
    let mut i: usize = 0;
    while i < mls.lines.len()
        invariant
            i <= mls.lines.len(),
            start == old(processor)@,
            md == wants_multi_dim::<Proc>(start),
            items == mls@.lines,
            f == line_events::<P>(md),
            begin == seq![GeomEvent::MultiLineStringBegin { size: mls.lines.len(), idx }],
            end == seq![GeomEvent::MultiLineStringEnd(idx)],
            run::<Proc>(start, begin + concat_indexed(items.take(i as int), f)) == (
                processor@,
                None::<GeozeroErrorModel>,
            ),
        decreases mls.lines.len() - i,
    {
        let ghost mid = processor@;
        proof {
            lemma_member_step::<Proc, PathModel<P>>(
                start,
                begin,
                items,
                f,
                end,
                i as int,
                mid,
            );
        }
        let r = process_linestring(&mls.lines[i], false, i, processor);
        if r.is_err() {
            proof {
                assert(multilinestring_events(items, idx, md) =~= begin + concat_indexed(items, f)
                    + end);
            }
            return r;
        }
        i += 1;
    }
    let ghost mid = processor@;
    proof {
        assert(items.take(i as int) =~= items);
        lemma_run_one::<Proc>(mid, end[0]);
        lemma_run_step::<Proc>(start, begin + concat_indexed(items, f), end, Seq::empty(), mid);
        assert(multilinestring_events(items, idx, md) =~= begin + concat_indexed(items, f) + end);
    }
    processor.multilinestring_end(idx)
}

/// Hands a multi-polygon to the processor at position `idx`: its polygons, numbered from 0,
/// each untagged.
pub(crate) fn process_multipolygon<P: PointT, Proc: GeomProcessor>(
    mpoly: &MultiPolygon<P>,
    idx: usize,
    processor: &mut Proc,
) -> (r: Result<(), GeozeroError>)
    ensures
        (final(processor)@, outcome(r)) == run::<Proc>(
            old(processor)@,
            multipolygon_events(mpoly@.polygons, idx, wants_multi_dim::<Proc>(old(processor)@)),
        ),
{
    let ghost start = processor@;
    let ghost md = wants_multi_dim::<Proc>(start);
    let ghost items = mpoly@.polygons;
    let ghost f = member_polygon_events::<P>(md);
    let ghost begin = seq![GeomEvent::MultiPolygonBegin { size: mpoly.polygons.len(), idx }];
    let ghost end = seq![GeomEvent::MultiPolygonEnd(idx)];
    proof {
        lemma_run_empty::<Proc>(start);
        lemma_run_one::<Proc>(start, begin[0]);
        lemma_run_step::<Proc>(start, Seq::empty(), begin, concat_indexed(items, f) + end, start);
        assert(Seq::<GeomEvent>::empty() + begin =~= begin);
        assert(begin + (concat_indexed(items, f) + end) =~= multipolygon_events(items, idx, md));
    }
    let r = processor.multipolygon_begin(mpoly.polygons.len(), idx);
    if r.is_err() {
        return r;
    }
    proof {
        assert(items.take(0) =~= Seq::<PolygonModel<P>>::empty());
        assert(begin + concat_indexed(items.take(0), f) =~= begin);
    }
    let mut i: usize = 0;
    while i < mpoly.polygons.len()
        invariant
            i <= mpoly.polygons.len(),
            start == old(processor)@,
            md == wants_multi_dim::<Proc>(start),
            items == mpoly@.polygons,
            f == member_polygon_events::<P>(md),
            begin == seq![GeomEvent::MultiPolygonBegin { size: mpoly.polygons.len(), idx }],
            end == seq![GeomEvent::MultiPolygonEnd(idx)],
            run::<Proc>(start, begin + concat_indexed(items.take(i as int), f)) == (
                processor@,
                None::<GeozeroErrorModel>,
            ),
        decreases mpoly.polygons.len() - i,
    {
        let ghost mid = processor@;
        proof {
            lemma_member_step::<Proc, PolygonModel<P>>(
                start,
                begin,
                items,
                f,
                end,
                i as int,
                mid,
            );
        }
        let r = process_polygon(&mpoly.polygons[i], false, i, processor);
        if r.is_err() {
            proof {
                assert(multipolygon_events(items, idx, md) =~= begin + concat_indexed(items, f)
                    + end);
            }
            return r;
        }
        i += 1;
    }
    let ghost mid = processor@;
    proof {
        assert(items.take(i as int) =~= items);
        lemma_run_one::<Proc>(mid, end[0]);
        lemma_run_step::<Proc>(start, begin + concat_indexed(items, f), end, Seq::empty(), mid);
        assert(multipolygon_events(items, idx, md) =~= begin + concat_indexed(items, f) + end);
    }
    processor.multipolygon_end(idx)
}

/// One more member of a geometry collection, handed to a processor after a prefix that
/// succeeded.
proof fn lemma_collection_member_step<Proc: GeomProcessor, P: PointT>(
    start: Proc::V,
    head: Seq<GeomEvent>,
    members: Seq<GeometryModel<P>>,
    md: bool,
    tail: Seq<GeomEvent>,
    k: int,
    mid: Proc::V,
)
    requires
        0 <= k < members.len(),
        run::<Proc>(start, head + members_events(members.take(k), md)) == (mid, None::<
            GeozeroErrorModel,
        >),
    ensures
        run::<Proc>(start, head + members_events(members.take(k + 1), md)) == run::<Proc>(
            mid,
            container_events(members[k], k as usize, md),
        ),
        run::<Proc>(mid, container_events(members[k], k as usize, md)).1 is Some ==> run::<Proc>(
            start,
            head + members_events(members, md) + tail,
        ) == run::<Proc>(mid, container_events(members[k], k as usize, md)),
        Proc::dimensions_of(mid) == Proc::dimensions_of(start),
{
    let done = head + members_events(members.take(k), md);
    let next = container_events(members[k], k as usize, md);
    let all = members_events(members, md);
    let pre = members_events(members.take(k + 1), md);
    lemma_members_events_push(members, md, k);
    lemma_members_events_prefix(members, md, k + 1);
    let rest = all.skip(pre.len() as int) + tail;
    lemma_run_step::<Proc>(start, done, next, rest, mid);
    assert(done + next =~= head + pre);
    assert(done + next + rest =~= head + all + tail);
}

/// Hands a single point to the processor as a point geometry at position `idx`.
pub(crate) fn process_point_geometry<P: PointT, Proc: GeomProcessor>(
    point: &P,
    idx: usize,
    processor: &mut Proc,
) -> (r: Result<(), GeozeroError>)
    ensures
        (final(processor)@, outcome(r)) == run::<Proc>(
            old(processor)@,
            container_events(GeometryModel::Point(*point), idx, wants_multi_dim::<Proc>(old(processor)@)),
        ),
{
    let ghost start = processor@;
    let ghost md = wants_multi_dim::<Proc>(start);
    let ghost begin = seq![GeomEvent::PointBegin(idx)];
    let ghost body = seq![point_event(*point, 0, md)];
    let ghost end = seq![GeomEvent::PointEnd(idx)];
    proof {
        lemma_run_empty::<Proc>(start);
        lemma_run_one::<Proc>(start, begin[0]);
        lemma_run_step::<Proc>(start, Seq::empty(), begin, body + end, start);
        assert(Seq::<GeomEvent>::empty() + begin =~= begin);
        assert(begin + (body + end) =~= container_events(GeometryModel::Point(*point), idx, md));
        assert(begin + body + end =~= container_events(GeometryModel::Point(*point), idx, md));
    }
    let r = processor.point_begin(idx);
    if r.is_err() {
        return r;
    }
    let ghost mid = processor@;
    proof {
        lemma_run_step::<Proc>(start, begin, body, end, mid);
    }
    let r = process_point(point, processor, 0);
    if r.is_err() {
        return r;
    }
    let ghost mid2 = processor@;
    proof {
        lemma_run_one::<Proc>(mid2, end[0]);
        lemma_run_step::<Proc>(start, begin + body, end, Seq::empty(), mid2);
    }
    processor.point_end(idx)
}

/// Hands a geometry collection to the processor at position `idx`: its members, numbered
/// from 0.
pub(crate) fn process_collection<P: PointT, Proc: GeomProcessor>(
    gc: &GeometryCollection<P>,
    idx: usize,
    processor: &mut Proc,
) -> (r: Result<(), GeozeroError>)
    ensures
        (final(processor)@, outcome(r)) == run::<Proc>(
            old(processor)@,
            container_events(gc@, idx, wants_multi_dim::<Proc>(old(processor)@)),
        ),
    decreases gc,
{
    let ghost start = processor@;
    let ghost md = wants_multi_dim::<Proc>(start);
    let ghost members = geometry_models(gc.geometries@);
    let ghost begin = seq![GeomEvent::GeometryCollectionBegin { size: gc.geometries.len(), idx }];
    let ghost end = seq![GeomEvent::GeometryCollectionEnd(idx)];
    proof {
        lemma_geometry_models_index(gc.geometries@);
        lemma_run_empty::<Proc>(start);
        lemma_run_one::<Proc>(start, begin[0]);
        lemma_run_step::<Proc>(start, Seq::empty(), begin, members_events(members, md) + end, start);
        assert(Seq::<GeomEvent>::empty() + begin =~= begin);
        assert(begin + (members_events(members, md) + end) =~= container_events(gc@, idx, md));
    }
    let r = processor.geometrycollection_begin(gc.geometries.len(), idx);
    if r.is_err() {
        return r;
    }
    proof {
        assert(members.take(0) =~= Seq::<GeometryModel<P>>::empty());
        assert(begin + members_events(members.take(0), md) =~= begin);
    }
    let mut i: usize = 0;
    while i < gc.geometries.len()
        invariant
            i <= gc.geometries.len(),
            start == old(processor)@,
            md == wants_multi_dim::<Proc>(start),
            members == geometry_models(gc.geometries@),
            members.len() == gc.geometries@.len(),
            forall|k: int|
                0 <= k < gc.geometries@.len() ==> #[trigger] members[k] == geometry_model(
                    gc.geometries@[k],
                ),
            begin == seq![GeomEvent::GeometryCollectionBegin { size: gc.geometries.len(), idx }],
            end == seq![GeomEvent::GeometryCollectionEnd(idx)],
            run::<Proc>(start, begin + members_events(members.take(i as int), md)) == (
                processor@,
                None::<GeozeroErrorModel>,
            ),
        decreases gc.geometries.len() - i,
    {
        let ghost mid = processor@;
        proof {
            lemma_collection_member_step::<Proc, P>(start, begin, members, md, end, i as int, mid);
            assert(members[i as int] == geometry_model(gc.geometries@[i as int]));
        }
        let r = process_container(&gc.geometries[i], i, processor);
        if r.is_err() {
            proof {
                assert(container_events(gc@, idx, md) =~= begin + members_events(members, md)
                    + end);
            }
            return r;
        }
        i += 1;
    }
    let ghost mid = processor@;
    proof {
        assert(members.take(i as int) =~= members);
        lemma_run_one::<Proc>(mid, end[0]);
        lemma_run_step::<Proc>(start, begin + members_events(members, md), end, Seq::empty(), mid);
        assert(container_events(gc@, idx, md) =~= begin + members_events(members, md) + end);
    }
    processor.geometrycollection_end(idx)
}

/// Hands a geometry to the processor at position `idx`, without a leading SRID, so that it
/// serves both for a whole geometry and for a member of a geometry collection.
pub(crate) fn process_container<P: PointT, Proc: GeomProcessor>(
    geom: &GeometryContainer<P>,
    idx: usize,
    processor: &mut Proc,
) -> (r: Result<(), GeozeroError>)
    ensures
        (final(processor)@, outcome(r)) == run::<Proc>(
            old(processor)@,
            container_events(geom@, idx, wants_multi_dim::<Proc>(old(processor)@)),
        ),
    decreases geom,
{
    match geom {
        GeometryContainer::Point(p) => process_point_geometry(p, idx, processor),
        GeometryContainer::LineString(ls) => process_linestring(ls, true, idx, processor),
        GeometryContainer::Polygon(poly) => process_polygon(poly, true, idx, processor),
        GeometryContainer::MultiPoint(mp) => process_multipoint(mp, idx, processor),
        GeometryContainer::MultiLineString(mls) => process_multilinestring(mls, idx, processor),
        GeometryContainer::MultiPolygon(mpoly) => process_multipolygon(mpoly, idx, processor),
        GeometryContainer::GeometryCollection(gc) => process_collection(gc, idx, processor),
    }
}

} // verus!
