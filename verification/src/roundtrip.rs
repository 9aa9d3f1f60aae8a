//! What a `PostgisDieselWriter` builds from the events of a geometry.
use vstd::prelude::*;

use crate::events::{
    container_events, geometry_events, lines_events, members_events, path_events, point_event,
    points_events, polygon_events, polygons_events, rings_events, srid_as_i32,
};
use crate::geometry::{
    geometry_srid, GeometryModel, MultiLineStringModel, MultiPolygonModel, PathModel,
    PolygonModel,
};
use crate::geozero_geometry::GeozeroGeometry;
use crate::points::{AnyPoint, Point, PointConstructorError, PointM, PointT, PointZ, PointZM};
use crate::processor::{lemma_run_append, lemma_run_push, run, GeomEvent, GeozeroErrorModel};
use crate::writer::{PostgisDieselWriter, WriterModel};

verus! {

/// The points, each with its SRID replaced.
pub open spec fn points_with_srid<P: PointT>(points: Seq<P>, srid: Option<u32>) -> Seq<P> {
    points.map_values(|p: P| p.with_srid(srid))
}

/// A line string (or multi-point) with `srid` on itself and on each of its points.
pub open spec fn path_with_srid<P: PointT>(points: Seq<P>, srid: Option<u32>) -> PathModel<P> {
    PathModel { points: points_with_srid(points, srid), srid }
}

/// The rings of a polygon with `srid` on each of their points.
pub open spec fn rings_with_srid<P: PointT>(rings: Seq<Seq<P>>, srid: Option<u32>) -> Seq<Seq<P>> {
    rings.map_values(|ring: Seq<P>| points_with_srid(ring, srid))
}

/// A polygon with `srid` on itself and on each of its points.
pub open spec fn polygon_with_srid<P: PointT>(
    rings: Seq<Seq<P>>,
    srid: Option<u32>,
) -> PolygonModel<P> {
    PolygonModel { rings: rings_with_srid(rings, srid), srid }
}

/// A geometry with `srid` on itself and on every geometry and point inside it.
pub open spec fn with_srid<P: PointT>(g: GeometryModel<P>, srid: Option<u32>) -> GeometryModel<P>
    decreases g,
{
    match g {
        GeometryModel::Point(p) => GeometryModel::Point(p.with_srid(srid)),
        GeometryModel::LineString(l) => GeometryModel::LineString(path_with_srid(l.points, srid)),
        GeometryModel::Polygon(p) => GeometryModel::Polygon(polygon_with_srid(p.rings, srid)),
        GeometryModel::MultiPoint(m) => GeometryModel::MultiPoint(path_with_srid(m.points, srid)),
        GeometryModel::MultiLineString(m) => GeometryModel::MultiLineString(
            MultiLineStringModel {
                lines: m.lines.map_values(|l: PathModel<P>| path_with_srid(l.points, srid)),
                srid,
            },
        ),
        GeometryModel::MultiPolygon(m) => GeometryModel::MultiPolygon(
            MultiPolygonModel {
                polygons: m.polygons.map_values(
                    |p: PolygonModel<P>| polygon_with_srid(p.rings, srid),
                ),
                srid,
            },
        ),
        GeometryModel::GeometryCollection { geometries, srid: _ } => {
            GeometryModel::GeometryCollection { geometries: all_with_srid(geometries, srid), srid }
        },
    }
}

/// Geometries, each with `srid` on itself and on everything inside it.
pub open spec fn all_with_srid<P: PointT>(gs: Seq<GeometryModel<P>>, srid: Option<u32>) -> Seq<
    GeometryModel<P>,
>
    decreases gs,
{
    if gs.len() == 0 {
        Seq::empty()
    } else {
        all_with_srid(gs.drop_last(), srid).push(with_srid(gs.last(), srid))
    }
}

/// The writer state a run leaves, and the error it stops at.
pub open spec fn run_writer<P: PointT>(state: WriterModel<P>, events: Seq<GeomEvent>) -> (
    WriterModel<P>,
    Option<GeozeroErrorModel>,
) {
    run::<PostgisDieselWriter<P>>(state, events)
}

/// The points of a sequence, added one after the other to the open points.
proof fn lemma_points_run<P: PointT>(state: WriterModel<P>, points: Seq<P>, c: Seq<P>)
    requires
        state.coords == Some(c),
    ensures
        run_writer(state, points_events(points, true)) == (
            WriterModel { coords: Some(c + points_with_srid(points, state.srid)), ..state },
            None::<GeozeroErrorModel>,
        ),
    decreases points.len(),
{
    if points.len() == 0 {
        assert(points_events(points, true) =~= Seq::<GeomEvent>::empty());
        assert(c + points_with_srid(points, state.srid) =~= c);
        assert(WriterModel { coords: Some(c + points_with_srid(points, state.srid)), ..state }
            =~= state);
    } else {
        let init = points.drop_last();
        let p = points.last();
        let k = (points.len() - 1) as usize;
        assert(points_events(points, true) =~= points_events(init, true).push(
            point_event(p, k, true),
        ));
        lemma_points_run(state, init, c);
        lemma_run_push::<PostgisDieselWriter<P>>(
            state,
            points_events(init, true),
            point_event(p, k, true),
        );
        P::lemma_construct_from_parts(p, state.srid);
        assert((c + points_with_srid(init, state.srid)).push(p.with_srid(state.srid)) =~= c
            + points_with_srid(points, state.srid));
    }
}

/// The result, the SRID, the open collections: what a run keeps of a writer's state.
pub open spec fn same_outer<P: PointT>(after: WriterModel<P>, before: WriterModel<P>) -> bool {
    &&& after.srid == before.srid
    &&& after.geom == before.geom
    &&& after.collections == before.collections
}

/// Three event sequences run one after the other.
proof fn lemma_run_three<P: PointT>(
    state: WriterModel<P>,
    a: Seq<GeomEvent>,
    b: Seq<GeomEvent>,
    c: Seq<GeomEvent>,
)
    requires
        run_writer(state, a).1 is None,
        run_writer(run_writer(state, a).0, b).1 is None,
    ensures
        run_writer(state, a + b + c) == run_writer(run_writer(run_writer(state, a).0, b).0, c),
{
    lemma_run_append::<PostgisDieselWriter<P>>(state, a, b);
    lemma_run_append::<PostgisDieselWriter<P>>(state, a + b, c);
}

/// One event run on its own.
proof fn lemma_run_single<P: PointT>(state: WriterModel<P>, event: GeomEvent)
    ensures
        run_writer(state, seq![event]) == state.step(event),
{
    crate::processor::lemma_run_one::<PostgisDieselWriter<P>>(state, event);
}

/// A line string: tagged, it is finished as a geometry; untagged, its points become one more
/// ring or line of the open polygon or multi-line-string.
proof fn lemma_path_run<P: PointT>(state: WriterModel<P>, points: Seq<P>, tagged: bool, idx: usize)
    requires
        !tagged ==> state.line_strings is Some,
    ensures
        ({
            let (after, err) = run_writer(state, path_events(points, tagged, idx, true));
            let finished = state.finish(
                GeometryModel::LineString(path_with_srid(points, state.srid)),
            );
            &&& err is None
            &&& after.srid == state.srid
            &&& tagged ==> after.geom == finished.geom && after.collections == finished.collections
            &&& !tagged ==> same_outer(after, state) && after.polygons == state.polygons
                && after.line_strings == Some(
                state.line_strings->0.push(points_with_srid(points, state.srid)),
            )
        }),
{
    let begin = GeomEvent::LineStringBegin { tagged, size: points.len() as usize, idx };
    let end = GeomEvent::LineStringEnd { tagged, idx };
    lemma_run_single(state, begin);
    let s1 = WriterModel { coords: Some(Seq::<P>::empty()), ..state };
    lemma_points_run(s1, points, Seq::empty());
    lemma_run_three(state, seq![begin], points_events(points, true), seq![end]);
    let s2 = run_writer(s1, points_events(points, true)).0;
    lemma_run_single(s2, end);
    assert(Seq::<P>::empty() + points_with_srid(points, state.srid) =~= points_with_srid(
        points,
        state.srid,
    ));
}

/// The rings of a polygon, added one after the other to the open rings.
proof fn lemma_rings_run<P: PointT>(state: WriterModel<P>, rings: Seq<Seq<P>>)
    requires
        state.line_strings is Some,
    ensures
        ({
            let (after, err) = run_writer(state, rings_events(rings, true));
            &&& err is None
            &&& same_outer(after, state)
            &&& after.polygons == state.polygons
            &&& after.line_strings == Some(
                state.line_strings->0 + rings_with_srid(rings, state.srid),
            )
        }),
    decreases rings.len(),
{
    if rings.len() == 0 {
        assert(state.line_strings->0 + rings_with_srid(rings, state.srid)
            =~= state.line_strings->0);
    } else {
        let init = rings.drop_last();
        let k = (rings.len() - 1) as usize;
        lemma_rings_run(state, init);
        lemma_run_append::<PostgisDieselWriter<P>>(
            state,
            rings_events(init, true),
            path_events(rings.last(), false, k, true),
        );
        let s1 = run_writer(state, rings_events(init, true)).0;
        lemma_path_run(s1, rings.last(), false, k);
        assert(rings_events(rings, true) == rings_events(init, true) + path_events(
            rings.last(),
            false,
            k,
            true,
        ));
        assert((state.line_strings->0 + rings_with_srid(init, state.srid)).push(
            points_with_srid(rings.last(), state.srid),
        ) =~= state.line_strings->0 + rings_with_srid(rings, state.srid));
    }
}

/// A polygon: tagged, it is finished as a geometry; untagged, it becomes one more polygon
/// of the open multi-polygon.
proof fn lemma_polygon_run<P: PointT>(
    state: WriterModel<P>,
    rings: Seq<Seq<P>>,
    tagged: bool,
    idx: usize,
)
    requires
        !tagged ==> state.polygons is Some,
    ensures
        ({
            let (after, err) = run_writer(state, polygon_events(rings, tagged, idx, true));
            let finished = state.finish(
                GeometryModel::Polygon(polygon_with_srid(rings, state.srid)),
            );
            &&& err is None
            &&& after.srid == state.srid
            &&& tagged ==> after.geom == finished.geom && after.collections == finished.collections
            &&& !tagged ==> same_outer(after, state) && after.polygons == Some(
                state.polygons->0.push(polygon_with_srid(rings, state.srid)),
            )
        }),
{
    let begin = GeomEvent::PolygonBegin { tagged, size: rings.len() as usize, idx };
    let end = GeomEvent::PolygonEnd { tagged, idx };
    lemma_run_single(state, begin);
    let s1 = WriterModel { line_strings: Some(Seq::<Seq<P>>::empty()), ..state };
    lemma_rings_run(s1, rings);
    lemma_run_three(state, seq![begin], rings_events(rings, true), seq![end]);
    let s2 = run_writer(s1, rings_events(rings, true)).0;
    lemma_run_single(s2, end);
    assert(Seq::<Seq<P>>::empty() + rings_with_srid(rings, state.srid) =~= rings_with_srid(
        rings,
        state.srid,
    ));
}

/// The polygons of a multi-polygon, added one after the other to the open polygons.
proof fn lemma_polygons_run<P: PointT>(state: WriterModel<P>, polygons: Seq<PolygonModel<P>>)
    requires
        state.polygons is Some,
    ensures
        ({
            let (after, err) = run_writer(state, polygons_events(polygons, true));
            &&& err is None
            &&& same_outer(after, state)
            &&& after.polygons == Some(
                state.polygons->0 + polygons.map_values(
                    |p: PolygonModel<P>| polygon_with_srid(p.rings, state.srid),
                ),
            )
        }),
    decreases polygons.len(),
{
    let f = |p: PolygonModel<P>| polygon_with_srid(p.rings, state.srid);
    if polygons.len() == 0 {
        assert(state.polygons->0 + polygons.map_values(f) =~= state.polygons->0);
    } else {
        let init = polygons.drop_last();
        let k = (polygons.len() - 1) as usize;
        lemma_polygons_run(state, init);
        lemma_run_append::<PostgisDieselWriter<P>>(
            state,
            polygons_events(init, true),
            polygon_events(polygons.last().rings, false, k, true),
        );
        let s1 = run_writer(state, polygons_events(init, true)).0;
        lemma_polygon_run(s1, polygons.last().rings, false, k);
        assert(polygons_events(polygons, true) == polygons_events(init, true) + polygon_events(
            polygons.last().rings,
            false,
            k,
            true,
        ));
        assert((state.polygons->0 + init.map_values(f)).push(f(polygons.last()))
            =~= state.polygons->0 + polygons.map_values(f));
    }
}

/// The lines of a multi-line-string, added one after the other to the open lines.
proof fn lemma_lines_run<P: PointT>(state: WriterModel<P>, lines: Seq<PathModel<P>>)
    requires
        state.line_strings is Some,
    ensures
        ({
            let (after, err) = run_writer(state, lines_events(lines, true));
            &&& err is None
            &&& same_outer(after, state)
            &&& after.line_strings == Some(
                state.line_strings->0 + lines.map_values(
                    |l: PathModel<P>| points_with_srid(l.points, state.srid),
                ),
            )
        }),
    decreases lines.len(),
{
    let f = |l: PathModel<P>| points_with_srid(l.points, state.srid);
    if lines.len() == 0 {
        assert(state.line_strings->0 + lines.map_values(f) =~= state.line_strings->0);
    } else {
        let init = lines.drop_last();
        let k = (lines.len() - 1) as usize;
        lemma_lines_run(state, init);
        lemma_run_append::<PostgisDieselWriter<P>>(
            state,
            lines_events(init, true),
            path_events(lines.last().points, false, k, true),
        );
        let s1 = run_writer(state, lines_events(init, true)).0;
        lemma_path_run(s1, lines.last().points, false, k);
        assert(lines_events(lines, true) == lines_events(init, true) + path_events(
            lines.last().points,
            false,
            k,
            true,
        ));
        assert((state.line_strings->0 + init.map_values(f)).push(f(lines.last()))
            =~= state.line_strings->0 + lines.map_values(f));
    }
}

/// A geometry: it is finished, with the writer's SRID on itself and on everything inside it.
proof fn lemma_container_run<P: PointT>(state: WriterModel<P>, g: GeometryModel<P>, idx: usize)
    ensures
        ({
            let (after, err) = run_writer(state, container_events(g, idx, true));
            let finished = state.finish(with_srid(g, state.srid));
            &&& err is None
            &&& after.srid == state.srid
            &&& after.geom == finished.geom
            &&& after.collections == finished.collections
        }),
    decreases g,
{
    let srid = state.srid;
    match g {
        GeometryModel::Point(p) => {
            let begin = GeomEvent::PointBegin(idx);
            let end = GeomEvent::PointEnd(idx);
            let pts = seq![p];
            assert(points_events(pts, true) =~= seq![point_event(p, 0, true)]);
            assert(container_events(g, idx, true) =~= seq![begin] + points_events(pts, true)
                + seq![end]);
            lemma_run_single(state, begin);
            let s1 = WriterModel { coords: Some(Seq::<P>::empty()), ..state };
            lemma_points_run(s1, pts, Seq::empty());
            lemma_run_three(state, seq![begin], points_events(pts, true), seq![end]);
            let s2 = run_writer(s1, points_events(pts, true)).0;
            lemma_run_single(s2, end);
            assert((Seq::<P>::empty() + points_with_srid(pts, srid))[0] == p.with_srid(srid));
        },
        GeometryModel::LineString(l) => {
            lemma_path_run(state, l.points, true, idx);
        },
        GeometryModel::Polygon(poly) => {
            lemma_polygon_run(state, poly.rings, true, idx);
        },
        GeometryModel::MultiPoint(m) => {
            let begin = GeomEvent::MultiPointBegin { size: m.points.len() as usize, idx };
            let end = GeomEvent::MultiPointEnd(idx);
            lemma_run_single(state, begin);
            let s1 = WriterModel { coords: Some(Seq::<P>::empty()), ..state };
            lemma_points_run(s1, m.points, Seq::empty());
            lemma_run_three(state, seq![begin], points_events(m.points, true), seq![end]);
            let s2 = run_writer(s1, points_events(m.points, true)).0;
            lemma_run_single(s2, end);
            assert(Seq::<P>::empty() + points_with_srid(m.points, srid) =~= points_with_srid(
                m.points,
                srid,
            ));
        },
        GeometryModel::MultiLineString(m) => {
            let begin = GeomEvent::MultiLineStringBegin { size: m.lines.len() as usize, idx };
            let end = GeomEvent::MultiLineStringEnd(idx);
            lemma_run_single(state, begin);
            let s1 = WriterModel { line_strings: Some(Seq::<Seq<P>>::empty()), ..state };
            lemma_lines_run(s1, m.lines);
            lemma_run_three(state, seq![begin], lines_events(m.lines, true), seq![end]);
            let s2 = run_writer(s1, lines_events(m.lines, true)).0;
            lemma_run_single(s2, end);
            let f = |l: PathModel<P>| points_with_srid(l.points, srid);
            assert((Seq::<Seq<P>>::empty() + m.lines.map_values(f)).map_values(
                |points: Seq<P>| PathModel { points, srid },
            ) =~= m.lines.map_values(|l: PathModel<P>| path_with_srid(l.points, srid)));
        },
        GeometryModel::MultiPolygon(m) => {
            let begin = GeomEvent::MultiPolygonBegin { size: m.polygons.len() as usize, idx };
            let end = GeomEvent::MultiPolygonEnd(idx);
            lemma_run_single(state, begin);
            let s1 = WriterModel { polygons: Some(Seq::<PolygonModel<P>>::empty()), ..state };
            lemma_polygons_run(s1, m.polygons);
            lemma_run_three(state, seq![begin], polygons_events(m.polygons, true), seq![end]);
            let s2 = run_writer(s1, polygons_events(m.polygons, true)).0;
            lemma_run_single(s2, end);
            let f = |p: PolygonModel<P>| polygon_with_srid(p.rings, srid);
            assert(Seq::<PolygonModel<P>>::empty() + m.polygons.map_values(f)
                =~= m.polygons.map_values(f));
        },
        GeometryModel::GeometryCollection { geometries, srid: own } => {
            let begin = GeomEvent::GeometryCollectionBegin {
                size: geometries.len() as usize,
                idx,
            };
            let end = GeomEvent::GeometryCollectionEnd(idx);
            lemma_run_single(state, begin);
            let s1 = WriterModel {
                collections: state.collections.push(Seq::<GeometryModel<P>>::empty()),
                ..state
            };
            lemma_members_run(s1, geometries);
            lemma_run_three(state, seq![begin], members_events(geometries, true), seq![end]);
            let s2 = run_writer(s1, members_events(geometries, true)).0;
            lemma_run_single(s2, end);
            assert(Seq::<GeometryModel<P>>::empty() + all_with_srid(geometries, srid)
                =~= all_with_srid(geometries, srid));
            assert(s2.collections.drop_last() =~= state.collections);
        },
    }
}

/// The members of a collection, finished one after the other into the innermost open
/// collection.
proof fn lemma_members_run<P: PointT>(state: WriterModel<P>, members: Seq<GeometryModel<P>>)
    requires
        state.collections.len() > 0,
    ensures
        ({
            let (after, err) = run_writer(state, members_events(members, true));
            &&& err is None
            &&& after.srid == state.srid
            &&& after.geom == state.geom
            &&& after.collections == state.collections.update(
                state.collections.len() - 1,
                state.collections.last() + all_with_srid(members, state.srid),
            )
        }),
    decreases members,
{
    if members.len() == 0 {
        assert(state.collections.last() + all_with_srid(members, state.srid)
            =~= state.collections.last());
        assert(state.collections.update(state.collections.len() - 1, state.collections.last())
            =~= state.collections);
    } else {
        let init = members.drop_last();
        let k = (members.len() - 1) as usize;
        lemma_members_run(state, init);
        lemma_run_append::<PostgisDieselWriter<P>>(
            state,
            members_events(init, true),
            container_events(members.last(), k, true),
        );
        let s1 = run_writer(state, members_events(init, true)).0;
        lemma_container_run(s1, members.last(), k);
        let n = state.collections.len() - 1;
        assert(s1.collections[n].push(with_srid(members.last(), state.srid))
            =~= state.collections.last() + all_with_srid(members, state.srid));
        assert(s1.collections.update(n, s1.collections[n].push(with_srid(members.last(), state.srid)))
            =~= state.collections.update(
            n,
            state.collections.last() + all_with_srid(members, state.srid),
        ));
    }
}

/// Whether a geometry, every geometry inside it and every point inside it carry `srid`.
pub open spec fn srid_everywhere<P: PointT>(g: GeometryModel<P>, srid: Option<u32>) -> bool
    decreases g,
{
    match g {
        GeometryModel::Point(p) => p.srid_of() == srid,
        GeometryModel::LineString(l) => l.srid == srid && points_carry(l.points, srid),
        GeometryModel::Polygon(p) => p.srid == srid && rings_carry(p.rings, srid),
        GeometryModel::MultiPoint(m) => m.srid == srid && points_carry(m.points, srid),
        GeometryModel::MultiLineString(m) => m.srid == srid && forall|i: int|
            0 <= i < m.lines.len() ==> path_carries(#[trigger] m.lines[i], srid),
        GeometryModel::MultiPolygon(m) => m.srid == srid && forall|i: int|
            0 <= i < m.polygons.len() ==> polygon_carries(#[trigger] m.polygons[i], srid),
        GeometryModel::GeometryCollection { geometries, srid: own } => own == srid
            && all_carry(geometries, srid),
    }
}

/// Whether each geometry of a sequence carries `srid` everywhere.
pub open spec fn all_carry<P: PointT>(gs: Seq<GeometryModel<P>>, srid: Option<u32>) -> bool
    decreases gs,
{
    gs.len() > 0 ==> all_carry(gs.drop_last(), srid) && srid_everywhere(gs.last(), srid)
}

/// Whether a line string and its points carry `srid`.
pub open spec fn path_carries<P: PointT>(l: PathModel<P>, srid: Option<u32>) -> bool {
    l.srid == srid && points_carry(l.points, srid)
}

/// Whether a polygon and its points carry `srid`.
pub open spec fn polygon_carries<P: PointT>(p: PolygonModel<P>, srid: Option<u32>) -> bool {
    p.srid == srid && rings_carry(p.rings, srid)
}

/// Whether every point of a sequence carries `srid`.
pub open spec fn points_carry<P: PointT>(points: Seq<P>, srid: Option<u32>) -> bool {
    forall|i: int| 0 <= i < points.len() ==> (#[trigger] points[i]).srid_of() == srid
}

/// Whether every point of every ring carries `srid`.
pub open spec fn rings_carry<P: PointT>(rings: Seq<Seq<P>>, srid: Option<u32>) -> bool {
    forall|i: int| 0 <= i < rings.len() ==> points_carry(#[trigger] rings[i], srid)
}

proof fn lemma_points_keep<P: PointT>(points: Seq<P>, srid: Option<u32>)
    requires
        points_carry(points, srid),
    ensures
        points_with_srid(points, srid) == points,
{
    assert forall|i: int| 0 <= i < points.len() implies #[trigger] points[i].with_srid(srid)
        == points[i] by {
        P::lemma_construct_from_parts(points[i], srid);
    }
    assert(points_with_srid(points, srid) =~= points);
}

proof fn lemma_rings_keep<P: PointT>(rings: Seq<Seq<P>>, srid: Option<u32>)
    requires
        rings_carry(rings, srid),
    ensures
        rings_with_srid(rings, srid) == rings,
{
    assert forall|i: int| 0 <= i < rings.len() implies points_with_srid(#[trigger] rings[i], srid)
        == rings[i] by {
        lemma_points_keep(rings[i], srid);
    }
    assert(rings_with_srid(rings, srid) =~= rings);
}

/// Putting on a geometry the SRID it already carries everywhere leaves it unchanged.
pub proof fn lemma_with_own_srid<P: PointT>(g: GeometryModel<P>, srid: Option<u32>)
    requires
        srid_everywhere(g, srid),
    ensures
        with_srid(g, srid) == g,
    decreases g,
{
    match g {
        GeometryModel::Point(p) => {
            P::lemma_construct_from_parts(p, srid);
        },
        GeometryModel::LineString(l) => {
            lemma_points_keep(l.points, srid);
        },
        GeometryModel::Polygon(p) => {
            lemma_rings_keep(p.rings, srid);
        },
        GeometryModel::MultiPoint(m) => {
            lemma_points_keep(m.points, srid);
        },
        GeometryModel::MultiLineString(m) => {
            assert forall|i: int| 0 <= i < m.lines.len() implies path_with_srid(
                (#[trigger] m.lines[i]).points,
                srid,
            ) == m.lines[i] by {
                lemma_points_keep(m.lines[i].points, srid);
            }
            assert(m.lines.map_values(|l: PathModel<P>| path_with_srid(l.points, srid))
                =~= m.lines);
        },
        GeometryModel::MultiPolygon(m) => {
            assert forall|i: int| 0 <= i < m.polygons.len() implies polygon_with_srid(
                (#[trigger] m.polygons[i]).rings,
                srid,
            ) == m.polygons[i] by {
                lemma_rings_keep(m.polygons[i].rings, srid);
            }
            assert(m.polygons.map_values(|p: PolygonModel<P>| polygon_with_srid(p.rings, srid))
                =~= m.polygons);
        },
        GeometryModel::GeometryCollection { geometries, srid: own } => {
            lemma_all_with_own_srid(geometries, srid);
        },
    }
}

proof fn lemma_all_with_own_srid<P: PointT>(gs: Seq<GeometryModel<P>>, srid: Option<u32>)
    requires
        all_carry(gs, srid),
    ensures
        all_with_srid(gs, srid) == gs,
    decreases gs,
{
    if gs.len() > 0 {
        lemma_all_with_own_srid(gs.drop_last(), srid);
        lemma_with_own_srid(gs.last(), srid);
        assert(gs.drop_last().push(gs.last()) =~= gs);
    }
}

/// An SRID handed to a writer as a signed number is stored as the same unsigned number.
pub proof fn lemma_srid_cast(srid: Option<u32>)
    ensures
        (match srid_as_i32(srid) {
            Some(v) => Some(v as u32),
            None => None::<u32>,
        }) == srid,
{
    if let Some(s) = srid {
        assert((s as i32) as u32 == s) by (bit_vector);
    }
}

/// A geometry handed to a new writer is rebuilt whole: the writer's result is the geometry,
/// with the geometry's own SRID on itself and on every geometry and point inside it.
pub proof fn lemma_writer_rebuilds_geometry<P: PointT>(g: GeometryModel<P>)
    ensures
        run_writer::<P>(WriterModel::initial(), geometry_events(g, true)).1 is None,
        run_writer::<P>(WriterModel::initial(), geometry_events(g, true)).0.geom == Some(
            with_srid(g, geometry_srid(g)),
        ),
{
    let start = WriterModel::<P>::initial();
    let srid_event = GeomEvent::Srid(srid_as_i32(geometry_srid(g)));
    lemma_run_single(start, srid_event);
    lemma_srid_cast(geometry_srid(g));
    let s1 = WriterModel { srid: geometry_srid(g), ..start };
    lemma_run_append::<PostgisDieselWriter<P>>(
        start,
        seq![srid_event],
        container_events(g, 0, true),
    );
    lemma_container_run(s1, g, 0);
}

/// A geometry that carries its SRID everywhere comes out of a new writer exactly as it went in.
pub proof fn lemma_writer_round_trip<P: PointT>(g: GeometryModel<P>)
    requires
        srid_everywhere(g, geometry_srid(g)),
    ensures
        run_writer::<P>(WriterModel::initial(), geometry_events(g, true)) matches (after, None)
            && after.geom == Some(g),
{
    lemma_writer_rebuilds_geometry(g);
    lemma_with_own_srid(g, geometry_srid(g));
}

/// Each standalone point, handed to a new writer of its own kind, comes back exactly as it
/// went in, with its Z and M values.
pub proof fn lemma_points_round_trip(p: Point, pz: PointZ, pm: PointM, pzm: PointZM, a: AnyPoint)
    ensures
        run_writer::<Point>(WriterModel::initial(), p.events_for(true)) matches (after, None)
            && after.geom == Some(GeometryModel::Point(p)),
        run_writer::<PointZ>(WriterModel::initial(), pz.events_for(true)) matches (after, None)
            && after.geom == Some(GeometryModel::Point(pz)),
        run_writer::<PointM>(WriterModel::initial(), pm.events_for(true)) matches (after, None)
            && after.geom == Some(GeometryModel::Point(pm)),
        run_writer::<PointZM>(WriterModel::initial(), pzm.events_for(true)) matches (after, None)
            && after.geom == Some(GeometryModel::Point(pzm)),
        run_writer::<AnyPoint>(WriterModel::initial(), a.events_for(true)) matches (after, None)
            && after.geom == Some(GeometryModel::Point(a)),
{
    lemma_writer_round_trip(GeometryModel::Point(p));
    lemma_writer_round_trip(GeometryModel::Point(pz));
    lemma_writer_round_trip(GeometryModel::Point(pm));
    lemma_writer_round_trip(GeometryModel::Point(pzm));
    lemma_writer_round_trip(GeometryModel::Point(a));
}

/// A writer of two-dimensional points refuses a point that carries a Z or an M value, and
/// the refusal names both values; a point that carries neither comes back with its X, Y and
/// SRID.
pub proof fn lemma_two_dimensional_writer_refuses_z_or_m<Q: PointT>(q: Q)
    ensures
        q.z_of() is Some || q.m_of() is Some ==> run_writer::<Point>(
            WriterModel::initial(),
            geometry_events(GeometryModel::Point(q), true),
        ).1 == Some(
            GeozeroErrorModel::Point(
                (PointConstructorError::UnexpectedZOrM { z: q.z_of(), m: q.m_of() }),
            ),
        ),
        q.z_of() is None && q.m_of() is None ==> (run_writer::<Point>(
            WriterModel::initial(),
            geometry_events(GeometryModel::Point(q), true),
        ) matches (after, None) && after.geom == Some(
            GeometryModel::Point((Point { x: q.x_of(), y: q.y_of(), srid: q.srid_of() })),
        )),
{
    let events = geometry_events(GeometryModel::Point(q), true);
    let e0 = GeomEvent::Srid(srid_as_i32(q.srid_of()));
    let e1 = GeomEvent::PointBegin(0);
    let e2 = point_event(q, 0, true);
    let e3 = GeomEvent::PointEnd(0);
    assert(events =~= seq![e0, e1, e2] + seq![e3]);
    assert(seq![e0, e1, e2] =~= seq![e0] + seq![e1, e2]);
    assert(seq![e1, e2] =~= seq![e1] + seq![e2]);
    let s0 = WriterModel::<Point>::initial();
    lemma_srid_cast(q.srid_of());
    lemma_run_single(s0, e0);
    let s1 = WriterModel { srid: q.srid_of(), ..s0 };
    lemma_run_single(s1, e1);
    let s2 = WriterModel { coords: Some(Seq::<Point>::empty()), ..s1 };
    lemma_run_single(s2, e2);
    lemma_run_append::<PostgisDieselWriter<Point>>(s1, seq![e1], seq![e2]);
    lemma_run_append::<PostgisDieselWriter<Point>>(s0, seq![e0], seq![e1, e2]);
    lemma_run_append::<PostgisDieselWriter<Point>>(s0, seq![e0, e1, e2], seq![e3]);
    if q.z_of() is None && q.m_of() is None {
        let pt = Point { x: q.x_of(), y: q.y_of(), srid: q.srid_of() };
        let s3 = WriterModel { coords: Some(seq![pt]), ..s2 };
        lemma_run_single(s3, e3);
        assert(Seq::<Point>::empty().push(pt) =~= seq![pt]);
    }
}

} // verus!
