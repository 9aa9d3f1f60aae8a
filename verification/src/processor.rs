//! Geometry processors: consumers of the events that describe a geometry.
//!
//! A processor is modelled by a state (its view) and by `accept`, which gives for a state
//! and an event the state afterwards and what the call returns. Each method of
//! `GeomProcessor` is tied to `accept` for the event it stands for.
use vstd::prelude::*;

use crate::points::PointConstructorError;

verus! {

/// Which coordinate dimensions a processor wants, or a geometry has, besides X and Y.
#[derive(Debug, Clone, Copy, PartialEq, Eq)]
pub struct CoordDimensions {
    pub z: bool,
    pub m: bool,
    pub t: bool,
    pub tm: bool,
}

impl CoordDimensions {
    /// X and Y only.
    pub fn xy() -> (r: CoordDimensions)
        ensures
            r == (CoordDimensions { z: false, m: false, t: false, tm: false }),
    {
        CoordDimensions { z: false, m: false, t: false, tm: false }
    }

    /// X, Y and Z.
    pub fn xyz() -> (r: CoordDimensions)
        ensures
            r == (CoordDimensions { z: true, m: false, t: false, tm: false }),
    {
        CoordDimensions { z: true, m: false, t: false, tm: false }
    }

    /// X, Y, Z and M.
    pub fn xyzm() -> (r: CoordDimensions)
        ensures
            r == (CoordDimensions { z: true, m: true, t: false, tm: false }),
    {
        CoordDimensions { z: true, m: true, t: false, tm: false }
    }
}

/// Whether a processor with these dimensions takes full coordinates rather than X/Y pairs.
pub open spec fn multi_dim_of(d: CoordDimensions) -> bool {
    d.z || d.m || d.t || d.tm
}

/// Errors of geometry processing.
#[derive(Debug)]
pub enum GeozeroError {
    /// The events do not describe a geometry that can be built.
    Geometry(String),
    /// A point could not be built from the coordinate that was given.
    Point(PointConstructorError),
}

/// Model of a `GeozeroError`: the message as a sequence of characters.
pub enum GeozeroErrorModel {
    Geometry(Seq<char>),
    Point(PointConstructorError),
}

impl View for GeozeroError {
    type V = GeozeroErrorModel;

    open spec fn view(&self) -> GeozeroErrorModel {
        match self {
            GeozeroError::Geometry(s) => GeozeroErrorModel::Geometry(s@),
            GeozeroError::Point(e) => GeozeroErrorModel::Point(*e),
        }
    }
}

/// Model of the result of a processor call: the error it returns, if any.
pub open spec fn outcome(r: Result<(), GeozeroError>) -> Option<GeozeroErrorModel> {
    match r {
        Ok(()) => None,
        Err(e) => Some(e@),
    }
}

/// One call to a geometry processor, with its arguments.
///
/// Coordinates are the bit patterns of `f64` values; `tm` is a time stamp.
#[derive(Debug, Clone, Copy, PartialEq, Eq)]
pub enum GeomEvent {
    Srid(Option<i32>),
    Xy { x: u64, y: u64, idx: usize },
    Coordinate {
        x: u64,
        y: u64,
        z: Option<u64>,
        m: Option<u64>,
        t: Option<u64>,
        tm: Option<u64>,
        idx: usize,
    },
    PointBegin(usize),
    PointEnd(usize),
    MultiPointBegin { size: usize, idx: usize },
    MultiPointEnd(usize),
    LineStringBegin { tagged: bool, size: usize, idx: usize },
    LineStringEnd { tagged: bool, idx: usize },
    MultiLineStringBegin { size: usize, idx: usize },
    MultiLineStringEnd(usize),
    PolygonBegin { tagged: bool, size: usize, idx: usize },
    PolygonEnd { tagged: bool, idx: usize },
    MultiPolygonBegin { size: usize, idx: usize },
    MultiPolygonEnd(usize),
    GeometryCollectionBegin { size: usize, idx: usize },
    GeometryCollectionEnd(usize),
}

/// A consumer of geometry events.
pub trait GeomProcessor: View + Sized {
    /// The dimensions that a processor in this state asks for.
    spec fn dimensions_of(state: Self::V) -> CoordDimensions;

    /// The state after an event, and the error that the call returns, if any.
    spec fn accept(state: Self::V, event: GeomEvent) -> (Self::V, Option<GeozeroErrorModel>);

    /// Events do not change the dimensions that a processor asks for.
    proof fn lemma_accept_keeps_dimensions(state: Self::V, event: GeomEvent)
        ensures
            Self::dimensions_of(Self::accept(state, event).0) == Self::dimensions_of(state),
    ;

    fn dimensions(&self) -> (r: CoordDimensions)
        ensures
            r == Self::dimensions_of(self@),
    ;

    fn multi_dim(&self) -> (r: bool)
        ensures
            r == multi_dim_of(Self::dimensions_of(self@)),
    {
        let d = self.dimensions();
        d.z || d.m || d.t || d.tm
    }

    fn srid(&mut self, srid: Option<i32>) -> (r: Result<(), GeozeroError>)
        ensures
            (final(self)@, outcome(r)) == Self::accept(old(self)@, GeomEvent::Srid(srid)),
    ;

    fn xy(&mut self, x: u64, y: u64, idx: usize) -> (r: Result<(), GeozeroError>)
        ensures
            (final(self)@, outcome(r)) == Self::accept(old(self)@, GeomEvent::Xy { x, y, idx }),
    ;

    fn coordinate(
        &mut self,
        x: u64,
        y: u64,
        z: Option<u64>,
        m: Option<u64>,
        t: Option<u64>,
        tm: Option<u64>,
        idx: usize,
    ) -> (r: Result<(), GeozeroError>)
        ensures
            (final(self)@, outcome(r)) == Self::accept(
                old(self)@,
                GeomEvent::Coordinate { x, y, z, m, t, tm, idx },
            ),
    ;

    fn point_begin(&mut self, idx: usize) -> (r: Result<(), GeozeroError>)
        ensures
            (final(self)@, outcome(r)) == Self::accept(old(self)@, GeomEvent::PointBegin(idx)),
    ;

    fn point_end(&mut self, idx: usize) -> (r: Result<(), GeozeroError>)
        ensures
            (final(self)@, outcome(r)) == Self::accept(old(self)@, GeomEvent::PointEnd(idx)),
    ;

    fn multipoint_begin(&mut self, size: usize, idx: usize) -> (r: Result<(), GeozeroError>)
        ensures
            (final(self)@, outcome(r)) == Self::accept(
                old(self)@,
                GeomEvent::MultiPointBegin { size, idx },
            ),
    ;

    fn multipoint_end(&mut self, idx: usize) -> (r: Result<(), GeozeroError>)
        ensures
            (final(self)@, outcome(r)) == Self::accept(old(self)@, GeomEvent::MultiPointEnd(idx)),
    ;

    fn linestring_begin(&mut self, tagged: bool, size: usize, idx: usize) -> (r: Result<
        (),
        GeozeroError,
    >)
        ensures
            (final(self)@, outcome(r)) == Self::accept(
                old(self)@,
                GeomEvent::LineStringBegin { tagged, size, idx },
            ),
    ;

    fn linestring_end(&mut self, tagged: bool, idx: usize) -> (r: Result<(), GeozeroError>)
        ensures
            (final(self)@, outcome(r)) == Self::accept(
                old(self)@,
                GeomEvent::LineStringEnd { tagged, idx },
            ),
    ;

    fn multilinestring_begin(&mut self, size: usize, idx: usize) -> (r: Result<(), GeozeroError>)
        ensures
            (final(self)@, outcome(r)) == Self::accept(
                old(self)@,
                GeomEvent::MultiLineStringBegin { size, idx },
            ),
    ;

    fn multilinestring_end(&mut self, idx: usize) -> (r: Result<(), GeozeroError>)
        ensures
            (final(self)@, outcome(r)) == Self::accept(
                old(self)@,
                GeomEvent::MultiLineStringEnd(idx),
            ),
    ;

    fn polygon_begin(&mut self, tagged: bool, size: usize, idx: usize) -> (r: Result<
        (),
        GeozeroError,
    >)
        ensures
            (final(self)@, outcome(r)) == Self::accept(
                old(self)@,
                GeomEvent::PolygonBegin { tagged, size, idx },
            ),
    ;

    fn polygon_end(&mut self, tagged: bool, idx: usize) -> (r: Result<(), GeozeroError>)
        ensures
            (final(self)@, outcome(r)) == Self::accept(
                old(self)@,
                GeomEvent::PolygonEnd { tagged, idx },
            ),
    ;

    fn multipolygon_begin(&mut self, size: usize, idx: usize) -> (r: Result<(), GeozeroError>)
        ensures
            (final(self)@, outcome(r)) == Self::accept(
                old(self)@,
                GeomEvent::MultiPolygonBegin { size, idx },
            ),
    ;

    fn multipolygon_end(&mut self, idx: usize) -> (r: Result<(), GeozeroError>)
        ensures
            (final(self)@, outcome(r)) == Self::accept(
                old(self)@,
                GeomEvent::MultiPolygonEnd(idx),
            ),
    ;

    fn geometrycollection_begin(&mut self, size: usize, idx: usize) -> (r: Result<
        (),
        GeozeroError,
    >)
        ensures
            (final(self)@, outcome(r)) == Self::accept(
                old(self)@,
                GeomEvent::GeometryCollectionBegin { size, idx },
            ),
    ;

    fn geometrycollection_end(&mut self, idx: usize) -> (r: Result<(), GeozeroError>)
        ensures
            (final(self)@, outcome(r)) == Self::accept(
                old(self)@,
                GeomEvent::GeometryCollectionEnd(idx),
            ),
    ;
}

/// Feeds `events` to a processor in `state`, in order, stopping at the first error.
pub open spec fn run<Proc: GeomProcessor>(state: Proc::V, events: Seq<GeomEvent>) -> (
    Proc::V,
    Option<GeozeroErrorModel>,
)
    decreases events.len(),
{
    if events.len() == 0 {
        (state, None)
    } else {
        let (next, r) = Proc::accept(state, events[0]);
        if r is Some {
            (next, r)
        } else {
            run::<Proc>(next, events.drop_first())
        }
    }
}

/// Running two event sequences one after the other is running their concatenation.
pub proof fn lemma_run_append<Proc: GeomProcessor>(
    state: Proc::V,
    a: Seq<GeomEvent>,
    b: Seq<GeomEvent>,
)
    ensures
        run::<Proc>(state, a + b) == (if run::<Proc>(state, a).1 is None {
            run::<Proc>(run::<Proc>(state, a).0, b)
        } else {
            run::<Proc>(state, a)
        }),
    decreases a.len(),
{
    if a.len() == 0 {
        assert(a + b =~= b);
    } else {
        let (next, r) = Proc::accept(state, a[0]);
        assert((a + b)[0] == a[0]);
        assert((a + b).drop_first() =~= a.drop_first() + b);
        lemma_run_append::<Proc>(next, a.drop_first(), b);
    }
}

/// Running one event is accepting it.
pub proof fn lemma_run_one<Proc: GeomProcessor>(state: Proc::V, event: GeomEvent)
    ensures
        run::<Proc>(state, seq![event]) == Proc::accept(state, event),
{
    let (next, r) = Proc::accept(state, event);
    assert(seq![event].drop_first() =~= Seq::<GeomEvent>::empty());
    assert(run::<Proc>(next, Seq::<GeomEvent>::empty()) == (next, None::<GeozeroErrorModel>));
    assert(seq![event][0] == event);
}

/// Running one more event after a prefix that succeeded.
pub proof fn lemma_run_push<Proc: GeomProcessor>(
    state: Proc::V,
    a: Seq<GeomEvent>,
    event: GeomEvent,
)
    ensures
        run::<Proc>(state, a.push(event)) == (if run::<Proc>(state, a).1 is None {
            Proc::accept(run::<Proc>(state, a).0, event)
        } else {
            run::<Proc>(state, a)
        }),
{
    assert(a.push(event) =~= a + seq![event]);
    lemma_run_append::<Proc>(state, a, seq![event]);
    lemma_run_one::<Proc>(run::<Proc>(state, a).0, event);
}

/// Events do not change the dimensions that a processor asks for.
pub proof fn lemma_run_keeps_dimensions<Proc: GeomProcessor>(
    state: Proc::V,
    events: Seq<GeomEvent>,
)
    ensures
        Proc::dimensions_of(run::<Proc>(state, events).0) == Proc::dimensions_of(state),
    decreases events.len(),
{
    if events.len() > 0 {
        Proc::lemma_accept_keeps_dimensions(state, events[0]);
        let (next, r) = Proc::accept(state, events[0]);
        if r is None {
            lemma_run_keeps_dimensions::<Proc>(next, events.drop_first());
        }
    }
}

/// After a prefix that succeeded and left the processor in `mid`, the next events run from `mid`;
/// when they fail, whatever would follow them is never reached.
pub proof fn lemma_run_step<Proc: GeomProcessor>(
    start: Proc::V,
    done: Seq<GeomEvent>,
    next: Seq<GeomEvent>,
    rest: Seq<GeomEvent>,
    mid: Proc::V,
)
    requires
        run::<Proc>(start, done) == (mid, None::<GeozeroErrorModel>),
    ensures
        run::<Proc>(start, done + next) == run::<Proc>(mid, next),
        run::<Proc>(mid, next).1 is Some ==> run::<Proc>(start, done + next + rest) == run::<
            Proc,
        >(mid, next),
        Proc::dimensions_of(mid) == Proc::dimensions_of(start),
{
    lemma_run_append::<Proc>(start, done, next);
    lemma_run_append::<Proc>(start, done + next, rest);
    lemma_run_keeps_dimensions::<Proc>(start, done);
}

/// Running no event leaves the processor as it is.
pub proof fn lemma_run_empty<Proc: GeomProcessor>(state: Proc::V)
    ensures
        run::<Proc>(state, Seq::empty()) == (state, None::<GeozeroErrorModel>),
{
}

/// A processor that records every event it is given, and never fails.
pub struct EventRecorder {
    dims: CoordDimensions,
    events: Vec<GeomEvent>,
}

/// Model of an `EventRecorder`: the dimensions it asks for and the events so far.
pub struct RecorderModel {
    pub dims: CoordDimensions,
    pub events: Seq<GeomEvent>,
}

impl View for EventRecorder {
    type V = RecorderModel;

    closed spec fn view(&self) -> RecorderModel {
        RecorderModel { dims: self.dims, events: self.events@ }
    }
}

impl EventRecorder {
    /// A recorder that asks for `dims` and has recorded nothing.
    pub fn new(dims: CoordDimensions) -> (r: EventRecorder)
        ensures
            r@ == (RecorderModel { dims, events: Seq::empty() }),
    {
        EventRecorder { dims, events: Vec::new() }
    }

    /// The events recorded so far, in order.
    pub fn events(&self) -> (r: &Vec<GeomEvent>)
        ensures
            r@ == self@.events,
    {
        &self.events
    }

    fn record(&mut self, event: GeomEvent) -> (r: Result<(), GeozeroError>)
        ensures
            (final(self)@, outcome(r)) == Self::accept(old(self)@, event),
    {
        self.events.push(event);
        Ok(())
    }
}

impl GeomProcessor for EventRecorder {
    open spec fn dimensions_of(state: RecorderModel) -> CoordDimensions {
        state.dims
    }

    open spec fn accept(state: RecorderModel, event: GeomEvent) -> (
        RecorderModel,
        Option<GeozeroErrorModel>,
    ) {
        (RecorderModel { dims: state.dims, events: state.events.push(event) }, None)
    }

    proof fn lemma_accept_keeps_dimensions(state: RecorderModel, event: GeomEvent) {
    }

    fn dimensions(&self) -> (r: CoordDimensions) {
        self.dims
    }

    fn srid(&mut self, srid: Option<i32>) -> (r: Result<(), GeozeroError>) {
        self.record(GeomEvent::Srid(srid))
    }

    fn xy(&mut self, x: u64, y: u64, idx: usize) -> (r: Result<(), GeozeroError>) {
        self.record(GeomEvent::Xy { x, y, idx })
    }

    fn coordinate(
        &mut self,
        x: u64,
        y: u64,
        z: Option<u64>,
        m: Option<u64>,
        t: Option<u64>,
        tm: Option<u64>,
        idx: usize,
    ) -> (r: Result<(), GeozeroError>) {
        self.record(GeomEvent::Coordinate { x, y, z, m, t, tm, idx })
    }

    fn point_begin(&mut self, idx: usize) -> (r: Result<(), GeozeroError>) {
        self.record(GeomEvent::PointBegin(idx))
    }

    fn point_end(&mut self, idx: usize) -> (r: Result<(), GeozeroError>) {
        self.record(GeomEvent::PointEnd(idx))
    }

    fn multipoint_begin(&mut self, size: usize, idx: usize) -> (r: Result<(), GeozeroError>) {
        self.record(GeomEvent::MultiPointBegin { size, idx })
    }

    fn multipoint_end(&mut self, idx: usize) -> (r: Result<(), GeozeroError>) {
        self.record(GeomEvent::MultiPointEnd(idx))
    }

    fn linestring_begin(&mut self, tagged: bool, size: usize, idx: usize) -> (r: Result<
        (),
        GeozeroError,
    >) {
        self.record(GeomEvent::LineStringBegin { tagged, size, idx })
    }

    fn linestring_end(&mut self, tagged: bool, idx: usize) -> (r: Result<(), GeozeroError>) {
        self.record(GeomEvent::LineStringEnd { tagged, idx })
    }

    fn multilinestring_begin(&mut self, size: usize, idx: usize) -> (r: Result<(), GeozeroError>) {
        self.record(GeomEvent::MultiLineStringBegin { size, idx })
    }

    fn multilinestring_end(&mut self, idx: usize) -> (r: Result<(), GeozeroError>) {
        self.record(GeomEvent::MultiLineStringEnd(idx))
    }

    fn polygon_begin(&mut self, tagged: bool, size: usize, idx: usize) -> (r: Result<
        (),
        GeozeroError,
    >) {
        self.record(GeomEvent::PolygonBegin { tagged, size, idx })
    }

    fn polygon_end(&mut self, tagged: bool, idx: usize) -> (r: Result<(), GeozeroError>) {
        self.record(GeomEvent::PolygonEnd { tagged, idx })
    }

    fn multipolygon_begin(&mut self, size: usize, idx: usize) -> (r: Result<(), GeozeroError>) {
        self.record(GeomEvent::MultiPolygonBegin { size, idx })
    }

    fn multipolygon_end(&mut self, idx: usize) -> (r: Result<(), GeozeroError>) {
        self.record(GeomEvent::MultiPolygonEnd(idx))
    }

    fn geometrycollection_begin(&mut self, size: usize, idx: usize) -> (r: Result<
        (),
        GeozeroError,
    >) {
        self.record(GeomEvent::GeometryCollectionBegin { size, idx })
    }

    fn geometrycollection_end(&mut self, idx: usize) -> (r: Result<(), GeozeroError>) {
        self.record(GeomEvent::GeometryCollectionEnd(idx))
    }
}

/// A recorder given a sequence of events has recorded exactly that sequence, after what it
/// held before, and never fails.
pub proof fn lemma_recorder_records(state: RecorderModel, events: Seq<GeomEvent>)
    ensures
        run::<EventRecorder>(state, events) == (
            RecorderModel { dims: state.dims, events: state.events + events },
            None::<GeozeroErrorModel>,
        ),
    decreases events.len(),
{
    if events.len() == 0 {
        assert(state.events + events =~= state.events);
    } else {
        let next = RecorderModel { dims: state.dims, events: state.events.push(events[0]) };
        lemma_recorder_records(next, events.drop_first());
        assert(state.events.push(events[0]) + events.drop_first() =~= state.events + events);
    }
}

} // verus!
