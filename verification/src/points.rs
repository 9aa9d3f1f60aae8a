//! Point types and the uniform point interface.
//!
//! Coordinate values are carried as the IEEE-754 bit patterns of `f64` values
//! (`f64::to_bits`): the library moves coordinates around but never computes with them.
use vstd::prelude::*;

verus! {

/// Dimension flag of a point without Z and M values.
pub const DIMENSION_NONE: u32 = 0;

/// Dimension flag bit of a point with a Z value.
pub const DIMENSION_Z: u32 = 0x8000_0000;

/// Dimension flag bit of a point with an M value.
pub const DIMENSION_M: u32 = 0x4000_0000;

/// Dimension flag of a point with both Z and M values.
pub const DIMENSION_ZM: u32 = 0xC000_0000;

/// The concrete point kinds that a constructor can refuse to build.
#[derive(Debug, Clone, Copy, PartialEq, Eq)]
pub enum PointKind {
    Point,
    PointZ,
    PointM,
    PointZM,
}

/// Why a point could not be built from the given optional Z and M values.
#[derive(Debug, Clone, Copy, PartialEq, Eq)]
pub enum PointConstructorError {
    /// A Z value is mandatory for this kind of point, but none was given.
    MissingZ(PointKind),
    /// An M value is mandatory for this kind of point, but none was given.
    MissingM(PointKind),
    /// A two-dimensional point was given a Z or an M value.
    UnexpectedZOrM { z: Option<u64>, m: Option<u64> },
    /// A `PointZ` was given an M value.
    UnexpectedM { m: Option<u64> },
    /// A `PointM` was given a Z value.
    UnexpectedZ { z: Option<u64> },
}

/// A two-dimensional point.
#[derive(Debug, Clone, Copy, PartialEq, Eq)]
pub struct Point {
    pub x: u64,
    pub y: u64,
    pub srid: Option<u32>,
}

/// A point with a Z value.
#[derive(Debug, Clone, Copy, PartialEq, Eq)]
pub struct PointZ {
    pub x: u64,
    pub y: u64,
    pub z: u64,
    pub srid: Option<u32>,
}

/// A point with an M value.
#[derive(Debug, Clone, Copy, PartialEq, Eq)]
pub struct PointM {
    pub x: u64,
    pub y: u64,
    pub m: u64,
    pub srid: Option<u32>,
}

/// A point with both a Z and an M value.
#[derive(Debug, Clone, Copy, PartialEq, Eq)]
pub struct PointZM {
    pub x: u64,
    pub y: u64,
    pub z: u64,
    pub m: u64,
    pub srid: Option<u32>,
}

/// Any of the four point kinds.
#[derive(Debug, Clone, Copy, PartialEq, Eq)]
pub enum AnyPoint {
    Point(Point),
    PointZ(PointZ),
    PointM(PointM),
    PointZM(PointZM),
}

/// Uniform access to the four point kinds (and to `AnyPoint`).
pub trait PointT: Sized + Copy {
    spec fn x_of(&self) -> u64;

    spec fn y_of(&self) -> u64;

    spec fn z_of(&self) -> Option<u64>;

    spec fn m_of(&self) -> Option<u64>;

    spec fn srid_of(&self) -> Option<u32>;

    spec fn dimension_of(&self) -> u32;

    /// The same point with its SRID replaced.
    spec fn with_srid(self, srid: Option<u32>) -> Self;

    /// What `new_point` returns for these arguments.
    spec fn construct(
        x: u64,
        y: u64,
        srid: Option<u32>,
        z: Option<u64>,
        m: Option<u64>,
    ) -> Result<Self, PointConstructorError>;

    /// Rebuilding a point from its own coordinates succeeds, and yields the point with
    /// the requested SRID; replacing a point's SRID by its own leaves it unchanged.
    proof fn lemma_construct_from_parts(p: Self, srid: Option<u32>)
        ensures
            Self::construct(p.x_of(), p.y_of(), srid, p.z_of(), p.m_of()) == Ok::<
                Self,
                PointConstructorError,
            >(p.with_srid(srid)),
            p.with_srid(srid).srid_of() == srid,
            p.with_srid(p.srid_of()) == p,
    ;

    fn new_point(
        x: u64,
        y: u64,
        srid: Option<u32>,
        z: Option<u64>,
        m: Option<u64>,
    ) -> (r: Result<Self, PointConstructorError>)
        ensures
            r == Self::construct(x, y, srid, z, m),
    ;

    fn get_x(&self) -> (r: u64)
        ensures
            r == self.x_of(),
    ;

    fn get_y(&self) -> (r: u64)
        ensures
            r == self.y_of(),
    ;

    fn get_srid(&self) -> (r: Option<u32>)
        ensures
            r == self.srid_of(),
    ;

    fn get_z(&self) -> (r: Option<u64>)
        ensures
            r == self.z_of(),
    ;

    fn get_m(&self) -> (r: Option<u64>)
        ensures
            r == self.m_of(),
    ;

    fn dimension(&self) -> (r: u32)
        ensures
            r == self.dimension_of(),
    ;
}

impl Point {
    pub fn new(x: u64, y: u64, srid: Option<u32>) -> (r: Point)
        ensures
            r == (Point { x, y, srid }),
    {
        Point { x, y, srid }
    }
}

impl PointZ {
    pub fn new(x: u64, y: u64, z: u64, srid: Option<u32>) -> (r: PointZ)
        ensures
            r == (PointZ { x, y, z, srid }),
    {
        PointZ { x, y, z, srid }
    }
}

impl PointM {
    pub fn new(x: u64, y: u64, m: u64, srid: Option<u32>) -> (r: PointM)
        ensures
            r == (PointM { x, y, m, srid }),
    {
        PointM { x, y, m, srid }
    }
}

impl PointZM {
    pub fn new(x: u64, y: u64, z: u64, m: u64, srid: Option<u32>) -> (r: PointZM)
        ensures
            r == (PointZM { x, y, z, m, srid }),
    {
        PointZM { x, y, z, m, srid }
    }
}

impl PointT for Point {
    open spec fn x_of(&self) -> u64 {
        self.x
    }

    open spec fn y_of(&self) -> u64 {
        self.y
    }

    open spec fn z_of(&self) -> Option<u64> {
        None
    }

    open spec fn m_of(&self) -> Option<u64> {
        None
    }

    open spec fn srid_of(&self) -> Option<u32> {
        self.srid
    }

    open spec fn dimension_of(&self) -> u32 {
        DIMENSION_NONE
    }

    open spec fn with_srid(self, srid: Option<u32>) -> Self {
        Point { srid, ..self }
    }

    open spec fn construct(
        x: u64,
        y: u64,
        srid: Option<u32>,
        z: Option<u64>,
        m: Option<u64>,
    ) -> Result<Self, PointConstructorError> {
        if z is Some || m is Some {
            Err(PointConstructorError::UnexpectedZOrM { z, m })
        } else {
            Ok(Point { x, y, srid })
        }
    }

    proof fn lemma_construct_from_parts(p: Self, srid: Option<u32>) {
    }

    fn new_point(
        x: u64,
        y: u64,
        srid: Option<u32>,
        z: Option<u64>,
        m: Option<u64>,
    ) -> (r: Result<Self, PointConstructorError>) {
        if z.is_some() || m.is_some() {
            return Err(PointConstructorError::UnexpectedZOrM { z, m });
        }
        Ok(Point { x, y, srid })
    }

    fn get_x(&self) -> (r: u64) {
        self.x
    }

    fn get_y(&self) -> (r: u64) {
        self.y
    }

    fn get_srid(&self) -> (r: Option<u32>) {
        self.srid
    }

    fn get_z(&self) -> (r: Option<u64>) {
        None
    }

    fn get_m(&self) -> (r: Option<u64>) {
        None
    }

    fn dimension(&self) -> (r: u32) {
        DIMENSION_NONE
    }
}

impl PointT for PointZ {
    open spec fn x_of(&self) -> u64 {
        self.x
    }

    open spec fn y_of(&self) -> u64 {
        self.y
    }

    open spec fn z_of(&self) -> Option<u64> {
        Some(self.z)
    }

    open spec fn m_of(&self) -> Option<u64> {
        None
    }

    open spec fn srid_of(&self) -> Option<u32> {
        self.srid
    }

    open spec fn dimension_of(&self) -> u32 {
        DIMENSION_Z
    }

    open spec fn with_srid(self, srid: Option<u32>) -> Self {
        PointZ { srid, ..self }
    }

    open spec fn construct(
        x: u64,
        y: u64,
        srid: Option<u32>,
        z: Option<u64>,
        m: Option<u64>,
    ) -> Result<Self, PointConstructorError> {
        match z {
            None => Err(PointConstructorError::MissingZ(PointKind::PointZ)),
            Some(z) => if m is Some {
                Err(PointConstructorError::UnexpectedM { m })
            } else {
                Ok(PointZ { x, y, z, srid })
            },
        }
    }

    proof fn lemma_construct_from_parts(p: Self, srid: Option<u32>) {
    }

    fn new_point(
        x: u64,
        y: u64,
        srid: Option<u32>,
        z: Option<u64>,
        m: Option<u64>,
    ) -> (r: Result<Self, PointConstructorError>) {
        match z {
            None => Err(PointConstructorError::MissingZ(PointKind::PointZ)),
            Some(z) => {
                if m.is_some() {
                    return Err(PointConstructorError::UnexpectedM { m });
                }
                Ok(PointZ { x, y, z, srid })
            },
        }
    }

    fn get_x(&self) -> (r: u64) {
        self.x
    }

    fn get_y(&self) -> (r: u64) {
        self.y
    }

    fn get_srid(&self) -> (r: Option<u32>) {
        self.srid
    }

    fn get_z(&self) -> (r: Option<u64>) {
        Some(self.z)
    }

    fn get_m(&self) -> (r: Option<u64>) {
        None
    }

    fn dimension(&self) -> (r: u32) {
        DIMENSION_Z
    }
}

impl PointT for PointM {
    open spec fn x_of(&self) -> u64 {
        self.x
    }

    open spec fn y_of(&self) -> u64 {
        self.y
    }

    open spec fn z_of(&self) -> Option<u64> {
        None
    }

    open spec fn m_of(&self) -> Option<u64> {
        Some(self.m)
    }

    open spec fn srid_of(&self) -> Option<u32> {
        self.srid
    }

    open spec fn dimension_of(&self) -> u32 {
        DIMENSION_M
    }

    open spec fn with_srid(self, srid: Option<u32>) -> Self {
        PointM { srid, ..self }
    }

    open spec fn construct(
        x: u64,
        y: u64,
        srid: Option<u32>,
        z: Option<u64>,
        m: Option<u64>,
    ) -> Result<Self, PointConstructorError> {
        match m {
            None => Err(PointConstructorError::MissingM(PointKind::PointM)),
            Some(m) => if z is Some {
                Err(PointConstructorError::UnexpectedZ { z })
            } else {
                Ok(PointM { x, y, m, srid })
            },
        }
    }

    proof fn lemma_construct_from_parts(p: Self, srid: Option<u32>) {
    }

    fn new_point(
        x: u64,
        y: u64,
        srid: Option<u32>,
        z: Option<u64>,
        m: Option<u64>,
    ) -> (r: Result<Self, PointConstructorError>) {
        match m {
            None => Err(PointConstructorError::MissingM(PointKind::PointM)),
            Some(m) => {
                if z.is_some() {
                    return Err(PointConstructorError::UnexpectedZ { z });
                }
                Ok(PointM { x, y, m, srid })
            },
        }
    }

    fn get_x(&self) -> (r: u64) {
        self.x
    }

    fn get_y(&self) -> (r: u64) {
        self.y
    }

    fn get_srid(&self) -> (r: Option<u32>) {
        self.srid
    }

    fn get_z(&self) -> (r: Option<u64>) {
        None
    }

    fn get_m(&self) -> (r: Option<u64>) {
        Some(self.m)
    }

    fn dimension(&self) -> (r: u32) {
        DIMENSION_M
    }
}

impl PointT for PointZM {
    open spec fn x_of(&self) -> u64 {
        self.x
    }

    open spec fn y_of(&self) -> u64 {
        self.y
    }

    open spec fn z_of(&self) -> Option<u64> {
        Some(self.z)
    }

    open spec fn m_of(&self) -> Option<u64> {
        Some(self.m)
    }

    open spec fn srid_of(&self) -> Option<u32> {
        self.srid
    }

    open spec fn dimension_of(&self) -> u32 {
        DIMENSION_ZM
    }

    open spec fn with_srid(self, srid: Option<u32>) -> Self {
        PointZM { srid, ..self }
    }

    open spec fn construct(
        x: u64,
        y: u64,
        srid: Option<u32>,
        z: Option<u64>,
        m: Option<u64>,
    ) -> Result<Self, PointConstructorError> {
        match (z, m) {
            (None, _) => Err(PointConstructorError::MissingZ(PointKind::PointZM)),
            (Some(_), None) => Err(PointConstructorError::MissingM(PointKind::PointZM)),
            (Some(z), Some(m)) => Ok(PointZM { x, y, z, m, srid }),
        }
    }

    proof fn lemma_construct_from_parts(p: Self, srid: Option<u32>) {
    }

    fn new_point(
        x: u64,
        y: u64,
        srid: Option<u32>,
        z: Option<u64>,
        m: Option<u64>,
    ) -> (r: Result<Self, PointConstructorError>) {
        match (z, m) {
            (None, _) => Err(PointConstructorError::MissingZ(PointKind::PointZM)),
            (Some(_), None) => Err(PointConstructorError::MissingM(PointKind::PointZM)),
            (Some(z), Some(m)) => Ok(PointZM { x, y, z, m, srid }),
        }
    }

    fn get_x(&self) -> (r: u64) {
        self.x
    }

    fn get_y(&self) -> (r: u64) {
        self.y
    }

    fn get_srid(&self) -> (r: Option<u32>) {
        self.srid
    }

    fn get_z(&self) -> (r: Option<u64>) {
        Some(self.z)
    }

    fn get_m(&self) -> (r: Option<u64>) {
        Some(self.m)
    }

    fn dimension(&self) -> (r: u32) {
        DIMENSION_ZM
    }
}

impl PointT for AnyPoint {
    open spec fn x_of(&self) -> u64 {
        match self {
            AnyPoint::Point(p) => p.x_of(),
            AnyPoint::PointZ(p) => p.x_of(),
            AnyPoint::PointM(p) => p.x_of(),
            AnyPoint::PointZM(p) => p.x_of(),
        }
    }

    open spec fn y_of(&self) -> u64 {
        match self {
            AnyPoint::Point(p) => p.y_of(),
            AnyPoint::PointZ(p) => p.y_of(),
            AnyPoint::PointM(p) => p.y_of(),
            AnyPoint::PointZM(p) => p.y_of(),
        }
    }

    open spec fn z_of(&self) -> Option<u64> {
        match self {
            AnyPoint::Point(p) => p.z_of(),
            AnyPoint::PointZ(p) => p.z_of(),
            AnyPoint::PointM(p) => p.z_of(),
            AnyPoint::PointZM(p) => p.z_of(),
        }
    }

    open spec fn m_of(&self) -> Option<u64> {
        match self {
            AnyPoint::Point(p) => p.m_of(),
            AnyPoint::PointZ(p) => p.m_of(),
            AnyPoint::PointM(p) => p.m_of(),
            AnyPoint::PointZM(p) => p.m_of(),
        }
    }

    open spec fn srid_of(&self) -> Option<u32> {
        match self {
            AnyPoint::Point(p) => p.srid_of(),
            AnyPoint::PointZ(p) => p.srid_of(),
            AnyPoint::PointM(p) => p.srid_of(),
            AnyPoint::PointZM(p) => p.srid_of(),
        }
    }

    open spec fn dimension_of(&self) -> u32 {
        match self {
            AnyPoint::Point(p) => p.dimension_of(),
            AnyPoint::PointZ(p) => p.dimension_of(),
            AnyPoint::PointM(p) => p.dimension_of(),
            AnyPoint::PointZM(p) => p.dimension_of(),
        }
    }

    open spec fn with_srid(self, srid: Option<u32>) -> Self {
        match self {
            AnyPoint::Point(p) => AnyPoint::Point(p.with_srid(srid)),
            AnyPoint::PointZ(p) => AnyPoint::PointZ(p.with_srid(srid)),
            AnyPoint::PointM(p) => AnyPoint::PointM(p.with_srid(srid)),
            AnyPoint::PointZM(p) => AnyPoint::PointZM(p.with_srid(srid)),
        }
    }

    /// The kind of point is chosen by which of Z and M are given.
    open spec fn construct(
        x: u64,
        y: u64,
        srid: Option<u32>,
        z: Option<u64>,
        m: Option<u64>,
    ) -> Result<Self, PointConstructorError> {
        match (z, m) {
            (None, None) => match Point::construct(x, y, srid, z, m) {
                Ok(p) => Ok(AnyPoint::Point(p)),
                Err(e) => Err(e),
            },
            (Some(_), None) => match PointZ::construct(x, y, srid, z, m) {
                Ok(p) => Ok(AnyPoint::PointZ(p)),
                Err(e) => Err(e),
            },
            (None, Some(_)) => match PointM::construct(x, y, srid, z, m) {
                Ok(p) => Ok(AnyPoint::PointM(p)),
                Err(e) => Err(e),
            },
            (Some(_), Some(_)) => match PointZM::construct(x, y, srid, z, m) {
                Ok(p) => Ok(AnyPoint::PointZM(p)),
                Err(e) => Err(e),
            },
        }
    }

    proof fn lemma_construct_from_parts(p: Self, srid: Option<u32>) {
    }

    fn new_point(
        x: u64,
        y: u64,
        srid: Option<u32>,
        z: Option<u64>,
        m: Option<u64>,
    ) -> (r: Result<Self, PointConstructorError>) {
        match (z, m) {
            (None, None) => {
                let p = Point::new_point(x, y, srid, z, m)?;
                Ok(AnyPoint::Point(p))
            },
            (Some(_), None) => {
                let p = PointZ::new_point(x, y, srid, z, m)?;
                Ok(AnyPoint::PointZ(p))
            },
            (None, Some(_)) => {
                let p = PointM::new_point(x, y, srid, z, m)?;
                Ok(AnyPoint::PointM(p))
            },
            (Some(_), Some(_)) => {
                let p = PointZM::new_point(x, y, srid, z, m)?;
                Ok(AnyPoint::PointZM(p))
            },
        }
    }

    fn get_x(&self) -> (r: u64) {
        match self {
            AnyPoint::Point(p) => p.get_x(),
            AnyPoint::PointZ(p) => p.get_x(),
            AnyPoint::PointM(p) => p.get_x(),
            AnyPoint::PointZM(p) => p.get_x(),
        }
    }

    fn get_y(&self) -> (r: u64) {
        match self {
            AnyPoint::Point(p) => p.get_y(),
            AnyPoint::PointZ(p) => p.get_y(),
            AnyPoint::PointM(p) => p.get_y(),
            AnyPoint::PointZM(p) => p.get_y(),
        }
    }

    fn get_srid(&self) -> (r: Option<u32>) {
        match self {
            AnyPoint::Point(p) => p.get_srid(),
            AnyPoint::PointZ(p) => p.get_srid(),
            AnyPoint::PointM(p) => p.get_srid(),
            AnyPoint::PointZM(p) => p.get_srid(),
        }
    }

    fn get_z(&self) -> (r: Option<u64>) {
        match self {
            AnyPoint::Point(p) => p.get_z(),
            AnyPoint::PointZ(p) => p.get_z(),
            AnyPoint::PointM(p) => p.get_z(),
            AnyPoint::PointZM(p) => p.get_z(),
        }
    }

    fn get_m(&self) -> (r: Option<u64>) {
        match self {
            AnyPoint::Point(p) => p.get_m(),
            AnyPoint::PointZ(p) => p.get_m(),
            AnyPoint::PointM(p) => p.get_m(),
            AnyPoint::PointZM(p) => p.get_m(),
        }
    }

    fn dimension(&self) -> (r: u32) {
        match self {
            AnyPoint::Point(p) => p.dimension(),
            AnyPoint::PointZ(p) => p.dimension(),
            AnyPoint::PointM(p) => p.dimension(),
            AnyPoint::PointZM(p) => p.dimension(),
        }
    }
}

/// A two-dimensional point is built exactly when neither a Z nor an M value is given; it
/// then holds the given coordinates and SRID, and otherwise the refusal names both values.
pub proof fn lemma_point_needs_neither_z_nor_m(
    x: u64,
    y: u64,
    srid: Option<u32>,
    z: Option<u64>,
    m: Option<u64>,
)
    ensures
        Point::construct(x, y, srid, z, m) is Ok <==> (z is None && m is None),
        z is None && m is None ==> Point::construct(x, y, srid, z, m) == Ok::<
            Point,
            PointConstructorError,
        >(Point { x, y, srid }),
        !(z is None && m is None) ==> Point::construct(x, y, srid, z, m) == Err::<
            Point,
            PointConstructorError,
        >(PointConstructorError::UnexpectedZOrM { z, m }),
{
}

/// A point with Z is built exactly when a Z value and no M value are given.
pub proof fn lemma_point_z_needs_z_only(
    x: u64,
    y: u64,
    srid: Option<u32>,
    z: Option<u64>,
    m: Option<u64>,
)
    ensures
        PointZ::construct(x, y, srid, z, m) is Ok <==> (z is Some && m is None),
        z is Some && m is None ==> PointZ::construct(x, y, srid, z, m) == Ok::<
            PointZ,
            PointConstructorError,
        >(PointZ { x, y, z: z->0, srid }),
{
}

/// A point with M is built exactly when an M value and no Z value are given.
pub proof fn lemma_point_m_needs_m_only(
    x: u64,
    y: u64,
    srid: Option<u32>,
    z: Option<u64>,
    m: Option<u64>,
)
    ensures
        PointM::construct(x, y, srid, z, m) is Ok <==> (z is None && m is Some),
        z is None && m is Some ==> PointM::construct(x, y, srid, z, m) == Ok::<
            PointM,
            PointConstructorError,
        >(PointM { x, y, m: m->0, srid }),
{
}

/// A point with Z and M is built exactly when both values are given.
pub proof fn lemma_point_zm_needs_both(
    x: u64,
    y: u64,
    srid: Option<u32>,
    z: Option<u64>,
    m: Option<u64>,
)
    ensures
        PointZM::construct(x, y, srid, z, m) is Ok <==> (z is Some && m is Some),
        z is Some && m is Some ==> PointZM::construct(x, y, srid, z, m) == Ok::<
            PointZM,
            PointConstructorError,
        >(PointZM { x, y, z: z->0, m: m->0, srid }),
{
}

/// Any point is always built, and keeps exactly the coordinates, SRID and optional values given.
pub proof fn lemma_any_point_keeps_everything(
    x: u64,
    y: u64,
    srid: Option<u32>,
    z: Option<u64>,
    m: Option<u64>,
)
    ensures
        AnyPoint::construct(x, y, srid, z, m) matches Ok(p) && p.x_of() == x && p.y_of() == y
            && p.srid_of() == srid && p.z_of() == z && p.m_of() == m,
{
}

} // verus!
