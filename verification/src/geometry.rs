//! The geometric shapes the library renders.
//!
//! Shapes are plain values over integer coordinates. Each composite shape has
//! a mathematical view: sequences in place of vectors, so that contracts can
//! speak about shape contents directly.

use vstd::prelude::*;

verus! {

/// An (x, y) coordinate pair.
#[derive(Debug, Clone, Copy, PartialEq)]
pub struct Coord {
    pub x: i64,
    pub y: i64,
}

/// A single point.
#[derive(Debug, Clone, Copy, PartialEq)]
pub struct Point(pub Coord);

impl Point {
    /// The point at (x, y).
    pub fn new(x: i64, y: i64) -> (r: Self)
        ensures
            r.0 == (Coord { x, y }),
    {
        Point(Coord { x, y })
    }

    /// The horizontal coordinate.
    pub fn x(&self) -> (r: i64)
        ensures
            r == self.0.x,
    {
        self.0.x
    }

    /// The vertical coordinate.
    pub fn y(&self) -> (r: i64)
        ensures
            r == self.0.y,
    {
        self.0.y
    }
}

/// A segment between two coordinates.
#[derive(Debug, Clone, Copy, PartialEq)]
pub struct Line {
    pub start: Coord,
    pub end: Coord,
}

impl Line {
    /// The segment from `start` to `end`.
    pub fn new(start: Coord, end: Coord) -> (r: Self)
        ensures
            r.start == start,
            r.end == end,
    {
        Line { start, end }
    }
}

/// An open, ordered sequence of coordinates.
#[derive(Debug, PartialEq)]
pub struct LineString(pub Vec<Coord>);

impl View for LineString {
    type V = Seq<Coord>;

    open spec fn view(&self) -> Seq<Coord> {
        self.0@
    }
}

fn copy_coords(v: &Vec<Coord>) -> (r: Vec<Coord>)
    ensures
        r@ == v@,
{
    let mut out: Vec<Coord> = Vec::new();
    let mut i: usize = 0;
    while i < v.len()
        invariant
            i <= v@.len(),
            out@ == v@.take(i as int),
        decreases v@.len() - i,
    {
        out.push(v[i]);
        proof {
            assert(out@ =~= v@.take(i as int + 1));
        }
        i += 1;
    }
    proof {
        assert(v@.take(v@.len() as int) =~= v@);
    }
    out
}

impl Clone for LineString {
    /// A copy whose coordinates equal the original's.
    fn clone(&self) -> (r: Self)
        ensures
            r@ == self@,
    {
        LineString(copy_coords(&self.0))
    }
}

/// The mathematical view of a polygon: its exterior ring and interior rings.
#[verifier::ext_equal]
pub struct PolygonV {
    pub exterior: Seq<Coord>,
    pub interiors: Seq<Seq<Coord>>,
}

/// The views of a sequence of rings.
pub open spec fn ring_views(rs: Seq<LineString>) -> Seq<Seq<Coord>> {
    Seq::new(rs.len(), |i: int| rs[i]@)
}

/// An area bounded by one exterior ring, with holes bounded by interior
/// rings. Rings are stored as given; each is implicitly closed when rendered.
#[derive(Debug, PartialEq)]
pub struct Polygon {
    pub exterior: LineString,
    pub interiors: Vec<LineString>,
}

impl View for Polygon {
    type V = PolygonV;

    open spec fn view(&self) -> PolygonV {
        PolygonV { exterior: self.exterior@, interiors: ring_views(self.interiors@) }
    }
}

impl Polygon {
    /// A polygon from its exterior ring and interior rings, kept as given.
    pub fn new(exterior: LineString, interiors: Vec<LineString>) -> (r: Self)
        ensures
            r@.exterior == exterior@,
            r@.interiors == ring_views(interiors@),
    {
        Polygon { exterior, interiors }
    }
}

fn dup_rings(v: &Vec<LineString>) -> (r: Vec<LineString>)
    ensures
        r@.len() == v@.len(),
        forall|i: int| 0 <= i < v@.len() ==> #[trigger] r@[i]@ == v@[i]@,
{
    let mut out: Vec<LineString> = Vec::new();
    let mut i: usize = 0;
    while i < v.len()
        invariant
            i <= v@.len(),
            out@.len() == i as int,
            forall|j: int| 0 <= j < i as int ==> #[trigger] out@[j]@ == v@[j]@,
        decreases v@.len() - i,
    {
        out.push(v[i].clone());
        i += 1;
    }
    out
}

impl Clone for Polygon {
    /// A copy whose rings equal the original's.
    fn clone(&self) -> (r: Self)
        ensures
            r@ == self@,
    {
        let r = Polygon { exterior: self.exterior.clone(), interiors: dup_rings(&self.interiors) };
        proof {
            assert(ring_views(r.interiors@) =~= ring_views(self.interiors@));
        }
        r
    }
}

/// An axis-aligned rectangle held as its minimum and maximum corners.
#[derive(Debug, Clone, Copy, PartialEq)]
pub struct Rect {
    pub min: Coord,
    pub max: Coord,
}

/// The corner ring of a rectangle, in the order its polygon form uses.
pub open spec fn rect_ring(r: Rect) -> Seq<Coord> {
    seq![
        Coord { x: r.max.x, y: r.min.y },
        Coord { x: r.max.x, y: r.max.y },
        Coord { x: r.min.x, y: r.max.y },
        Coord { x: r.min.x, y: r.min.y },
    ]
}

impl Rect {
    /// The rectangle spanned by two corners; coordinates are normalized so
    /// that `min` holds the smaller value on each axis.
    pub fn new(c1: Coord, c2: Coord) -> (r: Self)
        ensures
            r.min.x == if c1.x < c2.x {
                c1.x
            } else {
                c2.x
            },
            r.min.y == if c1.y < c2.y {
                c1.y
            } else {
                c2.y
            },
            r.max.x == if c1.x < c2.x {
                c2.x
            } else {
                c1.x
            },
            r.max.y == if c1.y < c2.y {
                c2.y
            } else {
                c1.y
            },
    {
        let min_x = if c1.x < c2.x { c1.x } else { c2.x };
        let max_x = if c1.x < c2.x { c2.x } else { c1.x };
        let min_y = if c1.y < c2.y { c1.y } else { c2.y };
        let max_y = if c1.y < c2.y { c2.y } else { c1.y };
        Rect { min: Coord { x: min_x, y: min_y }, max: Coord { x: max_x, y: max_y } }
    }

    /// The equivalent four-corner polygon, with no interior rings.
    pub fn to_polygon(&self) -> (r: Polygon)
        ensures
            r@.exterior == rect_ring(*self),
            r@.interiors.len() == 0,
    {
        let corners: Vec<Coord> = vec![
            Coord { x: self.max.x, y: self.min.y },
            Coord { x: self.max.x, y: self.max.y },
            Coord { x: self.min.x, y: self.max.y },
            Coord { x: self.min.x, y: self.min.y },
        ];
        let r = Polygon { exterior: LineString(corners), interiors: Vec::new() };
        proof {
            assert(r@.exterior =~= rect_ring(*self));
            assert(r@.interiors =~= Seq::<Seq<Coord>>::empty());
        }
        r
    }
}

/// A triangle held as its three vertices.
#[derive(Debug, Clone, Copy, PartialEq)]
pub struct Triangle(pub Coord, pub Coord, pub Coord);

/// The vertex ring of a triangle.
pub open spec fn tri_ring(t: Triangle) -> Seq<Coord> {
    seq![t.0, t.1, t.2]
}

impl Triangle {
    /// The equivalent three-vertex polygon, with no interior rings.
    pub fn to_polygon(&self) -> (r: Polygon)
        ensures
            r@.exterior == tri_ring(*self),
            r@.interiors.len() == 0,
    {
        let corners: Vec<Coord> = vec![self.0, self.1, self.2];
        let r = Polygon { exterior: LineString(corners), interiors: Vec::new() };
        proof {
            assert(r@.exterior =~= tri_ring(*self));
            assert(r@.interiors =~= Seq::<Seq<Coord>>::empty());
        }
        r
    }
}

/// An ordered collection of points.
#[derive(Debug, PartialEq)]
pub struct MultiPoint(pub Vec<Point>);

impl View for MultiPoint {
    type V = Seq<Point>;

    open spec fn view(&self) -> Seq<Point> {
        self.0@
    }
}

fn copy_points(v: &Vec<Point>) -> (r: Vec<Point>)
    ensures
        r@ == v@,
{
    let mut out: Vec<Point> = Vec::new();
    let mut i: usize = 0;
    while i < v.len()
        invariant
            i <= v@.len(),
            out@ == v@.take(i as int),
        decreases v@.len() - i,
    {
        out.push(v[i]);
        proof {
            assert(out@ =~= v@.take(i as int + 1));
        }
        i += 1;
    }
    proof {
        assert(v@.take(v@.len() as int) =~= v@);
    }
    out
}

impl Clone for MultiPoint {
    /// A copy whose points equal the original's.
    fn clone(&self) -> (r: Self)
        ensures
            r@ == self@,
    {
        MultiPoint(copy_points(&self.0))
    }
}

/// An ordered collection of line strings.
#[derive(Debug, PartialEq)]
pub struct MultiLineString(pub Vec<LineString>);

impl View for MultiLineString {
    type V = Seq<Seq<Coord>>;

    open spec fn view(&self) -> Seq<Seq<Coord>> {
        ring_views(self.0@)
    }
}

impl Clone for MultiLineString {
    /// A copy whose line strings equal the original's.
    fn clone(&self) -> (r: Self)
        ensures
            r@ == self@,
    {
        let r = MultiLineString(dup_rings(&self.0));
        proof {
            assert(ring_views(r.0@) =~= ring_views(self.0@));
        }
        r
    }
}

/// The views of a sequence of polygons.
pub open spec fn polygon_views(ps: Seq<Polygon>) -> Seq<PolygonV> {
    Seq::new(ps.len(), |i: int| ps[i]@)
}

/// An ordered collection of polygons.
#[derive(Debug, PartialEq)]
pub struct MultiPolygon(pub Vec<Polygon>);

impl View for MultiPolygon {
    type V = Seq<PolygonV>;

    open spec fn view(&self) -> Seq<PolygonV> {
        polygon_views(self.0@)
    }
}

fn dup_polygons(v: &Vec<Polygon>) -> (r: Vec<Polygon>)
    ensures
        r@.len() == v@.len(),
        forall|i: int| 0 <= i < v@.len() ==> #[trigger] r@[i]@ == v@[i]@,
{
    let mut out: Vec<Polygon> = Vec::new();
    let mut i: usize = 0;
    while i < v.len()
        invariant
            i <= v@.len(),
            out@.len() == i as int,
            forall|j: int| 0 <= j < i as int ==> #[trigger] out@[j]@ == v@[j]@,
        decreases v@.len() - i,
    {
        out.push(v[i].clone());
        i += 1;
    }
    out
}

impl Clone for MultiPolygon {
    /// A copy whose polygons equal the original's.
    fn clone(&self) -> (r: Self)
        ensures
            r@ == self@,
    {
        let r = MultiPolygon(dup_polygons(&self.0));
        proof {
            assert(polygon_views(r.0@) =~= polygon_views(self.0@));
        }
        r
    }
}

/// The mathematical view of a geometry.
pub enum GeometryV {
    Point(Point),
    Line(Line),
    LineString(Seq<Coord>),
    Polygon(PolygonV),
    Rect(Rect),
    Triangle(Triangle),
    MultiPoint(Seq<Point>),
    MultiLineString(Seq<Seq<Coord>>),
    MultiPolygon(Seq<PolygonV>),
    GeometryCollection(Seq<GeometryV>),
}

/// Any single shape, as one variant of a common type.
#[derive(Debug, PartialEq)]
pub enum Geometry {
    Point(Point),
    Line(Line),
    LineString(LineString),
    Polygon(Polygon),
    Rect(Rect),
    Triangle(Triangle),
    MultiPoint(MultiPoint),
    MultiLineString(MultiLineString),
    MultiPolygon(MultiPolygon),
    GeometryCollection(GeometryCollection),
}

/// An ordered, possibly heterogeneous collection of geometries.
#[derive(Debug, PartialEq)]
pub struct GeometryCollection(pub Vec<Geometry>);

/// The views of a sequence of geometries.
pub open spec fn geometry_views(gs: Seq<Geometry>) -> Seq<GeometryV>
    decreases gs,
{
    if gs.len() == 0 {
        Seq::empty()
    } else {
        geometry_views(gs.drop_last()).push(gs.last()@)
    }
}

/// `geometry_views` maps each geometry to its view, keeping length and order.
pub proof fn lemma_geometry_views(gs: Seq<Geometry>)
    ensures
        geometry_views(gs).len() == gs.len(),
        forall|i: int| 0 <= i < gs.len() ==> #[trigger] geometry_views(gs)[i] == gs[i]@,
    decreases gs,
{
    if gs.len() > 0 {
        lemma_geometry_views(gs.drop_last());
        let last_v = gs.last()@;
        let prefix = geometry_views(gs.drop_last());
        assert(geometry_views(gs) == prefix.push(last_v));
        assert forall|i: int| 0 <= i < gs.len() implies #[trigger] geometry_views(gs)[i]
            == gs[i]@ by {
            if i < gs.len() - 1 {
                assert(prefix.push(last_v)[i] == prefix[i]);
                assert(gs.drop_last()[i] == gs[i]);
            } else {
                assert(prefix.push(last_v)[i] == last_v);
            }
        }
    }
}

impl View for Geometry {
    type V = GeometryV;

    open spec fn view(&self) -> GeometryV
        decreases self,
    {
        match self {
            Geometry::Point(p) => GeometryV::Point(*p),
            Geometry::Line(l) => GeometryV::Line(*l),
            Geometry::LineString(ls) => GeometryV::LineString(ls@),
            Geometry::Polygon(p) => GeometryV::Polygon(p@),
            Geometry::Rect(r) => GeometryV::Rect(*r),
            Geometry::Triangle(t) => GeometryV::Triangle(*t),
            Geometry::MultiPoint(mp) => GeometryV::MultiPoint(mp@),
            Geometry::MultiLineString(mls) => GeometryV::MultiLineString(mls@),
            Geometry::MultiPolygon(mp) => GeometryV::MultiPolygon(mp@),
            Geometry::GeometryCollection(gc) => GeometryV::GeometryCollection(
                geometry_views(gc.0@),
            ),
        }
    }
}

impl View for GeometryCollection {
    type V = Seq<GeometryV>;

    open spec fn view(&self) -> Seq<GeometryV>
        decreases self,
    {
        geometry_views(self.0@)
    }
}

pub(crate) fn dup_geometries(v: &Vec<Geometry>) -> (r: Vec<Geometry>)
    ensures
        r@.len() == v@.len(),
        forall|i: int| 0 <= i < v@.len() ==> #[trigger] r@[i]@ == v@[i]@,
    decreases *v,
{
    let mut out: Vec<Geometry> = Vec::new();
    let mut i: usize = 0;
    while i < v.len()
        invariant
            i <= v@.len(),
            out@.len() == i as int,
            forall|j: int| 0 <= j < i as int ==> #[trigger] out@[j]@ == v@[j]@,
        decreases v@.len() - i,
    {
        proof {
            assert(decreases_to!(*v => v@[i as int]));
        }
        let g = v[i].duplicate();
        out.push(g);
        i += 1;
    }
    out
}

impl Geometry {
    fn duplicate(&self) -> (r: Self)
        ensures
            r@ == self@,
        decreases *self,
    {
        match self {
            Geometry::Point(p) => Geometry::Point(*p),
            Geometry::Line(l) => Geometry::Line(*l),
            Geometry::LineString(ls) => Geometry::LineString(ls.clone()),
            Geometry::Polygon(p) => Geometry::Polygon(p.clone()),
            Geometry::Rect(r) => Geometry::Rect(*r),
            Geometry::Triangle(t) => Geometry::Triangle(*t),
            Geometry::MultiPoint(mp) => Geometry::MultiPoint(mp.clone()),
            Geometry::MultiLineString(mls) => Geometry::MultiLineString(mls.clone()),
            Geometry::MultiPolygon(mp) => Geometry::MultiPolygon(mp.clone()),
            Geometry::GeometryCollection(gc) => {
                proof {
                    assert(decreases_to!(*self => self->GeometryCollection_0));
                    assert(decreases_to!(*gc => gc.0));
                    assert(decreases_to!(*self => gc.0));
                }
                let items = dup_geometries(&gc.0);
                let r = Geometry::GeometryCollection(GeometryCollection(items));
                proof {
                    lemma_geometry_views(items@);
                    lemma_geometry_views(gc.0@);
                    assert(geometry_views(items@) =~= geometry_views(gc.0@));
                }
                r
            },
        }
    }
}

impl Clone for Geometry {
    /// A copy whose view equals the original's.
    fn clone(&self) -> (r: Self)
        ensures
            r@ == self@,
    {
        self.duplicate()
    }
}

impl Clone for GeometryCollection {
    /// A copy whose geometries equal the original's.
    fn clone(&self) -> (r: Self)
        ensures
            r@ == self@,
    {
        let items = dup_geometries(&self.0);
        let r = GeometryCollection(items);
        proof {
            lemma_geometry_views(items@);
            lemma_geometry_views(self.0@);
            assert(geometry_views(items@) =~= geometry_views(self.0@));
        }
        r
    }
}

} // verus!
