//! The rendering protocol implemented for every shape variant.
//!
//! The spec functions at the top define, over shape views, the exact fragment
//! string and bounding viewbox of each variant; the impls below produce them.

use crate::geometry::{
    geometry_views, lemma_geometry_views, polygon_views, rect_ring, ring_views, tri_ring, Coord, Geometry,
    GeometryCollection, GeometryV, Line, LineString, MultiLineString, MultiPoint, MultiPolygon,
    Point, Polygon, PolygonV, Rect, Triangle,
};
use crate::numfmt::{dec_str_int, push_dec_i64};
use crate::style::{style_str, Style};
use crate::to_svg_str::ToSvgStr;
use crate::viewbox::{vb_empty, vb_height, vb_union, vb_width, ViewBox};
use vstd::prelude::*;
use vstd::string::StringExecFns;

verus! {

/// The stroke width a point's bounding box uses: 1 when unset.
pub open spec fn stroke_w(s: Style) -> int {
    match s.stroke_width {
        Some(w) => w as int,
        None => 1,
    }
}

/// The stroke width a segment's bounding box uses: 0 when unset. Only a set
/// stroke width inflates a line; an unset one contributes nothing.
pub open spec fn seg_stroke_w(s: Style) -> int {
    match s.stroke_width {
        Some(w) => w as int,
        None => 0,
    }
}

/// How far a point's bounding box extends from its center: the point radius
/// plus the stroke width.
pub open spec fn point_rad(s: Style) -> int {
    s.radius + stroke_w(s)
}

/// The point radius plus stroke width stays within the coordinate type.
pub open spec fn rad_fits(s: Style) -> bool {
    i64::MIN <= point_rad(s) <= i64::MAX
}

/// The box reaching `rad` out from a coordinate on both axes.
pub open spec fn pt_vb(c: Coord, rad: int) -> ViewBox {
    ViewBox {
        min_x: Some((c.x - rad) as i64),
        min_y: Some((c.y - rad) as i64),
        max_x: Some((c.x + rad) as i64),
        max_y: Some((c.y + rad) as i64),
    }
}

/// Every bound of `pt_vb(c, rad)` stays within the coordinate type.
pub open spec fn pt_fits(c: Coord, rad: int) -> bool {
    &&& i64::MIN <= c.x - rad <= i64::MAX
    &&& i64::MIN <= c.x + rad <= i64::MAX
    &&& i64::MIN <= c.y - rad <= i64::MAX
    &&& i64::MIN <= c.y + rad <= i64::MAX
}

/// Every coordinate of `pts` fits with reach `rad`.
pub open spec fn pts_fit(pts: Seq<Coord>, rad: int) -> bool {
    forall|i: int| 0 <= i < pts.len() ==> pt_fits(#[trigger] pts[i], rad)
}

/// The box of a segment: the union of its endpoints' boxes with the point
/// radius forced to zero, so only a set stroke width inflates it.
pub open spec fn line_vb(a: Coord, b: Coord, s: Style) -> ViewBox {
    vb_union(pt_vb(a, seg_stroke_w(s)), pt_vb(b, seg_stroke_w(s)))
}

/// The endpoint boxes of every segment of `pts` fit. A sequence with fewer
/// than two points has no segment and nothing to fit.
pub open spec fn segs_fits(pts: Seq<Coord>, s: Style) -> bool {
    pts.len() >= 2 ==> pts_fit(pts, seg_stroke_w(s))
}

/// The union of the boxes of the consecutive segments of `pts`, folded in
/// order from the empty viewbox.
pub open spec fn segs_vb(pts: Seq<Coord>, s: Style) -> ViewBox
    decreases pts,
{
    if pts.len() < 2 {
        vb_empty()
    } else {
        vb_union(segs_vb(pts.drop_last(), s), line_vb(pts[pts.len() - 2], pts.last(), s))
    }
}

/// The circle element a point renders to.
pub open spec fn circle_fragment(c: Coord, s: Style) -> Seq<char> {
    "<circle cx=\""@ + dec_str_int(c.x as int) + "\" cy=\""@ + dec_str_int(c.y as int)
        + "\" r=\""@ + dec_str_int(s.radius as int) + "\""@ + style_str(s) + "/>"@
}

/// The path commands of a coordinate sequence: `M` to the first point, `L`
/// to each subsequent one.
pub open spec fn path_cmds(pts: Seq<Coord>) -> Seq<char>
    decreases pts,
{
    if pts.len() == 0 {
        Seq::empty()
    } else if pts.len() == 1 {
        "M "@ + dec_str_int(pts[0].x as int) + " "@ + dec_str_int(pts[0].y as int)
    } else {
        path_cmds(pts.drop_last()) + " L "@ + dec_str_int(pts.last().x as int) + " "@
            + dec_str_int(pts.last().y as int)
    }
}

/// The path element a segment renders to.
pub open spec fn line_fragment(a: Coord, b: Coord, s: Style) -> Seq<char> {
    "<path d=\""@ + path_cmds(seq![a, b]) + "\""@ + style_str(s) + "/>"@
}

/// The path element a line string renders to: one `M` followed by `L`
/// commands. Fewer than two points render to nothing.
pub open spec fn linestring_fragment(pts: Seq<Coord>, s: Style) -> Seq<char> {
    if pts.len() < 2 {
        Seq::empty()
    } else {
        "<path d=\""@ + path_cmds(pts) + "\""@ + style_str(s) + "/>"@
    }
}

fn push_path_cmds(out: &mut String, pts: &Vec<Coord>)
    ensures
        final(out)@ == old(out)@ + path_cmds(pts@),
{
    let mut i: usize = 0;
    while i < pts.len()
        invariant
            i <= pts@.len(),
            out@ == old(out)@ + path_cmds(pts@.take(i as int)),
        decreases pts@.len() - i,
    {
        if i == 0 {
            out.append("M ");
        } else {
            out.append(" L ");
        }
        push_dec_i64(out, pts[i].x);
        out.append(" ");
        push_dec_i64(out, pts[i].y);
        proof {
            assert(pts@.take(i as int + 1).drop_last() =~= pts@.take(i as int));
            assert(pts@.take(i as int + 1).last() == pts@[i as int]);
            assert(out@ =~= old(out)@ + path_cmds(pts@.take(i as int + 1)));
        }
        i += 1;
    }
    proof {
        assert(pts@.take(pts@.len() as int) =~= pts@);
    }
}

#[verifier::loop_isolation(false)]
fn segs_viewbox(pts: &Vec<Coord>, style: &Style) -> (r: ViewBox)
    requires
        segs_fits(pts@, *style),
    ensures
        r == segs_vb(pts@, *style),
{
    let mut vb = ViewBox::default();
    if pts.len() < 2 {
        return vb;
    }
    let mut i: usize = 1;
    while i < pts.len()
        invariant
            1 <= i <= pts@.len(),
            vb == segs_vb(pts@.take(i as int), *style),
        decreases pts@.len() - i,
    {
        let seg = Line::new(pts[i - 1], pts[i]);
        let seg_vb = seg.viewbox(style);
        vb = vb.add(&seg_vb);
        proof {
            let t = pts@.take(i as int + 1);
            assert(t.drop_last() =~= pts@.take(i as int));
            assert(t.last() == pts@[i as int]);
            assert(t[t.len() - 2] == pts@[i as int - 1]);
        }
        i += 1;
    }
    proof {
        assert(pts@.take(pts@.len() as int) =~= pts@);
    }
    vb
}

impl ToSvgStr for Point {
    /// The circle element at this point.
    open spec fn fragment_spec(&self, style: Style) -> Seq<char> {
        circle_fragment(self.0, style)
    }

    /// The point's box: the point reaching radius plus stroke width out on
    /// both axes.
    open spec fn viewbox_spec(&self, style: Style) -> ViewBox {
        pt_vb(self.0, point_rad(style))
    }

    open spec fn fragment_fits(&self, style: Style) -> bool {
        true
    }

    open spec fn viewbox_fits(&self, style: Style) -> bool {
        rad_fits(style) && pt_fits(self.0, point_rad(style))
    }

    fn to_svg_str(&self, style: &Style) -> (r: String) {
        let mut out = String::new();
        out.append("<circle cx=\"");
        push_dec_i64(&mut out, self.0.x);
        out.append("\" cy=\"");
        push_dec_i64(&mut out, self.0.y);
        out.append("\" r=\"");
        push_dec_i64(&mut out, style.radius);
        out.append("\"");
        let attrs = style.to_string();
        out.append(attrs.as_str());
        out.append("/>");
        proof {
            assert(out@ =~= circle_fragment(self.0, *style));
        }
        out
    }

    fn viewbox(&self, style: &Style) -> (r: ViewBox) {
        let sw: i64 = match style.stroke_width {
            Some(w) => w,
            None => 1,
        };
        let rad = style.radius + sw;
        ViewBox::new(self.0.x - rad, self.0.y - rad, self.0.x + rad, self.0.y + rad)
    }
}

impl ToSvgStr for Coord {
    /// A bare coordinate renders as the point at the same position.
    open spec fn fragment_spec(&self, style: Style) -> Seq<char> {
        circle_fragment(*self, style)
    }

    open spec fn viewbox_spec(&self, style: Style) -> ViewBox {
        pt_vb(*self, point_rad(style))
    }

    open spec fn fragment_fits(&self, style: Style) -> bool {
        true
    }

    open spec fn viewbox_fits(&self, style: Style) -> bool {
        rad_fits(style) && pt_fits(*self, point_rad(style))
    }

    fn to_svg_str(&self, style: &Style) -> (r: String) {
        Point(*self).to_svg_str(style)
    }

    fn viewbox(&self, style: &Style) -> (r: ViewBox) {
        Point(*self).viewbox(style)
    }
}

impl ToSvgStr for Line {
    /// A single path with one `M` and one `L` command.
    open spec fn fragment_spec(&self, style: Style) -> Seq<char> {
        line_fragment(self.start, self.end, style)
    }

    /// The union of both endpoints' boxes with the point radius forced to
    /// zero: only a set stroke width inflates a line.
    open spec fn viewbox_spec(&self, style: Style) -> ViewBox {
        line_vb(self.start, self.end, style)
    }

    open spec fn fragment_fits(&self, style: Style) -> bool {
        true
    }

    open spec fn viewbox_fits(&self, style: Style) -> bool {
        pt_fits(self.start, seg_stroke_w(style)) && pt_fits(self.end, seg_stroke_w(style))
    }

    fn to_svg_str(&self, style: &Style) -> (r: String) {
        let mut out = String::new();
        out.append("<path d=\"");
        out.append("M ");
        push_dec_i64(&mut out, self.start.x);
        out.append(" ");
        push_dec_i64(&mut out, self.start.y);
        out.append(" L ");
        push_dec_i64(&mut out, self.end.x);
        out.append(" ");
        push_dec_i64(&mut out, self.end.y);
        out.append("\"");
        let attrs = style.to_string();
        out.append(attrs.as_str());
        out.append("/>");
        proof {
            reveal_with_fuel(path_cmds, 3);
            let two = seq![self.start, self.end];
            assert(two.drop_last() =~= seq![self.start]);
            assert(two.last() == self.end);
            assert(two[0] == self.start);
            assert(out@ =~= line_fragment(self.start, self.end, *style));
        }
        out
    }

    fn viewbox(&self, style: &Style) -> (r: ViewBox) {
        let sw: i64 = match style.stroke_width {
            Some(w) => w,
            None => 0,
        };
        let a = ViewBox::new(
            self.start.x - sw,
            self.start.y - sw,
            self.start.x + sw,
            self.start.y + sw,
        );
        let b = ViewBox::new(self.end.x - sw, self.end.y - sw, self.end.x + sw, self.end.y + sw);
        a.add(&b)
    }
}

impl ToSvgStr for LineString {
    /// One path element with one `M` and sequential `L` commands; fewer than
    /// two points render to nothing.
    open spec fn fragment_spec(&self, style: Style) -> Seq<char> {
        linestring_fragment(self@, style)
    }

    /// The union of the boxes of the consecutive segments.
    open spec fn viewbox_spec(&self, style: Style) -> ViewBox {
        segs_vb(self@, style)
    }

    open spec fn fragment_fits(&self, style: Style) -> bool {
        true
    }

    open spec fn viewbox_fits(&self, style: Style) -> bool {
        segs_fits(self@, style)
    }

    fn to_svg_str(&self, style: &Style) -> (r: String) {
        let mut out = String::new();
        if self.0.len() < 2 {
            proof {
                assert(out@ =~= linestring_fragment(self@, *style));
            }
            return out;
        }
        out.append("<path d=\"");
        push_path_cmds(&mut out, &self.0);
        out.append("\"");
        let attrs = style.to_string();
        out.append(attrs.as_str());
        out.append("/>");
        proof {
            assert(out@ =~= linestring_fragment(self@, *style));
        }
        out
    }

    fn viewbox(&self, style: &Style) -> (r: ViewBox) {
        segs_viewbox(&self.0, style)
    }
}


/// The closed sub-path of one ring: its path commands, then a close marker.
/// An empty ring contributes nothing.
pub open spec fn ring_path(pts: Seq<Coord>) -> Seq<char> {
    if pts.len() == 0 {
        Seq::empty()
    } else {
        path_cmds(pts) + " Z "@
    }
}

/// The concatenated closed sub-paths of a sequence of rings, in order.
pub open spec fn rings_path(rs: Seq<Seq<Coord>>) -> Seq<char>
    decreases rs,
{
    if rs.len() == 0 {
        Seq::empty()
    } else {
        rings_path(rs.drop_last()) + ring_path(rs.last())
    }
}

/// The single path element a polygon renders to: the exterior ring followed
/// by each interior ring as closed sub-paths, under the even-odd fill rule so
/// interior rings render as holes.
pub open spec fn polygon_fragment(p: PolygonV, s: Style) -> Seq<char> {
    "<path fill-rule=\"evenodd\" d=\""@ + rings_path(seq![p.exterior] + p.interiors) + "\""@
        + style_str(s) + "/>"@
}

/// Every segment of every ring fits.
pub open spec fn rings_fits(rs: Seq<Seq<Coord>>, s: Style) -> bool {
    forall|i: int| 0 <= i < rs.len() ==> segs_fits(#[trigger] rs[i], s)
}

/// Every segment of a polygon's rings fits.
pub open spec fn polygon_vb_fits(p: PolygonV, s: Style) -> bool {
    segs_fits(p.exterior, s) && rings_fits(p.interiors, s)
}

/// The union of the segment boxes of a sequence of rings, folded in order.
pub open spec fn rings_vb(rs: Seq<Seq<Coord>>, s: Style) -> ViewBox
    decreases rs,
{
    if rs.len() == 0 {
        vb_empty()
    } else {
        vb_union(rings_vb(rs.drop_last(), s), segs_vb(rs.last(), s))
    }
}

/// The union of the segment boxes of every ring of a polygon.
pub open spec fn polygon_vb(p: PolygonV, s: Style) -> ViewBox {
    rings_vb(seq![p.exterior] + p.interiors, s)
}

/// The polygon a rectangle converts to, as a view.
pub open spec fn rect_pv(r: Rect) -> PolygonV {
    PolygonV { exterior: rect_ring(r), interiors: Seq::empty() }
}

/// The polygon a triangle converts to, as a view.
pub open spec fn tri_pv(t: Triangle) -> PolygonV {
    PolygonV { exterior: tri_ring(t), interiors: Seq::empty() }
}

fn push_ring(out: &mut String, ring: &LineString)
    ensures
        final(out)@ == old(out)@ + ring_path(ring@),
{
    if ring.0.len() == 0 {
        proof {
            assert(out@ =~= old(out)@ + ring_path(ring@));
        }
        return ;
    }
    push_path_cmds(out, &ring.0);
    out.append(" Z ");
    proof {
        assert(out@ =~= old(out)@ + ring_path(ring@));
    }
}

impl ToSvgStr for Polygon {
    /// One path element holding the exterior ring and every interior ring as
    /// closed sub-paths, with the even-odd fill rule.
    open spec fn fragment_spec(&self, style: Style) -> Seq<char> {
        polygon_fragment(self@, style)
    }

    /// The union of every ring's segment boxes.
    open spec fn viewbox_spec(&self, style: Style) -> ViewBox {
        polygon_vb(self@, style)
    }

    open spec fn fragment_fits(&self, style: Style) -> bool {
        true
    }

    open spec fn viewbox_fits(&self, style: Style) -> bool {
        polygon_vb_fits(self@, style)
    }

    #[verifier::loop_isolation(false)]
    fn to_svg_str(&self, style: &Style) -> (r: String) {
        let ghost all_rings = seq![self@.exterior] + self@.interiors;
        let mut out = String::new();
        out.append("<path fill-rule=\"evenodd\" d=\"");
        let ghost head = out@;
        push_ring(&mut out, &self.exterior);
        proof {
            reveal_with_fuel(rings_path, 2);
            assert(all_rings.take(1).drop_last() =~= Seq::<Seq<Coord>>::empty());
            assert(all_rings.take(1).last() == self@.exterior);
            assert(out@ =~= head + rings_path(all_rings.take(1)));
        }
        let mut i: usize = 0;
        while i < self.interiors.len()
            invariant
                i <= self.interiors@.len(),
                out@ == head + rings_path(all_rings.take(1 + i as int)),
            decreases self.interiors@.len() - i,
        {
            push_ring(&mut out, &self.interiors[i]);
            proof {
                let t = all_rings.take(2 + i as int);
                assert(t.drop_last() =~= all_rings.take(1 + i as int));
                assert(t.last() == self@.interiors[i as int]);
                assert(self@.interiors[i as int] == self.interiors@[i as int]@);
                assert(out@ =~= head + rings_path(t));
            }
            i += 1;
        }
        proof {
            assert(all_rings.take(all_rings.len() as int) =~= all_rings);
        }
        out.append("\"");
        let attrs = style.to_string();
        out.append(attrs.as_str());
        out.append("/>");
        proof {
            assert(out@ =~= polygon_fragment(self@, *style));
        }
        out
    }

    #[verifier::loop_isolation(false)]
    fn viewbox(&self, style: &Style) -> (r: ViewBox) {
        let ghost all_rings = seq![self@.exterior] + self@.interiors;
        let mut vb = ViewBox::default();
        let ext_vb = segs_viewbox(&self.exterior.0, style);
        vb = vb.add(&ext_vb);
        proof {
            reveal_with_fuel(rings_vb, 2);
            assert(all_rings.take(1).drop_last() =~= Seq::<Seq<Coord>>::empty());
            assert(all_rings.take(1).last() == self@.exterior);
            assert(vb == rings_vb(all_rings.take(1), *style));
        }
        let mut i: usize = 0;
        while i < self.interiors.len()
            invariant
                i <= self.interiors@.len(),
                vb == rings_vb(all_rings.take(1 + i as int), *style),
            decreases self.interiors@.len() - i,
        {
            proof {
                assert(self@.interiors[i as int] == self.interiors@[i as int]@);
                assert(segs_fits(self.interiors@[i as int]@, *style));
            }
            let ring_vb = segs_viewbox(&self.interiors[i].0, style);
            vb = vb.add(&ring_vb);
            proof {
                let t = all_rings.take(2 + i as int);
                assert(t.drop_last() =~= all_rings.take(1 + i as int));
                assert(t.last() == self@.interiors[i as int]);
            }
            i += 1;
        }
        proof {
            assert(all_rings.take(all_rings.len() as int) =~= all_rings);
        }
        vb
    }
}

impl ToSvgStr for Rect {
    /// A rectangle renders as its four-corner polygon.
    open spec fn fragment_spec(&self, style: Style) -> Seq<char> {
        polygon_fragment(rect_pv(*self), style)
    }

    open spec fn viewbox_spec(&self, style: Style) -> ViewBox {
        polygon_vb(rect_pv(*self), style)
    }

    open spec fn fragment_fits(&self, style: Style) -> bool {
        true
    }

    open spec fn viewbox_fits(&self, style: Style) -> bool {
        polygon_vb_fits(rect_pv(*self), style)
    }

    fn to_svg_str(&self, style: &Style) -> (r: String) {
        let p = self.to_polygon();
        proof {
            assert(p@ =~= rect_pv(*self));
        }
        p.to_svg_str(style)
    }

    fn viewbox(&self, style: &Style) -> (r: ViewBox) {
        let p = self.to_polygon();
        proof {
            assert(p@ =~= rect_pv(*self));
        }
        p.viewbox(style)
    }
}

impl ToSvgStr for Triangle {
    /// A triangle renders as its three-vertex polygon.
    open spec fn fragment_spec(&self, style: Style) -> Seq<char> {
        polygon_fragment(tri_pv(*self), style)
    }

    open spec fn viewbox_spec(&self, style: Style) -> ViewBox {
        polygon_vb(tri_pv(*self), style)
    }

    open spec fn fragment_fits(&self, style: Style) -> bool {
        true
    }

    open spec fn viewbox_fits(&self, style: Style) -> bool {
        polygon_vb_fits(tri_pv(*self), style)
    }

    fn to_svg_str(&self, style: &Style) -> (r: String) {
        let p = self.to_polygon();
        proof {
            assert(p@ =~= tri_pv(*self));
        }
        p.to_svg_str(style)
    }

    fn viewbox(&self, style: &Style) -> (r: ViewBox) {
        let p = self.to_polygon();
        proof {
            assert(p@ =~= tri_pv(*self));
        }
        p.viewbox(style)
    }
}


/// The concatenated circle fragments of a sequence of points, in order.
pub open spec fn points_fragment(ps: Seq<Point>, s: Style) -> Seq<char>
    decreases ps,
{
    if ps.len() == 0 {
        Seq::empty()
    } else {
        points_fragment(ps.drop_last(), s) + circle_fragment(ps.last().0, s)
    }
}

/// The union of the point boxes of a sequence of points, folded in order.
pub open spec fn points_vb(ps: Seq<Point>, s: Style) -> ViewBox
    decreases ps,
{
    if ps.len() == 0 {
        vb_empty()
    } else {
        vb_union(points_vb(ps.drop_last(), s), pt_vb(ps.last().0, point_rad(s)))
    }
}

/// Every point box of the sequence fits.
pub open spec fn points_fits(ps: Seq<Point>, s: Style) -> bool {
    rad_fits(s) && (forall|i: int|
        0 <= i < ps.len() ==> pt_fits((#[trigger] ps[i]).0, point_rad(s)))
}

/// The concatenated path fragments of a sequence of line strings, in order.
pub open spec fn linestrings_fragment(ls: Seq<Seq<Coord>>, s: Style) -> Seq<char>
    decreases ls,
{
    if ls.len() == 0 {
        Seq::empty()
    } else {
        linestrings_fragment(ls.drop_last(), s) + linestring_fragment(ls.last(), s)
    }
}

/// The concatenated polygon fragments of a sequence of polygons, in order.
pub open spec fn polygons_fragment(ps: Seq<PolygonV>, s: Style) -> Seq<char>
    decreases ps,
{
    if ps.len() == 0 {
        Seq::empty()
    } else {
        polygons_fragment(ps.drop_last(), s) + polygon_fragment(ps.last(), s)
    }
}

/// The union of the polygon boxes of a sequence of polygons, folded in order.
pub open spec fn polygons_vb(ps: Seq<PolygonV>, s: Style) -> ViewBox
    decreases ps,
{
    if ps.len() == 0 {
        vb_empty()
    } else {
        vb_union(polygons_vb(ps.drop_last(), s), polygon_vb(ps.last(), s))
    }
}

/// Every ring of every polygon of the sequence fits.
pub open spec fn polygons_fits(ps: Seq<PolygonV>, s: Style) -> bool {
    forall|i: int| 0 <= i < ps.len() ==> polygon_vb_fits(#[trigger] ps[i], s)
}

/// The fragment a geometry renders to, by variant.
pub open spec fn geometry_fragment(g: GeometryV, s: Style) -> Seq<char>
    decreases g,
{
    match g {
        GeometryV::Point(p) => circle_fragment(p.0, s),
        GeometryV::Line(l) => line_fragment(l.start, l.end, s),
        GeometryV::LineString(pts) => linestring_fragment(pts, s),
        GeometryV::Polygon(p) => polygon_fragment(p, s),
        GeometryV::Rect(r) => polygon_fragment(rect_pv(r), s),
        GeometryV::Triangle(t) => polygon_fragment(tri_pv(t), s),
        GeometryV::MultiPoint(ps) => points_fragment(ps, s),
        GeometryV::MultiLineString(ls) => linestrings_fragment(ls, s),
        GeometryV::MultiPolygon(ps) => polygons_fragment(ps, s),
        GeometryV::GeometryCollection(gs) => geoms_fragment(gs, s),
    }
}

/// The concatenated fragments of a sequence of geometries, in order.
pub open spec fn geoms_fragment(gs: Seq<GeometryV>, s: Style) -> Seq<char>
    decreases gs,
{
    if gs.len() == 0 {
        Seq::empty()
    } else {
        geoms_fragment(gs.drop_last(), s) + geometry_fragment(gs.last(), s)
    }
}

/// The bounding viewbox a geometry computes, by variant.
pub open spec fn geometry_vb(g: GeometryV, s: Style) -> ViewBox
    decreases g,
{
    match g {
        GeometryV::Point(p) => pt_vb(p.0, point_rad(s)),
        GeometryV::Line(l) => line_vb(l.start, l.end, s),
        GeometryV::LineString(pts) => segs_vb(pts, s),
        GeometryV::Polygon(p) => polygon_vb(p, s),
        GeometryV::Rect(r) => polygon_vb(rect_pv(r), s),
        GeometryV::Triangle(t) => polygon_vb(tri_pv(t), s),
        GeometryV::MultiPoint(ps) => points_vb(ps, s),
        GeometryV::MultiLineString(ls) => rings_vb(ls, s),
        GeometryV::MultiPolygon(ps) => polygons_vb(ps, s),
        GeometryV::GeometryCollection(gs) => geoms_vb(gs, s),
    }
}

/// The union of the viewboxes of a sequence of geometries, folded in order.
pub open spec fn geoms_vb(gs: Seq<GeometryV>, s: Style) -> ViewBox
    decreases gs,
{
    if gs.len() == 0 {
        vb_empty()
    } else {
        vb_union(geoms_vb(gs.drop_last(), s), geometry_vb(gs.last(), s))
    }
}

/// Every bound a geometry's viewbox computation derives fits.
pub open spec fn geometry_vb_fits(g: GeometryV, s: Style) -> bool
    decreases g,
{
    match g {
        GeometryV::Point(p) => rad_fits(s) && pt_fits(p.0, point_rad(s)),
        GeometryV::Line(l) => pt_fits(l.start, seg_stroke_w(s)) && pt_fits(l.end, seg_stroke_w(s)),
        GeometryV::LineString(pts) => segs_fits(pts, s),
        GeometryV::Polygon(p) => polygon_vb_fits(p, s),
        GeometryV::Rect(r) => polygon_vb_fits(rect_pv(r), s),
        GeometryV::Triangle(t) => polygon_vb_fits(tri_pv(t), s),
        GeometryV::MultiPoint(ps) => points_fits(ps, s),
        GeometryV::MultiLineString(ls) => rings_fits(ls, s),
        GeometryV::MultiPolygon(ps) => polygons_fits(ps, s),
        GeometryV::GeometryCollection(gs) => geoms_vb_fits(gs, s),
    }
}

/// Every geometry of the sequence fits.
pub open spec fn geoms_vb_fits(gs: Seq<GeometryV>, s: Style) -> bool
    decreases gs,
{
    gs.len() == 0 || (geoms_vb_fits(gs.drop_last(), s) && geometry_vb_fits(gs.last(), s))
}

/// A sequence that fits has each of its geometries fit.
pub proof fn lemma_geoms_vb_fits_index(gs: Seq<GeometryV>, s: Style, i: int)
    requires
        geoms_vb_fits(gs, s),
        0 <= i < gs.len(),
    ensures
        geometry_vb_fits(gs[i], s),
    decreases gs,
{
    if i == gs.len() - 1 {
        assert(gs.last() == gs[i]);
    } else {
        lemma_geoms_vb_fits_index(gs.drop_last(), s, i);
        assert(gs.drop_last()[i] == gs[i]);
    }
}

impl ToSvgStr for MultiPoint {
    /// The concatenation of each point's circle fragment, in order.
    open spec fn fragment_spec(&self, style: Style) -> Seq<char> {
        points_fragment(self@, style)
    }

    /// The ordered fold of each point's box from the empty viewbox.
    open spec fn viewbox_spec(&self, style: Style) -> ViewBox {
        points_vb(self@, style)
    }

    open spec fn fragment_fits(&self, style: Style) -> bool {
        true
    }

    open spec fn viewbox_fits(&self, style: Style) -> bool {
        points_fits(self@, style)
    }

    #[verifier::loop_isolation(false)]
    fn to_svg_str(&self, style: &Style) -> (r: String) {
        let mut out = String::new();
        let mut i: usize = 0;
        while i < self.0.len()
            invariant
                i <= self.0@.len(),
                out@ == points_fragment(self@.take(i as int), *style),
            decreases self.0@.len() - i,
        {
            let frag = self.0[i].to_svg_str(style);
            out.append(frag.as_str());
            proof {
                assert(self@.take(i as int + 1).drop_last() =~= self@.take(i as int));
                assert(self@.take(i as int + 1).last() == self@[i as int]);
            }
            i += 1;
        }
        proof {
            assert(self@.take(self@.len() as int) =~= self@);
        }
        out
    }

    #[verifier::loop_isolation(false)]
    fn viewbox(&self, style: &Style) -> (r: ViewBox) {
        let mut vb = ViewBox::default();
        let mut i: usize = 0;
        while i < self.0.len()
            invariant
                i <= self.0@.len(),
                vb == points_vb(self@.take(i as int), *style),
            decreases self.0@.len() - i,
        {
            let pvb = self.0[i].viewbox(style);
            vb = vb.add(&pvb);
            proof {
                assert(self@.take(i as int + 1).drop_last() =~= self@.take(i as int));
                assert(self@.take(i as int + 1).last() == self@[i as int]);
            }
            i += 1;
        }
        proof {
            assert(self@.take(self@.len() as int) =~= self@);
        }
        vb
    }
}

impl ToSvgStr for MultiLineString {
    /// The concatenation of each line string's fragment, in order.
    open spec fn fragment_spec(&self, style: Style) -> Seq<char> {
        linestrings_fragment(self@, style)
    }

    /// The ordered fold of each line string's segment boxes.
    open spec fn viewbox_spec(&self, style: Style) -> ViewBox {
        rings_vb(self@, style)
    }

    open spec fn fragment_fits(&self, style: Style) -> bool {
        true
    }

    open spec fn viewbox_fits(&self, style: Style) -> bool {
        rings_fits(self@, style)
    }

    #[verifier::loop_isolation(false)]
    fn to_svg_str(&self, style: &Style) -> (r: String) {
        let mut out = String::new();
        let mut i: usize = 0;
        while i < self.0.len()
            invariant
                i <= self.0@.len(),
                out@ == linestrings_fragment(self@.take(i as int), *style),
            decreases self.0@.len() - i,
        {
            let frag = self.0[i].to_svg_str(style);
            out.append(frag.as_str());
            proof {
                assert(self@.take(i as int + 1).drop_last() =~= self@.take(i as int));
                assert(self@.take(i as int + 1).last() == self@[i as int]);
                assert(self@[i as int] == self.0@[i as int]@);
            }
            i += 1;
        }
        proof {
            assert(self@.take(self@.len() as int) =~= self@);
        }
        out
    }

    #[verifier::loop_isolation(false)]
    fn viewbox(&self, style: &Style) -> (r: ViewBox) {
        let mut vb = ViewBox::default();
        let mut i: usize = 0;
        while i < self.0.len()
            invariant
                i <= self.0@.len(),
                vb == rings_vb(self@.take(i as int), *style),
            decreases self.0@.len() - i,
        {
            proof {
                assert(self@[i as int] == self.0@[i as int]@);
            }
            let lvb = self.0[i].viewbox(style);
            vb = vb.add(&lvb);
            proof {
                assert(self@.take(i as int + 1).drop_last() =~= self@.take(i as int));
                assert(self@.take(i as int + 1).last() == self@[i as int]);
            }
            i += 1;
        }
        proof {
            assert(self@.take(self@.len() as int) =~= self@);
        }
        vb
    }
}

impl ToSvgStr for MultiPolygon {
    /// The concatenation of each polygon's fragment, in order.
    open spec fn fragment_spec(&self, style: Style) -> Seq<char> {
        polygons_fragment(self@, style)
    }

    /// The ordered fold of each polygon's viewbox.
    open spec fn viewbox_spec(&self, style: Style) -> ViewBox {
        polygons_vb(self@, style)
    }

    open spec fn fragment_fits(&self, style: Style) -> bool {
        true
    }

    open spec fn viewbox_fits(&self, style: Style) -> bool {
        polygons_fits(self@, style)
    }

    #[verifier::loop_isolation(false)]
    fn to_svg_str(&self, style: &Style) -> (r: String) {
        let mut out = String::new();
        let mut i: usize = 0;
        while i < self.0.len()
            invariant
                i <= self.0@.len(),
                out@ == polygons_fragment(self@.take(i as int), *style),
            decreases self.0@.len() - i,
        {
            let frag = self.0[i].to_svg_str(style);
            out.append(frag.as_str());
            proof {
                assert(self@.take(i as int + 1).drop_last() =~= self@.take(i as int));
                assert(self@.take(i as int + 1).last() == self@[i as int]);
                assert(self@[i as int] == self.0@[i as int]@);
            }
            i += 1;
        }
        proof {
            assert(self@.take(self@.len() as int) =~= self@);
        }
        out
    }

    #[verifier::loop_isolation(false)]
    fn viewbox(&self, style: &Style) -> (r: ViewBox) {
        let mut vb = ViewBox::default();
        let mut i: usize = 0;
        while i < self.0.len()
            invariant
                i <= self.0@.len(),
                vb == polygons_vb(self@.take(i as int), *style),
            decreases self.0@.len() - i,
        {
            proof {
                assert(self@[i as int] == self.0@[i as int]@);
            }
            let pvb = self.0[i].viewbox(style);
            vb = vb.add(&pvb);
            proof {
                assert(self@.take(i as int + 1).drop_last() =~= self@.take(i as int));
                assert(self@.take(i as int + 1).last() == self@[i as int]);
            }
            i += 1;
        }
        proof {
            assert(self@.take(self@.len() as int) =~= self@);
        }
        vb
    }
}

impl ToSvgStr for GeometryCollection {
    /// The concatenation of each child geometry's fragment, in order.
    open spec fn fragment_spec(&self, style: Style) -> Seq<char> {
        geoms_fragment(self@, style)
    }

    /// The ordered fold of each child geometry's viewbox from the empty
    /// viewbox.
    open spec fn viewbox_spec(&self, style: Style) -> ViewBox {
        geoms_vb(self@, style)
    }

    open spec fn fragment_fits(&self, style: Style) -> bool {
        true
    }

    open spec fn viewbox_fits(&self, style: Style) -> bool {
        geoms_vb_fits(self@, style)
    }

    #[verifier::loop_isolation(false)]
    fn to_svg_str(&self, style: &Style) -> (r: String)
        decreases *self,
    {
        proof {
            lemma_geometry_views(self.0@);
        }
        let mut out = String::new();
        let mut i: usize = 0;
        while i < self.0.len()
            invariant
                i <= self.0@.len(),
                out@ == geoms_fragment(self@.take(i as int), *style),
            decreases self.0@.len() - i,
        {
            proof {
                assert(decreases_to!(*self => self.0));
                assert(decreases_to!(self.0 => self.0@[i as int]));
                assert(decreases_to!(*self => self.0@[i as int]));
            }
            let frag = self.0[i].to_svg_str(style);
            out.append(frag.as_str());
            proof {
                assert(self@.take(i as int + 1).drop_last() =~= self@.take(i as int));
                assert(self@.take(i as int + 1).last() == self@[i as int]);
                assert(self@[i as int] == self.0@[i as int]@);
            }
            i += 1;
        }
        proof {
            assert(self@.take(self@.len() as int) =~= self@);
        }
        out
    }

    #[verifier::loop_isolation(false)]
    fn viewbox(&self, style: &Style) -> (r: ViewBox)
        decreases *self,
    {
        proof {
            lemma_geometry_views(self.0@);
        }
        let mut vb = ViewBox::default();
        let mut i: usize = 0;
        while i < self.0.len()
            invariant
                i <= self.0@.len(),
                vb == geoms_vb(self@.take(i as int), *style),
            decreases self.0@.len() - i,
        {
            proof {
                assert(decreases_to!(*self => self.0));
                assert(decreases_to!(self.0 => self.0@[i as int]));
                assert(decreases_to!(*self => self.0@[i as int]));
                lemma_geoms_vb_fits_index(self@, *style, i as int);
                assert(self@[i as int] == self.0@[i as int]@);
            }
            let gvb = self.0[i].viewbox(style);
            vb = vb.add(&gvb);
            proof {
                assert(self@.take(i as int + 1).drop_last() =~= self@.take(i as int));
                assert(self@.take(i as int + 1).last() == self@[i as int]);
            }
            i += 1;
        }
        proof {
            assert(self@.take(self@.len() as int) =~= self@);
        }
        vb
    }
}

impl ToSvgStr for Geometry {
    /// The fragment of the wrapped variant.
    open spec fn fragment_spec(&self, style: Style) -> Seq<char> {
        geometry_fragment(self@, style)
    }

    /// The viewbox of the wrapped variant.
    open spec fn viewbox_spec(&self, style: Style) -> ViewBox {
        geometry_vb(self@, style)
    }

    open spec fn fragment_fits(&self, style: Style) -> bool {
        true
    }

    open spec fn viewbox_fits(&self, style: Style) -> bool {
        geometry_vb_fits(self@, style)
    }

    fn to_svg_str(&self, style: &Style) -> (r: String)
        decreases *self,
    {
        match self {
            Geometry::Point(p) => p.to_svg_str(style),
            Geometry::Line(l) => l.to_svg_str(style),
            Geometry::LineString(ls) => ls.to_svg_str(style),
            Geometry::Polygon(p) => p.to_svg_str(style),
            Geometry::Rect(rc) => rc.to_svg_str(style),
            Geometry::Triangle(t) => t.to_svg_str(style),
            Geometry::MultiPoint(mp) => mp.to_svg_str(style),
            Geometry::MultiLineString(mls) => mls.to_svg_str(style),
            Geometry::MultiPolygon(mp) => mp.to_svg_str(style),
            Geometry::GeometryCollection(gc) => {
                proof {
                    assert(decreases_to!(*self => self->GeometryCollection_0));
                }
                gc.to_svg_str(style)
            },
        }
    }

    fn viewbox(&self, style: &Style) -> (r: ViewBox)
        decreases *self,
    {
        match self {
            Geometry::Point(p) => p.viewbox(style),
            Geometry::Line(l) => l.viewbox(style),
            Geometry::LineString(ls) => ls.viewbox(style),
            Geometry::Polygon(p) => p.viewbox(style),
            Geometry::Rect(rc) => rc.viewbox(style),
            Geometry::Triangle(t) => t.viewbox(style),
            Geometry::MultiPoint(mp) => mp.viewbox(style),
            Geometry::MultiLineString(mls) => mls.viewbox(style),
            Geometry::MultiPolygon(mp) => mp.viewbox(style),
            Geometry::GeometryCollection(gc) => {
                proof {
                    assert(decreases_to!(*self => self->GeometryCollection_0));
                }
                gc.viewbox(style)
            },
        }
    }
}


/// The concatenated fragments of a sequence of renderable values, in order.
pub open spec fn seq_fragment<T: ToSvgStr>(els: Seq<T>, s: Style) -> Seq<char>
    decreases els,
{
    if els.len() == 0 {
        Seq::empty()
    } else {
        seq_fragment(els.drop_last(), s) + els.last().fragment_spec(s)
    }
}

/// The union of the viewboxes of a sequence of renderable values, folded in
/// order from the empty viewbox.
pub open spec fn seq_vb<T: ToSvgStr>(els: Seq<T>, s: Style) -> ViewBox
    decreases els,
{
    if els.len() == 0 {
        vb_empty()
    } else {
        vb_union(seq_vb(els.drop_last(), s), els.last().viewbox_spec(s))
    }
}

/// Every fragment of the sequence fits.
pub open spec fn seq_frag_fits<T: ToSvgStr>(els: Seq<T>, s: Style) -> bool
    decreases els,
{
    els.len() == 0 || (seq_frag_fits(els.drop_last(), s) && els.last().fragment_fits(s))
}

/// Every viewbox of the sequence fits.
pub open spec fn seq_vb_fits<T: ToSvgStr>(els: Seq<T>, s: Style) -> bool
    decreases els,
{
    els.len() == 0 || (seq_vb_fits(els.drop_last(), s) && els.last().viewbox_fits(s))
}

/// A sequence whose fragments fit has each element's fragment fit.
pub proof fn lemma_seq_frag_fits_index<T: ToSvgStr>(els: Seq<T>, s: Style, i: int)
    requires
        seq_frag_fits(els, s),
        0 <= i < els.len(),
    ensures
        els[i].fragment_fits(s),
    decreases els,
{
    if i == els.len() - 1 {
        assert(els.last() == els[i]);
    } else {
        lemma_seq_frag_fits_index(els.drop_last(), s, i);
        assert(els.drop_last()[i] == els[i]);
    }
}

/// A sequence whose viewboxes fit has each element's viewbox fit.
pub proof fn lemma_seq_vb_fits_index<T: ToSvgStr>(els: Seq<T>, s: Style, i: int)
    requires
        seq_vb_fits(els, s),
        0 <= i < els.len(),
    ensures
        els[i].viewbox_fits(s),
    decreases els,
{
    if i == els.len() - 1 {
        assert(els.last() == els[i]);
    } else {
        lemma_seq_vb_fits_index(els.drop_last(), s, i);
        assert(els.drop_last()[i] == els[i]);
    }
}

impl<T: ToSvgStr> ToSvgStr for Vec<T> {
    /// The concatenation of each element's fragment, in order.
    open spec fn fragment_spec(&self, style: Style) -> Seq<char> {
        seq_fragment(self@, style)
    }

    /// The ordered fold of each element's viewbox from the empty viewbox.
    open spec fn viewbox_spec(&self, style: Style) -> ViewBox {
        seq_vb(self@, style)
    }

    open spec fn fragment_fits(&self, style: Style) -> bool {
        seq_frag_fits(self@, style)
    }

    open spec fn viewbox_fits(&self, style: Style) -> bool {
        seq_vb_fits(self@, style)
    }

    #[verifier::loop_isolation(false)]
    fn to_svg_str(&self, style: &Style) -> (r: String) {
        let mut out = String::new();
        let mut i: usize = 0;
        while i < self.len()
            invariant
                i <= self@.len(),
                out@ == seq_fragment(self@.take(i as int), *style),
            decreases self@.len() - i,
        {
            proof {
                lemma_seq_frag_fits_index(self@, *style, i as int);
            }
            let frag = self[i].to_svg_str(style);
            out.append(frag.as_str());
            proof {
                assert(self@.take(i as int + 1).drop_last() =~= self@.take(i as int));
                assert(self@.take(i as int + 1).last() == self@[i as int]);
            }
            i += 1;
        }
        proof {
            assert(self@.take(self@.len() as int) =~= self@);
        }
        out
    }

    #[verifier::loop_isolation(false)]
    fn viewbox(&self, style: &Style) -> (r: ViewBox) {
        let mut vb = ViewBox::default();
        let mut i: usize = 0;
        while i < self.len()
            invariant
                i <= self@.len(),
                vb == seq_vb(self@.take(i as int), *style),
            decreases self@.len() - i,
        {
            proof {
                lemma_seq_vb_fits_index(self@, *style, i as int);
            }
            let evb = self[i].viewbox(style);
            vb = vb.add(&evb);
            proof {
                assert(self@.take(i as int + 1).drop_last() =~= self@.take(i as int));
                assert(self@.take(i as int + 1).last() == self@[i as int]);
            }
            i += 1;
        }
        proof {
            assert(self@.take(self@.len() as int) =~= self@);
        }
        vb
    }
}


/// Law: a point's viewbox is a square. For every point and style, its width
/// and height both equal twice the sum of the point radius and the stroke
/// width (1 when unset), whenever that sum is nonnegative and the box's
/// bounds fit the coordinate type.
pub proof fn lemma_point_viewbox_square(p: Point, s: Style)
    requires
        rad_fits(s),
        pt_fits(p.0, point_rad(s)),
        point_rad(s) >= 0,
    ensures
        vb_width(p.viewbox_spec(s)) == 2 * point_rad(s),
        vb_height(p.viewbox_spec(s)) == 2 * point_rad(s),
{
}

/// Law: the fragment of a joined sequence of geometries splits at the join,
/// so a collection renders to the concatenation of its parts, in order.
pub proof fn lemma_geoms_fragment_append(a: Seq<GeometryV>, b: Seq<GeometryV>, s: Style)
    ensures
        geoms_fragment(a + b, s) == geoms_fragment(a, s) + geoms_fragment(b, s),
    decreases b,
{
    if b.len() == 0 {
        assert(a + b =~= a);
        assert(geoms_fragment(a, s) + geoms_fragment(b, s) =~= geoms_fragment(a, s));
    } else {
        lemma_geoms_fragment_append(a, b.drop_last(), s);
        assert((a + b).drop_last() =~= a + b.drop_last());
        assert((a + b).last() == b.last());
        assert(geoms_fragment(a, s) + (geoms_fragment(b.drop_last(), s) + geometry_fragment(
            b.last(),
            s,
        )) =~= (geoms_fragment(a, s) + geoms_fragment(b.drop_last(), s)) + geometry_fragment(
            b.last(),
            s,
        ));
    }
}

/// Law: a sequence of one geometry renders to exactly that geometry's own
/// fragment.
pub proof fn lemma_geoms_fragment_singleton(g: GeometryV, s: Style)
    ensures
        geoms_fragment(seq![g], s) == geometry_fragment(g, s),
{
    reveal_with_fuel(geoms_fragment, 2);
    assert(seq![g].drop_last() =~= Seq::<GeometryV>::empty());
    assert(geoms_fragment(seq![g], s) =~= geometry_fragment(g, s));
}

/// Law: rendering a collection of geometries produces the concatenation of
/// each geometry's individually rendered fragment, in order: around any
/// position, the collection's fragment is the fragments before it, then its
/// own fragment, then the fragments after it.
pub proof fn lemma_collection_fragment(gs: Seq<GeometryV>, s: Style, i: int)
    requires
        0 <= i < gs.len(),
    ensures
        geoms_fragment(gs, s) == geoms_fragment(gs.take(i), s) + geometry_fragment(gs[i], s)
            + geoms_fragment(gs.skip(i + 1), s),
{
    assert(gs =~= (gs.take(i) + seq![gs[i]]) + gs.skip(i + 1));
    lemma_geoms_fragment_append(gs.take(i) + seq![gs[i]], gs.skip(i + 1), s);
    lemma_geoms_fragment_append(gs.take(i), seq![gs[i]], s);
    lemma_geoms_fragment_singleton(gs[i], s);
    assert((geoms_fragment(gs.take(i), s) + geometry_fragment(gs[i], s)) + geoms_fragment(
        gs.skip(i + 1),
        s,
    ) =~= geoms_fragment(gs.take(i), s) + geometry_fragment(gs[i], s) + geoms_fragment(
        gs.skip(i + 1),
        s,
    ));
}


impl<'a, T: ToSvgStr> ToSvgStr for &'a [T] {
    /// The concatenation of each element's fragment, in order.
    open spec fn fragment_spec(&self, style: Style) -> Seq<char> {
        seq_fragment(self@, style)
    }

    /// The ordered fold of each element's viewbox from the empty viewbox.
    open spec fn viewbox_spec(&self, style: Style) -> ViewBox {
        seq_vb(self@, style)
    }

    open spec fn fragment_fits(&self, style: Style) -> bool {
        seq_frag_fits(self@, style)
    }

    open spec fn viewbox_fits(&self, style: Style) -> bool {
        seq_vb_fits(self@, style)
    }

    #[verifier::loop_isolation(false)]
    fn to_svg_str(&self, style: &Style) -> (r: String) {
        let mut out = String::new();
        let mut i: usize = 0;
        while i < self.len()
            invariant
                i <= self@.len(),
                out@ == seq_fragment(self@.take(i as int), *style),
            decreases self@.len() - i,
        {
            proof {
                lemma_seq_frag_fits_index(self@, *style, i as int);
            }
            let frag = self[i].to_svg_str(style);
            out.append(frag.as_str());
            proof {
                assert(self@.take(i as int + 1).drop_last() =~= self@.take(i as int));
                assert(self@.take(i as int + 1).last() == self@[i as int]);
            }
            i += 1;
        }
        proof {
            assert(self@.take(self@.len() as int) =~= self@);
        }
        out
    }

    #[verifier::loop_isolation(false)]
    fn viewbox(&self, style: &Style) -> (r: ViewBox) {
        let mut vb = ViewBox::default();
        let mut i: usize = 0;
        while i < self.len()
            invariant
                i <= self@.len(),
                vb == seq_vb(self@.take(i as int), *style),
            decreases self@.len() - i,
        {
            proof {
                lemma_seq_vb_fits_index(self@, *style, i as int);
            }
            let evb = self[i].viewbox(style);
            vb = vb.add(&evb);
            proof {
                assert(self@.take(i as int + 1).drop_last() =~= self@.take(i as int));
                assert(self@.take(i as int + 1).last() == self@[i as int]);
            }
            i += 1;
        }
        proof {
            assert(self@.take(self@.len() as int) =~= self@);
        }
        vb
    }
}

} // verus!





