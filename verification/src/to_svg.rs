//! The conversion entry point from a shape to a renderable tree.

use crate::geometry::{
    Coord, Geometry, GeometryCollection, GeometryV, Line, LineString, MultiLineString, MultiPoint,
    MultiPolygon, Point, Polygon, Rect, Triangle,
};
use crate::svg::{svg_from_geometry, svg_of, Svg};
use vstd::prelude::*;

verus! {

/// The conversion every shape offers: a renderable tree holding the shape as
/// its only item, with the empty seed viewbox and the default style.
pub trait ToSvg {
    /// The shape, as a geometry view.
    spec fn as_geometry(self) -> GeometryV;

    /// The renderable tree holding this shape as its only item.
    fn to_svg(self) -> (r: Svg)
        ensures
            r@ == svg_of(self.as_geometry()),
    ;
}

impl ToSvg for Point {
    open spec fn as_geometry(self) -> GeometryV {
        GeometryV::Point(self)
    }

    fn to_svg(self) -> (r: Svg) {
        svg_from_geometry(Geometry::Point(self))
    }
}

impl ToSvg for Coord {
    /// A bare coordinate converts as the point at the same position.
    open spec fn as_geometry(self) -> GeometryV {
        GeometryV::Point(Point(self))
    }

    fn to_svg(self) -> (r: Svg) {
        svg_from_geometry(Geometry::Point(Point(self)))
    }
}

impl ToSvg for Line {
    open spec fn as_geometry(self) -> GeometryV {
        GeometryV::Line(self)
    }

    fn to_svg(self) -> (r: Svg) {
        svg_from_geometry(Geometry::Line(self))
    }
}

impl ToSvg for LineString {
    open spec fn as_geometry(self) -> GeometryV {
        GeometryV::LineString(self@)
    }

    fn to_svg(self) -> (r: Svg) {
        svg_from_geometry(Geometry::LineString(self))
    }
}

impl ToSvg for Polygon {
    open spec fn as_geometry(self) -> GeometryV {
        GeometryV::Polygon(self@)
    }

    fn to_svg(self) -> (r: Svg) {
        svg_from_geometry(Geometry::Polygon(self))
    }
}

impl ToSvg for Rect {
    open spec fn as_geometry(self) -> GeometryV {
        GeometryV::Rect(self)
    }

    fn to_svg(self) -> (r: Svg) {
        svg_from_geometry(Geometry::Rect(self))
    }
}

impl ToSvg for Triangle {
    open spec fn as_geometry(self) -> GeometryV {
        GeometryV::Triangle(self)
    }

    fn to_svg(self) -> (r: Svg) {
        svg_from_geometry(Geometry::Triangle(self))
    }
}

impl ToSvg for MultiPoint {
    open spec fn as_geometry(self) -> GeometryV {
        GeometryV::MultiPoint(self@)
    }

    fn to_svg(self) -> (r: Svg) {
        svg_from_geometry(Geometry::MultiPoint(self))
    }
}

impl ToSvg for MultiLineString {
    open spec fn as_geometry(self) -> GeometryV {
        GeometryV::MultiLineString(self@)
    }

    fn to_svg(self) -> (r: Svg) {
        svg_from_geometry(Geometry::MultiLineString(self))
    }
}

impl ToSvg for MultiPolygon {
    open spec fn as_geometry(self) -> GeometryV {
        GeometryV::MultiPolygon(self@)
    }

    fn to_svg(self) -> (r: Svg) {
        svg_from_geometry(Geometry::MultiPolygon(self))
    }
}

impl ToSvg for GeometryCollection {
    open spec fn as_geometry(self) -> GeometryV {
        GeometryV::GeometryCollection(self@)
    }

    fn to_svg(self) -> (r: Svg) {
        svg_from_geometry(Geometry::GeometryCollection(self))
    }
}

impl ToSvg for Geometry {
    open spec fn as_geometry(self) -> GeometryV {
        self@
    }

    fn to_svg(self) -> (r: Svg) {
        svg_from_geometry(self)
    }
}

} // verus!
