//! Render geometric shapes (points, lines, polygons, and collections of them)
//! as SVG markup, computing a tight bounding viewport automatically.
//!
//! Coordinates and style values are integers; a shape is turned into an SVG
//! fragment together with a [`ViewBox`] that encloses it. Shapes can be
//! combined into a tree of [`Svg`] nodes whose style settings cascade to every
//! descendant at the moment they are set.

pub mod color;
pub mod geometry;
pub mod numfmt;
pub mod style;
pub mod svg;
pub mod svg_impl;
pub mod text;
pub mod to_svg;
pub mod to_svg_str;
pub mod viewbox;

pub use crate::color::Color;
pub use crate::geometry::{
    Coord, Geometry, GeometryCollection, Line, LineString, MultiLineString, MultiPoint,
    MultiPolygon, Point, Polygon, Rect, Triangle,
};
pub use crate::style::Style;
pub use crate::svg::Svg;
pub use crate::text::Text;
pub use crate::to_svg::ToSvg;
pub use crate::to_svg_str::ToSvgStr;
pub use crate::viewbox::ViewBox;
