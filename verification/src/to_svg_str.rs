//! The shape-rendering protocol.

use crate::style::Style;
use crate::viewbox::ViewBox;
use vstd::prelude::*;

verus! {

/// The capability every shape variant implements: given a style snapshot,
/// produce an SVG fragment string and a bounding viewbox.
pub trait ToSvgStr {
    /// The fragment the value renders to under `style`.
    spec fn fragment_spec(&self, style: Style) -> Seq<char>;

    /// The viewbox the value computes under `style`.
    spec fn viewbox_spec(&self, style: Style) -> ViewBox;

    /// When the fragment can be produced. This is a machine limit, never a
    /// rule of the format: it is `true` for every plain shape.
    spec fn fragment_fits(&self, style: Style) -> bool;

    /// When every bound that the viewbox computation derives stays within
    /// the coordinate type.
    spec fn viewbox_fits(&self, style: Style) -> bool;

    /// The SVG fragment of this value under `style`.
    fn to_svg_str(&self, style: &Style) -> (r: String)
        requires
            self.fragment_fits(*style),
        ensures
            r@ == self.fragment_spec(*style),
    ;

    /// The bounding viewbox of this value under `style`.
    fn viewbox(&self, style: &Style) -> (r: ViewBox)
        requires
            self.viewbox_fits(*style),
        ensures
            r == self.viewbox_spec(*style),
    ;
}

} // verus!
