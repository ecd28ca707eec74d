//! A simple text element, handy for labeling geometry.

use crate::geometry::Coord;
use crate::numfmt::{dec_str_int, push_dec_i64};
use crate::style::Style;
use crate::to_svg_str::ToSvgStr;
use crate::viewbox::{vb_empty, ViewBox};
use vstd::prelude::*;
use vstd::string::StringExecFns;

verus! {

/// A text label at a position, with a font size.
#[derive(Debug)]
pub struct Text {
    /// The text to show, embedded verbatim.
    pub text: String,
    /// The rough coordinates of the text.
    pub position: Coord,
    /// The font size of the text.
    pub font_size: i64,
}

/// The text element a label renders to.
pub open spec fn text_fragment(text: Seq<char>, pos: Coord, font_size: int) -> Seq<char> {
    "<text font-size=\""@ + dec_str_int(font_size) + "\" x=\""@ + dec_str_int(pos.x as int)
        + "\" y=\""@ + dec_str_int(pos.y as int) + "\">"@ + text + "</text>"@
}

impl Text {
    /// A label at `position` with the default font size of 10.
    pub fn new(text: String, position: Coord) -> (r: Self)
        ensures
            r.text@ == text@,
            r.position == position,
            r.font_size == 10,
    {
        Self { text, position, font_size: 10 }
    }

    /// The same label with the font size replaced.
    pub fn with_font_size(self, font_size: i64) -> (r: Self)
        ensures
            r.text@ == self.text@,
            r.position == self.position,
            r.font_size == font_size,
    {
        Self { font_size, ..self }
    }
}

impl ToSvgStr for Text {
    /// The text element; the style is not consulted.
    open spec fn fragment_spec(&self, style: Style) -> Seq<char> {
        text_fragment(self.text@, self.position, self.font_size as int)
    }

    /// Text claims no extent: font metrics are out of scope, so its bounding
    /// box is left unbounded rather than guessed.
    open spec fn viewbox_spec(&self, style: Style) -> ViewBox {
        vb_empty()
    }

    open spec fn fragment_fits(&self, style: Style) -> bool {
        true
    }

    open spec fn viewbox_fits(&self, style: Style) -> bool {
        true
    }

    fn to_svg_str(&self, style: &Style) -> (r: String) {
        let mut out = String::new();
        out.append("<text font-size=\"");
        push_dec_i64(&mut out, self.font_size);
        out.append("\" x=\"");
        push_dec_i64(&mut out, self.position.x);
        out.append("\" y=\"");
        push_dec_i64(&mut out, self.position.y);
        out.append("\">");
        out.append(self.text.as_str());
        out.append("</text>");
        proof {
            assert(out@ =~= text_fragment(self.text@, self.position, self.font_size as int));
        }
        out
    }

    fn viewbox(&self, style: &Style) -> (r: ViewBox) {
        ViewBox::default()
    }
}

} // verus!
