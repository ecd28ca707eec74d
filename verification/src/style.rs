//! Presentation attributes and their SVG form.

use crate::color::{color_str, Color};
use crate::numfmt::{dec_str_int, push_dec_i64};
use vstd::prelude::*;
use vstd::string::StringExecFns;

verus! {

/// A snapshot of presentation attributes. Optional fields are emitted only
/// when set; the point radius always has a value, since circles must render
/// at some size.
#[derive(Debug, Clone, Copy, PartialEq)]
pub struct Style {
    pub opacity: Option<i64>,
    pub fill: Option<Color>,
    pub fill_opacity: Option<i64>,
    pub stroke_color: Option<Color>,
    pub stroke_width: Option<i64>,
    pub stroke_opacity: Option<i64>,
    pub radius: i64,
}

/// The style every shape starts with: nothing set, radius 1.
pub open spec fn default_style() -> Style {
    Style {
        opacity: None,
        fill: None,
        fill_opacity: None,
        stroke_color: None,
        stroke_width: None,
        stroke_opacity: None,
        radius: 1,
    }
}

/// One optional numeric attribute: ` name="value"` when set, empty otherwise.
pub open spec fn num_attr(prefix: Seq<char>, v: Option<i64>) -> Seq<char> {
    match v {
        Some(x) => prefix + dec_str_int(x as int) + "\""@,
        None => Seq::empty(),
    }
}

/// One optional color attribute: ` name="color"` when set, empty otherwise.
pub open spec fn color_attr(prefix: Seq<char>, v: Option<Color>) -> Seq<char> {
    match v {
        Some(c) => prefix + color_str(c) + "\""@,
        None => Seq::empty(),
    }
}

/// The concatenated presentation attributes of a style, each emitted only
/// when set, in the fixed order: opacity, fill, fill-opacity, stroke,
/// stroke-width, stroke-opacity.
pub open spec fn style_str(s: Style) -> Seq<char> {
    num_attr(" opacity=\""@, s.opacity) + color_attr(" fill=\""@, s.fill) + num_attr(
        " fill-opacity=\""@,
        s.fill_opacity,
    ) + color_attr(" stroke=\""@, s.stroke_color) + num_attr(" stroke-width=\""@, s.stroke_width)
        + num_attr(" stroke-opacity=\""@, s.stroke_opacity)
}

fn push_num_attr(out: &mut String, prefix: &str, v: &Option<i64>)
    ensures
        final(out)@ == old(out)@ + num_attr(prefix@, *v),
{
    match v {
        Some(x) => {
            out.append(prefix);
            push_dec_i64(out, *x);
            out.append("\"");
            proof {
                assert(out@ =~= old(out)@ + num_attr(prefix@, *v));
            }
        },
        None => {
            proof {
                assert(out@ =~= old(out)@ + num_attr(prefix@, *v));
            }
        },
    }
}

fn push_color_attr(out: &mut String, prefix: &str, v: &Option<Color>)
    ensures
        final(out)@ == old(out)@ + color_attr(prefix@, *v),
{
    match v {
        Some(c) => {
            out.append(prefix);
            let cs = c.to_string();
            out.append(cs.as_str());
            out.append("\"");
            proof {
                assert(out@ =~= old(out)@ + color_attr(prefix@, *v));
            }
        },
        None => {
            proof {
                assert(out@ =~= old(out)@ + color_attr(prefix@, *v));
            }
        },
    }
}

impl Style {
    /// The SVG presentation attributes of the style, ready to append to an
    /// element's opening tag.
    pub fn to_string(&self) -> (r: String)
        ensures
            r@ == style_str(*self),
    {
        let mut out = String::new();
        push_num_attr(&mut out, " opacity=\"", &self.opacity);
        push_color_attr(&mut out, " fill=\"", &self.fill);
        push_num_attr(&mut out, " fill-opacity=\"", &self.fill_opacity);
        push_color_attr(&mut out, " stroke=\"", &self.stroke_color);
        push_num_attr(&mut out, " stroke-width=\"", &self.stroke_width);
        push_num_attr(&mut out, " stroke-opacity=\"", &self.stroke_opacity);
        proof {
            assert(out@ =~= style_str(*self));
        }
        out
    }
}

impl Default for Style {
    /// The default style: no attributes set, radius 1.
    fn default() -> (r: Self)
        ensures
            r == default_style(),
    {
        Self {
            opacity: None,
            fill: None,
            fill_opacity: None,
            stroke_color: None,
            stroke_width: None,
            stroke_opacity: None,
            radius: 1,
        }
    }
}

} // verus!
