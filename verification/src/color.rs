//! Color values and their SVG attribute form.

use crate::numfmt::{dec_str_nat, hex_lit, push_dec_u64, push_hex_u32};
use vstd::prelude::*;
use vstd::string::StringExecFns;

verus! {

/// A color as it appears in an SVG presentation attribute.
#[derive(Debug, Clone, Copy, PartialEq)]
pub enum Color {
    /// A named color, emitted verbatim.
    Named(&'static str),
    /// A red/green/blue triple, emitted as `rgb(r,g,b)`.
    Rgb(u8, u8, u8),
    /// A numeric color, emitted as an uppercase `0x`-prefixed hex literal.
    Hex(u32),
    /// Hue, saturation and lightness, emitted as `hsl(h,s%,l%)` with the hue
    /// taken modulo 360 and saturation/lightness clamped to 100.
    Hsl(u16, u8, u8),
}

/// The rendering of a color value.
pub open spec fn color_str(c: Color) -> Seq<char> {
    match c {
        Color::Named(name) => name@,
        Color::Rgb(r, g, b) => "rgb("@ + dec_str_nat(r as nat) + ","@ + dec_str_nat(g as nat)
            + ","@ + dec_str_nat(b as nat) + ")"@,
        Color::Hex(h) => hex_lit(h as nat),
        Color::Hsl(h, s, l) => "hsl("@ + dec_str_nat((h % 360) as nat) + ","@ + dec_str_nat(
            (if s < 100 { s } else { 100 }) as nat,
        ) + "%,"@ + dec_str_nat((if l < 100 { l } else { 100 }) as nat) + "%)"@,
    }
}

impl Color {
    /// The SVG attribute form of the color.
    pub fn to_string(&self) -> (r: String)
        ensures
            r@ == color_str(*self),
    {
        let mut out = String::new();
        match *self {
            Color::Named(name) => {
                out.append(name);
                proof {
                    assert(out@ =~= color_str(*self));
                }
            },
            Color::Rgb(r, g, b) => {
                out.append("rgb(");
                push_dec_u64(&mut out, r as u64);
                out.append(",");
                push_dec_u64(&mut out, g as u64);
                out.append(",");
                push_dec_u64(&mut out, b as u64);
                out.append(")");
                proof {
                    assert(out@ =~= color_str(*self));
                }
            },
            Color::Hex(h) => {
                push_hex_u32(&mut out, h);
                proof {
                    assert(out@ =~= color_str(*self));
                }
            },
            Color::Hsl(h, s, l) => {
                out.append("hsl(");
                push_dec_u64(&mut out, (h % 360) as u64);
                out.append(",");
                push_dec_u64(&mut out, (if s < 100 { s } else { 100 }) as u64);
                out.append("%,");
                push_dec_u64(&mut out, (if l < 100 { l } else { 100 }) as u64);
                out.append("%)");
                proof {
                    assert(out@ =~= color_str(*self));
                }
            },
        }
        out
    }
}

} // verus!
