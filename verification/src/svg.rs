//! The renderable tree: shapes plus sibling sub-trees under a style snapshot.
//!
//! Style setters cascade: each produces a new tree in which the setting has
//! been applied to the node's own style and, recursively, to the style of
//! every sibling sub-tree. Rendering concatenates the fragments of the held
//! shapes (under the node's own style) and of the sibling trees (each under
//! its own, already cascaded style), and unions their viewboxes starting from
//! the node's seed viewbox.

use crate::color::Color;
use crate::geometry::{dup_geometries, geometry_views, lemma_geometry_views, Geometry, GeometryV};
use crate::numfmt::{dec_str_int, push_dec_i64};
use crate::style::{default_style, Style};
use crate::svg_impl::{geoms_fragment, geoms_vb, geoms_vb_fits, lemma_geoms_vb_fits_index};
use crate::to_svg_str::ToSvgStr;
use crate::viewbox::{or_zero, vb_empty, vb_height, vb_union, vb_width, ViewBox};
use vstd::prelude::*;
use vstd::string::StringExecFns;

verus! {

/// The mathematical view of a renderable tree node.
#[verifier::ext_equal]
pub struct SvgV {
    pub items: Seq<GeometryV>,
    pub siblings: Seq<SvgV>,
    pub viewbox: ViewBox,
    pub style: Style,
}

/// A renderable tree node: directly held shapes, sibling sub-trees, a seed
/// viewbox, and the node's style snapshot.
#[derive(Debug)]
pub struct Svg {
    pub items: Vec<Geometry>,
    pub siblings: Vec<Svg>,
    pub viewbox: ViewBox,
    pub style: Style,
}

/// The views of a sequence of trees.
pub open spec fn svg_views(ss: Seq<Svg>) -> Seq<SvgV>
    decreases ss,
{
    if ss.len() == 0 {
        Seq::empty()
    } else {
        svg_views(ss.drop_last()).push(ss.last()@)
    }
}

/// `svg_views` maps each tree to its view, keeping length and order.
pub proof fn lemma_svg_views(ss: Seq<Svg>)
    ensures
        svg_views(ss).len() == ss.len(),
        forall|i: int| 0 <= i < ss.len() ==> #[trigger] svg_views(ss)[i] == ss[i]@,
    decreases ss,
{
    if ss.len() > 0 {
        lemma_svg_views(ss.drop_last());
        let last_v = ss.last()@;
        let prefix = svg_views(ss.drop_last());
        assert(svg_views(ss) == prefix.push(last_v));
        assert forall|i: int| 0 <= i < ss.len() implies #[trigger] svg_views(ss)[i] == ss[i]@ by {
            if i < ss.len() - 1 {
                assert(prefix.push(last_v)[i] == prefix[i]);
                assert(ss.drop_last()[i] == ss[i]);
            } else {
                assert(prefix.push(last_v)[i] == last_v);
            }
        }
    }
}

impl View for Svg {
    type V = SvgV;

    open spec fn view(&self) -> SvgV
        decreases self,
    {
        SvgV {
            items: geometry_views(self.items@),
            siblings: svg_views(self.siblings@),
            viewbox: self.viewbox,
            style: self.style,
        }
    }
}

/// One style setting, as the cascade applies it to a node's style.
#[derive(Debug, Clone, Copy)]
pub enum StyleUpdate {
    Opacity(i64),
    Fill(Color),
    FillOpacity(i64),
    StrokeWidth(i64),
    StrokeOpacity(i64),
    Radius(i64),
    StrokeColor(Color),
    Full(Style),
}

/// The style a setting produces: the named field is set and every other
/// field is left untouched; a full update replaces the whole snapshot.
pub open spec fn apply_update(u: StyleUpdate, s: Style) -> Style {
    match u {
        StyleUpdate::Opacity(v) => Style { opacity: Some(v), ..s },
        StyleUpdate::Fill(c) => Style { fill: Some(c), ..s },
        StyleUpdate::FillOpacity(v) => Style { fill_opacity: Some(v), ..s },
        StyleUpdate::StrokeWidth(v) => Style { stroke_width: Some(v), ..s },
        StyleUpdate::StrokeOpacity(v) => Style { stroke_opacity: Some(v), ..s },
        StyleUpdate::Radius(v) => Style { radius: v, ..s },
        StyleUpdate::StrokeColor(c) => Style { stroke_color: Some(c), ..s },
        StyleUpdate::Full(st) => st,
    }
}

/// The tree a setter call produces: the setting applied to the node's style
/// and, recursively, to every sibling sub-tree; items and seed viewbox are
/// kept as they were.
pub open spec fn cascade(t: SvgV, u: StyleUpdate) -> SvgV
    decreases t,
{
    SvgV {
        items: t.items,
        siblings: cascade_all(t.siblings, u),
        viewbox: t.viewbox,
        style: apply_update(u, t.style),
    }
}

/// The cascade applied to each tree of a sequence, in order.
pub open spec fn cascade_all(ss: Seq<SvgV>, u: StyleUpdate) -> Seq<SvgV>
    decreases ss,
{
    if ss.len() == 0 {
        Seq::empty()
    } else {
        cascade_all(ss.drop_last(), u).push(cascade(ss.last(), u))
    }
}

/// Law: a setter call on a tree updates the style of the node and of every
/// sibling sub-tree, recursively, and touches nothing else: items, seed
/// viewbox and sibling count are kept, and each sibling is exactly the
/// cascade of the original sibling.
pub proof fn lemma_cascade_structure(t: SvgV, u: StyleUpdate)
    ensures
        cascade(t, u).items == t.items,
        cascade(t, u).viewbox == t.viewbox,
        cascade(t, u).style == apply_update(u, t.style),
        cascade(t, u).siblings.len() == t.siblings.len(),
        forall|i: int|
            0 <= i < t.siblings.len() ==> #[trigger] cascade(t, u).siblings[i] == cascade(
                t.siblings[i],
                u,
            ),
{
    lemma_cascade_all(t.siblings, u);
}

/// `cascade_all` maps each tree to its cascade, keeping length and order.
pub proof fn lemma_cascade_all(ss: Seq<SvgV>, u: StyleUpdate)
    ensures
        cascade_all(ss, u).len() == ss.len(),
        forall|i: int|
            0 <= i < ss.len() ==> #[trigger] cascade_all(ss, u)[i] == cascade(ss[i], u),
    decreases ss,
{
    if ss.len() > 0 {
        lemma_cascade_all(ss.drop_last(), u);
        let last_v = cascade(ss.last(), u);
        let prefix = cascade_all(ss.drop_last(), u);
        assert(cascade_all(ss, u) == prefix.push(last_v));
        assert forall|i: int| 0 <= i < ss.len() implies #[trigger] cascade_all(ss, u)[i]
            == cascade(ss[i], u) by {
            if i < ss.len() - 1 {
                assert(prefix.push(last_v)[i] == prefix[i]);
                assert(ss.drop_last()[i] == ss[i]);
            } else {
                assert(prefix.push(last_v)[i] == last_v);
            }
        }
    }
}

/// The concatenated fragments of a node: its items under its own style,
/// then each sibling sub-tree under the sibling's own style.
pub open spec fn svg_fragments(t: SvgV) -> Seq<char>
    decreases t,
{
    geoms_fragment(t.items, t.style) + sibs_fragments(t.siblings)
}

/// The concatenated fragments of a sequence of trees, in order.
pub open spec fn sibs_fragments(ss: Seq<SvgV>) -> Seq<char>
    decreases ss,
{
    if ss.len() == 0 {
        Seq::empty()
    } else {
        sibs_fragments(ss.drop_last()) + svg_fragments(ss.last())
    }
}

/// The viewbox of a node: its seed viewbox, unioned with its items'
/// viewboxes under its own style, unioned with its siblings' viewboxes.
pub open spec fn svg_viewbox(t: SvgV) -> ViewBox
    decreases t,
{
    vb_union(vb_union(t.viewbox, geoms_vb(t.items, t.style)), sibs_vb(t.siblings))
}

/// The union of the viewboxes of a sequence of trees, folded in order.
pub open spec fn sibs_vb(ss: Seq<SvgV>) -> ViewBox
    decreases ss,
{
    if ss.len() == 0 {
        vb_empty()
    } else {
        vb_union(sibs_vb(ss.drop_last()), svg_viewbox(ss.last()))
    }
}

/// Every bound derived while computing a node's viewbox fits.
pub open spec fn svg_vb_fits(t: SvgV) -> bool
    decreases t,
{
    geoms_vb_fits(t.items, t.style) && sibs_vb_fits(t.siblings)
}

/// Every tree of the sequence fits.
pub open spec fn sibs_vb_fits(ss: Seq<SvgV>) -> bool
    decreases ss,
{
    ss.len() == 0 || (sibs_vb_fits(ss.drop_last()) && svg_vb_fits(ss.last()))
}

/// A sequence that fits has each of its trees fit.
pub proof fn lemma_sibs_vb_fits_index(ss: Seq<SvgV>, i: int)
    requires
        sibs_vb_fits(ss),
        0 <= i < ss.len(),
    ensures
        svg_vb_fits(ss[i]),
    decreases ss,
{
    if i == ss.len() - 1 {
        assert(ss.last() == ss[i]);
    } else {
        lemma_sibs_vb_fits_index(ss.drop_last(), i);
        assert(ss.drop_last()[i] == ss[i]);
    }
}

/// The top-level markup: the envelope around the concatenated fragments,
/// with the viewbox given as origin and extent.
pub open spec fn envelope(vb: ViewBox, content: Seq<char>) -> Seq<char> {
    "<svg xmlns=\"http://www.w3.org/2000/svg\" preserveAspectRatio=\"xMidYMid meet\" viewBox=\""@
        + dec_str_int(or_zero(vb.min_x)) + " "@ + dec_str_int(or_zero(vb.min_y)) + " "@
        + dec_str_int(vb_width(vb)) + " "@ + dec_str_int(vb_height(vb)) + "\">"@ + content
        + "</svg>"@
}

/// The envelope's width and height stay within the coordinate type.
pub open spec fn envelope_fits(vb: ViewBox) -> bool {
    vb_width(vb) <= i64::MAX && vb_height(vb) <= i64::MAX
}

fn geoms_fragment_str(v: &Vec<Geometry>, style: &Style) -> (r: String)
    ensures
        r@ == geoms_fragment(geometry_views(v@), *style),
{
    proof {
        lemma_geometry_views(v@);
    }
    let ghost views = geometry_views(v@);
    let mut out = String::new();
    let mut i: usize = 0;
    while i < v.len()
        invariant
            i <= v@.len(),
            views == geometry_views(v@),
            views.len() == v@.len(),
            forall|j: int| 0 <= j < v@.len() ==> #[trigger] views[j] == v@[j]@,
            out@ == geoms_fragment(views.take(i as int), *style),
        decreases v@.len() - i,
    {
        let frag = v[i].to_svg_str(style);
        out.append(frag.as_str());
        proof {
            assert(views.take(i as int + 1).drop_last() =~= views.take(i as int));
            assert(views.take(i as int + 1).last() == views[i as int]);
        }
        i += 1;
    }
    proof {
        assert(views.take(views.len() as int) =~= views);
    }
    out
}

fn geoms_viewbox(v: &Vec<Geometry>, style: &Style) -> (r: ViewBox)
    requires
        geoms_vb_fits(geometry_views(v@), *style),
    ensures
        r == geoms_vb(geometry_views(v@), *style),
{
    proof {
        lemma_geometry_views(v@);
    }
    let ghost views = geometry_views(v@);
    let mut vb = ViewBox::default();
    let mut i: usize = 0;
    while i < v.len()
        invariant
            i <= v@.len(),
            views == geometry_views(v@),
            views.len() == v@.len(),
            forall|j: int| 0 <= j < v@.len() ==> #[trigger] views[j] == v@[j]@,
            geoms_vb_fits(views, *style),
            vb == geoms_vb(views.take(i as int), *style),
        decreases v@.len() - i,
    {
        proof {
            lemma_geoms_vb_fits_index(views, *style, i as int);
        }
        let gvb = v[i].viewbox(style);
        vb = vb.add(&gvb);
        proof {
            assert(views.take(i as int + 1).drop_last() =~= views.take(i as int));
            assert(views.take(i as int + 1).last() == views[i as int]);
        }
        i += 1;
    }
    proof {
        assert(views.take(views.len() as int) =~= views);
    }
    vb
}

fn apply_update_exec(u: &StyleUpdate, s: Style) -> (r: Style)
    ensures
        r == apply_update(*u, s),
{
    match u {
        StyleUpdate::Opacity(v) => Style { opacity: Some(*v), ..s },
        StyleUpdate::Fill(c) => Style { fill: Some(*c), ..s },
        StyleUpdate::FillOpacity(v) => Style { fill_opacity: Some(*v), ..s },
        StyleUpdate::StrokeWidth(v) => Style { stroke_width: Some(*v), ..s },
        StyleUpdate::StrokeOpacity(v) => Style { stroke_opacity: Some(*v), ..s },
        StyleUpdate::Radius(v) => Style { radius: *v, ..s },
        StyleUpdate::StrokeColor(c) => Style { stroke_color: Some(*c), ..s },
        StyleUpdate::Full(st) => *st,
    }
}

impl Svg {
    #[verifier::loop_isolation(false)]
    fn with_update(&self, u: &StyleUpdate) -> (r: Svg)
        ensures
            r@ == cascade(self@, *u),
        decreases *self,
    {
        proof {
            lemma_svg_views(self.siblings@);
            lemma_cascade_all(svg_views(self.siblings@), *u);
        }
        let items = dup_geometries(&self.items);
        let mut sibs: Vec<Svg> = Vec::new();
        let mut i: usize = 0;
        while i < self.siblings.len()
            invariant
                i <= self.siblings@.len(),
                sibs@.len() == i as int,
                forall|j: int|
                    0 <= j < i as int ==> #[trigger] sibs@[j]@ == cascade(
                        self.siblings@[j]@,
                        *u,
                    ),
            decreases self.siblings@.len() - i,
        {
            proof {
                assert(decreases_to!(*self => self.siblings));
                assert(decreases_to!(self.siblings => self.siblings@[i as int]));
                assert(decreases_to!(*self => self.siblings@[i as int]));
            }
            let sib = self.siblings[i].with_update(u);
            sibs.push(sib);
            i += 1;
        }
        let style = apply_update_exec(u, self.style);
        let r = Svg { items, siblings: sibs, viewbox: self.viewbox, style };
        proof {
            lemma_geometry_views(r.items@);
            lemma_geometry_views(self.items@);
            assert(geometry_views(r.items@) =~= geometry_views(self.items@));
            lemma_svg_views(r.siblings@);
            assert(svg_views(r.siblings@) =~= cascade_all(svg_views(self.siblings@), *u));
            assert(r@ =~= cascade(self@, *u));
        }
        r
    }

    /// Merges another tree in as a sibling; everything else is kept.
    pub fn and(self, sibling: Svg) -> (r: Self)
        ensures
            r@.items == self@.items,
            r@.style == self@.style,
            r@.viewbox == self@.viewbox,
            r@.siblings == self@.siblings.push(sibling@),
    {
        let ghost old_self = self;
        let mut s = self;
        s.siblings.push(sibling);
        proof {
            assert(s.siblings@.drop_last() =~= old_self.siblings@);
            assert(svg_views(s.siblings@) == svg_views(old_self.siblings@).push(sibling@));
        }
        s
    }

    /// Replaces the style of this node and, recursively, of every sibling
    /// sub-tree with `style`.
    pub fn with_style(self, style: &Style) -> (r: Self)
        ensures
            r@ == cascade(self@, StyleUpdate::Full(*style)),
    {
        self.with_update(&StyleUpdate::Full(*style))
    }

    /// Sets the opacity on this node and every sibling sub-tree.
    pub fn with_opacity(self, opacity: i64) -> (r: Self)
        ensures
            r@ == cascade(self@, StyleUpdate::Opacity(opacity)),
    {
        self.with_update(&StyleUpdate::Opacity(opacity))
    }

    /// Sets the fill color on this node and every sibling sub-tree.
    pub fn fill(self, fill: Color) -> (r: Self)
        ensures
            r@ == cascade(self@, StyleUpdate::Fill(fill)),
    {
        self.with_update(&StyleUpdate::Fill(fill))
    }

    /// Sets the fill opacity on this node and every sibling sub-tree.
    pub fn with_fill_opacity(self, fill_opacity: i64) -> (r: Self)
        ensures
            r@ == cascade(self@, StyleUpdate::FillOpacity(fill_opacity)),
    {
        self.with_update(&StyleUpdate::FillOpacity(fill_opacity))
    }

    /// Sets the stroke width on this node and every sibling sub-tree.
    pub fn with_stroke_width(self, stroke_width: i64) -> (r: Self)
        ensures
            r@ == cascade(self@, StyleUpdate::StrokeWidth(stroke_width)),
    {
        self.with_update(&StyleUpdate::StrokeWidth(stroke_width))
    }

    /// Sets the stroke opacity on this node and every sibling sub-tree.
    pub fn with_stroke_opacity(self, stroke_opacity: i64) -> (r: Self)
        ensures
            r@ == cascade(self@, StyleUpdate::StrokeOpacity(stroke_opacity)),
    {
        self.with_update(&StyleUpdate::StrokeOpacity(stroke_opacity))
    }

    /// Sets the point radius on this node and every sibling sub-tree.
    pub fn with_radius(self, radius: i64) -> (r: Self)
        ensures
            r@ == cascade(self@, StyleUpdate::Radius(radius)),
    {
        self.with_update(&StyleUpdate::Radius(radius))
    }

    /// Sets the stroke color on this node and every sibling sub-tree.
    pub fn with_stroke_color(self, stroke_color: Color) -> (r: Self)
        ensures
            r@ == cascade(self@, StyleUpdate::StrokeColor(stroke_color)),
    {
        self.with_update(&StyleUpdate::StrokeColor(stroke_color))
    }

    /// The concatenated fragments of the tree: the held shapes under this
    /// node's style, then each sibling sub-tree under its own style.
    #[verifier::loop_isolation(false)]
    pub fn svg_str(&self) -> (r: String)
        ensures
            r@ == svg_fragments(self@),
        decreases *self,
    {
        proof {
            lemma_svg_views(self.siblings@);
        }
        let ghost views = svg_views(self.siblings@);
        let mut out = geoms_fragment_str(&self.items, &self.style);
        let ghost head = out@;
        let mut i: usize = 0;
        while i < self.siblings.len()
            invariant
                i <= self.siblings@.len(),
                out@ == head + sibs_fragments(views.take(i as int)),
            decreases self.siblings@.len() - i,
        {
            proof {
                assert(decreases_to!(*self => self.siblings));
                assert(decreases_to!(self.siblings => self.siblings@[i as int]));
                assert(decreases_to!(*self => self.siblings@[i as int]));
            }
            let frag = self.siblings[i].svg_str();
            out.append(frag.as_str());
            proof {
                assert(views.take(i as int + 1).drop_last() =~= views.take(i as int));
                assert(views.take(i as int + 1).last() == views[i as int]);
                assert(views[i as int] == self.siblings@[i as int]@);
            }
            i += 1;
        }
        proof {
            assert(views.take(views.len() as int) =~= views);
            assert(out@ =~= svg_fragments(self@));
        }
        out
    }

    /// The tree's viewbox: the seed viewbox, unioned with each held shape's
    /// viewbox under this node's style, then with each sibling's viewbox.
    #[verifier::loop_isolation(false)]
    pub fn viewbox(&self) -> (r: ViewBox)
        requires
            svg_vb_fits(self@),
        ensures
            r == svg_viewbox(self@),
        decreases *self,
    {
        proof {
            lemma_svg_views(self.siblings@);
        }
        let ghost views = svg_views(self.siblings@);
        let items_vb = geoms_viewbox(&self.items, &self.style);
        let mut sibs_box = ViewBox::default();
        let mut i: usize = 0;
        while i < self.siblings.len()
            invariant
                i <= self.siblings@.len(),
                sibs_box == sibs_vb(views.take(i as int)),
            decreases self.siblings@.len() - i,
        {
            proof {
                assert(decreases_to!(*self => self.siblings));
                assert(decreases_to!(self.siblings => self.siblings@[i as int]));
                assert(decreases_to!(*self => self.siblings@[i as int]));
                lemma_sibs_vb_fits_index(views, i as int);
                assert(views[i as int] == self.siblings@[i as int]@);
            }
            let svb = self.siblings[i].viewbox();
            sibs_box = sibs_box.add(&svb);
            proof {
                assert(views.take(i as int + 1).drop_last() =~= views.take(i as int));
                assert(views.take(i as int + 1).last() == views[i as int]);
            }
            i += 1;
        }
        proof {
            assert(views.take(views.len() as int) =~= views);
        }
        self.viewbox.add(&items_vb).add(&sibs_box)
    }

    /// The complete SVG document: the envelope sized to the tree's viewbox,
    /// holding the concatenated fragments.
    pub fn to_string(&self) -> (r: String)
        requires
            svg_vb_fits(self@),
            envelope_fits(svg_viewbox(self@)),
        ensures
            r@ == envelope(svg_viewbox(self@), svg_fragments(self@)),
    {
        let vb = self.viewbox();
        let mut out = String::new();
        out.append(
            "<svg xmlns=\"http://www.w3.org/2000/svg\" preserveAspectRatio=\"xMidYMid meet\" viewBox=\"",
        );
        push_dec_i64(&mut out, vb.min_x());
        out.append(" ");
        push_dec_i64(&mut out, vb.min_y());
        out.append(" ");
        push_dec_i64(&mut out, vb.width());
        out.append(" ");
        push_dec_i64(&mut out, vb.height());
        out.append("\">");
        let content = self.svg_str();
        out.append(content.as_str());
        out.append("</svg>");
        proof {
            assert(out@ =~= envelope(svg_viewbox(self@), svg_fragments(self@)));
        }
        out
    }

    #[verifier::loop_isolation(false)]
    fn duplicate(&self) -> (r: Svg)
        ensures
            r@ == self@,
        decreases *self,
    {
        let items = dup_geometries(&self.items);
        let mut sibs: Vec<Svg> = Vec::new();
        let mut i: usize = 0;
        while i < self.siblings.len()
            invariant
                i <= self.siblings@.len(),
                sibs@.len() == i as int,
                forall|j: int| 0 <= j < i as int ==> #[trigger] sibs@[j]@ == self.siblings@[j]@,
            decreases self.siblings@.len() - i,
        {
            proof {
                assert(decreases_to!(*self => self.siblings));
                assert(decreases_to!(self.siblings => self.siblings@[i as int]));
                assert(decreases_to!(*self => self.siblings@[i as int]));
            }
            let sib = self.siblings[i].duplicate();
            sibs.push(sib);
            i += 1;
        }
        let r = Svg { items, siblings: sibs, viewbox: self.viewbox, style: self.style };
        proof {
            lemma_geometry_views(r.items@);
            lemma_geometry_views(self.items@);
            assert(geometry_views(r.items@) =~= geometry_views(self.items@));
            lemma_svg_views(r.siblings@);
            lemma_svg_views(self.siblings@);
            assert(svg_views(r.siblings@) =~= svg_views(self.siblings@));
            assert(r@ =~= self@);
        }
        r
    }
}

impl Clone for Svg {
    /// A copy whose view equals the original's.
    fn clone(&self) -> (r: Self)
        ensures
            r@ == self@,
    {
        self.duplicate()
    }
}

impl ToSvgStr for Svg {
    /// A tree used as an item renders as a whole document: the given style is
    /// first cascaded over the tree, then the envelope is produced.
    open spec fn fragment_spec(&self, style: Style) -> Seq<char> {
        envelope(
            svg_viewbox(cascade(self@, StyleUpdate::Full(style))),
            svg_fragments(cascade(self@, StyleUpdate::Full(style))),
        )
    }

    /// The seed viewbox of the tree; the cascade does not touch it.
    open spec fn viewbox_spec(&self, style: Style) -> ViewBox {
        self@.viewbox
    }

    open spec fn fragment_fits(&self, style: Style) -> bool {
        svg_vb_fits(cascade(self@, StyleUpdate::Full(style))) && envelope_fits(
            svg_viewbox(cascade(self@, StyleUpdate::Full(style))),
        )
    }

    open spec fn viewbox_fits(&self, style: Style) -> bool {
        true
    }

    fn to_svg_str(&self, style: &Style) -> (r: String) {
        let styled = self.with_update(&StyleUpdate::Full(*style));
        styled.to_string()
    }

    fn viewbox(&self, style: &Style) -> (r: ViewBox) {
        self.viewbox
    }
}

/// The tree holding one geometry, the empty seed viewbox and default style.
pub open spec fn svg_of(g: GeometryV) -> SvgV {
    SvgV { items: seq![g], siblings: Seq::empty(), viewbox: vb_empty(), style: default_style() }
}

pub(crate) fn svg_from_geometry(g: Geometry) -> (r: Svg)
    ensures
        r@ == svg_of(g@),
{
    let items: Vec<Geometry> = vec![g];
    let r = Svg {
        items,
        siblings: Vec::new(),
        viewbox: ViewBox::default(),
        style: Style::default(),
    };
    proof {
        lemma_geometry_views(r.items@);
        assert(geometry_views(r.items@) =~= svg_of(r.items@[0]@).items);
        lemma_svg_views(r.siblings@);
        assert(svg_views(r.siblings@) =~= Seq::<SvgV>::empty());
        assert(r@ =~= svg_of(r.items@[0]@));
    }
    r
}

} // verus!
