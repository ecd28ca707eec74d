//! Bounding-rectangle accumulator.
//!
//! A [`ViewBox`] holds four optional bounds. All four absent means "no extent
//! yet"; that value is the identity of the union operation [`ViewBox::add`].

use vstd::prelude::*;

verus! {

/// An axis-aligned bounding rectangle with optional bounds.
#[derive(Debug, Clone, Copy, PartialEq)]
pub struct ViewBox {
    pub min_x: Option<i64>,
    pub min_y: Option<i64>,
    pub max_x: Option<i64>,
    pub max_y: Option<i64>,
}

/// The smaller of two optional bounds; a missing side is absorbing.
pub open spec fn min_opt(a: Option<i64>, b: Option<i64>) -> Option<i64> {
    match (a, b) {
        (Some(x), Some(y)) => Some(if x < y { x } else { y }),
        (Some(x), None) => Some(x),
        (None, Some(y)) => Some(y),
        (None, None) => None,
    }
}

/// The larger of two optional bounds; a missing side is absorbing.
pub open spec fn max_opt(a: Option<i64>, b: Option<i64>) -> Option<i64> {
    match (a, b) {
        (Some(x), Some(y)) => Some(if x > y { x } else { y }),
        (Some(x), None) => Some(x),
        (None, Some(y)) => Some(y),
        (None, None) => None,
    }
}

/// The union of two viewboxes: pairwise min of minimums, max of maximums.
pub open spec fn vb_union(a: ViewBox, b: ViewBox) -> ViewBox {
    ViewBox {
        min_x: min_opt(a.min_x, b.min_x),
        min_y: min_opt(a.min_y, b.min_y),
        max_x: max_opt(a.max_x, b.max_x),
        max_y: max_opt(a.max_y, b.max_y),
    }
}

/// The empty viewbox: no bounds set, the identity under `vb_union`.
pub open spec fn vb_empty() -> ViewBox {
    ViewBox { min_x: None, min_y: None, max_x: None, max_y: None }
}

/// A bound resolved for rendering: 0 when unset.
pub open spec fn or_zero(b: Option<i64>) -> int {
    match b {
        Some(v) => v as int,
        None => 0,
    }
}

/// Absolute difference of the resolved horizontal bounds.
pub open spec fn vb_width(v: ViewBox) -> int {
    if or_zero(v.min_x) >= or_zero(v.max_x) {
        or_zero(v.min_x) - or_zero(v.max_x)
    } else {
        or_zero(v.max_x) - or_zero(v.min_x)
    }
}

/// Absolute difference of the resolved vertical bounds.
pub open spec fn vb_height(v: ViewBox) -> int {
    if or_zero(v.min_y) >= or_zero(v.max_y) {
        or_zero(v.min_y) - or_zero(v.max_y)
    } else {
        or_zero(v.max_y) - or_zero(v.min_y)
    }
}

/// A present bound shifted down by `margin`; an absent bound stays absent.
pub open spec fn shift_down(b: Option<i64>, margin: int) -> Option<i64> {
    match b {
        Some(v) => Some((v - margin) as i64),
        None => None,
    }
}

/// A present bound shifted up by `margin`; an absent bound stays absent.
pub open spec fn shift_up(b: Option<i64>, margin: int) -> Option<i64> {
    match b {
        Some(v) => Some((v + margin) as i64),
        None => None,
    }
}

/// The viewbox grown by `margin` on every present bound.
pub open spec fn vb_margin(v: ViewBox, margin: int) -> ViewBox {
    ViewBox {
        min_x: shift_down(v.min_x, margin),
        min_y: shift_down(v.min_y, margin),
        max_x: shift_up(v.max_x, margin),
        max_y: shift_up(v.max_y, margin),
    }
}

/// Every shifted bound of `vb_margin(v, margin)` stays within `i64`.
pub open spec fn vb_margin_fits(v: ViewBox, margin: int) -> bool {
    &&& (v.min_x is Some ==> i64::MIN <= v.min_x->0 - margin <= i64::MAX)
    &&& (v.min_y is Some ==> i64::MIN <= v.min_y->0 - margin <= i64::MAX)
    &&& (v.max_x is Some ==> i64::MIN <= v.max_x->0 + margin <= i64::MAX)
    &&& (v.max_y is Some ==> i64::MIN <= v.max_y->0 + margin <= i64::MAX)
}

impl ViewBox {
    /// A viewbox with all four bounds set.
    pub fn new(min_x: i64, min_y: i64, max_x: i64, max_y: i64) -> (r: Self)
        ensures
            r == (ViewBox {
                min_x: Some(min_x),
                min_y: Some(min_y),
                max_x: Some(max_x),
                max_y: Some(max_y),
            }),
    {
        Self {
            min_x: Some(min_x),
            min_y: Some(min_y),
            max_x: Some(max_x),
            max_y: Some(max_y),
        }
    }

    /// The union of two viewboxes.
    pub fn add(&self, other: &Self) -> (r: Self)
        ensures
            r == vb_union(*self, *other),
    {
        Self {
            min_x: Self::min_option(self.min_x, other.min_x),
            min_y: Self::min_option(self.min_y, other.min_y),
            max_x: Self::max_option(self.max_x, other.max_x),
            max_y: Self::max_option(self.max_y, other.max_y),
        }
    }

    /// The left horizontal bound, 0 when unset.
    pub fn min_x(&self) -> (r: i64)
        ensures
            r == or_zero(self.min_x),
    {
        match self.min_x {
            Some(v) => v,
            None => 0,
        }
    }

    /// The top vertical bound, 0 when unset.
    pub fn min_y(&self) -> (r: i64)
        ensures
            r == or_zero(self.min_y),
    {
        match self.min_y {
            Some(v) => v,
            None => 0,
        }
    }

    /// The right horizontal bound, 0 when unset.
    pub fn max_x(&self) -> (r: i64)
        ensures
            r == or_zero(self.max_x),
    {
        match self.max_x {
            Some(v) => v,
            None => 0,
        }
    }

    /// The bottom vertical bound, 0 when unset.
    pub fn max_y(&self) -> (r: i64)
        ensures
            r == or_zero(self.max_y),
    {
        match self.max_y {
            Some(v) => v,
            None => 0,
        }
    }

    /// The absolute difference of the resolved horizontal bounds.
    pub fn width(&self) -> (r: i64)
        requires
            vb_width(*self) <= i64::MAX,
        ensures
            r == vb_width(*self),
    {
        let mn = self.min_x();
        let mx = self.max_x();
        if mn >= mx {
            mn - mx
        } else {
            mx - mn
        }
    }

    /// The absolute difference of the resolved vertical bounds.
    pub fn height(&self) -> (r: i64)
        requires
            vb_height(*self) <= i64::MAX,
        ensures
            r == vb_height(*self),
    {
        let mn = self.min_y();
        let mx = self.max_y();
        if mn >= mx {
            mn - mx
        } else {
            mx - mn
        }
    }

    fn min_option(a: Option<i64>, b: Option<i64>) -> (r: Option<i64>)
        ensures
            r == min_opt(a, b),
    {
        match (a, b) {
            (Some(x), Some(y)) => Some(if x < y { x } else { y }),
            (Some(x), None) => Some(x),
            (None, Some(y)) => Some(y),
            (None, None) => None,
        }
    }

    fn max_option(a: Option<i64>, b: Option<i64>) -> (r: Option<i64>)
        ensures
            r == max_opt(a, b),
    {
        match (a, b) {
            (Some(x), Some(y)) => Some(if x > y { x } else { y }),
            (Some(x), None) => Some(x),
            (None, Some(y)) => Some(y),
            (None, None) => None,
        }
    }

    /// Every present bound grown outward by `margin` (minimums decrease,
    /// maximums increase); absent bounds stay absent, so the empty viewbox
    /// is left untouched.
    pub fn with_margin(self, margin: i64) -> (r: Self)
        requires
            vb_margin_fits(self, margin as int),
        ensures
            r == vb_margin(self, margin as int),
    {
        Self {
            min_x: match self.min_x {
                Some(v) => Some(v - margin),
                None => None,
            },
            min_y: match self.min_y {
                Some(v) => Some(v - margin),
                None => None,
            },
            max_x: match self.max_x {
                Some(v) => Some(v + margin),
                None => None,
            },
            max_y: match self.max_y {
                Some(v) => Some(v + margin),
                None => None,
            },
        }
    }
}

impl Default for ViewBox {
    /// The empty viewbox: no bounds set.
    fn default() -> (r: Self)
        ensures
            r == vb_empty(),
    {
        Self { min_x: None, min_y: None, max_x: None, max_y: None }
    }
}

/// Law: the union of viewboxes is commutative.
pub proof fn lemma_union_commutative(a: ViewBox, b: ViewBox)
    ensures
        vb_union(a, b) == vb_union(b, a),
{
}

/// Law: the union of viewboxes is associative.
pub proof fn lemma_union_associative(a: ViewBox, b: ViewBox, c: ViewBox)
    ensures
        vb_union(vb_union(a, b), c) == vb_union(a, vb_union(b, c)),
{
}

/// Law: the empty viewbox is the identity of the union, on either side.
pub proof fn lemma_union_identity(a: ViewBox)
    ensures
        vb_union(a, vb_empty()) == a,
        vb_union(vb_empty(), a) == a,
{
}

} // verus!
