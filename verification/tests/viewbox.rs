use geo_svg::ViewBox;

#[test]
fn new_sets_all_bounds() {
    let vb = ViewBox::new(1, 2, 3, 4);
    assert_eq!(vb.min_x, Some(1));
    assert_eq!(vb.min_y, Some(2));
    assert_eq!(vb.max_x, Some(3));
    assert_eq!(vb.max_y, Some(4));
    assert_eq!(vb.min_x(), 1);
    assert_eq!(vb.min_y(), 2);
    assert_eq!(vb.max_x(), 3);
    assert_eq!(vb.max_y(), 4);
}

#[test]
fn default_is_empty() {
    let vb = ViewBox::default();
    assert_eq!(vb.min_x, None);
    assert_eq!(vb.min_y, None);
    assert_eq!(vb.max_x, None);
    assert_eq!(vb.max_y, None);
    assert_eq!(vb.min_x(), 0);
    assert_eq!(vb.width(), 0);
    assert_eq!(vb.height(), 0);
}

#[test]
fn union_takes_min_of_mins_and_max_of_maxes() {
    let a = ViewBox::new(0, 5, 10, 15);
    let b = ViewBox::new(-3, 7, 8, 20);
    let u = a.add(&b);
    assert_eq!(u.min_x, Some(-3));
    assert_eq!(u.min_y, Some(5));
    assert_eq!(u.max_x, Some(10));
    assert_eq!(u.max_y, Some(20));
}

#[test]
fn union_missing_bound_is_absorbing() {
    let a = ViewBox::new(0, 0, 10, 10);
    let empty = ViewBox::default();
    assert_eq!(a.add(&empty), a);
    assert_eq!(empty.add(&a), a);
}

#[test]
fn union_is_commutative() {
    let a = ViewBox::new(-5, 2, 7, 9);
    let b = ViewBox::new(1, -4, 3, 30);
    assert_eq!(a.add(&b), b.add(&a));
}

#[test]
fn union_is_associative() {
    let a = ViewBox::new(-5, 2, 7, 9);
    let b = ViewBox::new(1, -4, 3, 30);
    let c = ViewBox::new(0, 0, 100, 1);
    assert_eq!(a.add(&b).add(&c), a.add(&b.add(&c)));
}

#[test]
fn margin_expands_all_present_bounds() {
    let vb = ViewBox::new(0, 0, 10, 10).with_margin(2);
    assert_eq!(vb.min_x(), -2);
    assert_eq!(vb.min_y(), -2);
    assert_eq!(vb.max_x(), 12);
    assert_eq!(vb.max_y(), 12);
    assert_eq!(vb.width(), 14);
    assert_eq!(vb.height(), 14);
}

#[test]
fn margin_leaves_empty_viewbox_empty() {
    let vb = ViewBox::default().with_margin(5);
    assert_eq!(vb.min_x, None);
    assert_eq!(vb.min_y, None);
    assert_eq!(vb.max_x, None);
    assert_eq!(vb.max_y, None);
}

#[test]
fn negative_margin_shrinks() {
    let vb = ViewBox::new(0, 0, 10, 10).with_margin(-1);
    assert_eq!(vb.min_x(), 1);
    assert_eq!(vb.max_x(), 9);
    assert_eq!(vb.width(), 8);
}

#[test]
fn width_is_absolute_difference() {
    let vb = ViewBox::new(10, 20, 0, 0);
    assert_eq!(vb.width(), 10);
    assert_eq!(vb.height(), 20);
}
