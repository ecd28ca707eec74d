use geo_svg::{
    Color, Coord, LineString, Point, Polygon, Style, Svg, ToSvg, ToSvgStr, ViewBox,
};

#[test]
fn test_point() {
    println!(
        "{}",
        Point::new(0, 0)
            .to_svg()
            .fill(Color::Named("red"))
            .with_radius(10)
            .with_stroke_color(Color::Named("black"))
            .and(
                Point::new(50, 0)
                    .to_svg()
                    .with_radius(5)
                    .with_stroke_color(Color::Named("blue"))
            )
            .with_stroke_width(1)
            .with_opacity(1)
            .with_fill_opacity(1)
            .fill(Color::Named("green"))
            .to_string()
    );
}

#[test]
fn test_polygon() {
    println!(
        "{}",
        Polygon::new(
            LineString(vec![
                Coord { x: 210, y: 0 },
                Coord { x: 300, y: 0 },
                Coord { x: 300, y: 90 },
                Coord { x: 210, y: 90 },
            ]),
            vec![LineString(vec![
                Coord { x: 230, y: 20 },
                Coord { x: 280, y: 20 },
                Coord { x: 280, y: 70 },
                Coord { x: 230, y: 70 },
            ])],
        )
        .to_svg()
        .fill(Color::Named("black"))
        .with_stroke_color(Color::Named("red"))
        .to_string()
    );
}

#[test]
fn to_svg_builds_single_item_tree() {
    let tree = Point::new(1, 2).to_svg();
    assert_eq!(tree.items.len(), 1);
    assert_eq!(tree.siblings.len(), 0);
    assert_eq!(tree.viewbox, ViewBox::default());
    assert_eq!(tree.style, Style::default());
}

#[test]
fn cascade_reaches_every_sibling() {
    let tree = Point::new(0, 0)
        .to_svg()
        .and(Point::new(10, 0).to_svg())
        .and(Point::new(20, 0).to_svg())
        .with_stroke_width(2);
    let fragments = tree.svg_str();
    assert_eq!(fragments.matches("stroke-width=\"2\"").count(), 3);
}

#[test]
fn cascade_does_not_reset_other_fields() {
    let tree = Point::new(0, 0)
        .to_svg()
        .and(Point::new(10, 0).to_svg().fill(Color::Named("red")))
        .with_stroke_width(2);
    let fragments = tree.svg_str();
    // The sibling keeps its earlier fill; both nodes get the stroke width.
    assert_eq!(fragments.matches("fill=\"red\"").count(), 1);
    assert_eq!(fragments.matches("stroke-width=\"2\"").count(), 2);
}

#[test]
fn siblings_render_with_their_own_style() {
    let tree = Point::new(0, 0)
        .to_svg()
        .with_radius(3)
        .and(Point::new(10, 0).to_svg().with_radius(7));
    let fragments = tree.svg_str();
    assert_eq!(
        fragments,
        "<circle cx=\"0\" cy=\"0\" r=\"3\"/><circle cx=\"10\" cy=\"0\" r=\"7\"/>"
    );
}

#[test]
fn with_style_replaces_every_snapshot() {
    let style = Style { opacity: Some(1), ..Style::default() };
    let tree = Point::new(0, 0)
        .to_svg()
        .with_radius(9)
        .and(Point::new(1, 1).to_svg())
        .with_style(&style);
    let fragments = tree.svg_str();
    // The radius set before with_style is gone: both circles use radius 1.
    assert_eq!(fragments.matches("r=\"1\"").count(), 2);
    assert_eq!(fragments.matches("opacity=\"1\"").count(), 2);
}

#[test]
fn items_render_before_siblings() {
    let parent = Point::new(0, 0).to_svg().and(Point::new(50, 0).to_svg());
    let fragments = parent.svg_str();
    let first = fragments.find("cx=\"0\"").unwrap();
    let second = fragments.find("cx=\"50\"").unwrap();
    assert!(first < second);
}

#[test]
fn tree_viewbox_unions_items_and_siblings() {
    let tree = Point::new(0, 0).to_svg().and(Point::new(50, 0).to_svg());
    let vb = tree.viewbox();
    assert_eq!(vb.min_x(), -2);
    assert_eq!(vb.max_x(), 52);
    assert_eq!(vb.min_y(), -2);
    assert_eq!(vb.max_y(), 2);
}

#[test]
fn end_to_end_two_points() {
    let a = Point::new(0, 0).to_svg().with_radius(10);
    let b = Point::new(50, 0).to_svg().with_radius(5);
    let combined = a.and(b);
    let vb = combined.viewbox();
    assert!(vb.min_x() <= -10);
    assert!(vb.max_x() >= 55);
    let document = combined.to_string();
    assert_eq!(
        document,
        "<svg xmlns=\"http://www.w3.org/2000/svg\" preserveAspectRatio=\"xMidYMid meet\" viewBox=\"-11 -11 67 22\"><circle cx=\"0\" cy=\"0\" r=\"10\"/><circle cx=\"50\" cy=\"0\" r=\"5\"/></svg>"
    );
    assert_eq!(document.matches("<circle").count(), 2);
    let first = document.find("cx=\"0\"").unwrap();
    let second = document.find("cx=\"50\"").unwrap();
    assert!(first < second);
}

#[test]
fn envelope_uses_origin_and_extent() {
    let tree = Point::new(5, 5).to_svg();
    let document = tree.to_string();
    // Bounds are (3,3)-(7,7): origin 3 3, extent 4 4.
    assert!(document.starts_with(
        "<svg xmlns=\"http://www.w3.org/2000/svg\" preserveAspectRatio=\"xMidYMid meet\" viewBox=\"3 3 4 4\">"
    ));
    assert!(document.ends_with("</svg>"));
}

#[test]
fn seed_viewbox_joins_the_union() {
    let mut tree = Point::new(0, 0).to_svg();
    tree.viewbox = ViewBox::new(-100, -100, -90, -90);
    let vb = tree.viewbox();
    assert_eq!(vb.min_x(), -100);
    assert_eq!(vb.max_x(), 2);
}

#[test]
fn tree_as_item_renders_with_cascaded_style() {
    let tree = Point::new(0, 0).to_svg().and(Point::new(10, 0).to_svg());
    let style = Style { stroke_width: Some(4), ..Style::default() };
    let through_protocol = tree.clone().to_svg_str(&style);
    let by_hand = tree.with_style(&style).to_string();
    assert_eq!(through_protocol, by_hand);
}

#[test]
fn clone_renders_identically() {
    let tree = Point::new(3, 4)
        .to_svg()
        .fill(Color::Hsl(200, 80, 40))
        .and(Point::new(-3, -4).to_svg());
    assert_eq!(tree.clone().to_string(), tree.to_string());
}

#[test]
fn protocol_viewbox_returns_seed() {
    let mut tree = Point::new(0, 0).to_svg();
    tree.viewbox = ViewBox::new(1, 2, 3, 4);
    let seed = ToSvgStr::viewbox(&tree, &Style::default());
    assert_eq!(seed, ViewBox::new(1, 2, 3, 4));
}
