use geo_svg::{
    Color, Coord, Geometry, GeometryCollection, Line, LineString, MultiLineString, MultiPoint,
    MultiPolygon, Point, Polygon, Rect, Style, Text, ToSvgStr, Triangle,
};

fn plain() -> Style {
    Style::default()
}

#[test]
fn color_named() {
    assert_eq!(Color::Named("red").to_string(), "red");
}

#[test]
fn color_rgb() {
    assert_eq!(Color::Rgb(0, 128, 255).to_string(), "rgb(0,128,255)");
}

#[test]
fn color_hex_is_uppercase_with_prefix() {
    assert_eq!(Color::Hex(0x1A2B3C).to_string(), "0x1A2B3C");
    assert_eq!(Color::Hex(0).to_string(), "0x0");
    assert_eq!(Color::Hex(0xDEADBEEF).to_string(), "0xDEADBEEF");
}

#[test]
fn color_hsl_wraps_hue_and_clamps() {
    assert_eq!(Color::Hsl(400, 150, 150).to_string(), "hsl(40,100%,100%)");
    assert_eq!(Color::Hsl(120, 50, 25).to_string(), "hsl(120,50%,25%)");
}

#[test]
fn style_attributes_in_fixed_order() {
    let style = Style {
        opacity: Some(1),
        fill: Some(Color::Named("red")),
        fill_opacity: Some(1),
        stroke_color: Some(Color::Named("black")),
        stroke_width: Some(2),
        stroke_opacity: Some(1),
        radius: 1,
    };
    assert_eq!(
        style.to_string(),
        " opacity=\"1\" fill=\"red\" fill-opacity=\"1\" stroke=\"black\" stroke-width=\"2\" stroke-opacity=\"1\""
    );
}

#[test]
fn style_unset_fields_are_omitted() {
    assert_eq!(plain().to_string(), "");
    let style = Style { stroke_width: Some(3), ..plain() };
    assert_eq!(style.to_string(), " stroke-width=\"3\"");
}

#[test]
fn point_fragment_exact() {
    let frag = Point::new(3, 4).to_svg_str(&plain());
    assert_eq!(frag, "<circle cx=\"3\" cy=\"4\" r=\"1\"/>");
}

#[test]
fn point_fragment_negative_coordinates() {
    let frag = Point::new(-5, -40).to_svg_str(&plain());
    assert_eq!(frag, "<circle cx=\"-5\" cy=\"-40\" r=\"1\"/>");
}

#[test]
fn coordinate_renders_as_point() {
    let c = Coord { x: 7, y: 8 };
    assert_eq!(c.to_svg_str(&plain()), Point::new(7, 8).to_svg_str(&plain()));
}

#[test]
fn point_viewbox_is_square_of_radius_plus_stroke() {
    let style = Style { radius: 10, stroke_width: Some(3), ..plain() };
    let vb = Point::new(5, 5).viewbox(&style);
    assert_eq!(vb.width(), 2 * (10 + 3));
    assert_eq!(vb.height(), 2 * (10 + 3));
    let defaulted = Point::new(0, 0).viewbox(&plain());
    assert_eq!(defaulted.width(), 2 * (1 + 1));
    assert_eq!(defaulted.height(), 2 * (1 + 1));
}

#[test]
fn line_fragment_and_viewbox() {
    let line = Line::new(Coord { x: 0, y: 0 }, Coord { x: 1, y: 1 });
    assert_eq!(line.to_svg_str(&plain()), "<path d=\"M 0 0 L 1 1\"/>");
    // With no stroke width set, the box covers exactly the two endpoints.
    let vb = line.viewbox(&plain());
    assert_eq!(vb.min_x(), 0);
    assert_eq!(vb.min_y(), 0);
    assert_eq!(vb.max_x(), 1);
    assert_eq!(vb.max_y(), 1);
}

#[test]
fn line_viewbox_ignores_radius() {
    let style = Style { radius: 100, ..plain() };
    let line = Line::new(Coord { x: 0, y: 0 }, Coord { x: 10, y: 0 });
    let vb = line.viewbox(&style);
    assert_eq!(vb.min_x(), 0);
    assert_eq!(vb.max_x(), 10);
}

#[test]
fn line_viewbox_inflated_only_by_set_stroke_width() {
    let line = Line::new(Coord { x: 0, y: 0 }, Coord { x: 10, y: 0 });
    let stroked = Style { stroke_width: Some(2), ..plain() };
    let vb = line.viewbox(&stroked);
    assert_eq!(vb.min_x(), -2);
    assert_eq!(vb.max_x(), 12);
    assert_eq!(vb.min_y(), -2);
    assert_eq!(vb.max_y(), 2);
}

#[test]
fn linestring_renders_single_path() {
    let ls = LineString(vec![
        Coord { x: 0, y: 0 },
        Coord { x: 10, y: 0 },
        Coord { x: 10, y: 10 },
    ]);
    assert_eq!(ls.to_svg_str(&plain()), "<path d=\"M 0 0 L 10 0 L 10 10\"/>");
}

#[test]
fn short_linestrings_render_to_nothing() {
    assert_eq!(LineString(vec![]).to_svg_str(&plain()), "");
    assert_eq!(LineString(vec![Coord { x: 1, y: 2 }]).to_svg_str(&plain()), "");
    assert_eq!(LineString(vec![]).viewbox(&plain()), geo_svg::ViewBox::default());
}

#[test]
fn polygon_single_ring() {
    let poly = Polygon::new(
        LineString(vec![
            Coord { x: 0, y: 0 },
            Coord { x: 10, y: 0 },
            Coord { x: 10, y: 10 },
            Coord { x: 0, y: 10 },
        ]),
        vec![],
    );
    let frag = poly.to_svg_str(&plain());
    assert_eq!(
        frag,
        "<path fill-rule=\"evenodd\" d=\"M 0 0 L 10 0 L 10 10 L 0 10 Z \"/>"
    );
    let vb = poly.viewbox(&plain());
    assert_eq!(vb.min_x(), 0);
    assert_eq!(vb.min_y(), 0);
    assert_eq!(vb.max_x(), 10);
    assert_eq!(vb.max_y(), 10);
}

#[test]
fn polygon_interior_rings_are_closed_subpaths() {
    let poly = Polygon::new(
        LineString(vec![
            Coord { x: 0, y: 0 },
            Coord { x: 30, y: 0 },
            Coord { x: 30, y: 30 },
            Coord { x: 0, y: 30 },
        ]),
        vec![LineString(vec![
            Coord { x: 10, y: 10 },
            Coord { x: 20, y: 10 },
            Coord { x: 20, y: 20 },
            Coord { x: 10, y: 20 },
        ])],
    );
    let frag = poly.to_svg_str(&plain());
    assert_eq!(
        frag,
        "<path fill-rule=\"evenodd\" d=\"M 0 0 L 30 0 L 30 30 L 0 30 Z M 10 10 L 20 10 L 20 20 L 10 20 Z \"/>"
    );
    assert_eq!(frag.matches(" Z ").count(), 2);
}

#[test]
fn empty_ring_is_a_no_op() {
    let poly = Polygon::new(LineString(vec![]), vec![]);
    assert_eq!(poly.to_svg_str(&plain()), "<path fill-rule=\"evenodd\" d=\"\"/>");
}

#[test]
fn rect_renders_as_four_corner_polygon() {
    let rect = Rect::new(Coord { x: 10, y: 20 }, Coord { x: 0, y: 0 });
    assert_eq!(rect.min, Coord { x: 0, y: 0 });
    assert_eq!(rect.max, Coord { x: 10, y: 20 });
    assert_eq!(
        rect.to_svg_str(&plain()),
        rect.to_polygon().to_svg_str(&plain())
    );
    assert_eq!(
        rect.to_svg_str(&plain()),
        "<path fill-rule=\"evenodd\" d=\"M 10 0 L 10 20 L 0 20 L 0 0 Z \"/>"
    );
}

#[test]
fn triangle_renders_as_three_vertex_polygon() {
    let tri = Triangle(Coord { x: 0, y: 0 }, Coord { x: 4, y: 0 }, Coord { x: 2, y: 3 });
    assert_eq!(tri.to_svg_str(&plain()), tri.to_polygon().to_svg_str(&plain()));
    assert_eq!(
        tri.to_svg_str(&plain()),
        "<path fill-rule=\"evenodd\" d=\"M 0 0 L 4 0 L 2 3 Z \"/>"
    );
}

#[test]
fn multipoint_concatenates_in_order() {
    let mp = MultiPoint(vec![Point::new(0, 0), Point::new(5, 5)]);
    let expected = format!(
        "{}{}",
        Point::new(0, 0).to_svg_str(&plain()),
        Point::new(5, 5).to_svg_str(&plain())
    );
    assert_eq!(mp.to_svg_str(&plain()), expected);
    let vb = mp.viewbox(&plain());
    assert_eq!(vb.min_x(), -2);
    assert_eq!(vb.max_x(), 7);
}

#[test]
fn multilinestring_concatenates_in_order() {
    let a = LineString(vec![Coord { x: 0, y: 0 }, Coord { x: 1, y: 0 }]);
    let b = LineString(vec![Coord { x: 2, y: 2 }, Coord { x: 3, y: 2 }]);
    let expected = format!("{}{}", a.to_svg_str(&plain()), b.to_svg_str(&plain()));
    let mls = MultiLineString(vec![a, b]);
    assert_eq!(mls.to_svg_str(&plain()), expected);
}

#[test]
fn multipolygon_concatenates_in_order() {
    let a = Polygon::new(
        LineString(vec![Coord { x: 0, y: 0 }, Coord { x: 1, y: 0 }, Coord { x: 0, y: 1 }]),
        vec![],
    );
    let b = Polygon::new(
        LineString(vec![Coord { x: 5, y: 5 }, Coord { x: 6, y: 5 }, Coord { x: 5, y: 6 }]),
        vec![],
    );
    let expected = format!("{}{}", a.to_svg_str(&plain()), b.to_svg_str(&plain()));
    let mp = MultiPolygon(vec![a, b]);
    assert_eq!(mp.to_svg_str(&plain()), expected);
}

#[test]
fn collection_fragment_is_ordered_concatenation() {
    let point = Geometry::Point(Point::new(1, 2));
    let line = Geometry::Line(Line::new(Coord { x: 0, y: 0 }, Coord { x: 3, y: 3 }));
    let ls = Geometry::LineString(LineString(vec![
        Coord { x: 9, y: 9 },
        Coord { x: 9, y: 0 },
    ]));
    let expected = format!(
        "{}{}{}",
        point.to_svg_str(&plain()),
        line.to_svg_str(&plain()),
        ls.to_svg_str(&plain())
    );
    let gc = GeometryCollection(vec![point, line, ls]);
    assert_eq!(gc.to_svg_str(&plain()), expected);
}

#[test]
fn nested_collections_render() {
    let inner = GeometryCollection(vec![Geometry::Point(Point::new(1, 1))]);
    let outer = GeometryCollection(vec![
        Geometry::Point(Point::new(0, 0)),
        Geometry::GeometryCollection(inner),
    ]);
    let expected = format!(
        "{}{}",
        Point::new(0, 0).to_svg_str(&plain()),
        Point::new(1, 1).to_svg_str(&plain())
    );
    assert_eq!(outer.to_svg_str(&plain()), expected);
    let vb = outer.viewbox(&plain());
    assert_eq!(vb.min_x(), -2);
    assert_eq!(vb.max_x(), 3);
}

#[test]
fn empty_collection_renders_to_nothing() {
    let gc = GeometryCollection(vec![]);
    assert_eq!(gc.to_svg_str(&plain()), "");
    assert_eq!(gc.viewbox(&plain()), geo_svg::ViewBox::default());
}

#[test]
fn vec_of_shapes_renders_each_in_order() {
    let pts = vec![Point::new(0, 0), Point::new(9, 9)];
    let expected = format!(
        "{}{}",
        Point::new(0, 0).to_svg_str(&plain()),
        Point::new(9, 9).to_svg_str(&plain())
    );
    assert_eq!(pts.to_svg_str(&plain()), expected);
}

#[test]
fn text_fragment_exact() {
    let label = Text::new(String::from("hello"), Coord { x: 3, y: 4 });
    assert_eq!(
        label.to_svg_str(&plain()),
        "<text font-size=\"10\" x=\"3\" y=\"4\">hello</text>"
    );
    let resized = label.with_font_size(24);
    assert_eq!(
        resized.to_svg_str(&plain()),
        "<text font-size=\"24\" x=\"3\" y=\"4\">hello</text>"
    );
    assert_eq!(resized.viewbox(&plain()), geo_svg::ViewBox::default());
}

#[test]
fn fragment_with_full_style() {
    let style = Style {
        opacity: None,
        fill: Some(Color::Rgb(1, 2, 3)),
        fill_opacity: None,
        stroke_color: Some(Color::Hex(0xFF)),
        stroke_width: Some(4),
        stroke_opacity: None,
        radius: 7,
    };
    let frag = Point::new(0, 0).to_svg_str(&style);
    assert_eq!(
        frag,
        "<circle cx=\"0\" cy=\"0\" r=\"7\" fill=\"rgb(1,2,3)\" stroke=\"0xFF\" stroke-width=\"4\"/>"
    );
}

#[test]
fn slice_of_shapes_renders_each_in_order() {
    let pts = [Point::new(2, 2), Point::new(-1, 0)];
    let expected = format!(
        "{}{}",
        Point::new(2, 2).to_svg_str(&plain()),
        Point::new(-1, 0).to_svg_str(&plain())
    );
    assert_eq!((&pts[..]).to_svg_str(&plain()), expected);
    let vb = (&pts[..]).viewbox(&plain());
    assert_eq!(vb.min_x(), -3);
    assert_eq!(vb.max_x(), 4);
}
