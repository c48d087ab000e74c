use raylock::geometry::{get_corners, CornerTypes, Point, Rect, Theme};
use raylock::inscribe::{centroid, find_largest_rectangle, point_in_polygon, sort_clockwise};

fn pt(x: i64, y: i64) -> Point {
    Point { x, y }
}

#[test]
fn fewer_than_four_points_give_nothing() {
    assert_eq!(find_largest_rectangle(&vec![]), None);
    assert_eq!(find_largest_rectangle(&vec![pt(0, 0)]), None);
    assert_eq!(
        find_largest_rectangle(&vec![pt(0, 0), pt(10, 0), pt(10, 10)]),
        None
    );
}

#[test]
fn square_outline_yields_margin_inset_rectangle() {
    // The bounding box of the four vertices, shrunk by the one-pixel margin.
    let outline = vec![pt(6, 6), pt(954, 6), pt(954, 1074), pt(6, 1074)];
    let inner = find_largest_rectangle(&outline).unwrap();
    assert_eq!(inner, Rect { min: pt(7, 7), max: pt(953, 1073) });
}

#[test]
fn tiny_outline_yields_nothing() {
    // Shrinking a two-pixel box by the margin leaves nothing of positive area.
    let outline = vec![pt(0, 0), pt(2, 0), pt(2, 2), pt(0, 2)];
    assert_eq!(find_largest_rectangle(&outline), None);
}

#[test]
fn inner_rectangle_corners_lie_inside_outline() {
    // Containment here is the ray-cast test against the outline sorted
    // clockwise around its centroid, for every corner of the result.
    let theme = Theme::default();
    let rect = Rect { min: pt(0, 0), max: pt(500, 300) };
    let styles = [
        CornerTypes::Ang60,
        CornerTypes::SQUARE,
        CornerTypes::SQUARE,
        CornerTypes::Ang30,
    ];
    let outline = get_corners(rect, styles, &theme);
    let inner = find_largest_rectangle(&outline).unwrap();
    assert_eq!(inner, Rect { min: pt(42, 7), max: pt(493, 293) });
    let c = centroid(&outline);
    let sorted = sort_clockwise(c, &outline);
    let corners = [
        inner.min,
        pt(inner.max.x, inner.min.y),
        inner.max,
        pt(inner.min.x, inner.max.y),
    ];
    for corner in corners {
        assert!(point_in_polygon(corner, &sorted));
    }
}

#[test]
fn symmetric_octagon_yields_centered_rectangle() {
    // All four corners cut at the same depth: the result sits centered in
    // the outline, and a second run returns exactly the same rectangle.
    let theme = Theme::default();
    let rect = Rect { min: pt(0, 0), max: pt(400, 400) };
    let outline = get_corners(rect, [CornerTypes::Ang45; 4], &theme);
    let first = find_largest_rectangle(&outline).unwrap();
    let second = find_largest_rectangle(&outline).unwrap();
    assert_eq!(first, second);
    assert_eq!(first.min.x + first.max.x, 400);
    assert_eq!(first.min.y + first.max.y, 400);
    assert_eq!(first, Rect { min: pt(7, 77), max: pt(393, 323) });
}

#[test]
fn repeated_vertices_are_harmless() {
    // A vertex supplied twice neither changes the result nor upsets the
    // clockwise sort, whose ties fall back to distance from the centre.
    let outline = vec![pt(0, 0), pt(10, 0), pt(10, 10), pt(0, 10), pt(0, 0)];
    let first = find_largest_rectangle(&outline);
    let second = find_largest_rectangle(&outline);
    assert_eq!(first, second);
    assert_eq!(first, Some(Rect { min: pt(1, 1), max: pt(9, 9) }));
}

#[test]
fn point_in_polygon_even_odd() {
    let square = vec![pt(0, 10), pt(10, 10), pt(10, 0), pt(0, 0)];
    assert!(point_in_polygon(pt(5, 5), &square));
    assert!(!point_in_polygon(pt(15, 5), &square));
    assert!(!point_in_polygon(pt(-3, 5), &square));
}
