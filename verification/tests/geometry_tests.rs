use raylock::geometry::{
    get_corner_points, get_corners, rotate_180, rotate_270, rotate_90, scale, translate,
    CornerTypes, Point, Rect, Theme,
};

fn pt(x: i64, y: i64) -> Point {
    Point { x, y }
}

#[test]
fn corner_templates_match_styles() {
    assert_eq!(get_corner_points(CornerTypes::SQUARE), vec![pt(0, 0)]);
    assert_eq!(get_corner_points(CornerTypes::Ang45), vec![pt(0, 2), pt(2, 0)]);
    assert_eq!(get_corner_points(CornerTypes::Ang30), vec![pt(0, 1), pt(2, 0)]);
    assert_eq!(get_corner_points(CornerTypes::Ang60), vec![pt(0, 2), pt(1, 0)]);
}

#[test]
fn rotation_four_times_is_identity() {
    // A two-point corner template returns to itself after four quarter turns.
    for style in [CornerTypes::Ang30, CornerTypes::Ang45, CornerTypes::Ang60] {
        let original = get_corner_points(style);
        let rotated = rotate_90(rotate_90(rotate_90(rotate_90(original.clone()))));
        assert_eq!(rotated, original);
    }
}

#[test]
fn rotations_compose() {
    let original = vec![pt(3, 5), pt(-2, 7)];
    assert_eq!(
        rotate_180(original.clone()),
        rotate_90(rotate_90(original.clone()))
    );
    assert_eq!(
        rotate_270(original.clone()),
        rotate_90(rotate_180(original.clone()))
    );
}

#[test]
fn translate_and_scale_are_elementwise() {
    let points = vec![pt(1, 2), pt(-3, 4)];
    assert_eq!(
        translate(points.clone(), pt(10, 20)),
        vec![pt(11, 22), pt(7, 24)]
    );
    assert_eq!(scale(points, 3), vec![pt(3, 6), pt(-9, 12)]);
}

#[test]
fn all_square_border_degenerates_to_inset_rect() {
    // With four square corners the outline is the gap-inset rectangle.
    let theme = Theme::default();
    let rect = Rect { min: pt(0, 0), max: pt(100, 80) };
    let outline = get_corners(rect, [CornerTypes::SQUARE; 4], &theme);
    assert_eq!(outline, vec![pt(6, 6), pt(94, 6), pt(94, 74), pt(6, 74)]);
}

#[test]
fn angled_border_has_eight_points() {
    let theme = Theme::default();
    let rect = Rect { min: pt(0, 0), max: pt(400, 400) };
    let outline = get_corners(rect, [CornerTypes::Ang45; 4], &theme);
    assert_eq!(
        outline,
        vec![
            pt(6, 76),
            pt(76, 6),
            pt(324, 6),
            pt(394, 76),
            pt(394, 324),
            pt(324, 394),
            pt(76, 394),
            pt(6, 324),
        ]
    );
}

#[test]
fn mixed_border_follows_each_corner_style() {
    let theme = Theme::default();
    let rect = Rect { min: pt(0, 0), max: pt(400, 400) };
    let outline = get_corners(
        rect,
        [
            CornerTypes::Ang30,
            CornerTypes::Ang60,
            CornerTypes::SQUARE,
            CornerTypes::SQUARE,
        ],
        &theme,
    );
    // Top-left shallow cut, top-right steep cut, plain bottom corners.
    assert_eq!(
        outline,
        vec![
            pt(6, 41),
            pt(76, 6),
            pt(324, 6),
            pt(394, 41),
            pt(394, 394),
            pt(6, 394),
        ]
    );
}
