//! Integer geometry kernel: points, rectangles, the elementwise transforms
//! (translate, scale, quarter-turn rotations) and the parametric corner-cut
//! templates from which a pane's decorative border outline is assembled.
//!
//! Coordinates are integer pixels.  Corner templates are expressed in
//! half-cut units (the unit square scaled by two), so that the shallow and
//! steep cuts keep integer coordinates; scaling a template by the theme's
//! half-cut length yields the final cut size.

use vstd::prelude::*;

verus! {

/// Largest magnitude a point coordinate may have anywhere in the library.
pub const COORD_LIMIT: i64 = 1_000_000_000;

/// Largest magnitude a rectangle handed to the layout pass may have; the
/// head room below `COORD_LIMIT` absorbs the gap inset and the corner cuts.
pub const LAYOUT_LIMIT: i64 = 990_000_000;

/// Largest value a theme length (gap, cut, row height) may have.
pub const THEME_LIMIT: i64 = 1_000_000;

#[derive(Clone, Copy, PartialEq, Eq, Structural, Debug)]
pub struct Point {
    pub x: i64,
    pub y: i64,
}

#[derive(Clone, Copy, PartialEq, Eq, Structural, Debug)]
pub struct Rect {
    pub min: Point,
    pub max: Point,
}

pub open spec fn point_in_bounds(p: Point) -> bool {
    &&& -COORD_LIMIT <= p.x <= COORD_LIMIT
    &&& -COORD_LIMIT <= p.y <= COORD_LIMIT
}

pub open spec fn points_in_bounds(s: Seq<Point>) -> bool {
    forall|i: int| 0 <= i < s.len() ==> point_in_bounds(#[trigger] s[i])
}

pub open spec fn rect_wf(r: Rect) -> bool {
    r.min.x <= r.max.x && r.min.y <= r.max.y
}

pub open spec fn point_in_layout_bounds(p: Point) -> bool {
    &&& -LAYOUT_LIMIT <= p.x <= LAYOUT_LIMIT
    &&& -LAYOUT_LIMIT <= p.y <= LAYOUT_LIMIT
}

pub open spec fn rect_in_layout_bounds(r: Rect) -> bool {
    point_in_layout_bounds(r.min) && point_in_layout_bounds(r.max)
}

pub open spec fn rect_width(r: Rect) -> int {
    r.max.x - r.min.x
}

pub open spec fn rect_height(r: Rect) -> int {
    r.max.y - r.min.y
}

/// Visual theme lengths, threaded explicitly through layout instead of
/// living as ambient globals.
#[derive(Clone, Copy, PartialEq, Eq, Structural, Debug)]
pub struct Theme {
    /// Inset between a pane's assigned rectangle and its border outline.
    pub pane_gap: i64,
    /// Half of the corner-cut length; templates are in half-cut units.
    pub corner_half_cut: i64,
    /// Height of one process-table row.
    pub row_height: i64,
    /// Height of the process-table header bar.
    pub bar_height: i64,
}

pub open spec fn theme_wf(t: Theme) -> bool {
    &&& 0 <= t.pane_gap <= THEME_LIMIT
    &&& 0 <= t.corner_half_cut <= THEME_LIMIT
    &&& 1 <= t.row_height <= THEME_LIMIT
    &&& 0 <= t.bar_height <= THEME_LIMIT
}

impl Default for Theme {
    /// The stock theme of the lock screen: a six-pixel gap, a seventy-pixel
    /// corner cut, and the process-table row metrics.
    fn default() -> (t: Theme)
        ensures
            t == (Theme { pane_gap: 6i64, corner_half_cut: 35i64, row_height: 24i64, bar_height: 16i64 }),
            theme_wf(t),
    {
        Theme { pane_gap: 6, corner_half_cut: 35, row_height: 24, bar_height: 16 }
    }
}

/// The four corner-cut styles of a leaf border.
#[derive(Clone, Copy, PartialEq, Eq, Structural, Debug)]
pub enum CornerTypes {
    SQUARE,
    Ang45,
    Ang30,
    Ang60,
}

/// Canonical top-left template of a corner style, in half-cut units.
pub open spec fn corner_template(ctype: CornerTypes) -> Seq<Point> {
    match ctype {
        CornerTypes::SQUARE => seq![Point { x: 0, y: 0 }],
        CornerTypes::Ang45 => seq![Point { x: 0, y: 2 }, Point { x: 2, y: 0 }],
        CornerTypes::Ang30 => seq![Point { x: 0, y: 1 }, Point { x: 2, y: 0 }],
        CornerTypes::Ang60 => seq![Point { x: 0, y: 2 }, Point { x: 1, y: 0 }],
    }
}

pub open spec fn translate_spec(s: Seq<Point>, off: Point) -> Seq<Point> {
    Seq::new(s.len(), |i: int| Point { x: (s[i].x + off.x) as i64, y: (s[i].y + off.y) as i64 })
}

pub open spec fn scale_spec(s: Seq<Point>, factor: int) -> Seq<Point> {
    Seq::new(s.len(), |i: int| Point { x: (s[i].x * factor) as i64, y: (s[i].y * factor) as i64 })
}

pub open spec fn rotate_90_spec(s: Seq<Point>) -> Seq<Point> {
    Seq::new(s.len(), |i: int| Point { x: (-s[i].y) as i64, y: s[i].x })
}

pub open spec fn rotate_180_spec(s: Seq<Point>) -> Seq<Point> {
    Seq::new(s.len(), |i: int| Point { x: (-s[i].x) as i64, y: (-s[i].y) as i64 })
}

pub open spec fn rotate_270_spec(s: Seq<Point>) -> Seq<Point> {
    Seq::new(s.len(), |i: int| Point { x: s[i].y, y: (-s[i].x) as i64 })
}

/// Both coordinates of every point stay within bounds after adding `off`.
pub open spec fn translate_ok(s: Seq<Point>, off: Point) -> bool {
    forall|i: int| 0 <= i < s.len() ==> {
        let p = #[trigger] s[i];
        &&& -COORD_LIMIT <= p.x + off.x <= COORD_LIMIT
        &&& -COORD_LIMIT <= p.y + off.y <= COORD_LIMIT
    }
}

/// Both coordinates of every point stay within bounds after scaling.
pub open spec fn scale_ok(s: Seq<Point>, factor: int) -> bool {
    forall|i: int| 0 <= i < s.len() ==> {
        let p = #[trigger] s[i];
        &&& -COORD_LIMIT <= p.x * factor <= COORD_LIMIT
        &&& -COORD_LIMIT <= p.y * factor <= COORD_LIMIT
    }
}

/// Moves every point of the list by the given offset.
pub fn translate(points: Vec<Point>, off: Point) -> (r: Vec<Point>)
    requires
        translate_ok(points@, off),
    ensures
        r@ == translate_spec(points@, off),
        points_in_bounds(r@),
{
    let ghost orig = points@;
    let mut points = points;
    let n = points.len();
    let mut i: usize = 0;
    while i < n
        invariant
            n == orig.len(),
            points@.len() == n,
            i <= n,
            translate_ok(orig, off),
            forall|j: int| 0 <= j < i ==> points@[j] == translate_spec(orig, off)[j],
            forall|j: int| i <= j < n ==> points@[j] == orig[j],
        decreases n - i,
    {
        let p = points[i];
        proof {
            assert(p == orig[i as int]);
        }
        points.set(i, Point { x: p.x + off.x, y: p.y + off.y });
        i = i + 1;
    }
    assert(points@ =~= translate_spec(orig, off));
    points
}

/// Scales every point of the list by the given factor, elementwise.
pub fn scale(points: Vec<Point>, factor: i64) -> (r: Vec<Point>)
    requires
        scale_ok(points@, factor as int),
    ensures
        r@ == scale_spec(points@, factor as int),
        points_in_bounds(r@),
{
    let ghost orig = points@;
    let mut points = points;
    let n = points.len();
    let mut i: usize = 0;
    while i < n
        invariant
            n == orig.len(),
            points@.len() == n,
            i <= n,
            scale_ok(orig, factor as int),
            forall|j: int| 0 <= j < i ==> points@[j] == scale_spec(orig, factor as int)[j],
            forall|j: int| i <= j < n ==> points@[j] == orig[j],
        decreases n - i,
    {
        let p = points[i];
        proof {
            assert(p == orig[i as int]);
        }
        points.set(i, Point { x: p.x * factor, y: p.y * factor });
        i = i + 1;
    }
    assert(points@ =~= scale_spec(orig, factor as int));
    points
}

/// Rotates every point a quarter turn about the origin.
pub fn rotate_90(points: Vec<Point>) -> (r: Vec<Point>)
    requires
        points_in_bounds(points@),
    ensures
        r@ == rotate_90_spec(points@),
        points_in_bounds(r@),
{
    let ghost orig = points@;
    let mut points = points;
    let n = points.len();
    let mut i: usize = 0;
    while i < n
        invariant
            n == orig.len(),
            points@.len() == n,
            i <= n,
            points_in_bounds(orig),
            forall|j: int| 0 <= j < i ==> points@[j] == rotate_90_spec(orig)[j],
            forall|j: int| i <= j < n ==> points@[j] == orig[j],
        decreases n - i,
    {
        let p = points[i];
        proof {
            assert(p == orig[i as int]);
        }
        points.set(i, Point { x: -p.y, y: p.x });
        i = i + 1;
    }
    assert(points@ =~= rotate_90_spec(orig));
    points
}

/// Rotates every point a half turn about the origin.
pub fn rotate_180(points: Vec<Point>) -> (r: Vec<Point>)
    requires
        points_in_bounds(points@),
    ensures
        r@ == rotate_180_spec(points@),
        points_in_bounds(r@),
{
    let ghost orig = points@;
    let mut points = points;
    let n = points.len();
    let mut i: usize = 0;
    while i < n
        invariant
            n == orig.len(),
            points@.len() == n,
            i <= n,
            points_in_bounds(orig),
            forall|j: int| 0 <= j < i ==> points@[j] == rotate_180_spec(orig)[j],
            forall|j: int| i <= j < n ==> points@[j] == orig[j],
        decreases n - i,
    {
        let p = points[i];
        proof {
            assert(p == orig[i as int]);
        }
        points.set(i, Point { x: -p.x, y: -p.y });
        i = i + 1;
    }
    assert(points@ =~= rotate_180_spec(orig));
    points
}

/// Rotates every point three quarter turns about the origin.
pub fn rotate_270(points: Vec<Point>) -> (r: Vec<Point>)
    requires
        points_in_bounds(points@),
    ensures
        r@ == rotate_270_spec(points@),
        points_in_bounds(r@),
{
    let ghost orig = points@;
    let mut points = points;
    let n = points.len();
    let mut i: usize = 0;
    while i < n
        invariant
            n == orig.len(),
            points@.len() == n,
            i <= n,
            points_in_bounds(orig),
            forall|j: int| 0 <= j < i ==> points@[j] == rotate_270_spec(orig)[j],
            forall|j: int| i <= j < n ==> points@[j] == orig[j],
        decreases n - i,
    {
        let p = points[i];
        proof {
            assert(p == orig[i as int]);
        }
        points.set(i, Point { x: p.y, y: -p.x });
        i = i + 1;
    }
    assert(points@ =~= rotate_270_spec(orig));
    points
}

/// Four quarter turns bring every point list back to itself.
pub proof fn lemma_rotation_closure(s: Seq<Point>)
    requires
        points_in_bounds(s),
    ensures
        rotate_90_spec(rotate_90_spec(rotate_90_spec(rotate_90_spec(s)))) == s,
{
    assert(rotate_90_spec(rotate_90_spec(rotate_90_spec(rotate_90_spec(s)))) =~= s);
}

/// Returns the canonical template of a corner style, in half-cut units.
pub fn get_corner_points(ctype: CornerTypes) -> (r: Vec<Point>)
    ensures
        r@ == corner_template(ctype),
{
    match ctype {
        CornerTypes::SQUARE => {
            let r = vec![Point { x: 0, y: 0 }];
            assert(r@ =~= corner_template(CornerTypes::SQUARE));
            r
        },
        CornerTypes::Ang45 => {
            let r = vec![Point { x: 0, y: 2 }, Point { x: 2, y: 0 }];
            assert(r@ =~= corner_template(CornerTypes::Ang45));
            r
        },
        CornerTypes::Ang30 => {
            let r = vec![Point { x: 0, y: 1 }, Point { x: 2, y: 0 }];
            assert(r@ =~= corner_template(CornerTypes::Ang30));
            r
        },
        CornerTypes::Ang60 => {
            let r = vec![Point { x: 0, y: 2 }, Point { x: 1, y: 0 }];
            assert(r@ =~= corner_template(CornerTypes::Ang60));
            r
        },
    }
}

/// One transformed corner group of the border outline: the style's template,
/// rotated into the corner's quadrant, scaled by the half-cut length and
/// translated to the corner of the inset rectangle.
pub open spec fn corner_group(
    ctype: CornerTypes,
    quarter_turns: int,
    off: Point,
    h: int,
) -> Seq<Point> {
    let t = corner_template(ctype);
    let rotated = if quarter_turns == 1 {
        rotate_90_spec(t)
    } else if quarter_turns == 2 {
        rotate_180_spec(t)
    } else if quarter_turns == 3 {
        rotate_270_spec(t)
    } else {
        t
    };
    translate_spec(scale_spec(rotated, h), off)
}

/// The full border outline of a rectangle: the rectangle is inset by `gap`
/// on all sides, and the four corner groups are laid down clockwise from
/// the top-left.
pub open spec fn border_spec(
    rect: Rect,
    c0: CornerTypes,
    c1: CornerTypes,
    c2: CornerTypes,
    c3: CornerTypes,
    gap: int,
    h: int,
) -> Seq<Point> {
    let left = (rect.min.x + gap) as i64;
    let right = (rect.max.x - gap) as i64;
    let top = (rect.min.y + gap) as i64;
    let bottom = (rect.max.y - gap) as i64;
    corner_group(c0, 0, Point { x: left, y: top }, h)
        + corner_group(c1, 1, Point { x: right, y: top }, h)
        + corner_group(c2, 2, Point { x: right, y: bottom }, h)
        + corner_group(c3, 3, Point { x: left, y: bottom }, h)
}

/// Number of outline points a corner style contributes.
pub open spec fn corner_arity(ctype: CornerTypes) -> int {
    match ctype {
        CornerTypes::SQUARE => 1,
        _ => 2,
    }
}

pub proof fn lemma_template_bounds(ctype: CornerTypes)
    ensures
        corner_template(ctype).len() == corner_arity(ctype),
        forall|i: int| 0 <= i < corner_template(ctype).len() ==> {
            let p = #[trigger] corner_template(ctype)[i];
            0 <= p.x <= 2 && 0 <= p.y <= 2
        },
{
}

/// Builds the border outline of `rect` with the given corner styles,
/// inset by the theme's gap and cut to the theme's corner length.
pub fn get_corners(rect: Rect, corners: [CornerTypes; 4], theme: &Theme) -> (r: Vec<Point>)
    requires
        rect_in_layout_bounds(rect),
        theme_wf(*theme),
    ensures
        r@ == border_spec(
            rect,
            corners@[0],
            corners@[1],
            corners@[2],
            corners@[3],
            theme.pane_gap as int,
            theme.corner_half_cut as int,
        ),
        points_in_bounds(r@),
        r@.len() == corner_arity(corners@[0]) + corner_arity(corners@[1])
            + corner_arity(corners@[2]) + corner_arity(corners@[3]),
{
    let h = theme.corner_half_cut;
    let left = rect.min.x + theme.pane_gap;
    let right = rect.max.x - theme.pane_gap;
    let top = rect.min.y + theme.pane_gap;
    let bottom = rect.max.y - theme.pane_gap;

    proof {
        lemma_template_bounds(corners@[0]);
        lemma_template_bounds(corners@[1]);
        lemma_template_bounds(corners@[2]);
        lemma_template_bounds(corners@[3]);
    }

    let t0 = get_corner_points(corners[0]);
    let t1 = rotate_90(get_corner_points(corners[1]));
    let t2 = rotate_180(get_corner_points(corners[2]));
    let t3 = rotate_270(get_corner_points(corners[3]));

    proof {
        lemma_scale_small(t0@, h as int);
        lemma_scale_small(t1@, h as int);
        lemma_scale_small(t2@, h as int);
        lemma_scale_small(t3@, h as int);
    }

    let s0 = scale(t0, h);
    let s1 = scale(t1, h);
    let s2 = scale(t2, h);
    let s3 = scale(t3, h);

    proof {
        lemma_translate_small(s0@, Point { x: left, y: top });
        lemma_translate_small(s1@, Point { x: right, y: top });
        lemma_translate_small(s2@, Point { x: right, y: bottom });
        lemma_translate_small(s3@, Point { x: left, y: bottom });
    }

    let mut points = translate(s0, Point { x: left, y: top });
    let mut g1 = translate(s1, Point { x: right, y: top });
    let mut g2 = translate(s2, Point { x: right, y: bottom });
    let mut g3 = translate(s3, Point { x: left, y: bottom });

    points.append(&mut g1);
    points.append(&mut g2);
    points.append(&mut g3);
    points
}

/// Coordinates of a rotated template stay within two half-cut units, so
/// scaling by the half-cut length stays within bounds.
proof fn lemma_scale_small(s: Seq<Point>, h: int)
    requires
        0 <= h <= THEME_LIMIT,
        forall|i: int| 0 <= i < s.len() ==> {
            let p = #[trigger] s[i];
            -2 <= p.x <= 2 && -2 <= p.y <= 2
        },
    ensures
        scale_ok(s, h),
        forall|i: int| 0 <= i < scale_spec(s, h).len() ==> {
            let p = #[trigger] scale_spec(s, h)[i];
            -2 * THEME_LIMIT <= p.x <= 2 * THEME_LIMIT && -2 * THEME_LIMIT <= p.y <= 2 * THEME_LIMIT
        },
{
    assert forall|i: int| 0 <= i < s.len() implies {
        let p = #[trigger] s[i];
        &&& -COORD_LIMIT <= p.x * h <= COORD_LIMIT
        &&& -COORD_LIMIT <= p.y * h <= COORD_LIMIT
        &&& -2 * THEME_LIMIT <= p.x * h <= 2 * THEME_LIMIT
        &&& -2 * THEME_LIMIT <= p.y * h <= 2 * THEME_LIMIT
    } by {
        let p = s[i];
        assert(-2 * THEME_LIMIT <= p.x * h <= 2 * THEME_LIMIT) by (nonlinear_arith)
            requires
                -2 <= p.x <= 2,
                0 <= h <= THEME_LIMIT,
        {}
        assert(-2 * THEME_LIMIT <= p.y * h <= 2 * THEME_LIMIT) by (nonlinear_arith)
            requires
                -2 <= p.y <= 2,
                0 <= h <= THEME_LIMIT,
        {}
    }
}

/// Translating a scaled corner group to an inset corner of a layout-bounded
/// rectangle stays within the global coordinate bounds.
proof fn lemma_translate_small(s: Seq<Point>, off: Point)
    requires
        forall|i: int| 0 <= i < s.len() ==> {
            let p = #[trigger] s[i];
            -2 * THEME_LIMIT <= p.x <= 2 * THEME_LIMIT && -2 * THEME_LIMIT <= p.y <= 2 * THEME_LIMIT
        },
        -LAYOUT_LIMIT - THEME_LIMIT <= off.x <= LAYOUT_LIMIT + THEME_LIMIT,
        -LAYOUT_LIMIT - THEME_LIMIT <= off.y <= LAYOUT_LIMIT + THEME_LIMIT,
    ensures
        translate_ok(s, off),
{
}

/// With four square corners the border outline degenerates to the four
/// corners of the inset rectangle, clockwise from the top-left.
pub proof fn lemma_border_all_square(rect: Rect, gap: int, h: int)
    requires
        rect_in_layout_bounds(rect),
        0 <= gap <= THEME_LIMIT,
        0 <= h <= THEME_LIMIT,
    ensures
        border_spec(rect, CornerTypes::SQUARE, CornerTypes::SQUARE, CornerTypes::SQUARE,
            CornerTypes::SQUARE, gap, h)
            == seq![
                Point { x: (rect.min.x + gap) as i64, y: (rect.min.y + gap) as i64 },
                Point { x: (rect.max.x - gap) as i64, y: (rect.min.y + gap) as i64 },
                Point { x: (rect.max.x - gap) as i64, y: (rect.max.y - gap) as i64 },
                Point { x: (rect.min.x + gap) as i64, y: (rect.max.y - gap) as i64 },
            ],
{
    let b = border_spec(rect, CornerTypes::SQUARE, CornerTypes::SQUARE, CornerTypes::SQUARE,
        CornerTypes::SQUARE, gap, h);
    let left = (rect.min.x + gap) as i64;
    let right = (rect.max.x - gap) as i64;
    let top = (rect.min.y + gap) as i64;
    let bottom = (rect.max.y - gap) as i64;
    assert(0 * h == 0);
    assert(scale_spec(corner_template(CornerTypes::SQUARE), h)[0] == (Point { x: 0i64, y: 0i64 }));
    assert(corner_group(CornerTypes::SQUARE, 0, Point { x: left, y: top }, h)
        =~= seq![Point { x: left, y: top }]);
    assert(corner_group(CornerTypes::SQUARE, 1, Point { x: right, y: top }, h)
        =~= seq![Point { x: right, y: top }]);
    assert(corner_group(CornerTypes::SQUARE, 2, Point { x: right, y: bottom }, h)
        =~= seq![Point { x: right, y: bottom }]);
    assert(corner_group(CornerTypes::SQUARE, 3, Point { x: left, y: bottom }, h)
        =~= seq![Point { x: left, y: bottom }]);
    assert(b =~= seq![
        Point { x: (rect.min.x + gap) as i64, y: (rect.min.y + gap) as i64 },
        Point { x: (rect.max.x - gap) as i64, y: (rect.min.y + gap) as i64 },
        Point { x: (rect.max.x - gap) as i64, y: (rect.max.y - gap) as i64 },
        Point { x: (rect.min.x + gap) as i64, y: (rect.max.y - gap) as i64 },
    ]);
}

} // verus!
