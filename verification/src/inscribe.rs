//! Largest-inscribed-rectangle solver.
//!
//! Given the border outline of a pane (a small irregular polygon), the
//! solver enumerates every choice of four outline vertices, forms their
//! bounding rectangle shrunk by a one-pixel margin, keeps those whose four
//! corners pass an even-odd ray-cast against the outline sorted clockwise
//! around its centroid, and returns the first candidate of maximal area.
//!
//! The whole search is mirrored by specification functions, so the result
//! of [`find_largest_rectangle`] is pinned exactly: the same input always
//! yields the same rectangle.

use vstd::arithmetic::div_mod::{
    lemma_div_is_ordered, lemma_div_multiples_vanish, lemma_div_pos_is_pos,
};
use vstd::prelude::*;

use crate::geometry::{
    point_in_bounds, points_in_bounds, Point, Rect, COORD_LIMIT,
};

verus! {

/// Most points any polygon handed to the solver may have.
pub const MAX_POLY_POINTS: usize = 1000;

/// Division that truncates toward zero, as machine division does.
pub open spec fn div_trunc(a: int, b: int) -> int {
    if a >= 0 {
        a / b
    } else {
        -((-a) / b)
    }
}

proof fn lemma_div_trunc_bound(a: int, n: int, c: int)
    requires
        1 <= n,
        0 <= c,
        -(c * n) <= a <= c * n,
    ensures
        -c <= div_trunc(a, n) <= c,
{
    lemma_div_multiples_vanish(c, n);
    assert(n * c == c * n) by (nonlinear_arith);
    assert(c * n / n == c);
    if a >= 0 {
        lemma_div_pos_is_pos(a, n);
        lemma_div_is_ordered(a, c * n, n);
    } else {
        lemma_div_pos_is_pos(-a, n);
        lemma_div_is_ordered(-a, c * n, n);
    }
}

fn div_trunc_i64(a: i64, b: i64) -> (r: i64)
    requires
        b > 0,
        i64::MIN < a,
    ensures
        r as int == div_trunc(a as int, b as int),
{
    if a >= 0 {
        a / b
    } else {
        -((-a) / b)
    }
}

/// Sum of the x coordinates of the first `i` points.
pub open spec fn sum_x(s: Seq<Point>, i: int) -> int
    decreases i,
{
    if i <= 0 {
        0
    } else {
        sum_x(s, i - 1) + s[i - 1].x
    }
}

/// Sum of the y coordinates of the first `i` points.
pub open spec fn sum_y(s: Seq<Point>, i: int) -> int
    decreases i,
{
    if i <= 0 {
        0
    } else {
        sum_y(s, i - 1) + s[i - 1].y
    }
}

/// Integer centroid of a nonempty point list, coordinates truncated
/// toward zero.
pub open spec fn centroid_spec(s: Seq<Point>) -> Point {
    Point {
        x: div_trunc(sum_x(s, s.len() as int), s.len() as int) as i64,
        y: div_trunc(sum_y(s, s.len() as int), s.len() as int) as i64,
    }
}

/// Computes the integer centroid of a nonempty point list.
pub fn centroid(points: &Vec<Point>) -> (c: Point)
    requires
        1 <= points@.len() <= MAX_POLY_POINTS,
        points_in_bounds(points@),
    ensures
        c == centroid_spec(points@),
        point_in_bounds(c),
{
    let ghost s = points@;
    let n = points.len();
    let mut sx: i64 = 0;
    let mut sy: i64 = 0;
    let mut i: usize = 0;
    while i < n
        invariant
            i <= n,
            n == s.len(),
            n <= MAX_POLY_POINTS,
            points@ == s,
            points_in_bounds(s),
            sx as int == sum_x(s, i as int),
            sy as int == sum_y(s, i as int),
            -((i as int) * COORD_LIMIT) <= sx as int <= (i as int) * COORD_LIMIT,
            -((i as int) * COORD_LIMIT) <= sy as int <= (i as int) * COORD_LIMIT,
        decreases n - i,
    {
        let p = points[i];
        proof {
            assert(p == s[i as int]);
            assert(point_in_bounds(s[i as int]));
            assert(((i + 1) as int) * COORD_LIMIT == (i as int) * COORD_LIMIT + COORD_LIMIT)
                by (nonlinear_arith);
        }
        sx = sx + p.x;
        sy = sy + p.y;
        i = i + 1;
    }
    proof {
        assert((n as int) * COORD_LIMIT == COORD_LIMIT * (n as int)) by (nonlinear_arith);
        lemma_div_trunc_bound(sx as int, n as int, COORD_LIMIT as int);
        lemma_div_trunc_bound(sy as int, n as int, COORD_LIMIT as int);
    }
    let cx = div_trunc_i64(sx, n as i64);
    let cy = div_trunc_i64(sy, n as i64);
    Point { x: cx, y: cy }
}

/// Rank of a vector in descending angular order, starting on the negative
/// x axis and sweeping clockwise in screen coordinates.
pub open spec fn angle_rank(ux: int, uy: int) -> int {
    if uy == 0 && ux < 0 {
        0
    } else if uy > 0 {
        1
    } else if uy == 0 {
        2
    } else {
        3
    }
}

pub open spec fn cross(ux: int, uy: int, vx: int, vy: int) -> int {
    ux * vy - uy * vx
}

pub open spec fn norm2(ux: int, uy: int) -> int {
    ux * ux + uy * uy
}

/// Total clockwise-around-`c` order on points: `a` comes no later than `b`.
/// Vectors of equal direction are ordered by distance from the centre.
pub open spec fn clock_le(c: Point, a: Point, b: Point) -> bool {
    let ux = a.x - c.x;
    let uy = a.y - c.y;
    let vx = b.x - c.x;
    let vy = b.y - c.y;
    let ra = angle_rank(ux, uy);
    let rb = angle_rank(vx, vy);
    if ra != rb {
        ra < rb
    } else {
        let cr = cross(ux, uy, vx, vy);
        if cr != 0 {
            cr < 0
        } else {
            norm2(ux, uy) <= norm2(vx, vy)
        }
    }
}

proof fn lemma_mul_bound(a: int, b: int, m: int)
    by (nonlinear_arith)
    requires
        0 <= m,
        -m <= a <= m,
        -m <= b <= m,
    ensures
        -m * m <= a * b <= m * m,
{
}

/// Decides the clockwise order of `a` and `b` around `c`.
fn clock_le_exec(c: Point, a: Point, b: Point) -> (r: bool)
    requires
        point_in_bounds(c),
        point_in_bounds(a),
        point_in_bounds(b),
    ensures
        r == clock_le(c, a, b),
{
    let ux = a.x - c.x;
    let uy = a.y - c.y;
    let vx = b.x - c.x;
    let vy = b.y - c.y;
    let ra: i64 = if uy == 0 && ux < 0 {
        0
    } else if uy > 0 {
        1
    } else if uy == 0 {
        2
    } else {
        3
    };
    let rb: i64 = if vy == 0 && vx < 0 {
        0
    } else if vy > 0 {
        1
    } else if vy == 0 {
        2
    } else {
        3
    };
    if ra != rb {
        ra < rb
    } else {
        proof {
            lemma_mul_bound(ux as int, vy as int, 2_000_000_000int);
            lemma_mul_bound(uy as int, vx as int, 2_000_000_000int);
            lemma_mul_bound(ux as int, ux as int, 2_000_000_000int);
            lemma_mul_bound(uy as int, uy as int, 2_000_000_000int);
            lemma_mul_bound(vx as int, vx as int, 2_000_000_000int);
            lemma_mul_bound(vy as int, vy as int, 2_000_000_000int);
        }
        let cr = ux * vy - uy * vx;
        if cr != 0 {
            cr < 0
        } else {
            let na = ux * ux + uy * uy;
            let nb = vx * vx + vy * vy;
            na <= nb
        }
    }
}

/// Inserts `p` into a list at the first place where it comes no later in
/// the clockwise order than the element there.
pub open spec fn insert_clockwise(c: Point, p: Point, s: Seq<Point>) -> Seq<Point>
    decreases s.len(),
{
    if s.len() == 0 {
        seq![p]
    } else if clock_le(c, p, s[0]) {
        seq![p] + s
    } else {
        seq![s[0]] + insert_clockwise(c, p, s.drop_first())
    }
}

/// Insertion sort of a point list into clockwise order around `c`.
pub open spec fn sort_clockwise_spec(c: Point, s: Seq<Point>) -> Seq<Point>
    decreases s.len(),
{
    if s.len() == 0 {
        s
    } else {
        insert_clockwise(c, s[0], sort_clockwise_spec(c, s.drop_first()))
    }
}

/// The border outline as the containment test sees it: the input points
/// sorted clockwise around their integer centroid.
pub open spec fn sorted_outline(s: Seq<Point>) -> Seq<Point> {
    sort_clockwise_spec(centroid_spec(s), s)
}

proof fn lemma_insert_clockwise_props(c: Point, p: Point, s: Seq<Point>)
    requires
        point_in_bounds(p),
        points_in_bounds(s),
    ensures
        insert_clockwise(c, p, s).len() == s.len() + 1,
        points_in_bounds(insert_clockwise(c, p, s)),
    decreases s.len(),
{
    if s.len() == 0 {
    } else if clock_le(c, p, s[0]) {
    } else {
        assert(points_in_bounds(s.drop_first()));
        lemma_insert_clockwise_props(c, p, s.drop_first());
    }
}

pub proof fn lemma_sort_clockwise_props(c: Point, s: Seq<Point>)
    requires
        points_in_bounds(s),
    ensures
        sort_clockwise_spec(c, s).len() == s.len(),
        points_in_bounds(sort_clockwise_spec(c, s)),
    decreases s.len(),
{
    if s.len() > 0 {
        assert(points_in_bounds(s.drop_first()));
        lemma_sort_clockwise_props(c, s.drop_first());
        lemma_insert_clockwise_props(c, s[0], sort_clockwise_spec(c, s.drop_first()));
    }
}

fn insert_clockwise_exec(c: Point, p: Point, v: Vec<Point>) -> (r: Vec<Point>)
    requires
        point_in_bounds(c),
        point_in_bounds(p),
        points_in_bounds(v@),
    ensures
        r@ == insert_clockwise(c, p, v@),
    decreases v@.len(),
{
    let ghost orig = v@;
    if v.len() == 0 {
        let r = vec![p];
        assert(r@ =~= seq![p]);
        r
    } else if clock_le_exec(c, p, v[0]) {
        let mut r = v;
        r.insert(0, p);
        assert(r@ =~= seq![p] + orig);
        r
    } else {
        let mut v = v;
        let head = v.remove(0);
        proof {
            assert(v@ =~= orig.drop_first());
        }
        let r_tail = insert_clockwise_exec(c, p, v);
        let mut r = r_tail;
        r.insert(0, head);
        assert(r@ =~= seq![head] + insert_clockwise(c, p, orig.drop_first()));
        r
    }
}

/// Sorts a point list clockwise around `c`.
pub fn sort_clockwise(c: Point, points: &Vec<Point>) -> (r: Vec<Point>)
    requires
        point_in_bounds(c),
        points_in_bounds(points@),
    ensures
        r@ == sort_clockwise_spec(c, points@),
        points_in_bounds(r@),
        r@.len() == points@.len(),
    decreases points@.len(),
{
    proof {
        lemma_sort_clockwise_props(c, points@);
    }
    if points.len() == 0 {
        Vec::new()
    } else {
        let head = points[0];
        let mut tail: Vec<Point> = Vec::new();
        let n = points.len();
        let mut i: usize = 1;
        while i < n
            invariant
                1 <= i <= n,
                n == points@.len(),
                points_in_bounds(points@),
                tail@ =~= points@.subrange(1, i as int),
            decreases n - i,
        {
            tail.push(points[i]);
            i = i + 1;
        }
        proof {
            assert(tail@ =~= points@.drop_first());
        }
        let sorted_tail = sort_clockwise(c, &tail);
        proof {
            lemma_sort_clockwise_props(c, tail@);
            lemma_insert_clockwise_props(c, head, sort_clockwise_spec(c, tail@));
        }
        insert_clockwise_exec(c, head, sorted_tail)
    }
}

/// One polygon edge crosses the rightward ray from `p`: the edge spans
/// `p`'s horizontal line and the crossing lies at or to the right of `p`.
/// The comparison is the exact rational form of the crossing abscissa.
pub open spec fn edge_crosses(p: Point, a: Point, b: Point) -> bool {
    ((a.y >= p.y) != (b.y >= p.y)) && {
        let d = b.y - a.y;
        let lhs = (p.x - a.x) * d;
        let rhs = (b.x - a.x) * (p.y - a.y);
        if d > 0 {
            lhs <= rhs
        } else {
            lhs >= rhs
        }
    }
}

/// Index of the vertex preceding `i` on a closed polygon of `len` vertices.
pub open spec fn prev_index(len: int, i: int) -> int {
    if i == 0 {
        len - 1
    } else {
        i - 1
    }
}

/// Number of polygon edges among the first `i` that cross the rightward
/// ray from `p`; edge `k` joins vertex `k` to its predecessor.
pub open spec fn crossing_count(p: Point, poly: Seq<Point>, i: int) -> int
    decreases i,
{
    if i <= 0 {
        0
    } else {
        crossing_count(p, poly, i - 1) + if edge_crosses(
            p,
            poly[i - 1],
            poly[prev_index(poly.len() as int, i - 1)],
        ) {
            1int
        } else {
            0int
        }
    }
}

/// Even-odd rule: `p` is inside the polygon when the rightward ray from it
/// crosses an odd number of edges.
pub open spec fn point_in_polygon_spec(p: Point, poly: Seq<Point>) -> bool {
    poly.len() > 0 && crossing_count(p, poly, poly.len() as int) % 2 == 1
}

/// A point may sit slightly outside the global coordinate bounds: candidate
/// rectangle corners carry the one-pixel containment margin.
pub open spec fn point_near_bounds(p: Point) -> bool {
    &&& -COORD_LIMIT - 2 <= p.x <= COORD_LIMIT + 2
    &&& -COORD_LIMIT - 2 <= p.y <= COORD_LIMIT + 2
}

pub open spec fn rect_near_bounds(r: Rect) -> bool {
    point_near_bounds(r.min) && point_near_bounds(r.max)
}

/// Ray-cast containment test of a point against a polygon.
pub fn point_in_polygon(p: Point, poly: &Vec<Point>) -> (r: bool)
    requires
        point_near_bounds(p),
        points_in_bounds(poly@),
    ensures
        r == point_in_polygon_spec(p, poly@),
{
    let n = poly.len();
    if n == 0 {
        return false;
    }
    let mut inside = false;
    let mut i: usize = 0;
    while i < n
        invariant
            i <= n,
            n == poly@.len(),
            0 < n,
            point_near_bounds(p),
            points_in_bounds(poly@),
            inside == (crossing_count(p, poly@, i as int) % 2 == 1),
        decreases n - i,
    {
        let a = poly[i];
        let j = if i == 0 {
            n - 1
        } else {
            i - 1
        };
        let b = poly[j];
        proof {
            assert(a == poly@[i as int]);
            assert(b == poly@[prev_index(poly@.len() as int, i as int)]);
        }
        if (a.y >= p.y) != (b.y >= p.y) {
            let d = b.y - a.y;
            let dx = p.x - a.x;
            let ex = b.x - a.x;
            let ey = p.y - a.y;
            proof {
                lemma_mul_bound(dx as int, d as int, 2_000_000_002int);
                lemma_mul_bound(ex as int, ey as int, 2_000_000_002int);
            }
            let lhs = dx * d;
            let rhs = ex * ey;
            let crossed = if d > 0 {
                lhs <= rhs
            } else {
                lhs >= rhs
            };
            if crossed {
                inside = !inside;
            }
        }
        i = i + 1;
    }
    inside
}

pub open spec fn min4(a: int, b: int, c: int, d: int) -> int {
    let m1 = if a <= b { a } else { b };
    let m2 = if c <= d { c } else { d };
    if m1 <= m2 { m1 } else { m2 }
}

pub open spec fn max4(a: int, b: int, c: int, d: int) -> int {
    let m1 = if a >= b { a } else { b };
    let m2 = if c >= d { c } else { d };
    if m1 >= m2 { m1 } else { m2 }
}

/// The candidate rectangle of four vertices: their bounding rectangle,
/// shrunk by a one-pixel margin on all sides so that containment is strict.
pub open spec fn cand_rect(p1: Point, p2: Point, p3: Point, p4: Point) -> Rect {
    Rect {
        min: Point {
            x: (min4(p1.x as int, p2.x as int, p3.x as int, p4.x as int) + 1) as i64,
            y: (min4(p1.y as int, p2.y as int, p3.y as int, p4.y as int) + 1) as i64,
        },
        max: Point {
            x: (max4(p1.x as int, p2.x as int, p3.x as int, p4.x as int) - 1) as i64,
            y: (max4(p1.y as int, p2.y as int, p3.y as int, p4.y as int) - 1) as i64,
        },
    }
}

pub open spec fn rect_area(r: Rect) -> int {
    (r.max.x - r.min.x) * (r.max.y - r.min.y)
}

/// All four corners of the rectangle pass the ray-cast containment test.
pub open spec fn rect_corners_in(r: Rect, poly: Seq<Point>) -> bool {
    &&& point_in_polygon_spec(r.min, poly)
    &&& point_in_polygon_spec(Point { x: r.max.x, y: r.min.y }, poly)
    &&& point_in_polygon_spec(r.max, poly)
    &&& point_in_polygon_spec(Point { x: r.min.x, y: r.max.y }, poly)
}

pub open spec fn acc_area(acc: Option<Rect>) -> int {
    match acc {
        Option::None => 0,
        Option::Some(r) => rect_area(r),
    }
}

/// One search step: the candidate of vertices `i, j, k, l` replaces the
/// best rectangle so far exactly when its corners are contained and its
/// area is strictly greater.
pub open spec fn search_step(
    s: Seq<Point>,
    poly: Seq<Point>,
    acc: Option<Rect>,
    i: int,
    j: int,
    k: int,
    l: int,
) -> Option<Rect> {
    let r = cand_rect(s[i], s[j], s[k], s[l]);
    if rect_corners_in(r, poly) && rect_area(r) > acc_area(acc) {
        Option::Some(r)
    } else {
        acc
    }
}

pub open spec fn fold_l(
    s: Seq<Point>,
    poly: Seq<Point>,
    i: int,
    j: int,
    k: int,
    l: int,
    acc: Option<Rect>,
) -> Option<Rect>
    decreases s.len() - l,
{
    if l >= s.len() {
        acc
    } else {
        fold_l(s, poly, i, j, k, l + 1, search_step(s, poly, acc, i, j, k, l))
    }
}

pub open spec fn fold_k(
    s: Seq<Point>,
    poly: Seq<Point>,
    i: int,
    j: int,
    k: int,
    acc: Option<Rect>,
) -> Option<Rect>
    decreases s.len() - k,
{
    if k >= s.len() {
        acc
    } else {
        fold_k(s, poly, i, j, k + 1, fold_l(s, poly, i, j, k, k + 1, acc))
    }
}

pub open spec fn fold_j(
    s: Seq<Point>,
    poly: Seq<Point>,
    i: int,
    j: int,
    acc: Option<Rect>,
) -> Option<Rect>
    decreases s.len() - j,
{
    if j >= s.len() {
        acc
    } else {
        fold_j(s, poly, i, j + 1, fold_k(s, poly, i, j, j + 1, acc))
    }
}

pub open spec fn fold_i(s: Seq<Point>, poly: Seq<Point>, i: int, acc: Option<Rect>) -> Option<Rect>
    decreases s.len() - i,
{
    if i >= s.len() {
        acc
    } else {
        fold_i(s, poly, i + 1, fold_j(s, poly, i, i + 1, acc))
    }
}

/// The whole search: `None` for fewer than four points, otherwise the fold
/// over every vertex quadruple in index order, against the outline sorted
/// clockwise around its centroid.
pub open spec fn solve_spec(s: Seq<Point>) -> Option<Rect> {
    if s.len() < 4 {
        Option::<Rect>::None
    } else {
        fold_i(s, sorted_outline(s), 0, Option::<Rect>::None)
    }
}

fn min4_exec(a: i64, b: i64, c: i64, d: i64) -> (r: i64)
    ensures
        r as int == min4(a as int, b as int, c as int, d as int),
{
    let m1 = if a <= b { a } else { b };
    let m2 = if c <= d { c } else { d };
    if m1 <= m2 { m1 } else { m2 }
}

fn max4_exec(a: i64, b: i64, c: i64, d: i64) -> (r: i64)
    ensures
        r as int == max4(a as int, b as int, c as int, d as int),
{
    let m1 = if a >= b { a } else { b };
    let m2 = if c >= d { c } else { d };
    if m1 >= m2 { m1 } else { m2 }
}

fn cand_rect_exec(p1: Point, p2: Point, p3: Point, p4: Point) -> (r: Rect)
    requires
        point_in_bounds(p1),
        point_in_bounds(p2),
        point_in_bounds(p3),
        point_in_bounds(p4),
    ensures
        r == cand_rect(p1, p2, p3, p4),
        point_near_bounds(r.min),
        point_near_bounds(r.max),
{
    let minx = min4_exec(p1.x, p2.x, p3.x, p4.x);
    let miny = min4_exec(p1.y, p2.y, p3.y, p4.y);
    let maxx = max4_exec(p1.x, p2.x, p3.x, p4.x);
    let maxy = max4_exec(p1.y, p2.y, p3.y, p4.y);
    Rect {
        min: Point { x: minx + 1, y: miny + 1 },
        max: Point { x: maxx - 1, y: maxy - 1 },
    }
}

fn rect_corners_in_exec(r: Rect, poly: &Vec<Point>) -> (b: bool)
    requires
        point_near_bounds(r.min),
        point_near_bounds(r.max),
        points_in_bounds(poly@),
    ensures
        b == rect_corners_in(r, poly@),
{
    point_in_polygon(r.min, poly) && point_in_polygon(Point { x: r.max.x, y: r.min.y }, poly)
        && point_in_polygon(r.max, poly) && point_in_polygon(
        Point { x: r.min.x, y: r.max.y },
        poly,
    )
}

fn rect_area_exec(r: Rect) -> (a: i64)
    requires
        point_near_bounds(r.min),
        point_near_bounds(r.max),
    ensures
        a as int == rect_area(r),
{
    let w = r.max.x - r.min.x;
    let h = r.max.y - r.min.y;
    proof {
        lemma_mul_bound(w as int, h as int, 2_000_000_004int);
    }
    w * h
}

/// Finds the largest axis-aligned rectangle inscribed in the polygon given
/// by `points`, or `None` when fewer than four points are supplied or no
/// candidate rectangle fits.  The search and its tie-break (the first
/// maximal candidate in vertex order wins) are pinned by [`solve_spec`];
/// see [`lemma_inscribed_containment`], [`lemma_inscribed_maximality`],
/// [`lemma_inscribed_is_candidate`] and [`lemma_solver_deterministic`] for
/// what the result is guaranteed to be.
pub fn find_largest_rectangle(points: &Vec<Point>) -> (res: Option<Rect>)
    requires
        points_in_bounds(points@),
        points@.len() <= MAX_POLY_POINTS,
    ensures
        res == solve_spec(points@),
        points@.len() < 4 ==> res is None,
        res is Some ==> rect_near_bounds(res.unwrap()),
{
    let ghost s = points@;
    let n = points.len();
    if n < 4 {
        return None;
    }
    let c = centroid(points);
    let poly = sort_clockwise(c, points);
    let ghost gpoly = poly@;
    proof {
        assert(gpoly == sorted_outline(s));
    }
    let ghost target = fold_i(s, gpoly, 0, Option::<Rect>::None);

    let mut best: Option<Rect> = None;
    let mut best_area: i64 = 0;
    let mut i: usize = 0;
    while i < n
        invariant
            i <= n,
            n == s.len(),
            4 <= n <= MAX_POLY_POINTS,
            points@ == s,
            poly@ == gpoly,
            points_in_bounds(s),
            points_in_bounds(gpoly),
            best_area as int == acc_area(best),
            best is Some ==> rect_near_bounds(best.unwrap()),
            fold_i(s, gpoly, i as int, best) == target,
        decreases n - i,
    {
        let mut j = i + 1;
        proof {
            assert(fold_i(s, gpoly, i as int, best) == fold_i(
                s,
                gpoly,
                i as int + 1,
                fold_j(s, gpoly, i as int, i as int + 1, best),
            ));
        }
        while j < n
            invariant
                i < j <= n + 1,
                i < n,
                n == s.len(),
                4 <= n <= MAX_POLY_POINTS,
                points@ == s,
                poly@ == gpoly,
                points_in_bounds(s),
                points_in_bounds(gpoly),
                best_area as int == acc_area(best),
                best is Some ==> rect_near_bounds(best.unwrap()),
                fold_i(s, gpoly, i as int + 1, fold_j(s, gpoly, i as int, j as int, best))
                    == target,
            decreases n - j,
        {
            let mut k = j + 1;
            proof {
                assert(fold_j(s, gpoly, i as int, j as int, best) == fold_j(
                    s,
                    gpoly,
                    i as int,
                    j as int + 1,
                    fold_k(s, gpoly, i as int, j as int, j as int + 1, best),
                ));
            }
            while k < n
                invariant
                    j < k <= n + 1,
                    i < j < n,
                    n == s.len(),
                    4 <= n <= MAX_POLY_POINTS,
                    points@ == s,
                    poly@ == gpoly,
                    points_in_bounds(s),
                    points_in_bounds(gpoly),
                    best_area as int == acc_area(best),
                    best is Some ==> rect_near_bounds(best.unwrap()),
                    fold_i(
                        s,
                        gpoly,
                        i as int + 1,
                        fold_j(
                            s,
                            gpoly,
                            i as int,
                            j as int + 1,
                            fold_k(s, gpoly, i as int, j as int, k as int, best),
                        ),
                    ) == target,
                decreases n - k,
            {
                let mut l = k + 1;
                proof {
                    assert(fold_k(s, gpoly, i as int, j as int, k as int, best) == fold_k(
                        s,
                        gpoly,
                        i as int,
                        j as int,
                        k as int + 1,
                        fold_l(s, gpoly, i as int, j as int, k as int, k as int + 1, best),
                    ));
                }
                while l < n
                    invariant
                        k < l <= n + 1,
                        i < j < k < n,
                        n == s.len(),
                        4 <= n <= MAX_POLY_POINTS,
                        points@ == s,
                        poly@ == gpoly,
                        points_in_bounds(s),
                        points_in_bounds(gpoly),
                        best_area as int == acc_area(best),
                        best is Some ==> rect_near_bounds(best.unwrap()),
                        fold_i(
                            s,
                            gpoly,
                            i as int + 1,
                            fold_j(
                                s,
                                gpoly,
                                i as int,
                                j as int + 1,
                                fold_k(
                                    s,
                                    gpoly,
                                    i as int,
                                    j as int,
                                    k as int + 1,
                                    fold_l(s, gpoly, i as int, j as int, k as int, l as int, best),
                                ),
                            ),
                        ) == target,
                    decreases n - l,
                {
                    let ghost old_best = best;
                    let cand = cand_rect_exec(points[i], points[j], points[k], points[l]);
                    let contained = rect_corners_in_exec(cand, &poly);
                    if contained {
                        let a = rect_area_exec(cand);
                        if a > best_area {
                            best = Some(cand);
                            best_area = a;
                        }
                    }
                    proof {
                        assert(best == search_step(
                            s,
                            gpoly,
                            old_best,
                            i as int,
                            j as int,
                            k as int,
                            l as int,
                        ));
                        assert(fold_l(s, gpoly, i as int, j as int, k as int, l as int, old_best)
                            == fold_l(
                            s,
                            gpoly,
                            i as int,
                            j as int,
                            k as int,
                            l as int + 1,
                            best,
                        ));
                    }
                    l = l + 1;
                }
                k = k + 1;
            }
            j = j + 1;
        }
        i = i + 1;
    }
    best
}

/// The best rectangle so far, when there is one, always has its corners
/// inside the outline and positive area.
pub open spec fn acc_contained(poly: Seq<Point>, acc: Option<Rect>) -> bool {
    match acc {
        Option::None => true,
        Option::Some(r) => rect_corners_in(r, poly) && rect_area(r) > 0,
    }
}

proof fn lemma_fold_l_contained(
    s: Seq<Point>,
    poly: Seq<Point>,
    i: int,
    j: int,
    k: int,
    l: int,
    acc: Option<Rect>,
)
    requires
        acc_contained(poly, acc),
    ensures
        acc_contained(poly, fold_l(s, poly, i, j, k, l, acc)),
    decreases s.len() - l,
{
    if l < s.len() {
        lemma_fold_l_contained(s, poly, i, j, k, l + 1, search_step(s, poly, acc, i, j, k, l));
    }
}

proof fn lemma_fold_k_contained(
    s: Seq<Point>,
    poly: Seq<Point>,
    i: int,
    j: int,
    k: int,
    acc: Option<Rect>,
)
    requires
        acc_contained(poly, acc),
    ensures
        acc_contained(poly, fold_k(s, poly, i, j, k, acc)),
    decreases s.len() - k,
{
    if k < s.len() {
        lemma_fold_l_contained(s, poly, i, j, k, k + 1, acc);
        lemma_fold_k_contained(s, poly, i, j, k + 1, fold_l(s, poly, i, j, k, k + 1, acc));
    }
}

proof fn lemma_fold_j_contained(s: Seq<Point>, poly: Seq<Point>, i: int, j: int, acc: Option<Rect>)
    requires
        acc_contained(poly, acc),
    ensures
        acc_contained(poly, fold_j(s, poly, i, j, acc)),
    decreases s.len() - j,
{
    if j < s.len() {
        lemma_fold_k_contained(s, poly, i, j, j + 1, acc);
        lemma_fold_j_contained(s, poly, i, j + 1, fold_k(s, poly, i, j, j + 1, acc));
    }
}

proof fn lemma_fold_i_contained(s: Seq<Point>, poly: Seq<Point>, i: int, acc: Option<Rect>)
    requires
        acc_contained(poly, acc),
    ensures
        acc_contained(poly, fold_i(s, poly, i, acc)),
    decreases s.len() - i,
{
    if i < s.len() {
        lemma_fold_j_contained(s, poly, i, i + 1, acc);
        lemma_fold_i_contained(s, poly, i + 1, fold_j(s, poly, i, i + 1, acc));
    }
}

/// Law: whenever the solver returns a rectangle, all four of its corners
/// pass the containment test against the clockwise-sorted outline, and its
/// area is positive.
pub proof fn lemma_inscribed_containment(s: Seq<Point>, r: Rect)
    requires
        solve_spec(s) == Option::Some(r),
    ensures
        rect_corners_in(r, sorted_outline(s)),
        rect_area(r) > 0,
{
    lemma_fold_i_contained(s, sorted_outline(s), 0, Option::<Rect>::None);
}

proof fn lemma_fold_l_mono(
    s: Seq<Point>,
    poly: Seq<Point>,
    i: int,
    j: int,
    k: int,
    l: int,
    acc: Option<Rect>,
)
    ensures
        acc_area(fold_l(s, poly, i, j, k, l, acc)) >= acc_area(acc),
    decreases s.len() - l,
{
    if l < s.len() {
        lemma_fold_l_mono(s, poly, i, j, k, l + 1, search_step(s, poly, acc, i, j, k, l));
    }
}

proof fn lemma_fold_k_mono(
    s: Seq<Point>,
    poly: Seq<Point>,
    i: int,
    j: int,
    k: int,
    acc: Option<Rect>,
)
    ensures
        acc_area(fold_k(s, poly, i, j, k, acc)) >= acc_area(acc),
    decreases s.len() - k,
{
    if k < s.len() {
        lemma_fold_l_mono(s, poly, i, j, k, k + 1, acc);
        lemma_fold_k_mono(s, poly, i, j, k + 1, fold_l(s, poly, i, j, k, k + 1, acc));
    }
}

proof fn lemma_fold_j_mono(s: Seq<Point>, poly: Seq<Point>, i: int, j: int, acc: Option<Rect>)
    ensures
        acc_area(fold_j(s, poly, i, j, acc)) >= acc_area(acc),
    decreases s.len() - j,
{
    if j < s.len() {
        lemma_fold_k_mono(s, poly, i, j, j + 1, acc);
        lemma_fold_j_mono(s, poly, i, j + 1, fold_k(s, poly, i, j, j + 1, acc));
    }
}

proof fn lemma_fold_i_mono(s: Seq<Point>, poly: Seq<Point>, i: int, acc: Option<Rect>)
    ensures
        acc_area(fold_i(s, poly, i, acc)) >= acc_area(acc),
    decreases s.len() - i,
{
    if i < s.len() {
        lemma_fold_j_mono(s, poly, i, i + 1, acc);
        lemma_fold_i_mono(s, poly, i + 1, fold_j(s, poly, i, i + 1, acc));
    }
}

proof fn lemma_fold_l_ge(
    s: Seq<Point>,
    poly: Seq<Point>,
    i: int,
    j: int,
    k: int,
    l0: int,
    l: int,
    acc: Option<Rect>,
)
    requires
        l0 <= l < s.len(),
        rect_corners_in(cand_rect(s[i], s[j], s[k], s[l]), poly),
    ensures
        acc_area(fold_l(s, poly, i, j, k, l0, acc)) >= rect_area(cand_rect(s[i], s[j], s[k], s[l])),
    decreases l - l0,
{
    let stepped = search_step(s, poly, acc, i, j, k, l0);
    if l0 == l {
        lemma_fold_l_mono(s, poly, i, j, k, l0 + 1, stepped);
    } else {
        lemma_fold_l_ge(s, poly, i, j, k, l0 + 1, l, stepped);
    }
}

proof fn lemma_fold_k_ge(
    s: Seq<Point>,
    poly: Seq<Point>,
    i: int,
    j: int,
    k0: int,
    k: int,
    l: int,
    acc: Option<Rect>,
)
    requires
        k0 <= k < l < s.len(),
        rect_corners_in(cand_rect(s[i], s[j], s[k], s[l]), poly),
    ensures
        acc_area(fold_k(s, poly, i, j, k0, acc)) >= rect_area(cand_rect(s[i], s[j], s[k], s[l])),
    decreases k - k0,
{
    let inner = fold_l(s, poly, i, j, k0, k0 + 1, acc);
    if k0 == k {
        lemma_fold_l_ge(s, poly, i, j, k0, k0 + 1, l, acc);
        lemma_fold_k_mono(s, poly, i, j, k0 + 1, inner);
    } else {
        lemma_fold_k_ge(s, poly, i, j, k0 + 1, k, l, inner);
    }
}

proof fn lemma_fold_j_ge(
    s: Seq<Point>,
    poly: Seq<Point>,
    i: int,
    j0: int,
    j: int,
    k: int,
    l: int,
    acc: Option<Rect>,
)
    requires
        j0 <= j < k < l < s.len(),
        rect_corners_in(cand_rect(s[i], s[j], s[k], s[l]), poly),
    ensures
        acc_area(fold_j(s, poly, i, j0, acc)) >= rect_area(cand_rect(s[i], s[j], s[k], s[l])),
    decreases j - j0,
{
    let inner = fold_k(s, poly, i, j0, j0 + 1, acc);
    if j0 == j {
        lemma_fold_k_ge(s, poly, i, j0, j0 + 1, k, l, acc);
        lemma_fold_j_mono(s, poly, i, j0 + 1, inner);
    } else {
        lemma_fold_j_ge(s, poly, i, j0 + 1, j, k, l, inner);
    }
}

proof fn lemma_fold_i_ge(
    s: Seq<Point>,
    poly: Seq<Point>,
    i0: int,
    i: int,
    j: int,
    k: int,
    l: int,
    acc: Option<Rect>,
)
    requires
        i0 <= i < j < k < l < s.len(),
        rect_corners_in(cand_rect(s[i], s[j], s[k], s[l]), poly),
    ensures
        acc_area(fold_i(s, poly, i0, acc)) >= rect_area(cand_rect(s[i], s[j], s[k], s[l])),
    decreases i - i0,
{
    let inner = fold_j(s, poly, i0, i0 + 1, acc);
    if i0 == i {
        lemma_fold_j_ge(s, poly, i0, i0 + 1, j, k, l, acc);
        lemma_fold_i_mono(s, poly, i0 + 1, inner);
    } else {
        lemma_fold_i_ge(s, poly, i0 + 1, i, j, k, l, inner);
    }
}

/// Law: the search result is maximal.  Whatever four vertices are chosen,
/// in index order, if their candidate rectangle passes the containment
/// test then its area does not exceed the area of the returned rectangle
/// (and a `None` result means no contained candidate had positive area).
pub proof fn lemma_inscribed_maximality(s: Seq<Point>, i: int, j: int, k: int, l: int)
    requires
        s.len() >= 4,
        0 <= i < j < k < l < s.len(),
        rect_corners_in(cand_rect(s[i], s[j], s[k], s[l]), sorted_outline(s)),
    ensures
        rect_area(cand_rect(s[i], s[j], s[k], s[l])) <= acc_area(solve_spec(s)),
{
    lemma_fold_i_ge(s, sorted_outline(s), 0, i, j, k, l, Option::<Rect>::None);
}

/// `r` is the candidate rectangle of four distinct input vertices taken in
/// index order.
pub open spec fn is_candidate_of(s: Seq<Point>, r: Rect) -> bool {
    exists|q: (int, int, int, int)|
        0 <= q.0 < q.1 < q.2 < q.3 < s.len() && r == #[trigger] cand_rect(
            s[q.0],
            s[q.1],
            s[q.2],
            s[q.3],
        )
}

pub open spec fn acc_candidate(s: Seq<Point>, acc: Option<Rect>) -> bool {
    match acc {
        Option::None => true,
        Option::Some(r) => is_candidate_of(s, r),
    }
}

proof fn lemma_step_candidate(
    s: Seq<Point>,
    poly: Seq<Point>,
    acc: Option<Rect>,
    i: int,
    j: int,
    k: int,
    l: int,
)
    requires
        0 <= i < j < k < l < s.len(),
        acc_candidate(s, acc),
    ensures
        acc_candidate(s, search_step(s, poly, acc, i, j, k, l)),
{
    let r = cand_rect(s[i], s[j], s[k], s[l]);
    if rect_corners_in(r, poly) && rect_area(r) > acc_area(acc) {
        let q = (i, j, k, l);
        assert(0 <= q.0 < q.1 < q.2 < q.3 < s.len() && r == cand_rect(
            s[q.0],
            s[q.1],
            s[q.2],
            s[q.3],
        ));
    }
}

proof fn lemma_fold_l_candidate(
    s: Seq<Point>,
    poly: Seq<Point>,
    i: int,
    j: int,
    k: int,
    l: int,
    acc: Option<Rect>,
)
    requires
        0 <= i < j < k < l,
        acc_candidate(s, acc),
    ensures
        acc_candidate(s, fold_l(s, poly, i, j, k, l, acc)),
    decreases s.len() - l,
{
    if l < s.len() {
        lemma_step_candidate(s, poly, acc, i, j, k, l);
        lemma_fold_l_candidate(s, poly, i, j, k, l + 1, search_step(s, poly, acc, i, j, k, l));
    }
}

proof fn lemma_fold_k_candidate(
    s: Seq<Point>,
    poly: Seq<Point>,
    i: int,
    j: int,
    k: int,
    acc: Option<Rect>,
)
    requires
        0 <= i < j < k,
        acc_candidate(s, acc),
    ensures
        acc_candidate(s, fold_k(s, poly, i, j, k, acc)),
    decreases s.len() - k,
{
    if k < s.len() {
        lemma_fold_l_candidate(s, poly, i, j, k, k + 1, acc);
        lemma_fold_k_candidate(s, poly, i, j, k + 1, fold_l(s, poly, i, j, k, k + 1, acc));
    }
}

proof fn lemma_fold_j_candidate(
    s: Seq<Point>,
    poly: Seq<Point>,
    i: int,
    j: int,
    acc: Option<Rect>,
)
    requires
        0 <= i < j,
        acc_candidate(s, acc),
    ensures
        acc_candidate(s, fold_j(s, poly, i, j, acc)),
    decreases s.len() - j,
{
    if j < s.len() {
        lemma_fold_k_candidate(s, poly, i, j, j + 1, acc);
        lemma_fold_j_candidate(s, poly, i, j + 1, fold_k(s, poly, i, j, j + 1, acc));
    }
}

proof fn lemma_fold_i_candidate(s: Seq<Point>, poly: Seq<Point>, i: int, acc: Option<Rect>)
    requires
        0 <= i,
        acc_candidate(s, acc),
    ensures
        acc_candidate(s, fold_i(s, poly, i, acc)),
    decreases s.len() - i,
{
    if i < s.len() {
        lemma_fold_j_candidate(s, poly, i, i + 1, acc);
        lemma_fold_i_candidate(s, poly, i + 1, fold_j(s, poly, i, i + 1, acc));
    }
}

/// Law: whatever the solver returns is the margin-shrunk bounding box of
/// four of the input vertices.
pub proof fn lemma_inscribed_is_candidate(s: Seq<Point>, r: Rect)
    requires
        solve_spec(s) == Option::Some(r),
    ensures
        is_candidate_of(s, r),
{
    lemma_fold_i_candidate(s, sorted_outline(s), 0, Option::<Rect>::None);
}

/// Law: the search is a function of its input alone; any two results
/// meeting the solver's contract on the same points are equal.
pub proof fn lemma_solver_deterministic(s: Seq<Point>, r1: Option<Rect>, r2: Option<Rect>)
    requires
        r1 == solve_spec(s),
        r2 == solve_spec(s),
    ensures
        r1 == r2,
{
}

} // verus!
