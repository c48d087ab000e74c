//! Pane tree model and layout resolver.
//!
//! A `Pane` is either a `Split` (direction, bias, two children) or a `Leaf`
//! (widget kind, corner styles).  `precalc` walks the tree top-down,
//! subdividing a viewport rectangle at each split and materialising each
//! leaf's border outline, inscribed content rectangle, title orientation
//! and table row count.  The pass is mirrored exactly by `precalc_spec`;
//! it yields `None` instead of a layout when a bias is out of range, a
//! rectangle is malformed, or a leaf's corner configuration produces an
//! outline with no inscribed rectangle — the configuration errors the
//! host must treat as fatal.

use vstd::arithmetic::div_mod::{
    lemma_div_is_ordered, lemma_div_multiples_vanish, lemma_div_pos_is_pos,
};
use vstd::prelude::*;

use crate::geometry::{
    border_spec, get_corners, rect_in_layout_bounds, rect_wf, theme_wf, CornerTypes, Point,
    Rect, Theme, LAYOUT_LIMIT,
};
use crate::inscribe::{find_largest_rectangle, solve_spec};

verus! {

/// A split bias is a fraction of the split axis in thousandths.
pub const BIAS_DENOM: i64 = 1000;

/// Direction tag of the core tree: `V` cuts along a vertical line (children
/// side by side), `H` along a horizontal line (children stacked).
#[derive(Clone, Copy, PartialEq, Eq, Structural, Debug)]
pub enum SplitType {
    H,
    V,
}

/// Direction tag of the sibling flat-list pane format: `Horizontal` lays
/// children side by side, which the core tree calls a `V` split.
#[derive(Clone, Copy, PartialEq, Eq, Structural, Debug)]
pub enum SplitDirection {
    Horizontal,
    Vertical,
}

/// Maps the flat-list direction tag onto the core tree's tag.
pub fn direction_to_split_type(d: SplitDirection) -> (t: SplitType)
    ensures
        d is Horizontal <==> t is V,
{
    match d {
        SplitDirection::Horizontal => SplitType::V,
        SplitDirection::Vertical => SplitType::H,
    }
}

/// The widget collaborator a leaf hosts.
#[derive(Clone, Copy, PartialEq, Eq, Structural, Debug)]
pub enum PaneType {
    Info,
    CpuGraph,
    MemGraph,
    NetGraph,
    DiskGraph,
    ProcTable,
    No,
}

/// Orientation of a leaf's title, with its display text.
#[derive(Clone, Debug)]
pub enum TitleFormats {
    TOP { text: Option<String> },
    SIDE { text: Option<String> },
}

impl Default for TitleFormats {
    /// An untitled top placement.
    fn default() -> (t: TitleFormats)
        ensures
            t is TOP,
            t->TOP_text is None,
    {
        TitleFormats::TOP { text: None }
    }
}

/// The configuration tree: what the host authors or loads at startup.
#[derive(Debug)]
pub enum Pane {
    Leaf { pane_type: PaneType, corners: [CornerTypes; 4] },
    Split { direction: SplitType, bias: i64, a: Box<Pane>, b: Box<Pane> },
}

/// Every split bias in the tree lies in `[0, BIAS_DENOM]`.
pub open spec fn pane_wf(p: Pane) -> bool
    decreases p,
{
    match p {
        Pane::Leaf { .. } => true,
        Pane::Split { bias, a, b, .. } => 0 <= bias <= BIAS_DENOM && pane_wf(*a) && pane_wf(*b),
    }
}

impl Default for Pane {
    /// An empty leaf with the stock shallow-cut corner set.
    fn default() -> (p: Pane)
        ensures
            p == (Pane::Leaf {
                pane_type: PaneType::No,
                corners: [CornerTypes::Ang30, CornerTypes::Ang60, CornerTypes::Ang60,
                    CornerTypes::Ang30],
            }),
    {
        Pane::Leaf {
            pane_type: PaneType::No,
            corners: [CornerTypes::Ang30, CornerTypes::Ang60, CornerTypes::Ang60,
                CornerTypes::Ang30],
        }
    }
}

/// Position of the split line along `[lo, hi]`: `lo` plus the bias fraction
/// of the extent, in thousandths rounded down.
pub open spec fn split_point(lo: int, hi: int, bias: int) -> int {
    lo + (hi - lo) * bias / (BIAS_DENOM as int)
}

proof fn lemma_split_point_in_range(lo: int, hi: int, bias: int)
    requires
        lo <= hi,
        0 <= bias <= BIAS_DENOM,
    ensures
        lo <= split_point(lo, hi, bias) <= hi,
{
    let w = hi - lo;
    assert(0 <= w * bias <= w * 1000) by (nonlinear_arith)
        requires
            0 <= w,
            0 <= bias <= 1000,
    {}
    lemma_div_pos_is_pos(w * bias, 1000);
    lemma_div_is_ordered(w * bias, w * 1000, 1000);
    lemma_div_multiples_vanish(w, 1000);
    assert(1000 * w == w * 1000) by (nonlinear_arith);
    assert(w * 1000 / 1000 == w);
}

/// The two rectangles a split produces: child `a` takes the low side of the
/// split axis, child `b` the high side, meeting exactly at the split point.
pub open spec fn split_rects_spec(rect: Rect, direction: SplitType, bias: int) -> (Rect, Rect) {
    match direction {
        SplitType::V => {
            let sx = split_point(rect.min.x as int, rect.max.x as int, bias) as i64;
            (
                Rect { min: rect.min, max: Point { x: sx, y: rect.max.y } },
                Rect { min: Point { x: sx, y: rect.min.y }, max: rect.max },
            )
        },
        SplitType::H => {
            let sy = split_point(rect.min.y as int, rect.max.y as int, bias) as i64;
            (
                Rect { min: rect.min, max: Point { x: rect.max.x, y: sy } },
                Rect { min: Point { x: rect.min.x, y: sy }, max: rect.max },
            )
        },
    }
}

/// Subdivides a rectangle at the bias fraction of the split axis.
pub fn split_rect(rect: Rect, direction: SplitType, bias: i64) -> (r: (Rect, Rect))
    requires
        rect_wf(rect),
        rect_in_layout_bounds(rect),
        0 <= bias <= BIAS_DENOM,
    ensures
        r == split_rects_spec(rect, direction, bias as int),
        rect_wf(r.0) && rect_wf(r.1),
        rect_in_layout_bounds(r.0) && rect_in_layout_bounds(r.1),
        r.0.min == rect.min && r.1.max == rect.max,
        direction is V ==> r.0.max.x == r.1.min.x && r.0.max.y == rect.max.y && r.1.min.y
            == rect.min.y,
        direction is H ==> r.0.max.y == r.1.min.y && r.0.max.x == rect.max.x && r.1.min.x
            == rect.min.x,
{
    match direction {
        SplitType::V => {
            proof {
                lemma_split_point_in_range(rect.min.x as int, rect.max.x as int, bias as int);
            }
            let w = rect.max.x - rect.min.x;
            let sx = rect.min.x + w * bias / BIAS_DENOM;
            (
                Rect { min: rect.min, max: Point { x: sx, y: rect.max.y } },
                Rect { min: Point { x: sx, y: rect.min.y }, max: rect.max },
            )
        },
        SplitType::H => {
            proof {
                lemma_split_point_in_range(rect.min.y as int, rect.max.y as int, bias as int);
            }
            let h = rect.max.y - rect.min.y;
            let sy = rect.min.y + h * bias / BIAS_DENOM;
            (
                Rect { min: rect.min, max: Point { x: rect.max.x, y: sy } },
                Rect { min: Point { x: rect.min.x, y: sy }, max: rect.max },
            )
        },
    }
}

/// Law: the two child rectangles of a split partition the parent exactly.
/// Child `a` starts at the parent's minimum, child `b` ends at the
/// parent's maximum, the two meet at the split point (bias thousandths of
/// the extent) with no gap and no overlap, and across the split axis both
/// keep the parent's full extent.
pub proof fn lemma_split_partition(rect: Rect, direction: SplitType, bias: int)
    requires
        rect_wf(rect),
        rect_in_layout_bounds(rect),
        0 <= bias <= BIAS_DENOM,
    ensures
        split_rects_spec(rect, direction, bias).0.min == rect.min,
        split_rects_spec(rect, direction, bias).1.max == rect.max,
        direction is V ==> {
            let a = split_rects_spec(rect, direction, bias).0;
            let b = split_rects_spec(rect, direction, bias).1;
            &&& a.max.x == b.min.x
            &&& a.max.x == split_point(rect.min.x as int, rect.max.x as int, bias)
            &&& rect.min.x <= a.max.x <= rect.max.x
            &&& a.min.y == rect.min.y && a.max.y == rect.max.y
            &&& b.min.y == rect.min.y && b.max.y == rect.max.y
        },
        direction is H ==> {
            let a = split_rects_spec(rect, direction, bias).0;
            let b = split_rects_spec(rect, direction, bias).1;
            &&& a.max.y == b.min.y
            &&& a.max.y == split_point(rect.min.y as int, rect.max.y as int, bias)
            &&& rect.min.y <= a.max.y <= rect.max.y
            &&& a.min.x == rect.min.x && a.max.x == rect.max.x
            &&& b.min.x == rect.min.x && b.max.x == rect.max.x
        },
{
    match direction {
        SplitType::V => {
            lemma_split_point_in_range(rect.min.x as int, rect.max.x as int, bias);
        },
        SplitType::H => {
            lemma_split_point_in_range(rect.min.y as int, rect.max.y as int, bias);
        },
    }
}

/// Title text shown for each widget kind.
pub open spec fn title_label(pt: PaneType) -> Seq<char> {
    match pt {
        PaneType::Info => seq!['I', 'N', 'F', 'O'],
        PaneType::CpuGraph => seq!['C', 'P', 'U'],
        PaneType::MemGraph => seq!['M', 'E', 'M'],
        PaneType::ProcTable => seq!['P', 'R', 'O', 'C'],
        PaneType::NetGraph => seq!['N', 'E', 'T'],
        PaneType::DiskGraph => seq!['D', 'I', 'S', 'K'],
        PaneType::No => seq!['E', 'R', 'R'],
    }
}

/// Returns the display label of a widget kind.
pub fn title_text(pt: PaneType) -> (r: String)
    ensures
        r@ == title_label(pt),
{
    match pt {
        PaneType::Info => {
            let r = String::from_str("INFO");
            proof {
                reveal_strlit("INFO");
                assert(r@ =~= title_label(PaneType::Info));
            }
            r
        },
        PaneType::CpuGraph => {
            let r = String::from_str("CPU");
            proof {
                reveal_strlit("CPU");
                assert(r@ =~= title_label(PaneType::CpuGraph));
            }
            r
        },
        PaneType::MemGraph => {
            let r = String::from_str("MEM");
            proof {
                reveal_strlit("MEM");
                assert(r@ =~= title_label(PaneType::MemGraph));
            }
            r
        },
        PaneType::ProcTable => {
            let r = String::from_str("PROC");
            proof {
                reveal_strlit("PROC");
                assert(r@ =~= title_label(PaneType::ProcTable));
            }
            r
        },
        PaneType::NetGraph => {
            let r = String::from_str("NET");
            proof {
                reveal_strlit("NET");
                assert(r@ =~= title_label(PaneType::NetGraph));
            }
            r
        },
        PaneType::DiskGraph => {
            let r = String::from_str("DISK");
            proof {
                reveal_strlit("DISK");
                assert(r@ =~= title_label(PaneType::DiskGraph));
            }
            r
        },
        PaneType::No => {
            let r = String::from_str("ERR");
            proof {
                reveal_strlit("ERR");
                assert(r@ =~= title_label(PaneType::No));
            }
            r
        },
    }
}

/// The title goes on the side exactly when the combined horizontal margin
/// between the outer and inner rectangles strictly exceeds the combined
/// vertical margin; ties go on top.
pub open spec fn title_side_spec(outer: Rect, inner: Rect) -> bool {
    (inner.min.x - outer.min.x) + (outer.max.x - inner.max.x) > (inner.min.y - outer.min.y) + (
    outer.max.y - inner.max.y)
}

/// Rows a process table can show inside a content rectangle of height `ih`:
/// the height left under the header bar, divided into fixed-height rows.
pub open spec fn row_count_spec(ih: int, th: Theme) -> int {
    if ih < th.bar_height {
        0
    } else {
        (ih - th.bar_height) / (th.row_height as int)
    }
}

/// Derived geometry of one resolved leaf.
#[derive(Debug)]
pub struct LeafGeometry {
    pub pane_type: PaneType,
    /// The rectangle the parent split assigned to this leaf.
    pub rect: Rect,
    /// The largest rectangle inscribed in the border outline.
    pub inner_rect: Rect,
    /// The decorated border outline, clockwise from the top-left corner.
    pub container_points: Vec<Point>,
    pub title_type: TitleFormats,
    /// Visible rows when this leaf hosts the process table, zero otherwise.
    pub row_count: usize,
}

/// A resolved layout tree, parallel to the configuration tree.
#[derive(Debug)]
pub enum PaneLayout {
    Leaf { geo: LeafGeometry },
    Split { first: Box<PaneLayout>, second: Box<PaneLayout> },
}

/// Mathematical image of a resolved leaf.
pub struct LeafGeometryModel {
    pub pane_type: PaneType,
    pub rect: Rect,
    pub inner_rect: Rect,
    pub container_points: Seq<Point>,
    pub title_side: bool,
    pub title_text: Seq<char>,
    pub row_count: int,
}

/// Mathematical image of a resolved layout tree.
pub enum PaneLayoutModel {
    Leaf { geo: LeafGeometryModel },
    Split { first: Box<PaneLayoutModel>, second: Box<PaneLayoutModel> },
}

pub open spec fn opt_text_view(o: Option<String>) -> Seq<char> {
    match o {
        Option::Some(s) => s@,
        Option::None => Seq::<char>::empty(),
    }
}

pub open spec fn title_text_view(t: TitleFormats) -> Seq<char> {
    match t {
        TitleFormats::TOP { text } => opt_text_view(text),
        TitleFormats::SIDE { text } => opt_text_view(text),
    }
}

pub open spec fn leaf_model(g: LeafGeometry) -> LeafGeometryModel {
    LeafGeometryModel {
        pane_type: g.pane_type,
        rect: g.rect,
        inner_rect: g.inner_rect,
        container_points: g.container_points@,
        title_side: g.title_type is SIDE,
        title_text: title_text_view(g.title_type),
        row_count: g.row_count as int,
    }
}

pub open spec fn layout_model(l: PaneLayout) -> PaneLayoutModel
    decreases l,
{
    match l {
        PaneLayout::Leaf { geo } => PaneLayoutModel::Leaf { geo: leaf_model(geo) },
        PaneLayout::Split { first, second } => PaneLayoutModel::Split {
            first: Box::new(layout_model(*first)),
            second: Box::new(layout_model(*second)),
        },
    }
}

/// The layout pass, specified: either every node resolves and the whole
/// model tree is produced, or the configuration is in error and nothing is.
pub open spec fn precalc_spec(p: Pane, rect: Rect, th: Theme) -> Option<PaneLayoutModel>
    decreases p,
{
    if !rect_wf(rect) || !rect_in_layout_bounds(rect) {
        Option::None
    } else {
        match p {
            Pane::Split { direction, bias, a, b } => {
                if !(0 <= bias <= BIAS_DENOM) {
                    Option::None
                } else {
                    let rects = split_rects_spec(rect, direction, bias as int);
                    match (precalc_spec(*a, rects.0, th), precalc_spec(*b, rects.1, th)) {
                        (Option::Some(first), Option::Some(second)) => Option::Some(
                            PaneLayoutModel::Split {
                                first: Box::new(first),
                                second: Box::new(second),
                            },
                        ),
                        _ => Option::None,
                    }
                }
            },
            Pane::Leaf { pane_type, corners } => {
                let pts = border_spec(
                    rect,
                    corners[0],
                    corners[1],
                    corners[2],
                    corners[3],
                    th.pane_gap as int,
                    th.corner_half_cut as int,
                );
                match solve_spec(pts) {
                    Option::None => Option::None,
                    Option::Some(inner) => Option::Some(
                        PaneLayoutModel::Leaf {
                            geo: LeafGeometryModel {
                                pane_type,
                                rect,
                                inner_rect: inner,
                                container_points: pts,
                                title_side: title_side_spec(rect, inner),
                                title_text: title_label(pane_type),
                                row_count: if pane_type is ProcTable {
                                    row_count_spec(inner.max.y - inner.min.y, th)
                                } else {
                                    0
                                },
                            },
                        },
                    ),
                }
            },
        }
    }
}

/// Resolves a configuration tree against a rectangle, producing the layout
/// tree, or `None` on a configuration error.
#[verifier::rlimit(80)]
pub fn precalc_node(p: &Pane, rect: Rect, theme: &Theme) -> (r: Option<PaneLayout>)
    requires
        theme_wf(*theme),
    ensures
        r is Some <==> precalc_spec(*p, rect, *theme) is Some,
        r is Some ==> layout_model(r.unwrap()) == precalc_spec(*p, rect, *theme).unwrap(),
    decreases *p,
{
    if !(rect.min.x <= rect.max.x && rect.min.y <= rect.max.y) {
        return None;
    }
    if !(-LAYOUT_LIMIT <= rect.min.x && rect.min.x <= LAYOUT_LIMIT && -LAYOUT_LIMIT <= rect.min.y
        && rect.min.y <= LAYOUT_LIMIT && -LAYOUT_LIMIT <= rect.max.x && rect.max.x <= LAYOUT_LIMIT
        && -LAYOUT_LIMIT <= rect.max.y && rect.max.y <= LAYOUT_LIMIT) {
        return None;
    }
    match p {
        Pane::Split { direction, bias, a, b } => {
            if !(0 <= *bias && *bias <= BIAS_DENOM) {
                return None;
            }
            let rects = split_rect(rect, *direction, *bias);
            let first = precalc_node(a, rects.0, theme);
            let second = precalc_node(b, rects.1, theme);
            match (first, second) {
                (Some(first), Some(second)) => Some(
                    PaneLayout::Split { first: Box::new(first), second: Box::new(second) },
                ),
                _ => None,
            }
        },
        Pane::Leaf { pane_type, corners } => {
            let pts = get_corners(rect, *corners, theme);
            let inner_opt = find_largest_rectangle(&pts);
            match inner_opt {
                None => None,
                Some(inner) => {
                    let hmargin = (inner.min.x - rect.min.x) + (rect.max.x - inner.max.x);
                    let vmargin = (inner.min.y - rect.min.y) + (rect.max.y - inner.max.y);
                    let text = title_text(*pane_type);
                    let title_type = if hmargin > vmargin {
                        TitleFormats::SIDE { text: Some(text) }
                    } else {
                        TitleFormats::TOP { text: Some(text) }
                    };
                    let row_count: usize = match pane_type {
                        PaneType::ProcTable => {
                            let ih = inner.max.y - inner.min.y;
                            if ih < theme.bar_height {
                                0
                            } else {
                                proof {
                                    lemma_div_pos_is_pos(
                                        ih - theme.bar_height,
                                        theme.row_height as int,
                                    );
                                }
                                ((ih - theme.bar_height) / theme.row_height) as usize
                            }
                        },
                        _ => 0,
                    };
                    Some(
                        PaneLayout::Leaf {
                            geo: LeafGeometry {
                                pane_type: *pane_type,
                                rect,
                                inner_rect: inner,
                                container_points: pts,
                                title_type,
                                row_count,
                            },
                        },
                    )
                },
            }
        },
    }
}

/// A resolved layout certifies the configuration: whenever `precalc`
/// produces a layout, every split bias in the tree was in range.
pub proof fn lemma_precalc_requires_wf(p: Pane, rect: Rect, th: Theme)
    requires
        precalc_spec(p, rect, th) is Some,
    ensures
        pane_wf(p),
    decreases p,
{
    if rect_wf(rect) && rect_in_layout_bounds(rect) {
        match p {
            Pane::Leaf { .. } => {},
            Pane::Split { direction, bias, a, b } => {
                let rects = split_rects_spec(rect, direction, bias as int);
                lemma_precalc_requires_wf(*a, rects.0, th);
                lemma_precalc_requires_wf(*b, rects.1, th);
            },
        }
    }
}

/// A pane with its resolved layout: the configuration survives for the
/// process lifetime, the layout is rebuilt whenever the viewport changes.
#[derive(Debug)]
pub struct PaneInstance {
    pub config: Pane,
    pub layout: Option<PaneLayout>,
}

impl Default for PaneInstance {
    /// The default leaf configuration, not yet resolved.
    fn default() -> (p: PaneInstance)
        ensures
            p.config == (Pane::Leaf {
                pane_type: PaneType::No,
                corners: [CornerTypes::Ang30, CornerTypes::Ang60, CornerTypes::Ang60,
                    CornerTypes::Ang30],
            }),
            p.layout is None,
    {
        PaneInstance { config: Pane::default(), layout: None }
    }
}

impl PaneInstance {
    /// Wraps a configuration tree, with no layout computed yet.
    pub fn from_config(config: Pane) -> (r: PaneInstance)
        ensures
            r.config == config,
            r.layout is None,
    {
        PaneInstance { config, layout: None }
    }

    /// Resolves the configuration against a viewport rectangle, replacing
    /// any previous layout.  The layout is `None` exactly when the
    /// configuration does not resolve; the host must treat that as fatal.
    pub fn precalc(&mut self, rect: Rect, theme: &Theme)
        requires
            theme_wf(*theme),
        ensures
            final(self).config == old(self).config,
            final(self).layout is Some <==> precalc_spec(old(self).config, rect, *theme) is Some,
            final(self).layout is Some ==> layout_model(final(self).layout.unwrap())
                == precalc_spec(old(self).config, rect, *theme).unwrap(),
    {
        let r = precalc_node(&self.config, rect, theme);
        self.layout = r;
    }
}

/// Builds the runtime instance for a configuration tree.
pub fn create_pane_instance(config: Pane) -> (r: PaneInstance)
    ensures
        r.config == config,
        r.layout is None,
{
    PaneInstance::from_config(config)
}

} // verus!
