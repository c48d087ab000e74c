use raylock::geometry::{CornerTypes, Point, Rect, Theme};
use raylock::panes::{
    create_pane_instance, direction_to_split_type, split_rect, Pane, PaneLayout, PaneType,
    SplitDirection, SplitType, TitleFormats,
};

fn pt(x: i64, y: i64) -> Point {
    Point { x, y }
}

fn screen() -> Rect {
    Rect { min: pt(0, 0), max: pt(1920, 1080) }
}

#[test]
fn vertical_split_partitions_exactly() {
    // The children cover the parent with no gap and no overlap: they share
    // the split abscissa and keep the full vertical extent.
    let (a, b) = split_rect(screen(), SplitType::V, 500);
    assert_eq!(a, Rect { min: pt(0, 0), max: pt(960, 1080) });
    assert_eq!(b, Rect { min: pt(960, 0), max: pt(1920, 1080) });
    assert_eq!(a.max.x, b.min.x);
}

#[test]
fn horizontal_split_partitions_exactly() {
    let (a, b) = split_rect(screen(), SplitType::H, 200);
    assert_eq!(a, Rect { min: pt(0, 0), max: pt(1920, 216) });
    assert_eq!(b, Rect { min: pt(0, 216), max: pt(1920, 1080) });
    assert_eq!(a.max.y, b.min.y);
}

#[test]
fn extreme_biases_give_empty_side() {
    let (a, b) = split_rect(screen(), SplitType::V, 0);
    assert_eq!(a.max.x, 0);
    assert_eq!(b, screen());
    let (c, d) = split_rect(screen(), SplitType::V, 1000);
    assert_eq!(c, screen());
    assert_eq!(d.min.x, 1920);
}

#[test]
fn splits_hold_at_the_coordinate_limits() {
    // The largest rectangle the layout accepts still splits exactly.
    let r = Rect {
        min: pt(-990_000_000, -990_000_000),
        max: pt(990_000_000, 990_000_000),
    };
    let (a, b) = split_rect(r, SplitType::V, 250);
    assert_eq!(a.max.x, -495_000_000);
    assert_eq!(b.min.x, -495_000_000);
    assert_eq!(a.min, r.min);
    assert_eq!(b.max, r.max);
}

#[test]
fn split_point_rounds_down() {
    let r = Rect { min: pt(0, 0), max: pt(1001, 10) };
    let (a, _) = split_rect(r, SplitType::V, 333);
    // 1001 * 333 / 1000, rounded down.
    assert_eq!(a.max.x, 333);
}

#[test]
fn flat_list_directions_map_onto_tree_directions() {
    assert_eq!(
        direction_to_split_type(SplitDirection::Horizontal),
        SplitType::V
    );
    assert_eq!(
        direction_to_split_type(SplitDirection::Vertical),
        SplitType::H
    );
}

#[test]
fn even_split_of_two_square_leaves() {
    // The end-to-end scenario: an even vertical split of a 1920x1080
    // viewport into two square-cornered leaves gives two 960x1080 panes,
    // each with its content rectangle inset by the gap plus the one-pixel
    // containment margin, and both titles on top (equal margins tie to top).
    let config = Pane::Split {
        direction: SplitType::V,
        bias: 500,
        a: Box::new(Pane::Leaf {
            pane_type: PaneType::CpuGraph,
            corners: [CornerTypes::SQUARE; 4],
        }),
        b: Box::new(Pane::Leaf {
            pane_type: PaneType::MemGraph,
            corners: [CornerTypes::SQUARE; 4],
        }),
    };
    let mut instance = create_pane_instance(config);
    let theme = Theme::default();
    instance.precalc(screen(), &theme);
    let layout = instance.layout.expect("layout must resolve");
    match layout {
        PaneLayout::Split { first, second } => {
            match *first {
                PaneLayout::Leaf { ref geo } => {
                    assert_eq!(geo.pane_type, PaneType::CpuGraph);
                    assert_eq!(geo.rect, Rect { min: pt(0, 0), max: pt(960, 1080) });
                    assert_eq!(geo.inner_rect, Rect { min: pt(7, 7), max: pt(953, 1073) });
                    assert!(matches!(geo.title_type, TitleFormats::TOP { .. }));
                },
                _ => panic!("first child must be a leaf"),
            }
            match *second {
                PaneLayout::Leaf { ref geo } => {
                    assert_eq!(geo.pane_type, PaneType::MemGraph);
                    assert_eq!(geo.rect, Rect { min: pt(960, 0), max: pt(1920, 1080) });
                    assert_eq!(geo.inner_rect, Rect { min: pt(967, 7), max: pt(1913, 1073) });
                    assert!(matches!(geo.title_type, TitleFormats::TOP { .. }));
                },
                _ => panic!("second child must be a leaf"),
            }
        },
        _ => panic!("root must be a split"),
    }
}

#[test]
fn titles_carry_widget_labels() {
    let config = Pane::Leaf {
        pane_type: PaneType::ProcTable,
        corners: [CornerTypes::SQUARE; 4],
    };
    let mut instance = create_pane_instance(config);
    let theme = Theme::default();
    instance.precalc(Rect { min: pt(0, 0), max: pt(800, 600) }, &theme);
    match instance.layout.unwrap() {
        PaneLayout::Leaf { geo } => {
            match geo.title_type {
                TitleFormats::TOP { text } => assert_eq!(text.unwrap(), "PROC"),
                TitleFormats::SIDE { .. } => panic!("square corners tie to a top title"),
            }
            // Inner height 586: under the 16-pixel bar, 570 pixels hold 23
            // rows of 24 pixels.
            assert_eq!(geo.row_count, 23);
        },
        _ => panic!("leaf layout expected"),
    }
}

#[test]
fn side_title_when_horizontal_margin_wins() {
    // On a wide cut-cornered pane the largest content rectangle keeps the
    // full height and gives up width, so the horizontal margin wins and
    // the title moves to the side.
    let config = Pane::Leaf {
        pane_type: PaneType::Info,
        corners: [CornerTypes::Ang45; 4],
    };
    let mut instance = create_pane_instance(config);
    let theme = Theme::default();
    instance.precalc(Rect { min: pt(0, 0), max: pt(900, 300) }, &theme);
    match instance.layout.unwrap() {
        PaneLayout::Leaf { geo } => {
            assert_eq!(geo.inner_rect, Rect { min: pt(77, 7), max: pt(823, 293) });
            assert!(matches!(geo.title_type, TitleFormats::SIDE { .. }));
        },
        _ => panic!("leaf layout expected"),
    }
}

#[test]
fn degenerate_leaf_rectangle_fails_precalc() {
    // A leaf too small to hold any inscribed rectangle is a configuration
    // error: no layout is produced.
    let config = Pane::Leaf {
        pane_type: PaneType::No,
        corners: [CornerTypes::SQUARE; 4],
    };
    let mut instance = create_pane_instance(config);
    let theme = Theme::default();
    instance.precalc(Rect { min: pt(0, 0), max: pt(10, 10) }, &theme);
    assert!(instance.layout.is_none());
}

#[test]
fn out_of_range_bias_fails_precalc() {
    let config = Pane::Split {
        direction: SplitType::H,
        bias: 1500,
        a: Box::new(Pane::Leaf {
            pane_type: PaneType::No,
            corners: [CornerTypes::SQUARE; 4],
        }),
        b: Box::new(Pane::Leaf {
            pane_type: PaneType::No,
            corners: [CornerTypes::SQUARE; 4],
        }),
    };
    let mut instance = create_pane_instance(config);
    let theme = Theme::default();
    instance.precalc(screen(), &theme);
    assert!(instance.layout.is_none());
}
