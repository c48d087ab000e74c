use raylock::geometry::{CornerTypes, Point, Rect, Theme};
use raylock::panes::{Pane, PaneLayout, PaneType, SplitType};
use raylock::config::{load_pane_config, parse_pane_config};

fn leaf_parts(p: &Pane) -> (PaneType, [CornerTypes; 4]) {
    match p {
        Pane::Leaf { pane_type, corners } => (*pane_type, *corners),
        _ => panic!("expected a leaf"),
    }
}

fn count_leaves(l: &PaneLayout) -> usize {
    match l {
        PaneLayout::Leaf { .. } => 1,
        PaneLayout::Split { first, second } => count_leaves(first) + count_leaves(second),
    }
}

#[test]
fn parses_a_leaf() {
    let json = r#"{"kind":"Leaf","pane_type":"Info","corners":["SQUARE","Ang30","Ang45","Ang60"]}"#;
    let pane = parse_pane_config(json).unwrap();
    let (pt_, corners) = leaf_parts(&pane);
    assert_eq!(pt_, PaneType::Info);
    assert_eq!(
        corners,
        [
            CornerTypes::SQUARE,
            CornerTypes::Ang30,
            CornerTypes::Ang45,
            CornerTypes::Ang60,
        ]
    );
}

#[test]
fn parses_members_in_either_order() {
    let json = r#"{"kind":"Leaf","corners":["SQUARE","SQUARE","SQUARE","SQUARE"],"pane_type":"No"}"#;
    let pane = parse_pane_config(json).unwrap();
    let (pt_, corners) = leaf_parts(&pane);
    assert_eq!(pt_, PaneType::No);
    assert_eq!(corners, [CornerTypes::SQUARE; 4]);
}

#[test]
fn parses_a_split_with_fractional_bias() {
    let json = r#"{"kind":"Split","direction":"V","bias":0.5,
        "a":{"kind":"Leaf","pane_type":"CpuGraph","corners":["SQUARE","SQUARE","SQUARE","SQUARE"]},
        "b":{"kind":"Leaf","pane_type":"MemGraph","corners":["SQUARE","SQUARE","SQUARE","SQUARE"]}}"#;
    let pane = parse_pane_config(json).unwrap();
    match pane {
        Pane::Split { direction, bias, a, b } => {
            assert_eq!(direction, SplitType::V);
            assert_eq!(bias, 500);
            assert_eq!(leaf_parts(&a).0, PaneType::CpuGraph);
            assert_eq!(leaf_parts(&b).0, PaneType::MemGraph);
        },
        _ => panic!("expected a split"),
    }
}

#[test]
fn bias_reads_at_thousandth_resolution() {
    let json = |bias: &str| {
        format!(
            r#"{{"kind":"Split","direction":"H","bias":{},
            "a":{{"kind":"Leaf","pane_type":"No","corners":["SQUARE","SQUARE","SQUARE","SQUARE"]}},
            "b":{{"kind":"Leaf","pane_type":"No","corners":["SQUARE","SQUARE","SQUARE","SQUARE"]}}}}"#,
            bias
        )
    };
    for (text, milli) in [
        ("0.2", 200),
        ("1", 1000),
        ("0", 0),
        ("0.25", 250),
        ("0.125", 125),
        ("0.12599", 125),
        ("1.0", 1000),
    ] {
        match parse_pane_config(&json(text)).unwrap() {
            Pane::Split { bias, .. } => assert_eq!(bias, milli, "bias text {}", text),
            _ => panic!("expected a split"),
        }
    }
}

#[test]
fn parses_the_stock_layout() {
    // The layout the lock screen ships with: an even vertical split, the
    // left column holding the info pane over the process table, the right
    // column four telemetry graphs.
    let json = r#"
{
    "kind": "Split",
    "direction": "V",
    "bias": 0.5,
    "a": {
        "kind": "Split",
        "direction": "H",
        "bias": 0.2,
        "a": {
            "kind": "Leaf",
            "corners": ["Ang60", "Ang30", "Ang60", "Ang30"],
            "pane_type": "Info"
        },
        "b": {
            "kind": "Leaf",
            "corners": ["Ang30", "Ang60", "SQUARE", "SQUARE"],
            "pane_type": "ProcTable"
        }
    },
    "b": {
        "kind": "Split",
        "direction": "H",
        "bias": 0.5,
        "a": {
            "kind": "Split",
            "direction": "H",
            "bias": 0.5,
            "a": {
                "kind": "Leaf",
                "corners": ["Ang60", "SQUARE", "SQUARE", "Ang30"],
                "pane_type": "CpuGraph"
            },
            "b": {
                "kind": "Leaf",
                "corners": ["Ang60", "SQUARE", "SQUARE", "Ang30"],
                "pane_type": "MemGraph"
            }
        },
        "b": {
            "kind": "Split",
            "direction": "H",
            "bias": 0.5,
            "a": {
                "kind": "Leaf",
                "corners": ["Ang60", "SQUARE", "SQUARE", "Ang30"],
                "pane_type": "NetGraph"
            },
            "b": {
                "kind": "Leaf",
                "corners": ["Ang60", "SQUARE", "SQUARE", "Ang30"],
                "pane_type": "DiskGraph"
            }
        }
    }
}
"#;
    let mut instance = load_pane_config(json).unwrap();
    match &instance.config {
        Pane::Split { direction, bias, a, .. } => {
            assert_eq!(*direction, SplitType::V);
            assert_eq!(*bias, 500);
            match a.as_ref() {
                Pane::Split { direction, bias, a, .. } => {
                    assert_eq!(*direction, SplitType::H);
                    assert_eq!(*bias, 200);
                    assert_eq!(leaf_parts(a).0, PaneType::Info);
                },
                _ => panic!("left column must be a split"),
            }
        },
        _ => panic!("root must be a split"),
    }

    // The whole tree resolves against a full-screen viewport.
    let theme = Theme::default();
    instance.precalc(
        Rect { min: Point { x: 0, y: 0 }, max: Point { x: 1920, y: 1080 } },
        &theme,
    );
    let layout = instance.layout.expect("the stock layout must resolve");
    assert_eq!(count_leaves(&layout), 6);
}

#[test]
fn rejects_malformed_documents() {
    let bad = [
        "",
        "{}",
        r#"{"kind":"Leef","pane_type":"Info","corners":["SQUARE","SQUARE","SQUARE","SQUARE"]}"#,
        r#"{"kind":"Leaf","pane_type":"Info"}"#,
        r#"{"kind":"Leaf","pane_type":"Info","corners":["SQUARE","SQUARE","SQUARE"]}"#,
        r#"{"kind":"Leaf","pane_type":"Oscilloscope","corners":["SQUARE","SQUARE","SQUARE","SQUARE"]}"#,
        r#"{"kind":"Leaf","pane_type":"Info","corners":["ROUND","SQUARE","SQUARE","SQUARE"]}"#,
        r#"{"kind":"Leaf","pane_type":"Info","pane_type":"Info","corners":["SQUARE","SQUARE","SQUARE","SQUARE"]}"#,
        r#"{"kind":"Split","direction":"X","bias":0.5,"a":{"kind":"Leaf","pane_type":"No","corners":["SQUARE","SQUARE","SQUARE","SQUARE"]},"b":{"kind":"Leaf","pane_type":"No","corners":["SQUARE","SQUARE","SQUARE","SQUARE"]}}"#,
        r#"{"kind":"Split","direction":"V","bias":-0.5,"a":{"kind":"Leaf","pane_type":"No","corners":["SQUARE","SQUARE","SQUARE","SQUARE"]},"b":{"kind":"Leaf","pane_type":"No","corners":["SQUARE","SQUARE","SQUARE","SQUARE"]}}"#,
        r#"{"kind":"Leaf","pane_type":"Info","corners":["SQUARE","SQUARE","SQUARE","SQUARE"]} trailing"#,
        r#"{"kind":"Leaf","pane_type":"Info","corners":["SQUARE","SQUARE","SQUARE","SQUARE"]"#,
    ];
    for json in bad {
        assert!(parse_pane_config(json).is_err(), "must reject {:?}", json);
    }
}

#[test]
fn parse_error_has_a_message() {
    let err = parse_pane_config("nonsense").unwrap_err();
    assert_eq!(err.message(), "malformed pane configuration");
}
