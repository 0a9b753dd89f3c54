#![allow(unused_imports, dead_code)]
use std::sync::Arc;
use terminal_mcp::recording::{recording_text, split_recording, EventKind};
use terminal_mcp::{
    Bounds, BorderDetector, ButtonDetector, Cell, CheckboxDetector, Color, DetectedElement,
    DetectionContext, DetectionPipeline, Dimensions, Element, ElementDetector, Grid,
    InputDetector, Key, MenuDetector, MenuItem, NavigationCalculator, Parser, Position,
    ProgressDetector, SessionRecorder, StatusBarDetector, TableDetector, TerminalStateTree,
};

fn grid_from_text(rows: u16, cols: u16, text: &str) -> Grid {
    let mut parser = Parser::new(Grid::new(Dimensions::new(rows, cols)));
    parser.process(text.as_bytes());
    parser.into_grid()
}

fn full_pipeline() -> DetectionPipeline {
    let mut pipeline = DetectionPipeline::new();
    pipeline.add_detector(Arc::new(StatusBarDetector::new()));
    pipeline.add_detector(Arc::new(CheckboxDetector::new()));
    pipeline.add_detector(Arc::new(ProgressDetector::new()));
    pipeline.add_detector(Arc::new(ButtonDetector::new()));
    pipeline.add_detector(Arc::new(InputDetector::new()));
    pipeline.add_detector(Arc::new(TableDetector::new()));
    pipeline.add_detector(Arc::new(MenuDetector::new()));
    pipeline.add_detector(Arc::new(BorderDetector::new()));
    pipeline
}

fn cursor_on_grid(grid: &Grid) -> bool {
    let d = grid.dimensions();
    let p = grid.cursor().position;
    p.row < d.rows && p.col < d.cols
}

#[test]
fn grid_integrity_holds_after_every_operation() {
    let mut parser = Parser::new(Grid::new(Dimensions::new(4, 6)));
    let inputs: Vec<&[u8]> = vec![
        b"abcdefghijklmnopqrstuvwxyz0123456789",
        b"\x1b[99;99H",
        b"\x1b[99A\x1b[99B\x1b[99C\x1b[99D",
        b"\t\t\t\t\x08\x08\r\n\n\n\n\n\n",
        b"\x1b[s\x1b[2;2H\x1b[u",
        b"\x1b[0J\x1b[1J\x1b[2J\x1b[0K\x1b[1K\x1b[2K",
        b"\x1b[1;31;38;5;200;48;2;1;2;3mX\x1b[0m",
        b"\x1b]0;title\x07\x1bM\x1bPq\x1b\\",
    ];
    for input in inputs {
        parser.process(input);
        assert!(cursor_on_grid(parser.grid()));
        assert_eq!(parser.grid().dimensions(), Dimensions::new(4, 6));
        for r in 0..4 {
            assert_eq!(parser.grid().row(r).unwrap().len(), 6);
        }
        assert!(parser.grid().row(4).is_none());
    }
    let mut grid = parser.into_grid();
    grid.save_cursor();
    grid.resize(Dimensions::new(2, 3));
    assert!(cursor_on_grid(&grid));
    grid.restore_cursor();
    assert!(cursor_on_grid(&grid));
    grid.clear_region(&Bounds::new(1, 1, 500, 500));
    grid.clear();
    assert!(cursor_on_grid(&grid));
    assert_eq!(grid.row(1).unwrap().len(), 3);
}

#[test]
fn grid_resize_preserves_the_common_rectangle() {
    let mut grid = grid_from_text(5, 8, "\x1b[31mabcdefgh\x1b[0mijklmnopqrstuvwxyz");
    let before: Vec<Vec<Cell>> = (0..5).map(|r| grid.row(r).unwrap().to_vec()).collect();
    for (rows, cols) in [(3u16, 4u16), (7, 10), (5, 2), (1, 20)] {
        let mut resized = grid_from_text(5, 8, "\x1b[31mabcdefgh\x1b[0mijklmnopqrstuvwxyz");
        resized.resize(Dimensions::new(rows, cols));
        for r in 0..rows {
            for c in 0..cols {
                let cell = *resized.cell(r, c).unwrap();
                if r < 5 && c < 8 {
                    assert_eq!(cell, before[r as usize][c as usize]);
                } else {
                    assert_eq!(cell, Cell::default());
                }
            }
        }
        assert!(resized.cell(rows, 0).is_none());
    }
    grid.resize(Dimensions::new(5, 8));
    assert_eq!(grid.cell(0, 0).unwrap().fg, Color::Red);
}

#[test]
fn named_keys_round_trip_and_encode_as_listed() {
    let named: Vec<(Key, &str, Vec<u8>)> = vec![
        (Key::Up, "Up", vec![0x1b, 0x5b, 0x41]),
        (Key::Down, "Down", vec![0x1b, 0x5b, 0x42]),
        (Key::Right, "Right", vec![0x1b, 0x5b, 0x43]),
        (Key::Left, "Left", vec![0x1b, 0x5b, 0x44]),
        (Key::Home, "Home", vec![0x1b, 0x5b, 0x48]),
        (Key::End, "End", vec![0x1b, 0x5b, 0x46]),
        (Key::PageUp, "PageUp", vec![0x1b, 0x5b, 0x35, 0x7e]),
        (Key::PageDown, "PageDown", vec![0x1b, 0x5b, 0x36, 0x7e]),
        (Key::Enter, "Enter", vec![0x0d]),
        (Key::Tab, "Tab", vec![0x09]),
        (Key::Escape, "Escape", vec![0x1b]),
        (Key::Backspace, "Backspace", vec![0x7f]),
        (Key::Delete, "Delete", vec![0x1b, 0x5b, 0x33, 0x7e]),
        (Key::Space, "Space", vec![0x20]),
        (Key::Insert, "Insert", vec![0x1b, 0x5b, 0x32, 0x7e]),
        (Key::F1, "F1", vec![0x1b, 0x4f, 0x50]),
        (Key::F2, "F2", vec![0x1b, 0x4f, 0x51]),
        (Key::F3, "F3", vec![0x1b, 0x4f, 0x52]),
        (Key::F4, "F4", vec![0x1b, 0x4f, 0x53]),
        (Key::F5, "F5", vec![0x1b, 0x5b, 0x31, 0x35, 0x7e]),
        (Key::F6, "F6", vec![0x1b, 0x5b, 0x31, 0x37, 0x7e]),
        (Key::F7, "F7", vec![0x1b, 0x5b, 0x31, 0x38, 0x7e]),
        (Key::F8, "F8", vec![0x1b, 0x5b, 0x31, 0x39, 0x7e]),
        (Key::F9, "F9", vec![0x1b, 0x5b, 0x32, 0x30, 0x7e]),
        (Key::F10, "F10", vec![0x1b, 0x5b, 0x32, 0x31, 0x7e]),
        (Key::F11, "F11", vec![0x1b, 0x5b, 0x32, 0x33, 0x7e]),
        (Key::F12, "F12", vec![0x1b, 0x5b, 0x32, 0x34, 0x7e]),
    ];
    for (key, name, bytes) in named {
        assert_eq!(key.to_string(), name);
        assert_eq!(Key::parse(&key.to_string()).unwrap(), key);
        assert_eq!(key.to_escape_sequence(), bytes);
    }
    for (alias, key) in [
        ("Return", Key::Enter),
        ("Esc", Key::Escape),
        ("Del", Key::Delete),
        ("Ins", Key::Insert),
        ("PgUp", Key::PageUp),
        ("PgDn", Key::PageDown),
    ] {
        assert_eq!(Key::parse(alias).unwrap(), key);
    }
}

/// A detector that reports one fixed element unless its region is claimed.
struct Fixed {
    bounds: Bounds,
    priority: u32,
}

impl ElementDetector for Fixed {
    fn name(&self) -> &'static str {
        "fixed"
    }

    fn priority(&self) -> u32 {
        self.priority
    }

    fn detect(&self, _grid: &Grid, context: &DetectionContext) -> Vec<DetectedElement> {
        if context.is_region_claimed(&self.bounds) {
            Vec::new()
        } else {
            vec![DetectedElement {
                element: Element::Text {
                    ref_id: "same".to_string(),
                    bounds: self.bounds,
                    content: "x".to_string(),
                },
                bounds: self.bounds,
                confidence: terminal_mcp::Confidence::Low,
            }]
        }
    }
}

#[test]
fn later_detectors_stay_off_claimed_regions() {
    let mut pipeline = DetectionPipeline::new();
    pipeline.add_detector(Arc::new(Fixed { bounds: Bounds::new(0, 0, 10, 2), priority: 10 }));
    pipeline.add_detector(Arc::new(Fixed { bounds: Bounds::new(1, 5, 10, 2), priority: 30 }));
    pipeline.add_detector(Arc::new(Fixed { bounds: Bounds::new(5, 5, 2, 2), priority: 20 }));
    pipeline.add_detector(Arc::new(Fixed { bounds: Bounds::new(6, 6, 2, 2), priority: 20 }));
    let grid = Grid::new(Dimensions::new(24, 80));
    let found = pipeline.detect(&grid, Position::origin());
    let bounds: Vec<Bounds> = found.iter().map(|e| e.bounds).collect();
    assert_eq!(bounds, vec![Bounds::new(1, 5, 10, 2), Bounds::new(5, 5, 2, 2)]);
    for j in 0..found.len() {
        for i in 0..j {
            assert!(!found[j].bounds.intersects(&found[i].bounds));
        }
    }
}

#[test]
fn no_border_remains_strictly_inside_another() {
    let text = "\
┌──────────────────┐\r\n\
│ ┌────┐  +---+    │\r\n\
│ │    │  |   |    │\r\n\
│ └────┘  +---+    │\r\n\
└──────────────────┘\r\n\
╔═══╗ ┏━━━┓ ╭───╮\r\n\
║   ║ ┃   ┃ │   │\r\n\
╚═══╝ ┗━━━┛ ╰───╯\r\n";
    let grid = grid_from_text(24, 80, text);
    let found = BorderDetector::new().detect(&grid, &DetectionContext::new(Position::origin()));
    assert_eq!(found.len(), 4);
    assert_eq!(found[0].bounds, Bounds::new(0, 0, 20, 5));
    for i in 0..found.len() {
        for j in 0..found.len() {
            if i != j {
                let (a, b) = (found[i].bounds, found[j].bounds);
                let inside = a.row >= b.row
                    && a.col >= b.col
                    && a.row + a.height <= b.row + b.height
                    && a.col + a.width <= b.col + b.width;
                assert!(!(inside && a != b));
            }
        }
    }
}

#[test]
fn reference_ids_are_distinct_within_a_snapshot() {
    let text = "\
[ OK ] [ Cancel ] [ Help ]\r\n\
[x] one [ ] two (o) three\r\n\
\r\n\
████░░░░░░\r\n\
[=====     ] [##########]\r\n\
10% and 20% and 30%\r\n";
    let grid = grid_from_text(24, 80, text);
    let mut pipeline = DetectionPipeline::new();
    pipeline.add_detector(Arc::new(ButtonDetector::new()));
    pipeline.add_detector(Arc::new(CheckboxDetector::new()));
    pipeline.add_detector(Arc::new(ProgressDetector::new()));
    let found = pipeline.detect(&grid, Position::origin());
    assert!(found.len() >= 6, "found {}", found.len());
    let mut ids: Vec<String> = found.iter().map(|e| e.element.ref_id().to_string()).collect();
    for (e, id) in found.iter().zip(ids.iter()) {
        let prefix = format!("{}_", e.element.kind_name());
        assert!(id.starts_with(&prefix), "{} should begin with {}", id, prefix);
        let number: usize = id[prefix.len()..].parse().unwrap();
        assert!(number >= 1);
    }
    ids.sort();
    let before = ids.len();
    ids.dedup();
    assert_eq!(ids.len(), before);

    let mut pipeline = DetectionPipeline::new();
    pipeline.add_detector(Arc::new(Fixed { bounds: Bounds::new(0, 0, 1, 1), priority: 1 }));
    pipeline.add_detector(Arc::new(Fixed { bounds: Bounds::new(2, 2, 1, 1), priority: 1 }));
    let found = pipeline.detect(&Grid::new(Dimensions::new(5, 5)), Position::origin());
    assert_eq!(found[0].element.ref_id(), "text_1");
    assert_eq!(found[1].element.ref_id(), "text_2");
}

fn menu_snapshot(count: usize, selected: usize) -> TerminalStateTree {
    let items = (0..count)
        .map(|i| MenuItem::new(&format!("item_{i}"), &format!("Entry {i}"), i == selected))
        .collect();
    TerminalStateTree {
        session_id: "s".to_string(),
        dimensions: Dimensions::new(24, 80),
        cursor: Position::new(0, 0),
        timestamp: "2025-01-01T00:00:00Z".to_string(),
        elements: vec![Element::Menu {
            ref_id: "menu_1".to_string(),
            bounds: Bounds::new(0, 0, 80, count as u16),
            items,
            selected,
        }],
        raw_text: String::new(),
        ansi_buffer: None,
    }
}

#[test]
fn menu_plans_hold_the_distance_in_arrows_and_one_enter() {
    let calc = NavigationCalculator::new();
    for selected in 0..6 {
        for target in 0..6 {
            let snapshot = menu_snapshot(6, selected);
            let keys = calc.calculate(&snapshot, &format!("item_{target}")).unwrap();
            let distance = if target > selected { target - selected } else { selected - target };
            assert_eq!(keys.len(), distance + 1);
            assert_eq!(keys[distance], Key::Enter);
            for k in &keys[..distance] {
                assert_eq!(*k, if target > selected { Key::Down } else { Key::Up });
            }
        }
    }
}

#[test]
fn recording_lines_round_trip() {
    let header = "{\"version\":2,\"width\":80,\"height\":24}";
    let events = vec![
        "[0.5,\"o\",\"hello\\r\\n\"]".to_string(),
        "[1.25,\"i\",\"ls\"]".to_string(),
        "[2.0,\"o\",\"\"]".to_string(),
    ];
    let text = recording_text(header, &events);
    assert_eq!(text.lines().count(), 4);
    let (h, e) = split_recording(&text).unwrap();
    assert_eq!(h, header);
    assert_eq!(e, events);

    let (h, e) = split_recording("head\r\n\r\n  \nfirst\r\nsecond").unwrap();
    assert_eq!(h, "head");
    assert_eq!(e, vec!["first".to_string(), "second".to_string()]);
    assert!(split_recording("").is_err());
}

#[test]
fn recorder_keeps_events_in_order() {
    let mut recorder = SessionRecorder::new(Dimensions::new(24, 80));
    assert_eq!(recorder.duration_us(), 0);
    recorder.record_output(b"out", 10);
    recorder.record_input(b"in", 20);
    recorder.record_output(&[0x66, 0xff, 0x6f], 35);
    assert_eq!(recorder.event_count(), 3);
    assert_eq!(recorder.duration_us(), 35);
    assert_eq!(recorder.event(0).kind, EventKind::Output);
    assert_eq!(recorder.event(0).data, "out");
    assert_eq!(recorder.event(1).kind, EventKind::Input);
    assert_eq!(recorder.event(1).data, "in");
    assert_eq!(recorder.event(1).time_us, 20);
    assert_eq!(recorder.event(2).data, "f\u{fffd}o");
    recorder.record_text(EventKind::Input, "typed".to_string(), 40);
    assert_eq!(recorder.event_count(), 4);
    assert_eq!(recorder.event(3).data, "typed");
    assert_eq!(recorder.event(3).kind, EventKind::Input);
    assert_eq!(recorder.duration_us(), 40);
    recorder.record_text(EventKind::Output, String::new(), 35);
    assert_eq!(recorder.event_count(), 5);
    assert_eq!(recorder.duration_us(), 35);
    let header = recorder.header(1_700_000_000);
    assert_eq!((header.version, header.width, header.height), (2, 80, 24));
    assert_eq!(header.timestamp, Some(1_700_000_000));
    assert_eq!(EventKind::Output.code(), "o");
    assert_eq!(EventKind::Input.code(), "i");
    assert_eq!(EventKind::from_code("i"), EventKind::Input);
    assert_eq!(EventKind::from_code("x"), EventKind::Output);
}

#[test]
fn elements_of_a_snapshot_lie_on_the_grid() {
    for (rows, cols) in [(3u16, 12u16), (6, 20), (24, 80), (2, 5)] {
        let text = "Name: value here that is long\r\n[ OK ] [x] label text 100%\r\n████████░░░░\r\n│ field │\r\n+--+\r\n|  |\r\n+--+\r\n";
        let grid = grid_from_text(rows, cols, text);
        for cursor in [Position::new(0, 3), Position::new(3, 2), Position::new(50, 50)] {
            let found = full_pipeline().detect(&grid, cursor);
            for e in &found {
                assert!(e.bounds.row as u32 + e.bounds.height as u32 <= rows as u32);
                assert!(e.bounds.col as u32 + e.bounds.width as u32 <= cols as u32);
                assert_eq!(*e.element.bounds(), e.bounds);
            }
        }
    }
}
