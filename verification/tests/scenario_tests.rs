#![allow(unused_imports, dead_code)]
use std::sync::Arc;
use std::time::Duration;
use terminal_mcp::driver::{click_strokes, key_bytes, text_writes, SessionCore};
use terminal_mcp::wait::{check_condition, condition_met};
use terminal_mcp::{
    Bounds, BorderDetector, ButtonDetector, Confidence, DetectionContext, DetectionPipeline,
    Dimensions, Element, ElementDetector, Error, Grid, InputDetector, Key, MenuDetector,
    MenuItem, NavigationCalculator, Parser, Position, ProgressDetector, TerminalStateTree,
    WaitCondition,
};

fn grid_from_bytes(rows: u16, cols: u16, bytes: &[u8]) -> Grid {
    let mut parser = Parser::new(Grid::new(Dimensions::new(rows, cols)));
    parser.process(bytes);
    parser.into_grid()
}

#[test]
fn light_border_with_title() {
    let grid = grid_from_bytes(24, 80, "┌─ Title ┐\r\n│ Content│\r\n└────────┘".as_bytes());
    let found = BorderDetector::new().detect(&grid, &DetectionContext::new(Position::origin()));
    assert_eq!(found.len(), 1);
    assert_eq!(found[0].bounds, Bounds::new(0, 0, 10, 3));
    assert_eq!(found[0].confidence, Confidence::High);
    match &found[0].element {
        Element::Border { ref_id, bounds, title, children } => {
            assert_eq!(ref_id, "border_1");
            assert_eq!(*bounds, Bounds::new(0, 0, 10, 3));
            assert_eq!(title.as_deref(), Some("Title"));
            assert!(children.is_empty());
        }
        other => panic!("expected a border, found {other:?}"),
    }
}

#[test]
fn titled_border_spans_from_corner_to_corner() {
    let grid = grid_from_bytes(24, 80, "┌─ Title ─┐\r\n│  Content│\r\n└─────────┘".as_bytes());
    let found = BorderDetector::new().detect(&grid, &DetectionContext::new(Position::origin()));
    assert_eq!(found.len(), 1);
    assert_eq!(found[0].bounds, Bounds::new(0, 0, 11, 3));
    match &found[0].element {
        Element::Border { title, .. } => assert_eq!(title.as_deref(), Some("Title")),
        other => panic!("expected a border, found {other:?}"),
    }
}

#[test]
fn border_without_title_and_broken_borders() {
    let grid = grid_from_bytes(10, 20, "+----+\r\n|    |\r\n+----+".as_bytes());
    let found = BorderDetector::new().detect(&grid, &DetectionContext::new(Position::origin()));
    assert_eq!(found.len(), 1);
    match &found[0].element {
        Element::Border { title, .. } => assert_eq!(*title, None),
        other => panic!("expected a border, found {other:?}"),
    }
    // The left edge holds a letter: no border.
    let grid = grid_from_bytes(10, 20, "┌──┐\r\nx  │\r\n└──┘".as_bytes());
    assert!(BorderDetector::new()
        .detect(&grid, &DetectionContext::new(Position::origin()))
        .is_empty());
    // The bottom-right corner is missing: no border.
    let grid = grid_from_bytes(10, 20, "┌──┐\r\n│  │\r\n└──x".as_bytes());
    assert!(BorderDetector::new()
        .detect(&grid, &DetectionContext::new(Position::origin()))
        .is_empty());
    // A claimed region keeps the border away.
    let grid = grid_from_bytes(10, 20, "┌──┐\r\n│  │\r\n└──┘".as_bytes());
    let mut context = DetectionContext::new(Position::origin());
    context.claim_region(Bounds::new(2, 3, 1, 1));
    assert!(BorderDetector::new().detect(&grid, &context).is_empty());
}

#[test]
fn reverse_video_menu_selection() {
    let text = "  View Status      \r\n\x1b[7m> Start Service\x1b[0m    \r\n  Stop Service     \r\n  Quit             ";
    let grid = grid_from_bytes(24, 80, text.as_bytes());
    let found = MenuDetector::new().detect(&grid, &DetectionContext::new(Position::new(20, 0)));
    assert_eq!(found.len(), 1);
    assert_eq!(found[0].bounds, Bounds::new(0, 0, 80, 4));
    match &found[0].element {
        Element::Menu { ref_id, items, selected, .. } => {
            assert_eq!(ref_id, "menu_1");
            assert_eq!(*selected, 1);
            let texts: Vec<&str> = items.iter().map(|i| i.text.as_str()).collect();
            assert_eq!(texts, vec!["View Status", "> Start Service", "Stop Service", "Quit"]);
            let flags: Vec<bool> = items.iter().map(|i| i.selected).collect();
            assert_eq!(flags, vec![false, true, false, false]);
        }
        other => panic!("expected a menu, found {other:?}"),
    }
}

#[test]
fn menu_by_marker_and_by_cursor() {
    let grid = grid_from_bytes(24, 80, "  one\r\n> two\r\n  three".as_bytes());
    let found = MenuDetector::new().detect(&grid, &DetectionContext::new(Position::new(20, 0)));
    match &found[0].element {
        Element::Menu { items, selected, .. } => {
            assert_eq!(*selected, 1);
            assert_eq!(items[1].text, "two");
            assert!(items[1].selected);
        }
        other => panic!("expected a menu, found {other:?}"),
    }
    let grid = grid_from_bytes(24, 80, "alpha\r\nbeta\r\ngamma".as_bytes());
    let away = MenuDetector::new().detect(&grid, &DetectionContext::new(Position::new(20, 0)));
    assert!(away.is_empty());
    let found = MenuDetector::new().detect(&grid, &DetectionContext::new(Position::new(2, 0)));
    match &found[0].element {
        Element::Menu { items, selected, .. } => {
            assert_eq!(*selected, 2);
            assert_eq!(items.len(), 3);
        }
        other => panic!("expected a menu, found {other:?}"),
    }
    // A single row is no menu.
    let grid = grid_from_bytes(24, 80, "> only".as_bytes());
    assert!(MenuDetector::new()
        .detect(&grid, &DetectionContext::new(Position::new(0, 0)))
        .is_empty());
}

#[test]
fn labeled_input_cursor() {
    let grid = grid_from_bytes(24, 80, b"Email: user@example.com");
    let found = InputDetector::new().detect(&grid, &DetectionContext::new(Position::new(0, 12)));
    assert_eq!(found.len(), 1);
    assert_eq!(found[0].confidence, Confidence::High);
    match &found[0].element {
        Element::Input { ref_id, value, cursor_pos, bounds } => {
            assert_eq!(ref_id, "input_1");
            assert_eq!(value, "user@example.com");
            assert_eq!(*cursor_pos, 5);
            assert_eq!(*bounds, Bounds::new(0, 7, 73, 1));
        }
        other => panic!("expected an input, found {other:?}"),
    }
    // The cursor before the value, and beyond it.
    let found = InputDetector::new().detect(&grid, &DetectionContext::new(Position::new(0, 2)));
    match &found[0].element {
        Element::Input { cursor_pos, .. } => assert_eq!(*cursor_pos, 0),
        other => panic!("expected an input, found {other:?}"),
    }
    let found = InputDetector::new().detect(&grid, &DetectionContext::new(Position::new(0, 70)));
    match &found[0].element {
        Element::Input { cursor_pos, .. } => assert_eq!(*cursor_pos, 16),
        other => panic!("expected an input, found {other:?}"),
    }
}

#[test]
fn bracketed_and_highlighted_inputs() {
    let grid = grid_from_bytes(24, 80, b"  [ hello  ]");
    let found = InputDetector::new().detect(&grid, &DetectionContext::new(Position::new(0, 5)));
    assert_eq!(found.len(), 1);
    assert_eq!(found[0].confidence, Confidence::Medium);
    match &found[0].element {
        Element::Input { value, cursor_pos, bounds, .. } => {
            assert_eq!(value, "hello");
            assert_eq!(*cursor_pos, 2);
            assert_eq!(*bounds, Bounds::new(0, 3, 8, 1));
        }
        other => panic!("expected an input, found {other:?}"),
    }
    // Too narrow between the brackets.
    let grid = grid_from_bytes(24, 80, b"[ab]");
    assert!(InputDetector::new()
        .detect(&grid, &DetectionContext::new(Position::new(0, 1)))
        .is_empty());
    // Reverse video marks the field where nothing else does.
    let grid = grid_from_bytes(24, 80, b"xx \x1b[7mabcd\x1b[0m yy");
    let found = InputDetector::new().detect(&grid, &DetectionContext::new(Position::new(0, 0)));
    assert_eq!(found.len(), 1);
    assert_eq!(found[0].bounds, Bounds::new(0, 3, 4, 1));
    match &found[0].element {
        Element::Input { value, cursor_pos, .. } => {
            assert_eq!(value, "abcd");
            assert_eq!(*cursor_pos, 4);
        }
        other => panic!("expected an input, found {other:?}"),
    }
    // The longest run wins.
    let grid = grid_from_bytes(24, 80, b"\x1b[7mabc\x1b[0m \x1b[7mdefgh\x1b[0m");
    let found = InputDetector::new().detect(&grid, &DetectionContext::new(Position::new(0, 0)));
    assert_eq!(found[0].bounds, Bounds::new(0, 4, 5, 1));
}

#[test]
fn progress_bar_precision() {
    let grid = grid_from_bytes(24, 80, "████░░░░░░".as_bytes());
    let found = ProgressDetector::new().detect(&grid, &DetectionContext::new(Position::origin()));
    assert_eq!(found.len(), 1);
    assert_eq!(found[0].confidence, Confidence::High);
    assert_eq!(found[0].bounds, Bounds::new(0, 0, 10, 1));
    match &found[0].element {
        Element::ProgressBar { ref_id, percent, .. } => {
            assert_eq!(ref_id, "progress_bar_1");
            assert_eq!(*percent, 40);
        }
        other => panic!("expected a progress bar, found {other:?}"),
    }
}

fn percent_of(text: &str) -> Vec<(u8, Bounds, Confidence)> {
    let grid = grid_from_bytes(24, 80, text.as_bytes());
    ProgressDetector::new()
        .detect(&grid, &DetectionContext::new(Position::origin()))
        .iter()
        .map(|e| match &e.element {
            Element::ProgressBar { percent, .. } => (*percent, e.bounds, e.confidence),
            other => panic!("expected a progress bar, found {other:?}"),
        })
        .collect()
}

#[test]
fn progress_formulas() {
    // Block bars: the share of filled characters, rounded down.
    assert_eq!(percent_of("█████"), vec![(100, Bounds::new(0, 0, 5, 1), Confidence::High)]);
    assert_eq!(percent_of("x█░░"), vec![]);
    assert_eq!(percent_of("x██░░░░░"), vec![(28, Bounds::new(0, 1, 7, 1), Confidence::High)]);
    assert_eq!(percent_of("-----....."), vec![]);
    // Bars in brackets.
    assert_eq!(
        percent_of("a[===  ]b"),
        vec![(60, Bounds::new(0, 1, 7, 1), Confidence::High)]
    );
    assert_eq!(percent_of("a[==x==]b"), vec![]);
    assert_eq!(percent_of("a[===]b"), vec![]);
    assert_eq!(
        percent_of("[**........] [..........]"),
        vec![
            (20, Bounds::new(0, 0, 12, 1), Confidence::High),
            (0, Bounds::new(0, 13, 12, 1), Confidence::High)
        ]
    );
    // Percentages: rounded to the nearest whole, at most 100.
    assert_eq!(percent_of("at 66%"), vec![(66, Bounds::new(0, 3, 3, 1), Confidence::Medium)]);
    assert_eq!(percent_of("45.5%"), vec![(46, Bounds::new(0, 0, 5, 1), Confidence::Medium)]);
    assert_eq!(percent_of("45.4%"), vec![(45, Bounds::new(0, 0, 5, 1), Confidence::Medium)]);
    assert_eq!(percent_of("x 250% y"), vec![(100, Bounds::new(0, 2, 4, 1), Confidence::Medium)]);
    assert_eq!(percent_of("99999999999999999999%")[0].0, 100);
    assert_eq!(percent_of("x 99.9%")[0].0, 100);
    assert_eq!(percent_of("a % b"), vec![]);
    assert_eq!(percent_of("1.2.3%"), vec![]);
    assert_eq!(
        percent_of("1% 2%"),
        vec![
            (1, Bounds::new(0, 0, 2, 1), Confidence::Medium),
            (2, Bounds::new(0, 3, 2, 1), Confidence::Medium)
        ]
    );
}

#[test]
fn shell_prompt_suppression() {
    let grid = grid_from_bytes(24, 80, b"user@host:/path(main)$ ");
    let found = ButtonDetector::new().detect(&grid, &DetectionContext::new(Position::origin()));
    assert!(found.is_empty());
    for prompt in ["[ok] $", "# [ok]", "~ [ok]", "a@b [ok]", "x: [ok]", "git [ok]", "[ok] main",
        "master [ok]", "[dev]"]
    {
        let grid = grid_from_bytes(24, 80, prompt.as_bytes());
        let found =
            ButtonDetector::new().detect(&grid, &DetectionContext::new(Position::origin()));
        assert!(found.is_empty(), "{prompt}");
    }
}

#[test]
fn button_rules() {
    let grid = grid_from_bytes(24, 80, "  [ OK ]  <Cancel> 「次へ」 [] [a[b] [ this label is much too long to be a button ]".as_bytes());
    let found = ButtonDetector::new().detect(&grid, &DetectionContext::new(Position::origin()));
    let got: Vec<(String, Bounds)> = found
        .iter()
        .map(|e| match &e.element {
            Element::Button { label, .. } => (label.clone(), e.bounds),
            other => panic!("expected a button, found {other:?}"),
        })
        .collect();
    assert_eq!(
        got,
        vec![
            ("OK".to_string(), Bounds::new(0, 2, 6, 1)),
            ("Cancel".to_string(), Bounds::new(0, 10, 8, 1)),
            ("次へ".to_string(), Bounds::new(0, 19, 4, 1)),
        ]
    );
    assert_eq!(found[0].element.ref_id(), "button_1");
    assert_eq!(found[2].element.ref_id(), "button_3");
    assert!(found.iter().all(|e| e.confidence == Confidence::High));
}

fn four_item_menu() -> TerminalStateTree {
    TerminalStateTree {
        session_id: "s".to_string(),
        dimensions: Dimensions::new(24, 80),
        cursor: Position::new(10, 10),
        timestamp: "2025-01-01T00:00:00Z".to_string(),
        elements: vec![
            Element::Button {
                ref_id: "button_1".to_string(),
                bounds: Bounds::new(9, 0, 6, 1),
                label: "OK".to_string(),
            },
            Element::Menu {
                ref_id: "menu_1".to_string(),
                bounds: Bounds::new(0, 0, 80, 4),
                items: vec![
                    MenuItem::new("item_0", "a", true),
                    MenuItem::new("item_1", "b", false),
                    MenuItem::new("item_2", "c", false),
                    MenuItem::new("item_3", "d", false),
                ],
                selected: 0,
            },
        ],
        raw_text: "Server started on port 8080\n".to_string(),
        ansi_buffer: None,
    }
}

#[test]
fn navigation_plan() {
    let snapshot = four_item_menu();
    let keys = NavigationCalculator::new().calculate(&snapshot, "item_2").unwrap();
    assert_eq!(keys, vec![Key::Down, Key::Down, Key::Enter]);
    let strokes = click_strokes(&snapshot, "item_2").unwrap();
    let names: Vec<&str> = strokes.iter().map(|s| s.name.as_str()).collect();
    assert_eq!(names, vec!["Down", "Down", "Enter"]);
    let bytes: Vec<Vec<u8>> = strokes.iter().map(|s| s.bytes.clone()).collect();
    assert_eq!(bytes, vec![b"\x1b[B".to_vec(), b"\x1b[B".to_vec(), vec![0x0d]]);

    match NavigationCalculator::new().calculate(&snapshot, "item_9") {
        Err(Error::ElementNotFound(id)) => assert_eq!(id, "item_9"),
        other => panic!("expected element-not-found, got {other:?}"),
    }
    match NavigationCalculator::new().calculate(&snapshot, "nothing") {
        Err(Error::ElementNotFound(id)) => assert_eq!(id, "nothing"),
        other => panic!("expected element-not-found, got {other:?}"),
    }
    match NavigationCalculator::new().calculate(&snapshot, "menu_1") {
        Err(Error::InvalidInput(text)) => {
            assert_eq!(text, "Element type 'menu' is not clickable")
        }
        other => panic!("expected invalid-input, got {other:?}"),
    }
    assert!(click_strokes(&snapshot, "menu_1").is_err());
    assert_eq!(NavigationCalculator::new().calculate(&snapshot, "button_1").unwrap(), vec![
        Key::Enter
    ]);
}

#[test]
fn text_condition() {
    let snapshot = four_item_menu();
    let condition = WaitCondition::for_text("port \\d+")
        .with_timeout(Duration::from_millis(5000))
        .with_poll_interval(Duration::from_millis(50));
    assert_eq!(condition.timeout_ms(), 5000);
    assert_eq!(condition.poll_interval_ms(), 50);
    assert!(check_condition(&snapshot, &condition).unwrap());
    assert!(!check_condition(&snapshot, &WaitCondition::for_text("port \\d{5}")).unwrap());
    assert!(check_condition(&snapshot, &WaitCondition::for_text_gone("stopped")).unwrap());
    assert!(!check_condition(&snapshot, &WaitCondition::for_text_gone("started")).unwrap());
    match check_condition(&snapshot, &WaitCondition::for_text("([unclosed")) {
        Err(Error::InvalidInput(text)) => assert!(text.starts_with("Invalid regex: ")),
        other => panic!("expected invalid-input, got {other:?}"),
    }
    assert!(check_condition(&snapshot, &WaitCondition::for_element("menu")).unwrap());
    assert!(!check_condition(&snapshot, &WaitCondition::for_element("table")).unwrap());
    assert!(check_condition(&snapshot, &WaitCondition::for_element_gone("table")).unwrap());
    assert!(!check_condition(&snapshot, &WaitCondition::for_element_gone("button")).unwrap());
    assert!(!check_condition(&snapshot, &WaitCondition::for_idle()).unwrap());
    assert!(!check_condition(&snapshot, &WaitCondition::new()).unwrap());
    assert!(condition_met(&snapshot, &WaitCondition::for_text("x"), true));
    assert!(!condition_met(&snapshot, &WaitCondition::for_text_gone("x"), true));
}

#[test]
fn session_core_takes_in_output_and_snapshots() {
    let mut core = SessionCore::new(Dimensions::new(24, 80));
    assert_eq!(core.absorb(b""), 0);
    assert_eq!(core.absorb(b"Server started on port 8080\r\n[ OK ]"), 35);
    assert_eq!(core.absorb("é".as_bytes()), 2);
    assert_eq!(core.read_raw(true), "Server started on port 8080\r\n[ OK ]é".as_bytes());
    assert_eq!(core.read_raw(true), b"");
    assert_eq!(core.read_raw(false).len(), 37);
    let mut pipeline = DetectionPipeline::new();
    pipeline.add_detector(Arc::new(ButtonDetector::new()));
    let tree = core.snapshot(&pipeline, "abc".to_string());
    assert_eq!(tree.session_id, "abc");
    assert_eq!(tree.dimensions, Dimensions::new(24, 80));
    assert_eq!(tree.cursor, Position::new(1, 7));
    assert!(tree.raw_text.starts_with("Server started on port 8080\n[ OK ]é\n"));
    assert_eq!(tree.elements.len(), 1);
    assert_eq!(tree.elements[0].ref_id(), "button_1");
    assert!(!tree.timestamp.is_empty());
    core.resize(Dimensions::new(2, 10));
    assert_eq!(core.grid().to_plain_text(), "Server sta\n[ OK ]é");
    core.clear_screen();
    assert_eq!(core.grid().to_plain_text(), "\n");
    assert_eq!(core.grid().cursor().position, Position::new(1, 7));
}

#[test]
fn keys_and_text_to_write() {
    assert_eq!(key_bytes("Ctrl+c").unwrap(), vec![0x03]);
    assert_eq!(key_bytes(" Enter ").unwrap(), vec![0x0d]);
    assert_eq!(key_bytes("Shift+Tab").unwrap(), b"\x1b[Z");
    assert_eq!(key_bytes("Shift+Shift+a").unwrap(), b"a");
    assert_eq!(key_bytes("Alt+é").unwrap(), vec![0x1b, 0xc3, 0xa9]);
    assert_eq!(key_bytes("é").unwrap(), vec![0xc3, 0xa9]);
    for bad in ["", "Ctrl+", "Alt+", "Shift+", "Nope", "Ctrl+1", "Shift+Ctrl+!"] {
        match key_bytes(bad) {
            Err(Error::InvalidKey(_)) => {}
            other => panic!("expected invalid-key for {bad:?}, got {other:?}"),
        }
    }
    let (writes, count) = text_writes("héllo", false);
    assert_eq!(writes, vec!["héllo".as_bytes().to_vec()]);
    assert_eq!(count, 5);
    let (writes, count) = text_writes("hé", true);
    assert_eq!(writes, vec![b"h".to_vec(), vec![0xc3, 0xa9]]);
    assert_eq!(count, 2);
    let (writes, count) = text_writes("", true);
    assert!(writes.is_empty());
    assert_eq!(count, 0);
}
