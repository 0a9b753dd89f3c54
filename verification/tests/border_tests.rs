#![allow(unused_imports, dead_code, unused_variables, unused_mut)]
use std::sync::Arc;
use std::time::Duration;
use terminal_mcp::{
    Bounds, BorderDetector, ButtonDetector, Cell, CellAttributes, CheckboxDetector, Color,
    Confidence, Cursor, CursorStyle, CustomPatternConfig, DetectedElement, DetectionContext,
    DetectionPipeline, Dimensions, Element, ElementDetector, Error, Grid, InputDetector, Key,
    MenuDetector, MenuItem, NavigationCalculator, OutputBuffer, Parser, Platform, Position,
    ProgressDetector, RefIdGenerator, SecuritySettings, ServerConfig, SessionConfig, SessionId,
    SessionInfo, SessionMode, SessionStatus, SnapshotConfig, StatusBarDetector, TSTAssembler,
    TableDetector, TerminalStateTree, VisualTerminalHandle, WaitCondition,
};

fn border_grid_with_text(rows: u16, cols: u16, text: &str) -> Grid {
    let grid = Grid::new(Dimensions::new(rows, cols));
    let mut parser = Parser::new(grid);
    parser.process(text.as_bytes());
    parser.into_grid()
}

#[test]
fn test_border_detector_light_box() {
    let text = "┌────────┐\r\n│ Hello  │\r\n└────────┘\r\n";
    let grid = border_grid_with_text(5, 20, text);

    let detector = BorderDetector::new();
    let context = DetectionContext::new(terminal_mcp::Position::new(0, 0));
    let detected = detector.detect(&grid, &context);

    assert_eq!(detected.len(), 1);
    assert_eq!(detected[0].bounds.width, 10);
    assert_eq!(detected[0].bounds.height, 3);
    assert_eq!(detected[0].confidence, Confidence::High);
}

#[test]
fn test_border_detector_with_title() {
    let text = "┌─ Title ─┐\r\n│  Content│\r\n└─────────┘\r\n";
    let grid = border_grid_with_text(5, 20, text);

    let detector = BorderDetector::new();
    let context = DetectionContext::new(terminal_mcp::Position::new(0, 0));
    let detected = detector.detect(&grid, &context);

    assert_eq!(detected.len(), 1);
    if let Element::Border { title, .. } = &detected[0].element {
        assert_eq!(title.as_ref().map(|s| s.as_str()), Some("Title"));
    } else {
        panic!("Expected Border element");
    }
}

#[test]
fn test_border_detector_ascii_box() {
    let text = "+------+\r\n| Test |\r\n+------+\r\n";
    let grid = border_grid_with_text(5, 15, text);

    let detector = BorderDetector::new();
    let context = DetectionContext::new(terminal_mcp::Position::new(0, 0));
    let detected = detector.detect(&grid, &context);

    assert_eq!(detected.len(), 1);
    assert_eq!(detected[0].bounds.width, 8);
}

#[test]
fn test_border_detector_nested_boxes() {
    let text = "┌──────────┐\r\n│ ┌────┐  │\r\n│ │    │  │\r\n│ └────┘  │\r\n└──────────┘\r\n";
    let grid = border_grid_with_text(10, 20, text);

    let detector = BorderDetector::new();
    let context = DetectionContext::new(terminal_mcp::Position::new(0, 0));
    let detected = detector.detect(&grid, &context);

    // Should detect both borders (filter will handle containment later)
    assert!(!detected.is_empty());
}

#[test]
fn test_border_detector_priority() {
    let detector = BorderDetector::new();
    assert_eq!(detector.priority(), 100);
    assert_eq!(detector.name(), "border");
}
