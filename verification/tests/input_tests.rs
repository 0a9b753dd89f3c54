#![allow(unused_imports, dead_code, unused_variables, unused_mut)]
use std::sync::Arc;
use std::time::Duration;
use terminal_mcp::{
    Bounds, BorderDetector, ButtonDetector, Cell, CellAttributes, CheckboxDetector, Color,
    Confidence, Cursor, CursorStyle, CustomPatternConfig, DetectedElement, DetectionContext,
    DetectionPipeline, Dimensions, Element, ElementDetector, Error, Grid, InputDetector, Key,
    MenuDetector, MenuItem, NavigationCalculator, OutputBuffer, Parser, Platform, Position,
    ProgressDetector, RefIdGenerator, SecuritySettings, ServerConfig, SessionConfig, SessionId,
    SessionInfo, SessionMode, SessionStatus, SnapshotConfig, StatusBarDetector, TSTAssembler,
    TableDetector, TerminalStateTree, VisualTerminalHandle, WaitCondition,
};

fn input_grid_with_text(rows: u16, cols: u16, text: &str) -> Grid {
    let grid = Grid::new(Dimensions::new(rows, cols));
    let mut parser = Parser::new(grid);
    parser.process(text.as_bytes());
    parser.into_grid()
}

#[test]
fn test_input_detector_labeled_field() {
    let text = "Username: john\r\n";
    let grid = input_grid_with_text(5, 40, text);

    let detector = InputDetector::new();
    // Cursor at position 14 (in "john")
    let context = DetectionContext::new(Position::new(0, 14));
    let detected = detector.detect(&grid, &context);

    assert_eq!(detected.len(), 1);
    if let Element::Input {
        value, cursor_pos, ..
    } = &detected[0].element
    {
        assert_eq!(value, "john");
        assert_eq!(*cursor_pos, 4); // Cursor at end of "john"
    } else {
        panic!("Expected Input element");
    }
}

#[test]
fn test_input_detector_empty_labeled_field() {
    let text = "Password: \r\n";
    let grid = input_grid_with_text(5, 40, text);

    let detector = InputDetector::new();
    // Cursor at position 10 (after colon and space)
    let context = DetectionContext::new(Position::new(0, 10));
    let detected = detector.detect(&grid, &context);

    assert_eq!(detected.len(), 1);
    if let Element::Input {
        value, cursor_pos, ..
    } = &detected[0].element
    {
        assert_eq!(value, "");
        assert_eq!(*cursor_pos, 0);
    }
}

#[test]
fn test_input_detector_bracketed_field() {
    let text = "[  hello  ]\r\n";
    let grid = input_grid_with_text(5, 40, text);

    let detector = InputDetector::new();
    // Cursor at position 5 (in "hello")
    let context = DetectionContext::new(Position::new(0, 5));
    let detected = detector.detect(&grid, &context);

    assert_eq!(detected.len(), 1);
    if let Element::Input { value, .. } = &detected[0].element {
        assert_eq!(value, "hello");
    }
}

#[test]
fn test_input_detector_priority() {
    let detector = InputDetector::new();
    assert_eq!(detector.priority(), 70);
    assert_eq!(detector.name(), "input");
}

#[test]
fn test_input_detector_cursor_position() {
    let text = "Email: user@example.com\r\n";
    let grid = input_grid_with_text(5, 40, text);

    let detector = InputDetector::new();
    // Cursor at position 12 (in middle of email)
    let context = DetectionContext::new(Position::new(0, 12));
    let detected = detector.detect(&grid, &context);

    assert_eq!(detected.len(), 1);
    if let Element::Input {
        value, cursor_pos, ..
    } = &detected[0].element
    {
        assert_eq!(value, "user@example.com");
        assert_eq!(*cursor_pos, 5); // Cursor at 'e' in user@example.com
    }
}
