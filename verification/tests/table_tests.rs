#![allow(unused_imports, dead_code, unused_variables, unused_mut)]
use std::sync::Arc;
use std::time::Duration;
use terminal_mcp::{
    Bounds, BorderDetector, ButtonDetector, Cell, CellAttributes, CheckboxDetector, Color,
    Confidence, Cursor, CursorStyle, CustomPatternConfig, DetectedElement, DetectionContext,
    DetectionPipeline, Dimensions, Element, ElementDetector, Error, Grid, InputDetector, Key,
    MenuDetector, MenuItem, NavigationCalculator, OutputBuffer, Parser, Platform, Position,
    ProgressDetector, RefIdGenerator, SecuritySettings, ServerConfig, SessionConfig, SessionId,
    SessionInfo, SessionMode, SessionStatus, SnapshotConfig, StatusBarDetector, TSTAssembler,
    TableDetector, TerminalStateTree, VisualTerminalHandle, WaitCondition,
};

fn table_grid_with_text(rows: u16, cols: u16, text: &str) -> Grid {
    let grid = Grid::new(Dimensions::new(rows, cols));
    let mut parser = Parser::new(grid);
    parser.process(text.as_bytes());
    parser.into_grid()
}

#[test]
fn test_table_detector_basic() {
    let text = "Name      Age  City\r\nAlice     25   NYC\r\nBob       30   LA\r\n";
    let grid = table_grid_with_text(10, 40, text);

    let detector = TableDetector::new();
    let context = DetectionContext::new(Position::new(0, 0));
    let detected = detector.detect(&grid, &context);

    assert_eq!(detected.len(), 1);
    if let Element::Table { headers, rows, .. } = &detected[0].element {
        assert_eq!(headers.len(), 3);
        assert!(rows.len() >= 2);
    } else {
        panic!("Expected Table element");
    }
}

#[test]
fn test_table_detector_with_separator() {
    let text = "Name      Age\r\n----------\r\nAlice     25\r\nBob       30\r\n";
    let grid = table_grid_with_text(10, 40, text);

    let detector = TableDetector::new();
    let context = DetectionContext::new(Position::new(0, 0));
    let detected = detector.detect(&grid, &context);

    assert_eq!(detected.len(), 1);
    if let Element::Table { headers, rows, .. } = &detected[0].element {
        // Should have headers and 2 data rows (separator line excluded)
        assert!(!headers.is_empty(), "Should have headers");
        assert_eq!(rows.len(), 2, "Should have 2 data rows");
    }
}

#[test]
fn test_table_detector_min_columns() {
    // Only one column, should not detect as table
    let text = "Item1\r\nItem2\r\nItem3\r\n";
    let grid = table_grid_with_text(10, 40, text);

    let detector = TableDetector::new();
    let context = DetectionContext::new(Position::new(0, 0));
    let detected = detector.detect(&grid, &context);

    // Should not detect single column as table
    assert_eq!(detected.len(), 0);
}

#[test]
fn test_table_detector_priority() {
    let detector = TableDetector::new();
    assert_eq!(detector.priority(), 80);
    assert_eq!(detector.name(), "table");
}
