#![allow(unused_imports, dead_code, unused_variables, unused_mut)]
use std::sync::Arc;
use std::time::Duration;
use terminal_mcp::{
    Bounds, BorderDetector, ButtonDetector, Cell, CellAttributes, CheckboxDetector, Color,
    Confidence, Cursor, CursorStyle, CustomPatternConfig, DetectedElement, DetectionContext,
    DetectionPipeline, Dimensions, Element, ElementDetector, Error, Grid, InputDetector, Key,
    MenuDetector, MenuItem, NavigationCalculator, OutputBuffer, Parser, Platform, Position,
    ProgressDetector, RefIdGenerator, SecuritySettings, ServerConfig, SessionConfig, SessionId,
    SessionInfo, SessionMode, SessionStatus, SnapshotConfig, StatusBarDetector, TSTAssembler,
    TableDetector, TerminalStateTree, VisualTerminalHandle, WaitCondition,
};

fn status_bar_grid_with_text(rows: u16, cols: u16, text: &str) -> Grid {
    let grid = Grid::new(Dimensions::new(rows, cols));
    let mut parser = Parser::new(grid);
    parser.process(text.as_bytes());
    parser.into_grid()
}

#[test]
fn test_status_bar_detector_with_pattern() {
    // Create a grid with status bar at bottom
    let text = "Line 1\r\nLine 2\r\nPress q to quit | F1 Help";
    let grid = status_bar_grid_with_text(3, 40, text);

    let detector = StatusBarDetector::new();
    let context = DetectionContext::new(terminal_mcp::Position::new(0, 0));
    let detected = detector.detect(&grid, &context);

    assert_eq!(detected.len(), 1);
    assert_eq!(detected[0].bounds.row, 2);
    assert_eq!(detected[0].bounds.height, 1);
    assert_eq!(detected[0].confidence, Confidence::Medium);

    if let Element::StatusBar { content, .. } = &detected[0].element {
        assert!(content.contains("Press q to quit"));
    } else {
        panic!("Expected StatusBar element");
    }
}

#[test]
fn test_status_bar_detector_with_esc() {
    let text = "Content here\r\nESC: Exit | Ctrl+S: Save";
    let grid = status_bar_grid_with_text(2, 40, text);

    let detector = StatusBarDetector::new();
    let context = DetectionContext::new(terminal_mcp::Position::new(0, 0));
    let detected = detector.detect(&grid, &context);

    assert_eq!(detected.len(), 1);
    if let Element::StatusBar { content, .. } = &detected[0].element {
        assert!(content.contains("ESC"));
        assert!(content.contains("Ctrl+S"));
    }
}

#[test]
fn test_status_bar_detector_empty_last_row() {
    let text = "Line 1\r\nLine 2\r\n";
    let grid = status_bar_grid_with_text(3, 40, text);

    let detector = StatusBarDetector::new();
    let context = DetectionContext::new(terminal_mcp::Position::new(0, 0));
    let detected = detector.detect(&grid, &context);

    // Should not detect empty row as status bar
    assert_eq!(detected.len(), 0);
}

#[test]
fn test_status_bar_detector_no_pattern() {
    let text = "Line 1\r\nLine 2\r\nJust some regular text here";
    let grid = status_bar_grid_with_text(3, 40, text);

    let detector = StatusBarDetector::new();
    let context = DetectionContext::new(terminal_mcp::Position::new(0, 0));
    let detected = detector.detect(&grid, &context);

    // Should not detect without pattern match or distinct background
    assert_eq!(detected.len(), 0);
}

#[test]
fn test_status_bar_detector_with_distinct_background() {
    // Create grid and manually set background colors
    let mut grid = Grid::new(Dimensions::new(3, 40));

    // Fill last row with cells that have non-default background
    let last_row = 2;
    let status_text = "Status";
    for col in 0..20 {
        if let Some(cell) = grid.cell_mut(last_row, col) {
            cell.character = if col < 6 {
                status_text.chars().nth(col as usize % 6).unwrap_or(' ')
            } else {
                ' '
            };
            cell.bg = Color::Blue; // Non-default background
        }
    }

    let detector = StatusBarDetector::new();
    let context = DetectionContext::new(terminal_mcp::Position::new(0, 0));
    let detected = detector.detect(&grid, &context);

    // Should detect based on distinct background
    assert_eq!(detected.len(), 1);
}

#[test]
fn test_status_bar_detector_priority() {
    let detector = StatusBarDetector::new();
    assert_eq!(detector.priority(), 50);
    assert_eq!(detector.name(), "status_bar");
}

#[test]
fn test_status_bar_detector_region_claimed() {
    let text = "Line 1\r\nPress q to quit";
    let grid = status_bar_grid_with_text(2, 40, text);

    // Create context with claimed region
    let mut context = DetectionContext::new(terminal_mcp::Position::new(0, 0));
    let last_row = grid.dimensions().rows - 1;
    context.claim_region(Bounds::new(last_row, 0, grid.dimensions().cols, 1));

    let detector = StatusBarDetector::new();
    let detected = detector.detect(&grid, &context);

    // Should not detect because region is claimed
    assert_eq!(detected.len(), 0);
}
