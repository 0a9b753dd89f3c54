#![allow(unused_imports, dead_code, unused_variables, unused_mut)]
use std::sync::Arc;
use std::time::Duration;
use terminal_mcp::{
    Bounds, BorderDetector, ButtonDetector, Cell, CellAttributes, CheckboxDetector, Color,
    Confidence, Cursor, CursorStyle, CustomPatternConfig, DetectedElement, DetectionContext,
    DetectionPipeline, Dimensions, Element, ElementDetector, Error, Grid, InputDetector, Key,
    MenuDetector, MenuItem, NavigationCalculator, OutputBuffer, Parser, Platform, Position,
    ProgressDetector, RefIdGenerator, SecuritySettings, ServerConfig, SessionConfig, SessionId,
    SessionInfo, SessionMode, SessionStatus, SnapshotConfig, StatusBarDetector, TSTAssembler,
    TableDetector, TerminalStateTree, VisualTerminalHandle, WaitCondition,
};

fn progress_grid_with_text(rows: u16, cols: u16, text: &str) -> Grid {
    let grid = Grid::new(Dimensions::new(rows, cols));
    let mut parser = Parser::new(grid);
    parser.process(text.as_bytes());
    parser.into_grid()
}

#[test]
fn test_progress_detector_block() {
    let text = "████░░░░░░\r\n";
    let grid = progress_grid_with_text(5, 40, text);

    let detector = ProgressDetector::new();
    let context = DetectionContext::new(Position::new(0, 0));
    let detected = detector.detect(&grid, &context);

    assert_eq!(detected.len(), 1);
    if let Element::ProgressBar { percent, .. } = &detected[0].element {
        assert_eq!(*percent, 40); // 4 filled out of 10
    } else {
        panic!("Expected ProgressBar element");
    }
}

#[test]
fn test_progress_detector_bracket() {
    let text = "[====    ]\r\n";
    let grid = progress_grid_with_text(5, 40, text);

    let detector = ProgressDetector::new();
    let context = DetectionContext::new(Position::new(0, 0));
    let detected = detector.detect(&grid, &context);

    assert_eq!(detected.len(), 1);
    if let Element::ProgressBar { percent, .. } = &detected[0].element {
        assert_eq!(*percent, 50); // 4 filled out of 8
    }
}

#[test]
fn test_progress_detector_percentage() {
    let text = "Progress: 75%\r\n";
    let grid = progress_grid_with_text(5, 40, text);

    let detector = ProgressDetector::new();
    let context = DetectionContext::new(Position::new(0, 0));
    let detected = detector.detect(&grid, &context);

    assert_eq!(detected.len(), 1);
    if let Element::ProgressBar { percent, .. } = &detected[0].element {
        assert_eq!(*percent, 75);
    }
}

#[test]
fn test_progress_detector_priority() {
    let detector = ProgressDetector::new();
    assert_eq!(detector.priority(), 60);
    assert_eq!(detector.name(), "progress");
}

#[test]
fn test_progress_detector_hash_fill() {
    let text = "[####----]\r\n";
    let grid = progress_grid_with_text(5, 40, text);

    let detector = ProgressDetector::new();
    let context = DetectionContext::new(Position::new(0, 0));
    let detected = detector.detect(&grid, &context);

    assert_eq!(detected.len(), 1);
    if let Element::ProgressBar { percent, .. } = &detected[0].element {
        assert_eq!(*percent, 50); // 4 filled out of 8
    }
}

#[test]
fn test_progress_detector_full_bar() {
    let text = "██████████\r\n";
    let grid = progress_grid_with_text(5, 40, text);

    let detector = ProgressDetector::new();
    let context = DetectionContext::new(Position::new(0, 0));
    let detected = detector.detect(&grid, &context);

    assert_eq!(detected.len(), 1);
    if let Element::ProgressBar { percent, .. } = &detected[0].element {
        assert_eq!(*percent, 100);
    }
}

#[test]
fn test_progress_detector_empty_bar() {
    let text = "░░░░░░░░░░\r\n";
    let grid = progress_grid_with_text(5, 40, text);

    let detector = ProgressDetector::new();
    let context = DetectionContext::new(Position::new(0, 0));
    let detected = detector.detect(&grid, &context);

    assert_eq!(detected.len(), 1);
    if let Element::ProgressBar { percent, .. } = &detected[0].element {
        assert_eq!(*percent, 0);
    }
}
