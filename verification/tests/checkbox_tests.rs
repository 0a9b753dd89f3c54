#![allow(unused_imports, dead_code, unused_variables, unused_mut)]
use std::sync::Arc;
use std::time::Duration;
use terminal_mcp::{
    Bounds, BorderDetector, ButtonDetector, Cell, CellAttributes, CheckboxDetector, Color,
    Confidence, Cursor, CursorStyle, CustomPatternConfig, DetectedElement, DetectionContext,
    DetectionPipeline, Dimensions, Element, ElementDetector, Error, Grid, InputDetector, Key,
    MenuDetector, MenuItem, NavigationCalculator, OutputBuffer, Parser, Platform, Position,
    ProgressDetector, RefIdGenerator, SecuritySettings, ServerConfig, SessionConfig, SessionId,
    SessionInfo, SessionMode, SessionStatus, SnapshotConfig, StatusBarDetector, TSTAssembler,
    TableDetector, TerminalStateTree, VisualTerminalHandle, WaitCondition,
};

fn checkbox_grid_with_text(rows: u16, cols: u16, text: &str) -> Grid {
    let grid = Grid::new(Dimensions::new(rows, cols));
    let mut parser = Parser::new(grid);
    parser.process(text.as_bytes());
    parser.into_grid()
}

#[test]
fn test_checkbox_detector_checked() {
    let text = "[x] Enable feature\r\n";
    let grid = checkbox_grid_with_text(5, 40, text);

    let detector = CheckboxDetector::new();
    let context = DetectionContext::new(Position::new(0, 0));
    let detected = detector.detect(&grid, &context);

    assert_eq!(detected.len(), 1);
    if let Element::Checkbox { label, checked, .. } = &detected[0].element {
        assert_eq!(label, "Enable feature");
        assert!(checked);
    } else {
        panic!("Expected Checkbox element");
    }
}

#[test]
fn test_checkbox_detector_unchecked() {
    let text = "[ ] Disable option\r\n";
    let grid = checkbox_grid_with_text(5, 40, text);

    let detector = CheckboxDetector::new();
    let context = DetectionContext::new(Position::new(0, 0));
    let detected = detector.detect(&grid, &context);

    assert_eq!(detected.len(), 1);
    if let Element::Checkbox { label, checked, .. } = &detected[0].element {
        assert_eq!(label, "Disable option");
        assert!(!checked);
    }
}

#[test]
fn test_checkbox_detector_capital_x() {
    let text = "[X] Accept terms\r\n";
    let grid = checkbox_grid_with_text(5, 40, text);

    let detector = CheckboxDetector::new();
    let context = DetectionContext::new(Position::new(0, 0));
    let detected = detector.detect(&grid, &context);

    assert_eq!(detected.len(), 1);
    if let Element::Checkbox { checked, .. } = &detected[0].element {
        assert!(checked);
    }
}

#[test]
fn test_checkbox_detector_radio_checked() {
    let text = "(*) Option A\r\n";
    let grid = checkbox_grid_with_text(5, 40, text);

    let detector = CheckboxDetector::new();
    let context = DetectionContext::new(Position::new(0, 0));
    let detected = detector.detect(&grid, &context);

    assert_eq!(detected.len(), 1);
    if let Element::Checkbox { label, checked, .. } = &detected[0].element {
        assert_eq!(label, "Option A");
        assert!(checked);
    }
}

#[test]
fn test_checkbox_detector_radio_unchecked() {
    let text = "( ) Option B\r\n";
    let grid = checkbox_grid_with_text(5, 40, text);

    let detector = CheckboxDetector::new();
    let context = DetectionContext::new(Position::new(0, 0));
    let detected = detector.detect(&grid, &context);

    assert_eq!(detected.len(), 1);
    if let Element::Checkbox { label, checked, .. } = &detected[0].element {
        assert_eq!(label, "Option B");
        assert!(!checked);
    }
}

#[test]
fn test_checkbox_detector_multiple() {
    let text = "[x] First option\r\n[ ] Second option\r\n[*] Third option\r\n";
    let grid = checkbox_grid_with_text(10, 40, text);

    let detector = CheckboxDetector::new();
    let context = DetectionContext::new(Position::new(0, 0));
    let detected = detector.detect(&grid, &context);

    assert_eq!(detected.len(), 3);

    // First checkbox - checked
    if let Element::Checkbox { label, checked, .. } = &detected[0].element {
        assert_eq!(label, "First option");
        assert!(checked);
    }

    // Second checkbox - unchecked
    if let Element::Checkbox { label, checked, .. } = &detected[1].element {
        assert_eq!(label, "Second option");
        assert!(!checked);
    }

    // Third checkbox - checked with asterisk
    if let Element::Checkbox { label, checked, .. } = &detected[2].element {
        assert_eq!(label, "Third option");
        assert!(checked);
    }
}

#[test]
fn test_checkbox_detector_priority() {
    let detector = CheckboxDetector::new();
    assert_eq!(detector.priority(), 60);
    assert_eq!(detector.name(), "checkbox");
}

#[test]
fn test_checkbox_detector_no_label() {
    let text = "[x]\r\n";
    let grid = checkbox_grid_with_text(5, 40, text);

    let detector = CheckboxDetector::new();
    let context = DetectionContext::new(Position::new(0, 0));
    let detected = detector.detect(&grid, &context);

    assert_eq!(detected.len(), 1);
    if let Element::Checkbox { label, .. } = &detected[0].element {
        assert_eq!(label, "");
    }
}

#[test]
fn test_checkbox_detector_mixed_types() {
    let text = "[x] Checkbox item\r\n(*) Radio item\r\n";
    let grid = checkbox_grid_with_text(10, 40, text);

    let detector = CheckboxDetector::new();
    let context = DetectionContext::new(Position::new(0, 0));
    let detected = detector.detect(&grid, &context);

    assert_eq!(detected.len(), 2);
}
