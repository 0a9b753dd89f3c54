#![allow(unused_imports, dead_code, unused_variables, unused_mut)]
use std::sync::Arc;
use std::time::Duration;
use terminal_mcp::{
    Bounds, BorderDetector, ButtonDetector, Cell, CellAttributes, CheckboxDetector, Color,
    Confidence, Cursor, CursorStyle, CustomPatternConfig, DetectedElement, DetectionContext,
    DetectionPipeline, Dimensions, Element, ElementDetector, Error, Grid, InputDetector, Key,
    MenuDetector, MenuItem, NavigationCalculator, OutputBuffer, Parser, Platform, Position,
    ProgressDetector, RefIdGenerator, SecuritySettings, ServerConfig, SessionConfig, SessionId,
    SessionInfo, SessionMode, SessionStatus, SnapshotConfig, StatusBarDetector, TSTAssembler,
    TableDetector, TerminalStateTree, VisualTerminalHandle, WaitCondition,
};

fn button_grid_with_text(rows: u16, cols: u16, text: &str) -> Grid {
    let grid = Grid::new(Dimensions::new(rows, cols));
    let mut parser = Parser::new(grid);
    parser.process(text.as_bytes());
    parser.into_grid()
}

#[test]
fn test_button_detector_bracket_pattern() {
    let text = "[ OK ] [ Cancel ]\r\n";
    let grid = button_grid_with_text(5, 40, text);

    let detector = ButtonDetector::new();
    let context = DetectionContext::new(Position::new(0, 0));
    let detected = detector.detect(&grid, &context);

    assert_eq!(detected.len(), 2);
    if let Element::Button { label, .. } = &detected[0].element {
        assert_eq!(label, "OK");
    } else {
        panic!("Expected Button element");
    }
    if let Element::Button { label, .. } = &detected[1].element {
        assert_eq!(label, "Cancel");
    }
}

#[test]
fn test_button_detector_angle_pattern() {
    let text = "< Submit > < Reset >\r\n";
    let grid = button_grid_with_text(5, 40, text);

    let detector = ButtonDetector::new();
    let context = DetectionContext::new(Position::new(0, 0));
    let detected = detector.detect(&grid, &context);

    assert_eq!(detected.len(), 2);
    if let Element::Button { label, .. } = &detected[0].element {
        assert_eq!(label, "Submit");
    }
    if let Element::Button { label, .. } = &detected[1].element {
        assert_eq!(label, "Reset");
    }
}

#[test]
fn test_button_detector_shell_prompt_excluded() {
    // Shell prompts should not be detected as buttons
    let text = "user@host:/path(main)$ \r\n";
    let grid = button_grid_with_text(5, 40, text);

    let detector = ButtonDetector::new();
    let context = DetectionContext::new(Position::new(0, 0));
    let detected = detector.detect(&grid, &context);

    // Should not detect "(main)" as a button due to shell prompt markers
    assert_eq!(detected.len(), 0);
}

#[test]
fn test_button_detector_tight_bracket() {
    let text = "[OK] [Cancel]\r\n";
    let grid = button_grid_with_text(5, 40, text);

    let detector = ButtonDetector::new();
    let context = DetectionContext::new(Position::new(0, 0));
    let detected = detector.detect(&grid, &context);

    assert_eq!(detected.len(), 2);
    if let Element::Button { label, .. } = &detected[0].element {
        assert_eq!(label, "OK");
    }
    if let Element::Button { label, .. } = &detected[1].element {
        assert_eq!(label, "Cancel");
    }
}

#[test]
fn test_button_detector_priority() {
    let detector = ButtonDetector::new();
    assert_eq!(detector.priority(), 60);
    assert_eq!(detector.name(), "button");
}

#[test]
fn test_button_detector_mixed_patterns() {
    let text = "[OK] < Cancel > 「Help」\r\n";
    let grid = button_grid_with_text(5, 40, text);

    let detector = ButtonDetector::new();
    let context = DetectionContext::new(Position::new(0, 0));
    let detected = detector.detect(&grid, &context);

    assert_eq!(detected.len(), 3);
    assert!(matches!(&detected[0].element, Element::Button { label, .. } if label == "OK"));
    assert!(matches!(&detected[1].element, Element::Button { label, .. } if label == "Cancel"));
    assert!(matches!(&detected[2].element, Element::Button { label, .. } if label == "Help"));
}

#[test]
fn test_button_detector_empty_label_rejected() {
    let text = "[ ] [  ]\r\n";
    let grid = button_grid_with_text(5, 40, text);

    let detector = ButtonDetector::new();
    let context = DetectionContext::new(Position::new(0, 0));
    let detected = detector.detect(&grid, &context);

    // Empty labels should not be detected as buttons
    assert_eq!(detected.len(), 0);
}

#[test]
fn test_button_detector_long_label_accepted() {
    // Test that reasonable button labels work
    let text = "[Continue]\r\n";
    let grid = button_grid_with_text(5, 40, text);

    let detector = ButtonDetector::new();
    let context = DetectionContext::new(Position::new(0, 0));
    let detected = detector.detect(&grid, &context);

    assert_eq!(detected.len(), 1);
    if let Element::Button { label, .. } = &detected[0].element {
        assert_eq!(label, "Continue");
    }
}
