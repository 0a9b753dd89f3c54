#![allow(unused_imports, dead_code, unused_variables, unused_mut)]
use std::sync::Arc;
use std::time::Duration;
use terminal_mcp::{
    Bounds, BorderDetector, ButtonDetector, Cell, CellAttributes, CheckboxDetector, Color,
    Confidence, Cursor, CursorStyle, CustomPatternConfig, DetectedElement, DetectionContext,
    DetectionPipeline, Dimensions, Element, ElementDetector, Error, Grid, InputDetector, Key,
    MenuDetector, MenuItem, NavigationCalculator, OutputBuffer, Parser, Platform, Position,
    ProgressDetector, RefIdGenerator, SecuritySettings, ServerConfig, SessionConfig, SessionId,
    SessionInfo, SessionMode, SessionStatus, SnapshotConfig, StatusBarDetector, TSTAssembler,
    TableDetector, TerminalStateTree, VisualTerminalHandle, WaitCondition,
};

fn navigation_snapshot() -> TerminalStateTree {
    TerminalStateTree {
        session_id: "test_session".to_string(),
        dimensions: Dimensions::new(24, 80),
        cursor: Position::new(0, 0),
        timestamp: "2025-11-30T00:00:00Z".to_string(),
        elements: vec![Element::Menu {
            ref_id: "menu_0".to_string(),
            bounds: Bounds::new(2, 5, 30, 5),
            items: vec![
                MenuItem {
                    ref_id: "item_0".to_string(),
                    text: "View Status".to_string(),
                    selected: true,
                },
                MenuItem {
                    ref_id: "item_1".to_string(),
                    text: "Start Service".to_string(),
                    selected: false,
                },
                MenuItem {
                    ref_id: "item_2".to_string(),
                    text: "Stop Service".to_string(),
                    selected: false,
                },
                MenuItem {
                    ref_id: "item_3".to_string(),
                    text: "Quit".to_string(),
                    selected: false,
                },
            ],
            selected: 0,
        }],
        raw_text: "".to_string(),
        ansi_buffer: None,
    }
}

#[test]
fn test_navigate_menu_down() {
    let calc = NavigationCalculator::new();
    let snapshot = navigation_snapshot();

    // Navigate from item 0 to item 2 (2 down)
    let keys = calc.calculate(&snapshot, "item_2").unwrap();

    assert_eq!(keys.len(), 3); // 2x Down + 1x Enter
    assert_eq!(keys[0], Key::Down);
    assert_eq!(keys[1], Key::Down);
    assert_eq!(keys[2], Key::Enter);
}

#[test]
fn test_navigate_menu_up() {
    let calc = NavigationCalculator::new();
    let mut snapshot = navigation_snapshot();

    // Change selected to item 3
    if let Some(Element::Menu { selected, .. }) = snapshot.elements.get_mut(0) {
        *selected = 3;
    }

    // Navigate from item 3 to item 1 (2 up)
    let keys = calc.calculate(&snapshot, "item_1").unwrap();

    assert_eq!(keys.len(), 3); // 2x Up + 1x Enter
    assert_eq!(keys[0], Key::Up);
    assert_eq!(keys[1], Key::Up);
    assert_eq!(keys[2], Key::Enter);
}

#[test]
fn test_navigate_menu_same_item() {
    let calc = NavigationCalculator::new();
    let snapshot = navigation_snapshot();

    // Navigate to currently selected item (item 0)
    let keys = calc.calculate(&snapshot, "item_0").unwrap();

    assert_eq!(keys.len(), 1); // Just Enter
    assert_eq!(keys[0], Key::Enter);
}

#[test]
fn test_navigate_menu_not_found() {
    let calc = NavigationCalculator::new();
    let snapshot = navigation_snapshot();

    // Try to navigate to non-existent item
    let result = calc.calculate(&snapshot, "item_99");

    assert!(result.is_err());
    match result {
        Err(Error::ElementNotFound(ref_id)) => {
            assert!(ref_id.contains("item_99"));
        }
        _ => panic!("Expected ElementNotFound error"),
    }
}

#[test]
fn test_navigate_button() {
    let calc = NavigationCalculator::new();
    let snapshot = TerminalStateTree {
        session_id: "test".to_string(),
        dimensions: Dimensions::new(24, 80),
        cursor: Position::new(0, 0),
        timestamp: "2025-11-30T00:00:00Z".to_string(),
        elements: vec![Element::Button {
            ref_id: "button_0".to_string(),
            bounds: Bounds::new(10, 10, 8, 1),
            label: "OK".to_string(),
        }],
        raw_text: "".to_string(),
        ansi_buffer: None,
    };

    let keys = calc.calculate(&snapshot, "button_0").unwrap();

    // For now, should just return Enter
    assert_eq!(keys.len(), 1);
    assert_eq!(keys[0], Key::Enter);
}

#[test]
fn test_navigate_checkbox() {
    let calc = NavigationCalculator::new();
    let snapshot = TerminalStateTree {
        session_id: "test".to_string(),
        dimensions: Dimensions::new(24, 80),
        cursor: Position::new(0, 0),
        timestamp: "2025-11-30T00:00:00Z".to_string(),
        elements: vec![Element::Checkbox {
            ref_id: "checkbox_0".to_string(),
            bounds: Bounds::new(5, 5, 20, 1),
            label: "Enable feature".to_string(),
            checked: false,
        }],
        raw_text: "".to_string(),
        ansi_buffer: None,
    };

    let keys = calc.calculate(&snapshot, "checkbox_0").unwrap();

    // For now, should just return Space
    assert_eq!(keys.len(), 1);
    assert_eq!(keys[0], Key::Space);
}

#[test]
fn test_navigate_non_clickable_element() {
    let calc = NavigationCalculator::new();
    let snapshot = TerminalStateTree {
        session_id: "test".to_string(),
        dimensions: Dimensions::new(24, 80),
        cursor: Position::new(0, 0),
        timestamp: "2025-11-30T00:00:00Z".to_string(),
        elements: vec![Element::ProgressBar {
            ref_id: "progress_0".to_string(),
            bounds: Bounds::new(10, 10, 20, 1),
            percent: 50,
        }],
        raw_text: "".to_string(),
        ansi_buffer: None,
    };

    let result = calc.calculate(&snapshot, "progress_0");

    assert!(result.is_err());
}
