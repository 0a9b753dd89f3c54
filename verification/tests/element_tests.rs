#![allow(unused_imports, dead_code, unused_variables, unused_mut)]
use std::sync::Arc;
use std::time::Duration;
use terminal_mcp::{
    Bounds, BorderDetector, ButtonDetector, Cell, CellAttributes, CheckboxDetector, Color,
    Confidence, Cursor, CursorStyle, CustomPatternConfig, DetectedElement, DetectionContext,
    DetectionPipeline, Dimensions, Element, ElementDetector, Error, Grid, InputDetector, Key,
    MenuDetector, MenuItem, NavigationCalculator, OutputBuffer, Parser, Platform, Position,
    ProgressDetector, RefIdGenerator, SecuritySettings, ServerConfig, SessionConfig, SessionId,
    SessionInfo, SessionMode, SessionStatus, SnapshotConfig, StatusBarDetector, TSTAssembler,
    TableDetector, TerminalStateTree, VisualTerminalHandle, WaitCondition,
};

#[test]
fn test_menu_item_creation() {
    let item = MenuItem::new("item1", "Option 1", true);
    assert_eq!(item.ref_id, "item1");
    assert_eq!(item.text, "Option 1");
    assert!(item.selected);
}

#[test]
fn test_element_ref_id() {
    let button = Element::Button {
        ref_id: "btn1".to_string(),
        bounds: Bounds::new(0, 0, 10, 1),
        label: "Click me".to_string(),
    };
    assert_eq!(button.ref_id(), "btn1");
}

#[test]
fn test_element_type_name() {
    let input = Element::Input {
        ref_id: "input1".to_string(),
        bounds: Bounds::new(0, 0, 20, 1),
        value: "test".to_string(),
        cursor_pos: 4,
    };
    assert_eq!(input.kind_name(), "input");
}

#[test]
fn test_element_bounds() {
    let table = Element::Table {
        ref_id: "table1".to_string(),
        bounds: Bounds::new(5, 10, 30, 15),
        headers: vec!["Col1".to_string(), "Col2".to_string()],
        rows: vec![],
    };
    assert_eq!(table.bounds(), &Bounds::new(5, 10, 30, 15));
}

#[test]
fn test_tst_find_element() {
    let button = Element::Button {
        ref_id: "btn1".to_string(),
        bounds: Bounds::new(0, 0, 10, 1),
        label: "Click".to_string(),
    };

    let input = Element::Input {
        ref_id: "input1".to_string(),
        bounds: Bounds::new(0, 2, 20, 1),
        value: "".to_string(),
        cursor_pos: 0,
    };

    let tst = TerminalStateTree {
        session_id: "sess1".to_string(),
        dimensions: Dimensions::new(24, 80),
        cursor: Position::new(0, 0),
        timestamp: "2025-11-29T00:00:00Z".to_string(),
        elements: vec![button, input],
        raw_text: "".to_string(),
        ansi_buffer: None,
    };

    assert!(tst.find_element("btn1").is_some());
    assert!(tst.find_element("input1").is_some());
    assert!(tst.find_element("nonexistent").is_none());
}

#[test]
fn test_tst_elements_of_type() {
    let button1 = Element::Button {
        ref_id: "btn1".to_string(),
        bounds: Bounds::new(0, 0, 10, 1),
        label: "Button 1".to_string(),
    };

    let button2 = Element::Button {
        ref_id: "btn2".to_string(),
        bounds: Bounds::new(0, 2, 10, 1),
        label: "Button 2".to_string(),
    };

    let input = Element::Input {
        ref_id: "input1".to_string(),
        bounds: Bounds::new(0, 4, 20, 1),
        value: "".to_string(),
        cursor_pos: 0,
    };

    let tst = TerminalStateTree {
        session_id: "sess1".to_string(),
        dimensions: Dimensions::new(24, 80),
        cursor: Position::new(0, 0),
        timestamp: "2025-11-29T00:00:00Z".to_string(),
        elements: vec![button1, button2, input],
        raw_text: "".to_string(),
        ansi_buffer: None,
    };

    let buttons = tst.elements_of_type("button");
    assert_eq!(buttons.len(), 2);

    let inputs = tst.elements_of_type("input");
    assert_eq!(inputs.len(), 1);
}
