#![allow(unused_imports, dead_code, unused_variables, unused_mut)]
use std::sync::Arc;
use std::time::Duration;
use terminal_mcp::{
    Bounds, BorderDetector, ButtonDetector, Cell, CellAttributes, CheckboxDetector, Color,
    Confidence, Cursor, CursorStyle, CustomPatternConfig, DetectedElement, DetectionContext,
    DetectionPipeline, Dimensions, Element, ElementDetector, Error, Grid, InputDetector, Key,
    MenuDetector, MenuItem, NavigationCalculator, OutputBuffer, Parser, Platform, Position,
    ProgressDetector, RefIdGenerator, SecuritySettings, ServerConfig, SessionConfig, SessionId,
    SessionInfo, SessionMode, SessionStatus, SnapshotConfig, StatusBarDetector, TSTAssembler,
    TableDetector, TerminalStateTree, VisualTerminalHandle, WaitCondition,
};

#[test]
fn test_session_mode_default() {
    assert_eq!(SessionMode::default(), SessionMode::Headless);
}

#[test]
fn test_session_mode_display() {
    assert_eq!(SessionMode::Headless.to_string(), "headless");
    assert_eq!(SessionMode::Visual.to_string(), "visual");
}

#[test]
fn test_visual_terminal_handle() {
    let handle = VisualTerminalHandle::new(1234, "test-terminal");
    assert_eq!(handle.pid, 1234);
    assert_eq!(handle.terminal_name, "test-terminal");
    assert_eq!(handle.window_id, None);

    let handle_with_id =
        VisualTerminalHandle::with_window_id(5678, "test-terminal", "window-123");
    assert_eq!(handle_with_id.pid, 5678);
    assert_eq!(handle_with_id.terminal_name, "test-terminal");
    assert_eq!(handle_with_id.window_id, Some("window-123".to_string()));
}
