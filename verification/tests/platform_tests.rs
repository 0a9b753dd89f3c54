#![allow(unused_imports, dead_code, unused_variables, unused_mut)]
use std::sync::Arc;
use std::time::Duration;
use terminal_mcp::{
    Bounds, BorderDetector, ButtonDetector, Cell, CellAttributes, CheckboxDetector, Color,
    Confidence, Cursor, CursorStyle, CustomPatternConfig, DetectedElement, DetectionContext,
    DetectionPipeline, Dimensions, Element, ElementDetector, Error, Grid, InputDetector, Key,
    MenuDetector, MenuItem, NavigationCalculator, OutputBuffer, Parser, Platform, Position,
    ProgressDetector, RefIdGenerator, SecuritySettings, ServerConfig, SessionConfig, SessionId,
    SessionInfo, SessionMode, SessionStatus, SnapshotConfig, StatusBarDetector, TSTAssembler,
    TableDetector, TerminalStateTree, VisualTerminalHandle, WaitCondition,
};

#[test]
fn test_platform_name() {
    assert_eq!(Platform::Linux.name(), "Linux");
    assert_eq!(Platform::MacOS.name(), "macOS");
    assert_eq!(Platform::Windows.name(), "Windows");
    assert_eq!(Platform::WSL.name(), "WSL");
}

#[test]
fn test_is_unix() {
    assert!(Platform::Linux.is_unix());
    assert!(Platform::MacOS.is_unix());
    assert!(Platform::WSL.is_unix());
    assert!(!Platform::Windows.is_unix());
}

#[test]
fn test_is_windows_based() {
    assert!(!Platform::Linux.is_windows_based());
    assert!(!Platform::MacOS.is_windows_based());
    assert!(Platform::WSL.is_windows_based());
    assert!(Platform::Windows.is_windows_based());
}

#[test]
fn test_display() {
    assert_eq!(Platform::Linux.to_string(), "Linux");
    assert_eq!(Platform::MacOS.to_string(), "macOS");
    assert_eq!(Platform::Windows.to_string(), "Windows");
    assert_eq!(Platform::WSL.to_string(), "WSL");
}
