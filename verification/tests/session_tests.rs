#![allow(unused_imports, dead_code, unused_variables, unused_mut)]
use std::sync::Arc;
use std::time::Duration;
use terminal_mcp::{
    Bounds, BorderDetector, ButtonDetector, Cell, CellAttributes, CheckboxDetector, Color,
    Confidence, Cursor, CursorStyle, CustomPatternConfig, DetectedElement, DetectionContext,
    DetectionPipeline, Dimensions, Element, ElementDetector, Error, Grid, InputDetector, Key,
    MenuDetector, MenuItem, NavigationCalculator, OutputBuffer, Parser, Platform, Position,
    ProgressDetector, RefIdGenerator, SecuritySettings, ServerConfig, SessionConfig, SessionId,
    SessionInfo, SessionMode, SessionStatus, SnapshotConfig, StatusBarDetector, TSTAssembler,
    TableDetector, TerminalStateTree, VisualTerminalHandle, WaitCondition,
};

#[test]
fn test_session_id_creation() {
    let id1 = SessionId::new();
    let id2 = SessionId::new();
    assert_ne!(id1, id2); // Should generate different IDs
}

#[test]
fn test_session_id_display() {
    let id = SessionId::new();
    let display = id.to_string();
    assert!(!display.is_empty());
    assert_eq!(display.len(), 36); // UUID format length
}

#[test]
fn test_session_status_variants() {
    let statuses = [
        SessionStatus::Initializing,
        SessionStatus::Active,
        SessionStatus::Paused,
        SessionStatus::Terminated,
    ];
    assert_eq!(statuses.len(), 4);
}

#[test]
fn test_session_config_default() {
    let config = SessionConfig::default();
    assert_eq!(config.dimensions.rows, 24);
    assert_eq!(config.dimensions.cols, 80);
    assert!(!config.shell.is_empty());
    assert_eq!(config.working_directory, None);
    assert_eq!(config.env.len(), 0);
}

#[test]
fn test_session_info_creation() {
    let id = SessionId::new();
    let config = SessionConfig::default();
    let info = SessionInfo::new(id, SessionStatus::Active, config.clone());

    assert_eq!(info.id, id);
    assert_eq!(info.status, SessionStatus::Active);
    assert_eq!(info.config, config);
}
