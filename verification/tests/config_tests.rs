#![allow(unused_imports, dead_code, unused_variables, unused_mut)]
use std::sync::Arc;
use std::time::Duration;
use terminal_mcp::{
    Bounds, BorderDetector, ButtonDetector, Cell, CellAttributes, CheckboxDetector, Color,
    Confidence, Cursor, CursorStyle, CustomPatternConfig, DetectedElement, DetectionContext,
    DetectionPipeline, Dimensions, Element, ElementDetector, Error, Grid, InputDetector, Key,
    MenuDetector, MenuItem, NavigationCalculator, OutputBuffer, Parser, Platform, Position,
    ProgressDetector, RefIdGenerator, SecuritySettings, ServerConfig, SessionConfig, SessionId,
    SessionInfo, SessionMode, SessionStatus, SnapshotConfig, StatusBarDetector, TSTAssembler,
    TableDetector, TerminalStateTree, VisualTerminalHandle, WaitCondition,
};

#[test]
fn test_default_config() {
    let config = ServerConfig::default();
    assert_eq!(config.server.transport, "stdio");
    assert_eq!(config.server.max_sessions, 10);
    assert_eq!(config.terminal.default_rows, 24);
    assert_eq!(config.terminal.default_cols, 80);
}

#[test]
fn test_config_validation() {
    let config = ServerConfig::default();
    assert!(config.validate().is_ok());
}

#[test]
fn test_invalid_max_sessions() {
    let mut config = ServerConfig::default();
    config.server.max_sessions = 0;
    assert!(config.validate().is_err());
}

#[test]
fn test_invalid_dimensions() {
    let mut config = ServerConfig::default();
    config.terminal.default_rows = 0;
    assert!(config.validate().is_err());
}

#[test]
fn test_security_command_allowed() {
    let mut settings = SecuritySettings::default();

    // Empty list = allow all
    assert!(settings.is_command_allowed("/bin/bash"));
    assert!(settings.is_command_allowed("anything"));

    // With allowlist
    settings.allowed_commands = vec!["/bin/bash".to_string(), "/usr/bin/htop".to_string()];
    assert!(settings.is_command_allowed("/bin/bash"));
    assert!(settings.is_command_allowed("/usr/bin/htop"));
    assert!(!settings.is_command_allowed("/bin/sh"));
}

#[test]
fn test_empty_pattern_name() {
    let pattern = CustomPatternConfig {
        name: "".to_string(),
        pattern: "test".to_string(),
        element_type: "text".to_string(),
        captures: vec![],
    };
    assert!(pattern.validate().is_err());
}

#[test]
fn test_empty_element_type() {
    let pattern = CustomPatternConfig {
        name: "test".to_string(),
        pattern: "test".to_string(),
        element_type: "".to_string(),
        captures: vec![],
    };
    assert!(pattern.validate().is_err());
}
