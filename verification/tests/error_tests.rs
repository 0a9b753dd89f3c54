#![allow(unused_imports, dead_code, unused_variables, unused_mut)]
use std::sync::Arc;
use std::time::Duration;
use terminal_mcp::{
    Bounds, BorderDetector, ButtonDetector, Cell, CellAttributes, CheckboxDetector, Color,
    Confidence, Cursor, CursorStyle, CustomPatternConfig, DetectedElement, DetectionContext,
    DetectionPipeline, Dimensions, Element, ElementDetector, Error, Grid, InputDetector, Key,
    MenuDetector, MenuItem, NavigationCalculator, OutputBuffer, Parser, Platform, Position,
    ProgressDetector, RefIdGenerator, SecuritySettings, ServerConfig, SessionConfig, SessionId,
    SessionInfo, SessionMode, SessionStatus, SnapshotConfig, StatusBarDetector, TSTAssembler,
    TableDetector, TerminalStateTree, VisualTerminalHandle, WaitCondition,
};
type Result<T> = terminal_mcp::Result<T>;

#[test]
fn test_session_not_found_error() {
    let session_id = SessionId::new();
    let err = Error::SessionNotFound(session_id);
    let display = err.to_string();
    assert!(display.starts_with("Session not found:"));
}

#[test]
fn test_element_not_found_error() {
    let err = Error::ElementNotFound("elem_123".to_string());
    assert_eq!(err.to_string(), "Element not found: elem_123");
}

#[test]
fn test_pty_error() {
    let err = Error::PtyError("spawn failed".to_string());
    assert_eq!(err.to_string(), "PTY error: spawn failed");
}

#[test]
fn test_command_not_allowed_error() {
    let err = Error::CommandNotAllowed("rm -rf /".to_string());
    assert_eq!(err.to_string(), "Command not allowed: rm -rf /");
}

#[test]
fn test_wait_timeout_error() {
    let err = Error::WaitTimeout(5000);
    assert_eq!(
        err.to_string(),
        "Timeout waiting for condition after 5000ms"
    );
}

#[test]
fn test_invalid_key_error() {
    let err = Error::InvalidKey("Ctrl+".to_string());
    assert_eq!(err.to_string(), "Invalid key: Ctrl+");
}

#[test]
fn test_session_limit_reached_error() {
    let err = Error::SessionLimitReached(10);
    assert_eq!(err.to_string(), "Session limit reached (max: 10)");
}

#[test]
fn test_invalid_dimensions_error() {
    let err = Error::InvalidDimensions { rows: 0, cols: 100 };
    assert_eq!(err.to_string(), "Invalid dimensions: 0x100");
}

#[test]
fn test_session_terminated_error() {
    let err = Error::SessionTerminated;
    assert_eq!(err.to_string(), "Session already terminated");
}

#[test]
fn test_parse_error() {
    let err = Error::ParseError("unexpected EOF".to_string());
    assert_eq!(err.to_string(), "Parse error: unexpected EOF");
}

#[test]
fn test_config_error() {
    let err = Error::Config("missing field: shell".to_string());
    assert_eq!(err.to_string(), "Configuration error: missing field: shell");
}

#[test]
fn test_invalid_input_error() {
    let err = Error::InvalidInput("missing parameter".to_string());
    assert_eq!(err.to_string(), "Invalid input: missing parameter");
}

#[test]
fn test_other_error() {
    let err = Error::Other("unknown error".to_string());
    assert_eq!(err.to_string(), "unknown error");
}

#[test]
fn test_result_type() {
    let success: Result<i32> = Ok(42);
    assert!(success.is_ok());
    if let Ok(value) = success {
        assert_eq!(value, 42);
    }

    let failure: Result<i32> = Err(Error::Other("test error".to_string()));
    assert!(failure.is_err());
}

#[test]
fn test_error_debug() {
    let err = Error::InvalidInput("test".to_string());
    let debug_str = format!("{err:?}");
    assert!(debug_str.contains("InvalidInput"));
}
