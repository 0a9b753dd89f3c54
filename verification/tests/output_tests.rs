#![allow(unused_imports, dead_code, unused_variables, unused_mut)]
use std::sync::Arc;
use std::time::Duration;
use terminal_mcp::{
    Bounds, BorderDetector, ButtonDetector, Cell, CellAttributes, CheckboxDetector, Color,
    Confidence, Cursor, CursorStyle, CustomPatternConfig, DetectedElement, DetectionContext,
    DetectionPipeline, Dimensions, Element, ElementDetector, Error, Grid, InputDetector, Key,
    MenuDetector, MenuItem, NavigationCalculator, OutputBuffer, Parser, Platform, Position,
    ProgressDetector, RefIdGenerator, SecuritySettings, ServerConfig, SessionConfig, SessionId,
    SessionInfo, SessionMode, SessionStatus, SnapshotConfig, StatusBarDetector, TSTAssembler,
    TableDetector, TerminalStateTree, VisualTerminalHandle, WaitCondition,
};

#[test]
fn test_output_buffer_new() {
    let buffer = OutputBuffer::new();
    assert_eq!(buffer.size(), 0);
    assert_eq!(buffer.unread_count(), 0);
}

#[test]
fn test_output_buffer_append() {
    let mut buffer = OutputBuffer::new();
    buffer.append(b"Hello");
    buffer.append(b" World");

    assert_eq!(buffer.size(), 11);
    assert_eq!(buffer.unread_count(), 11);
}

#[test]
fn test_output_buffer_read_all() {
    let mut buffer = OutputBuffer::new();
    buffer.append(b"Test output");

    let output = buffer.read_all();
    assert_eq!(output, b"Test output");
    assert_eq!(buffer.unread_count(), 0);

    // Reading again returns empty
    let output2 = buffer.read_since_last();
    assert_eq!(output2, b"");
}

#[test]
fn test_output_buffer_read_since_last() {
    let mut buffer = OutputBuffer::new();
    buffer.append(b"First");

    let output1 = buffer.read_since_last();
    assert_eq!(output1, b"First");

    buffer.append(b" Second");
    let output2 = buffer.read_since_last();
    assert_eq!(output2, b" Second");
}

#[test]
fn test_output_buffer_clear() {
    let mut buffer = OutputBuffer::new();
    buffer.append(b"Some data");
    buffer.clear();

    assert_eq!(buffer.size(), 0);
    assert_eq!(buffer.unread_count(), 0);
}
