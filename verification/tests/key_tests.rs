#![allow(unused_imports, dead_code, unused_variables, unused_mut)]
use std::sync::Arc;
use std::time::Duration;
use terminal_mcp::{
    Bounds, BorderDetector, ButtonDetector, Cell, CellAttributes, CheckboxDetector, Color,
    Confidence, Cursor, CursorStyle, CustomPatternConfig, DetectedElement, DetectionContext,
    DetectionPipeline, Dimensions, Element, ElementDetector, Error, Grid, InputDetector, Key,
    MenuDetector, MenuItem, NavigationCalculator, OutputBuffer, Parser, Platform, Position,
    ProgressDetector, RefIdGenerator, SecuritySettings, ServerConfig, SessionConfig, SessionId,
    SessionInfo, SessionMode, SessionStatus, SnapshotConfig, StatusBarDetector, TSTAssembler,
    TableDetector, TerminalStateTree, VisualTerminalHandle, WaitCondition,
};

#[test]
fn test_key_parse_char() {
    assert_eq!(Key::parse("a").unwrap(), Key::Char('a'));
    assert_eq!(Key::parse("Z").unwrap(), Key::Char('Z'));
    assert_eq!(Key::parse("5").unwrap(), Key::Char('5'));
}

#[test]
fn test_key_parse_named() {
    assert_eq!(Key::parse("Enter").unwrap(), Key::Enter);
    assert_eq!(Key::parse("Return").unwrap(), Key::Enter);
    assert_eq!(Key::parse("Tab").unwrap(), Key::Tab);
    assert_eq!(Key::parse("Escape").unwrap(), Key::Escape);
    assert_eq!(Key::parse("Esc").unwrap(), Key::Escape);
    assert_eq!(Key::parse("Up").unwrap(), Key::Up);
    assert_eq!(Key::parse("Down").unwrap(), Key::Down);
    assert_eq!(Key::parse("F1").unwrap(), Key::F1);
    assert_eq!(Key::parse("F12").unwrap(), Key::F12);
}

#[test]
fn test_key_parse_ctrl() {
    assert_eq!(Key::parse("Ctrl+c").unwrap(), Key::Ctrl('c'));
    assert_eq!(Key::parse("Ctrl+C").unwrap(), Key::Ctrl('c')); // Normalized to lowercase
    assert_eq!(Key::parse("Ctrl+a").unwrap(), Key::Ctrl('a'));
}

#[test]
fn test_key_parse_alt() {
    assert_eq!(Key::parse("Alt+f").unwrap(), Key::Alt('f'));
    assert_eq!(Key::parse("Alt+x").unwrap(), Key::Alt('x'));
}

#[test]
fn test_key_parse_shift() {
    assert_eq!(
        Key::parse("Shift+Tab").unwrap(),
        Key::Shift(Box::new(Key::Tab))
    );
    assert_eq!(
        Key::parse("Shift+Up").unwrap(),
        Key::Shift(Box::new(Key::Up))
    );
}

#[test]
fn test_key_parse_invalid() {
    assert!(Key::parse("InvalidKey").is_err());
    assert!(Key::parse("Ctrl+").is_err());
    assert!(Key::parse("Alt+").is_err());
}

#[test]
fn test_key_to_escape_sequence_char() {
    assert_eq!(Key::Char('a').to_escape_sequence(), b"a");
    assert_eq!(Key::Char('Z').to_escape_sequence(), b"Z");
}

#[test]
fn test_key_to_escape_sequence_special() {
    assert_eq!(Key::Enter.to_escape_sequence(), vec![0x0D]);
    assert_eq!(Key::Tab.to_escape_sequence(), vec![0x09]);
    assert_eq!(Key::Escape.to_escape_sequence(), vec![0x1B]);
    assert_eq!(Key::Backspace.to_escape_sequence(), vec![0x7F]);
    assert_eq!(Key::Space.to_escape_sequence(), vec![0x20]);
}

#[test]
fn test_key_to_escape_sequence_arrows() {
    assert_eq!(Key::Up.to_escape_sequence(), b"\x1b[A");
    assert_eq!(Key::Down.to_escape_sequence(), b"\x1b[B");
    assert_eq!(Key::Right.to_escape_sequence(), b"\x1b[C");
    assert_eq!(Key::Left.to_escape_sequence(), b"\x1b[D");
}

#[test]
fn test_key_to_escape_sequence_function() {
    assert_eq!(Key::F1.to_escape_sequence(), b"\x1bOP");
    assert_eq!(Key::F2.to_escape_sequence(), b"\x1bOQ");
    assert_eq!(Key::F5.to_escape_sequence(), b"\x1b[15~");
    assert_eq!(Key::F12.to_escape_sequence(), b"\x1b[24~");
}

#[test]
fn test_key_to_escape_sequence_ctrl() {
    // Ctrl+A = 0x01
    assert_eq!(Key::Ctrl('a').to_escape_sequence(), vec![0x01]);
    // Ctrl+C = 0x03
    assert_eq!(Key::Ctrl('c').to_escape_sequence(), vec![0x03]);
    // Ctrl+Z = 0x1A
    assert_eq!(Key::Ctrl('z').to_escape_sequence(), vec![0x1A]);
}

#[test]
fn test_key_to_escape_sequence_alt() {
    // Alt sends ESC + character
    assert_eq!(Key::Alt('f').to_escape_sequence(), b"\x1bf");
    assert_eq!(Key::Alt('x').to_escape_sequence(), b"\x1bx");
}

#[test]
fn test_key_to_escape_sequence_shift() {
    // Shift+Tab
    assert_eq!(
        Key::Shift(Box::new(Key::Tab)).to_escape_sequence(),
        b"\x1b[Z"
    );
    // Shift+Up
    assert_eq!(
        Key::Shift(Box::new(Key::Up)).to_escape_sequence(),
        b"\x1b[1;2A"
    );
}

#[test]
fn test_key_parse_round_trip() {
    let test_cases = vec![
        "a",
        "Enter",
        "Tab",
        "Up",
        "F1",
        "Ctrl+c",
        "Alt+f",
        "Shift+Tab",
    ];

    for case in test_cases {
        let key = Key::parse(case).unwrap();
        // Verify it doesn't panic
        let _ = key.to_escape_sequence();
    }
}
