#![allow(unused_imports, dead_code, unused_variables, unused_mut)]
use std::sync::Arc;
use std::time::Duration;
use terminal_mcp::{
    Bounds, BorderDetector, ButtonDetector, Cell, CellAttributes, CheckboxDetector, Color,
    Confidence, Cursor, CursorStyle, CustomPatternConfig, DetectedElement, DetectionContext,
    DetectionPipeline, Dimensions, Element, ElementDetector, Error, Grid, InputDetector, Key,
    MenuDetector, MenuItem, NavigationCalculator, OutputBuffer, Parser, Platform, Position,
    ProgressDetector, RefIdGenerator, SecuritySettings, ServerConfig, SessionConfig, SessionId,
    SessionInfo, SessionMode, SessionStatus, SnapshotConfig, StatusBarDetector, TSTAssembler,
    TableDetector, TerminalStateTree, VisualTerminalHandle, WaitCondition,
};

#[test]
fn test_color_variants() {
    assert_eq!(Color::Default, Color::Default);
    assert_eq!(Color::Red, Color::Red);
    assert_eq!(Color::Indexed(42), Color::Indexed(42));
    assert_eq!(
        Color::Rgb {
            r: 255,
            g: 128,
            b: 64
        },
        Color::Rgb {
            r: 255,
            g: 128,
            b: 64
        }
    );
}

#[test]
fn test_cell_attributes_default() {
    let attrs = CellAttributes::default();
    assert!(attrs.is_default());
    assert!(!attrs.bold);
    assert!(!attrs.italic);
    assert!(!attrs.underline);
}

#[test]
fn test_cell_attributes_with_methods() {
    let attrs = CellAttributes::default().with_bold().with_underline();

    assert!(attrs.bold);
    assert!(attrs.underline);
    assert!(!attrs.italic);
    assert!(!attrs.is_default());
}

#[test]
fn test_cell_default() {
    let cell = Cell::default();
    assert_eq!(cell.character, ' ');
    assert_eq!(cell.fg, Color::Default);
    assert_eq!(cell.bg, Color::Default);
    assert!(cell.attrs.is_default());
    assert!(cell.is_empty());
}

#[test]
fn test_cell_new() {
    let cell = Cell::new('A');
    assert_eq!(cell.character, 'A');
    assert_eq!(cell.fg, Color::Default);
    assert!(!cell.is_empty());
}

#[test]
fn test_cell_with_fg() {
    let cell = Cell::with_fg('B', Color::Red);
    assert_eq!(cell.character, 'B');
    assert_eq!(cell.fg, Color::Red);
    assert_eq!(cell.bg, Color::Default);
}

#[test]
fn test_cell_is_empty() {
    let empty = Cell::default();
    assert!(empty.is_empty());

    let not_empty = Cell::new('X');
    assert!(!not_empty.is_empty());

    let space_with_attrs = Cell {
        character: ' ',
        attrs: CellAttributes::default().with_bold(),
        ..Default::default()
    };
    assert!(!space_with_attrs.is_empty());
}

#[test]
fn test_cell_is_whitespace() {
    assert!(Cell::new(' ').is_whitespace());
    assert!(Cell::new('\t').is_whitespace());
    assert!(Cell::new('\n').is_whitespace());
    assert!(!Cell::new('A').is_whitespace());
}
