#![allow(unused_imports, dead_code, unused_variables, unused_mut)]
use std::sync::Arc;
use std::time::Duration;
use terminal_mcp::{
    Bounds, BorderDetector, ButtonDetector, Cell, CellAttributes, CheckboxDetector, Color,
    Confidence, Cursor, CursorStyle, CustomPatternConfig, DetectedElement, DetectionContext,
    DetectionPipeline, Dimensions, Element, ElementDetector, Error, Grid, InputDetector, Key,
    MenuDetector, MenuItem, NavigationCalculator, OutputBuffer, Parser, Platform, Position,
    ProgressDetector, RefIdGenerator, SecuritySettings, ServerConfig, SessionConfig, SessionId,
    SessionInfo, SessionMode, SessionStatus, SnapshotConfig, StatusBarDetector, TSTAssembler,
    TableDetector, TerminalStateTree, VisualTerminalHandle, WaitCondition,
};

#[test]
fn test_parser_print() {
    let grid = Grid::new(Dimensions::new(24, 80));
    let mut parser = Parser::new(grid);

    // Print some characters
    parser.print('H');
    parser.print('e');
    parser.print('l');
    parser.print('l');
    parser.print('o');

    // Check cells
    assert_eq!(parser.grid().cell(0, 0).unwrap().character, 'H');
    assert_eq!(parser.grid().cell(0, 1).unwrap().character, 'e');
    assert_eq!(parser.grid().cell(0, 2).unwrap().character, 'l');
    assert_eq!(parser.grid().cell(0, 3).unwrap().character, 'l');
    assert_eq!(parser.grid().cell(0, 4).unwrap().character, 'o');

    // Cursor should be at column 5
    assert_eq!(parser.grid().cursor().position.col, 5);
}

#[test]
fn test_parser_process_basic() {
    let grid = Grid::new(Dimensions::new(24, 80));
    let mut parser = Parser::new(grid);

    let bytes = b"Hello, World!";
    let consumed = parser.process(bytes);

    assert_eq!(consumed, bytes.len());

    // Check text
    let text = parser
        .grid()
        .row(0)
        .unwrap()
        .iter()
        .take(13)
        .map(|c| c.character)
        .collect::<String>();

    assert_eq!(text, "Hello, World!");
}

#[test]
fn test_parser_execute_lf() {
    let grid = Grid::new(Dimensions::new(24, 80));
    let mut parser = Parser::new(grid);

    assert_eq!(parser.grid().cursor().position.row, 0);

    parser.execute(0x0A); // LF
    assert_eq!(parser.grid().cursor().position.row, 1);

    parser.execute(0x0A); // LF
    assert_eq!(parser.grid().cursor().position.row, 2);
}

#[test]
fn test_parser_execute_cr() {
    let grid = Grid::new(Dimensions::new(24, 80));
    let mut parser = Parser::new(grid);

    // Move cursor
    parser.cursor_forward(10);
    assert_eq!(parser.grid().cursor().position.col, 10);

    parser.execute(0x0D); // CR
    assert_eq!(parser.grid().cursor().position.col, 0);
}

#[test]
fn test_parser_execute_bs() {
    let grid = Grid::new(Dimensions::new(24, 80));
    let mut parser = Parser::new(grid);

    parser.cursor_forward(5);
    assert_eq!(parser.grid().cursor().position.col, 5);

    parser.execute(0x08); // BS
    assert_eq!(parser.grid().cursor().position.col, 4);
}

#[test]
fn test_parser_execute_tab() {
    let grid = Grid::new(Dimensions::new(24, 80));
    let mut parser = Parser::new(grid);

    assert_eq!(parser.grid().cursor().position.col, 0);

    parser.execute(0x09); // HT
    assert_eq!(parser.grid().cursor().position.col, 8);

    parser.execute(0x09); // HT
    assert_eq!(parser.grid().cursor().position.col, 16);
}

#[test]
fn test_parser_csi_cursor_up() {
    let grid = Grid::new(Dimensions::new(24, 80));
    let mut parser = Parser::new(grid);

    // Move cursor down first
    parser.cursor_down(10);
    assert_eq!(parser.grid().cursor().position.row, 10);

    // Test CSI A (cursor up)
    parser.process(b"\x1b[5A");
    assert_eq!(parser.grid().cursor().position.row, 5);
}

#[test]
fn test_parser_csi_cursor_position() {
    let grid = Grid::new(Dimensions::new(24, 80));
    let mut parser = Parser::new(grid);

    // Move to row 10, col 20 (1-indexed in escape sequence)
    parser.process(b"\x1b[11;21H");

    assert_eq!(parser.grid().cursor().position.row, 10);
    assert_eq!(parser.grid().cursor().position.col, 20);
}

#[test]
fn test_parser_sgr_colors() {
    let grid = Grid::new(Dimensions::new(24, 80));
    let mut parser = Parser::new(grid);

    // Set red foreground
    parser.process(b"\x1b[31mX");

    let cell = parser.grid().cell(0, 0).unwrap();
    assert_eq!(cell.character, 'X');
    assert_eq!(cell.fg, Color::Red);
}

#[test]
fn test_parser_sgr_attributes() {
    let grid = Grid::new(Dimensions::new(24, 80));
    let mut parser = Parser::new(grid);

    // Set bold and underline
    parser.process(b"\x1b[1;4mX");

    let cell = parser.grid().cell(0, 0).unwrap();
    assert_eq!(cell.character, 'X');
    assert!(cell.attrs.bold);
    assert!(cell.attrs.underline);
}

#[test]
fn test_parser_erase_in_display() {
    let grid = Grid::new(Dimensions::new(5, 10));
    let mut parser = Parser::new(grid);

    // Fill grid with 'X'
    for _ in 0..50 {
        parser.print('X');
    }

    // Move cursor to middle
    parser.grid_mut().cursor_mut().position = Position::new(2, 5);

    // Erase from cursor to end
    parser.process(b"\x1b[J");

    // Check that cells before cursor still have 'X'
    assert_eq!(parser.grid().cell(0, 0).unwrap().character, 'X');
    assert_eq!(parser.grid().cell(2, 4).unwrap().character, 'X');

    // Check that cells from cursor onward are cleared
    assert_eq!(parser.grid().cell(2, 5).unwrap().character, ' ');
    assert_eq!(parser.grid().cell(4, 9).unwrap().character, ' ');
}

#[test]
fn test_parser_erase_in_line() {
    let grid = Grid::new(Dimensions::new(5, 10));
    let mut parser = Parser::new(grid);

    // Fill first row
    for _ in 0..10 {
        parser.print('X');
    }

    // Move cursor to middle of first row
    parser.grid_mut().cursor_mut().position = Position::new(0, 5);

    // Erase from cursor to end of line
    parser.process(b"\x1b[K");

    // Check before cursor
    assert_eq!(parser.grid().cell(0, 4).unwrap().character, 'X');

    // Check from cursor onward
    assert_eq!(parser.grid().cell(0, 5).unwrap().character, ' ');
    assert_eq!(parser.grid().cell(0, 9).unwrap().character, ' ');
}
