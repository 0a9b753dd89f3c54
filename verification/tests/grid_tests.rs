#![allow(unused_imports, dead_code, unused_variables, unused_mut)]
use std::sync::Arc;
use std::time::Duration;
use terminal_mcp::{
    Bounds, BorderDetector, ButtonDetector, Cell, CellAttributes, CheckboxDetector, Color,
    Confidence, Cursor, CursorStyle, CustomPatternConfig, DetectedElement, DetectionContext,
    DetectionPipeline, Dimensions, Element, ElementDetector, Error, Grid, InputDetector, Key,
    MenuDetector, MenuItem, NavigationCalculator, OutputBuffer, Parser, Platform, Position,
    ProgressDetector, RefIdGenerator, SecuritySettings, ServerConfig, SessionConfig, SessionId,
    SessionInfo, SessionMode, SessionStatus, SnapshotConfig, StatusBarDetector, TSTAssembler,
    TableDetector, TerminalStateTree, VisualTerminalHandle, WaitCondition,
};

#[test]
fn test_grid_new() {
    let grid = Grid::new(Dimensions::new(24, 80));
    assert_eq!(grid.dimensions().rows, 24);
    assert_eq!(grid.dimensions().cols, 80);
    assert_eq!(grid.cursor().position, Position::origin());
    assert!(grid.cursor_visible());
}

#[test]
fn test_grid_cell_access() {
    let mut grid = Grid::new(Dimensions::new(10, 10));

    // Get default cell
    let cell = grid.cell(0, 0).unwrap();
    assert_eq!(cell.character, ' ');

    // Modify cell
    if let Some(cell) = grid.cell_mut(5, 5) {
        cell.character = 'X';
    }

    // Verify modification
    assert_eq!(grid.cell(5, 5).unwrap().character, 'X');

    // Out of bounds
    assert!(grid.cell(10, 10).is_none());
    assert!(grid.cell_mut(10, 10).is_none());
}

#[test]
fn test_grid_row_access() {
    let mut grid = Grid::new(Dimensions::new(5, 10));

    // Modify a row
    for col in 0..10 {
        if let Some(cell) = grid.cell_mut(2, col) {
            cell.character = (b'0' + col as u8) as char;
        }
    }

    // Get row
    let row = grid.row(2).unwrap();
    assert_eq!(row.len(), 10);
    assert_eq!(row[0].character, '0');
    assert_eq!(row[9].character, '9');

    // Out of bounds
    assert!(grid.row(5).is_none());
}

#[test]
fn test_grid_extract_text() {
    let mut grid = Grid::new(Dimensions::new(5, 10));

    // Write "HELLO" at row 1
    let text = "HELLO";
    for (i, ch) in text.chars().enumerate() {
        if let Some(cell) = grid.cell_mut(1, i as u16) {
            cell.character = ch;
        }
    }

    // Extract the region
    let bounds = Bounds::new(1, 0, 10, 1);
    let extracted = grid.extract_text(&bounds);
    assert_eq!(extracted, "HELLO");
}

#[test]
fn test_grid_to_plain_text() {
    let mut grid = Grid::new(Dimensions::new(3, 5));

    // Write pattern
    for row in 0..3 {
        for col in 0..5 {
            if let Some(cell) = grid.cell_mut(row, col) {
                cell.character = if (row + col) % 2 == 0 { 'X' } else { 'O' };
            }
        }
    }

    let text = grid.to_plain_text();
    let lines: Vec<&str> = text.lines().collect();
    assert_eq!(lines.len(), 3);
    assert_eq!(lines[0], "XOXOX");
    assert_eq!(lines[1], "OXOXO");
    assert_eq!(lines[2], "XOXOX");
}

#[test]
fn test_grid_resize_preserve() {
    let mut grid = Grid::new(Dimensions::new(5, 5));

    // Fill with pattern
    for row in 0..5 {
        for col in 0..5 {
            if let Some(cell) = grid.cell_mut(row, col) {
                cell.character = 'A';
            }
        }
    }

    // Resize to larger
    grid.resize(Dimensions::new(10, 10));
    assert_eq!(grid.dimensions().rows, 10);
    assert_eq!(grid.dimensions().cols, 10);

    // Earlier content preserved
    assert_eq!(grid.cell(0, 0).unwrap().character, 'A');
    assert_eq!(grid.cell(4, 4).unwrap().character, 'A');

    // New cells are default
    assert_eq!(grid.cell(9, 9).unwrap().character, ' ');
}

#[test]
fn test_grid_resize_shrink() {
    let mut grid = Grid::new(Dimensions::new(10, 10));

    // Set marker cell
    if let Some(cell) = grid.cell_mut(2, 2) {
        cell.character = 'M';
    }

    // Resize to smaller
    grid.resize(Dimensions::new(5, 5));
    assert_eq!(grid.dimensions().rows, 5);

    // Preserved cell still there
    assert_eq!(grid.cell(2, 2).unwrap().character, 'M');
}

#[test]
fn test_cursor_default() {
    let cursor = Cursor::default();
    assert_eq!(cursor.position, Position::origin());
    assert!(cursor.visible);
    assert_eq!(cursor.style, CursorStyle::Block);
}

#[test]
fn test_cursor_at() {
    let cursor = Cursor::at(Position::new(5, 10));
    assert_eq!(cursor.position.row, 5);
    assert_eq!(cursor.position.col, 10);
    assert!(cursor.visible);
}

#[test]
fn test_cursor_save_restore() {
    let mut grid = Grid::new(Dimensions::new(24, 80));

    // Move cursor
    grid.cursor_mut().position = Position::new(10, 20);

    // Save
    grid.save_cursor();

    // Move again
    grid.cursor_mut().position = Position::new(5, 5);
    assert_eq!(grid.cursor().position, Position::new(5, 5));

    // Restore
    grid.restore_cursor();
    assert_eq!(grid.cursor().position, Position::new(10, 20));
}

#[test]
fn test_grid_clear() {
    let mut grid = Grid::new(Dimensions::new(5, 5));

    // Fill grid
    for row in 0..5 {
        for col in 0..5 {
            if let Some(cell) = grid.cell_mut(row, col) {
                cell.character = 'X';
            }
        }
    }

    // Clear
    grid.clear();

    // All cells should be default
    for row in 0..5 {
        for col in 0..5 {
            assert_eq!(grid.cell(row, col).unwrap().character, ' ');
        }
    }
}

#[test]
fn test_grid_clear_region() {
    let mut grid = Grid::new(Dimensions::new(5, 5));

    // Fill grid
    for row in 0..5 {
        for col in 0..5 {
            if let Some(cell) = grid.cell_mut(row, col) {
                cell.character = 'X';
            }
        }
    }

    // Clear center region (2x2)
    let bounds = Bounds::new(1, 1, 2, 2);
    grid.clear_region(&bounds);

    // Check cleared region
    assert_eq!(grid.cell(1, 1).unwrap().character, ' ');
    assert_eq!(grid.cell(2, 2).unwrap().character, ' ');

    // Check untouched cells
    assert_eq!(grid.cell(0, 0).unwrap().character, 'X');
    assert_eq!(grid.cell(4, 4).unwrap().character, 'X');
}
