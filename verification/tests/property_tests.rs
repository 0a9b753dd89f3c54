#![allow(unused_imports, dead_code)]
use std::sync::Arc;
use terminal_mcp::{
    Bounds, BorderDetector, ButtonDetector, CheckboxDetector, DetectionContext,
    DetectionPipeline, Dimensions, ElementDetector, Grid, InputDetector, MenuDetector, Parser,
    Position, ProgressDetector, StatusBarDetector, TableDetector,
};

/// Grid sizes from the smallest to the largest of the range, and some between.
fn sample_sizes() -> Vec<(u16, u16)> {
    vec![(10, 40), (10, 199), (99, 40), (99, 199), (24, 80), (50, 132), (66, 100), (73, 41)]
}

fn grid_from_text(rows: u16, cols: u16, text: &str) -> Grid {
    let grid = Grid::new(Dimensions::new(rows, cols));
    let mut parser = Parser::new(grid);
    parser.process(text.as_bytes());
    parser.into_grid()
}

fn all_detectors() -> Vec<Box<dyn ElementDetector>> {
    vec![
        Box::new(BorderDetector::new()),
        Box::new(MenuDetector::new()),
        Box::new(TableDetector::new()),
        Box::new(InputDetector::new()),
        Box::new(ButtonDetector::new()),
        Box::new(ProgressDetector::new()),
        Box::new(CheckboxDetector::new()),
        Box::new(StatusBarDetector::new()),
    ]
}

fn full_pipeline() -> DetectionPipeline {
    let mut pipeline = DetectionPipeline::new();
    pipeline.add_detector(Arc::new(BorderDetector::new()));
    pipeline.add_detector(Arc::new(MenuDetector::new()));
    pipeline.add_detector(Arc::new(TableDetector::new()));
    pipeline.add_detector(Arc::new(InputDetector::new()));
    pipeline.add_detector(Arc::new(ButtonDetector::new()));
    pipeline.add_detector(Arc::new(ProgressDetector::new()));
    pipeline.add_detector(Arc::new(CheckboxDetector::new()));
    pipeline.add_detector(Arc::new(StatusBarDetector::new()));
    pipeline
}

#[test]
fn detectors_never_panic_on_any_grid_size() {
    for (rows, cols) in sample_sizes() {
        let grid = Grid::new(Dimensions::new(rows, cols));
        let context = DetectionContext::new(Position::origin());
        for detector in &all_detectors() {
            let _ = detector.detect(&grid, &context);
        }
    }
}

#[test]
fn pipeline_never_panics() {
    for (rows, cols) in sample_sizes() {
        let grid = Grid::new(Dimensions::new(rows, cols));
        let _ = full_pipeline().detect(&grid, Position::origin());
    }
}

#[test]
fn detectors_handle_any_cursor_position() {
    for (rows, cols) in sample_sizes() {
        for (cursor_row, cursor_col) in [(0u16, 0u16), (5, 5), (199, 399), (9, 400), (200, 0)] {
            let grid = grid_from_text(rows, cols, "Name: value [ OK ] [x] yes 50%\r\n");
            let context = DetectionContext::new(Position::new(cursor_row, cursor_col));
            for detector in &all_detectors() {
                let _ = detector.detect(&grid, &context);
            }
        }
    }
}

#[test]
fn button_detector_finds_valid_buttons() {
    for text in ["[ OK ]", "[Cancel]", "< Back >", "「Next」", "[ a b c ]", "[ X9 ]"] {
        let grid = grid_from_text(10, 80, &format!("{}\r\n", text));
        let context = DetectionContext::new(Position::origin());
        let detected = ButtonDetector::new().detect(&grid, &context);
        assert!(!detected.is_empty(), "Button should be detected for: {}", text);
    }
}

#[test]
fn detected_elements_have_valid_bounds() {
    for (rows, cols) in sample_sizes() {
        let text = "[ OK ] [ Cancel ]\r\n[X] Checkbox\r\nProgress: ████████░░░░ 66%\r\n";
        let grid = grid_from_text(rows, cols, text);
        let mut pipeline = DetectionPipeline::new();
        pipeline.add_detector(Arc::new(ButtonDetector::new()));
        pipeline.add_detector(Arc::new(CheckboxDetector::new()));
        pipeline.add_detector(Arc::new(ProgressDetector::new()));
        let elements = pipeline.detect(&grid, Position::origin());
        assert!(!elements.is_empty());
        for elem in &elements {
            let bounds = &elem.bounds;
            assert!(bounds.row < rows, "Row {} >= grid rows {}", bounds.row, rows);
            assert!(bounds.col < cols, "Col {} >= grid cols {}", bounds.col, cols);
            assert!(bounds.row + bounds.height <= rows);
            assert!(bounds.col + bounds.width <= cols);
        }
    }
}

#[test]
fn checkbox_detector_finds_checkboxes() {
    for checked in [true, false] {
        for label in ["Enable", "a", "Two words", "ZZZZZZZZZZZZZZZZZZZZ"] {
            let marker = if checked { "X" } else { " " };
            let text = format!("[{}] {}\r\n", marker, label);
            let grid = grid_from_text(10, 80, &text);
            let context = DetectionContext::new(Position::origin());
            let detected = CheckboxDetector::new().detect(&grid, &context);
            assert!(!detected.is_empty(), "Checkbox should be detected");
        }
    }
}

#[test]
fn progress_detector_handles_percentages() {
    for percent in [0usize, 1, 33, 50, 66, 99, 100] {
        let filled = (percent * 20) / 100;
        let empty = 20 - filled;
        let bar = format!("[{}{}] {}%\r\n", "█".repeat(filled), "░".repeat(empty), percent);
        let grid = grid_from_text(10, 80, &bar);
        let context = DetectionContext::new(Position::origin());
        let _ = ProgressDetector::new().detect(&grid, &context);
    }
}

#[test]
fn detectors_handle_unicode_safely() {
    for text in [
        "日本語のテキスト [ 決定 ] 「戻る」",
        "█▓▒░ ✓ ✔ ● ◉ → ▶ • ►",
        "émoji 😀 [x] naïve café: ünïcödé 75%",
        "┌─ タイトル ─┐",
        "",
    ] {
        let grid = grid_from_text(24, 80, &format!("{}\r\n", text));
        let context = DetectionContext::new(Position::origin());
        for detector in &all_detectors() {
            let found = detector.detect(&grid, &context);
            for e in &found {
                assert!(e.bounds.col as u32 + e.bounds.width as u32 <= 80);
                assert!(e.bounds.row as u32 + e.bounds.height as u32 <= 24);
            }
        }
    }
}

#[test]
fn grid_text_extraction_never_panics() {
    for (rows, cols) in sample_sizes() {
        let grid = Grid::new(Dimensions::new(rows, cols));
        let _ = grid.extract_text(&Bounds::new(0, 0, cols, rows));
        let _ = grid.extract_text(&Bounds::new(rows / 2, cols / 2, cols, rows));
        let _ = grid.extract_text(&Bounds::new(65535, 65535, 65535, 3));
    }
}

#[test]
fn test_empty_grid() {
    let grid = Grid::new(Dimensions::new(1, 1));
    let context = DetectionContext::new(Position::origin());
    let detected = ButtonDetector::new().detect(&grid, &context);
    assert!(detected.is_empty());
}

#[test]
fn test_minimal_grid() {
    let grid = Grid::new(Dimensions::new(5, 10));
    let mut pipeline = DetectionPipeline::new();
    pipeline.add_detector(Arc::new(BorderDetector::new()));
    pipeline.add_detector(Arc::new(ButtonDetector::new()));
    let elements = pipeline.detect(&grid, Position::origin());
    assert!(elements.is_empty());
}

#[test]
fn test_box_drawing_characters() {
    let text = "┌────────────────────┐\r\n│ Test Content       │\r\n└────────────────────┘\r\n";
    let grid = grid_from_text(24, 80, text);
    let mut pipeline = DetectionPipeline::new();
    pipeline.add_detector(Arc::new(BorderDetector::new()));
    pipeline.add_detector(Arc::new(ButtonDetector::new()));
    let found = pipeline.detect(&grid, Position::origin());
    assert_eq!(found.len(), 1);
}

#[test]
fn zero_sized_grids_are_handled() {
    for (rows, cols) in [(0u16, 0u16), (0, 10), (10, 0)] {
        let mut parser = Parser::new(Grid::new(Dimensions::new(rows, cols)));
        parser.process("abc\r\n\x1b[2J\x1b[5;5H\x1b[K\tx".as_bytes());
        let grid = parser.into_grid();
        assert_eq!(grid.to_plain_text().trim(), "");
        let found = full_pipeline().detect(&grid, Position::origin());
        assert!(found.is_empty());
    }
}
