use std::sync::Arc;
use terminal_mcp::{
    BorderDetector, DetectionPipeline, Dimensions, Element, Grid, Parser, Position,
    StatusBarDetector,
};

#[test]
fn test_full_detection_pipeline() {
    // A grid with a border and a status bar.
    let text = "┌─────────────────┐\r\n│ Main Content    │\r\n│ More text here  │\r\n└─────────────────┘\r\nPress q to quit | F1 Help\r\n";

    // Five rows: the border in rows 0 to 3, the status bar in row 4.
    let grid = Grid::new(Dimensions::new(5, 40));
    let mut parser = Parser::new(grid);
    parser.process(text.as_bytes());
    let grid = parser.into_grid();

    let mut pipeline = DetectionPipeline::new();
    pipeline.add_detector(Arc::new(BorderDetector::new()));
    pipeline.add_detector(Arc::new(StatusBarDetector::new()));

    let cursor = Position::new(0, 0);
    let detected = pipeline.detect(&grid, cursor);

    println!("Detected {} elements:", detected.len());
    for (i, elem) in detected.iter().enumerate() {
        match &elem.element {
            Element::Border { ref_id, bounds, title, .. } => {
                println!(
                    "  {}: Border at ({}, {}) {}x{} - ref_id: {}, title: {:?}",
                    i, bounds.row, bounds.col, bounds.width, bounds.height, ref_id, title
                );
            }
            Element::StatusBar { ref_id, bounds, content } => {
                println!(
                    "  {}: StatusBar at ({}, {}) - ref_id: {}, content: '{}'",
                    i, bounds.row, bounds.col, ref_id, content
                );
            }
            _ => {
                println!("  {}: Other element: {:?}", i, elem.element);
            }
        }
    }

    assert!(
        detected.len() >= 2,
        "Expected at least 2 elements (border + status bar), got {}",
        detected.len()
    );

    let has_border = detected.iter().any(|d| matches!(d.element, Element::Border { .. }));
    assert!(has_border, "Should detect a border");

    let has_status_bar = detected.iter().any(|d| matches!(d.element, Element::StatusBar { .. }));
    assert!(has_status_bar, "Should detect a status bar");
}
