//! Terminal emulation, widget detection and keystroke planning for driving
//! terminal applications programmatically.
//!
//! The crate models a terminal screen as a grid of styled cells, feeds
//! escape-sequence events into it, scans the grid for user-interface widgets
//! and plans the keystrokes that activate a chosen widget.

pub mod outside;
pub mod geometry;
pub mod cell;
pub mod text;
pub mod grid;
pub mod parser;
pub mod session;
pub mod error;
pub mod key;
pub mod element;
pub mod detection;
pub mod detectors;
pub mod assembler;
pub mod navigation;
pub mod output;
pub mod pattern;
pub mod time;
pub mod wait;
pub mod snapshot;
pub mod config;
pub mod platform;
pub mod manager;
pub mod visual;
pub mod tmux;
pub mod driver;
pub mod recording;
pub mod snapshot_compare;

pub use cell::{Cell, CellAttributes, Color};
pub use geometry::{Bounds, Dimensions, Position};
pub use grid::{Cursor, CursorStyle, Grid};
pub use parser::{Parser, TermEvent};
pub use session::{SessionConfig, SessionId, SessionInfo, SessionStatus};
pub use error::{Error, Result};
pub use key::Key;
pub use assembler::TSTAssembler;
pub use navigation::NavigationCalculator;
pub use output::{OutputBuffer, OutputRead};
pub use snapshot::SnapshotConfig;
pub use config::{
    CaptureConfig, CustomPatternConfig, DetectionSettings, SecuritySettings, ServerConfig,
    ServerSettings, TerminalSettings,
};
pub use platform::Platform;
pub use recording::{AsciinemaHeader, RecordEvent, SessionRecorder};
pub use driver::SessionCore;
pub use visual::{SessionMode, TerminalRegistry, VisualTerminal, VisualTerminalHandle};
pub use manager::{SessionManagerConfig, SessionRegistry};
pub use wait::{WaitCondition, WaitResult};
pub use detectors::{
    BorderDetector, ButtonDetector, CheckboxDetector, InputDetector, MenuDetector,
    ProgressDetector, StatusBarDetector, TableDetector,
};
pub use element::{Element, MenuItem, TerminalStateTree};
pub use snapshot_compare::{DiffStats, ElementChange, ElementDiff, SnapshotDiff, SnapshotMatcher};
pub use detection::{
    Confidence, DetectedElement, DetectionContext, DetectionPipeline, ElementDetector,
    RefIdGenerator,
};
