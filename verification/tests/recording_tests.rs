use terminal_mcp::recording::{split_recording, EventKind};
use terminal_mcp::visual::{rank_candidates, Candidate};
use terminal_mcp::{Dimensions, SessionRecorder};

#[test]
fn test_recorder_creation() {
    let recorder = SessionRecorder::new(Dimensions::new(24, 80));
    assert_eq!(recorder.event_count(), 0);
    assert_eq!(recorder.duration_us(), 0);
}

#[test]
fn test_record_output() {
    let mut recorder = SessionRecorder::new(Dimensions::new(24, 80));
    recorder.record_output(b"Hello, world!", 5);

    assert_eq!(recorder.event_count(), 1);
    assert_eq!(recorder.duration_us(), 5);
    assert_eq!(recorder.event(0).kind.code(), "o");
    assert_eq!(recorder.event(0).data, "Hello, world!");
}

#[test]
fn test_record_input() {
    let mut recorder = SessionRecorder::new(Dimensions::new(24, 80));
    recorder.record_input(b"ls -la\r\n", 0);

    assert_eq!(recorder.event_count(), 1);
    assert_eq!(recorder.event(0).kind.code(), "i");
    assert_eq!(recorder.event(0).data, "ls -la\r\n");
}

#[test]
fn test_multiple_events() {
    let mut recorder = SessionRecorder::new(Dimensions::new(24, 80));

    recorder.record_output(b"$ ", 0);
    recorder.record_input(b"echo hello\r\n", 10_000);
    recorder.record_output(b"hello\r\n", 20_000);

    assert_eq!(recorder.event_count(), 3);
    assert!(recorder.duration_us() as f64 / 1_000_000.0 >= 0.02);
    assert_eq!(recorder.event(0).kind, EventKind::Output);
    assert_eq!(recorder.event(1).kind, EventKind::Input);
    assert_eq!(recorder.event(2).kind, EventKind::Output);
}

#[test]
fn test_header_generation() {
    let recorder = SessionRecorder::new(Dimensions::new(30, 100));
    let header = recorder.header(1_700_000_000);

    assert_eq!(header.version, 2);
    assert_eq!(header.width, 100);
    assert_eq!(header.height, 30);
    assert!(header.timestamp.is_some());
    assert!(header.env.is_none());
}

#[test]
fn test_with_env() {
    let env = vec![
        ("SHELL".to_string(), "/bin/bash".to_string()),
        ("TERM".to_string(), "xterm-256color".to_string()),
    ];

    let recorder = SessionRecorder::with_env(Dimensions::new(24, 80), env);
    let header = recorder.header(0);

    assert!(header.env.is_some());
    let env = header.env.unwrap();
    let shell = env.iter().find(|(name, _)| name == "SHELL").unwrap();
    assert_eq!(shell.1, "/bin/bash");
    assert_eq!(env.len(), 2);
}

#[test]
fn test_load_empty_file() {
    let result = split_recording("");
    assert!(result.is_err());
}

#[test]
fn available_candidates_are_ranked() {
    let c = |available, priority| Candidate { available, priority };
    assert_eq!(rank_candidates(&vec![]), Vec::<usize>::new());
    assert_eq!(
        rank_candidates(&vec![c(true, 50), c(false, 99), c(true, 70), c(true, 50), c(true, 100)]),
        vec![4, 2, 0, 3]
    );
    assert_eq!(rank_candidates(&vec![c(false, 1), c(false, 2)]), Vec::<usize>::new());
}
