use ratatui_testlib::harness::{
    assert_aligned, assert_memory_under, assert_no_overlap, assert_text_at_position, assert_text_within_bounds,
    cursor_wait_description, memory_estimate_checked, memory_usage_of, read_step, recording_json, screenshot_string, sixel_at, sixel_count,
    text_wait_description, timeout_error, wait_step, Axis, MemoryResults, ReadOutcome, ReadStep, RecordedEvent,
    Recording, TimestampedEvent, TuiTestHarnessBuilder, UpdateOutcome, WaitStep,
};
use ratatui_testlib::{Cell, Rect, ScreenState, SixelRegion, TermTestError};
use std::time::Duration;

#[test]
fn test_rect_creation() {
    let rect = Rect::new(10, 20, 30, 40);
    assert_eq!(rect.x, 10);
    assert_eq!(rect.y, 20);
    assert_eq!(rect.width, 30);
    assert_eq!(rect.height, 40);
}

#[test]
fn test_rect_edges() {
    let rect = Rect::new(10, 20, 30, 40);
    assert_eq!(rect.right(), 40); // 10 + 30
    assert_eq!(rect.bottom(), 60); // 20 + 40
}

#[test]
fn test_rect_contains_point() {
    let rect = Rect::new(10, 20, 30, 40);

    // Points inside
    assert!(rect.contains(10, 20)); // Top-left corner
    assert!(rect.contains(25, 35)); // Center
    assert!(rect.contains(39, 59)); // Bottom-right corner (exclusive)

    // Points outside
    assert!(!rect.contains(9, 20)); // Left of rect
    assert!(!rect.contains(10, 19)); // Above rect
    assert!(!rect.contains(40, 30)); // Right of rect
    assert!(!rect.contains(20, 60)); // Below rect
}

#[test]
fn test_rect_contains_rect() {
    let outer = Rect::new(0, 0, 80, 24);
    let inner = Rect::new(10, 10, 20, 10);

    assert!(outer.contains_rect(&inner));
    assert!(!inner.contains_rect(&outer));

    // Overlapping but not contained
    let partial = Rect::new(70, 10, 20, 10);
    assert!(!outer.contains_rect(&partial)); // Extends past right edge
}

#[test]
fn test_rect_intersects() {
    let rect1 = Rect::new(10, 10, 20, 20);
    let rect2 = Rect::new(20, 20, 20, 20);

    assert!(rect1.intersects(&rect2));
    assert!(rect2.intersects(&rect1));

    // No intersection
    let rect3 = Rect::new(50, 50, 10, 10);
    assert!(!rect1.intersects(&rect3));
    assert!(!rect3.intersects(&rect1));
}

#[test]
fn test_memory_results_new() {
    let memory = MemoryResults::new(1024, 2048);

    assert_eq!(memory.current_bytes, 1024);
    assert_eq!(memory.peak_bytes, 2048);
}

#[test]
fn test_memory_results_equality() {
    let memory1 = MemoryResults::new(1024, 1024);
    let memory2 = MemoryResults::new(1024, 1024);
    let memory3 = MemoryResults::new(2048, 2048);

    assert_eq!(memory1, memory2);
    assert_ne!(memory1, memory3);
}

#[test]
fn test_memory_results_summary() {
    let memory = MemoryResults::new(123_456, 150_000);
    let summary = memory.summary();

    assert!(summary.contains("Memory Usage"));
    assert!(summary.contains("123456")); // Numbers are not comma-formatted
    assert!(summary.contains("150000"));
    assert!(summary.contains("KB"));
}

#[test]
fn test_memory_results_zero() {
    let memory = MemoryResults::new(0, 0);
    let summary = memory.summary();

    assert_eq!(memory.current_bytes, 0);
    assert_eq!(memory.peak_bytes, 0);
    assert!(summary.contains("0 bytes"));
}

#[test]
fn test_memory_results_large_values() {
    // Test with ~10 MB
    let memory = MemoryResults::new(10_485_760, 10_485_760);

    assert_eq!(memory.current_bytes, 10_485_760);
    assert_eq!(memory.peak_bytes, 10_485_760);

    let summary = memory.summary();
    // Should show ~10240 KB
    assert!(summary.contains("10240.00 KB"));
}

#[test]
fn test_memory_summary_matches_float_formatting() {
    let samples: [usize; 12] = [
        0, 1, 5, 640, 1023, 1024, 123_456, 150_000, 5_242_880, usize::MAX, (1usize << 53) + 1, (1usize << 60) + 12345,
    ];
    for &n in samples.iter() {
        let m = MemoryResults::new(n, n / 3);
        let expected = format!(
            "Memory Usage:\n  Current: {} bytes ({:.2} KB)\n  Peak: {} bytes ({:.2} KB)",
            n,
            n as f64 / 1024.0,
            n / 3,
            (n / 3) as f64 / 1024.0
        );
        assert_eq!(m.summary(), expected);
    }
    for n in 0usize..5000 {
        let m = MemoryResults::new(n, n);
        let expected = format!(
            "Memory Usage:\n  Current: {} bytes ({:.2} KB)\n  Peak: {} bytes ({:.2} KB)",
            n,
            n as f64 / 1024.0,
            n,
            n as f64 / 1024.0
        );
        assert_eq!(m.summary(), expected);
    }
}

#[test]
fn test_assert_memory_under() {
    let m = MemoryResults::new(2000, 2000);
    assert!(assert_memory_under(&m, 2000).is_ok());
    match assert_memory_under(&m, 1999) {
        Err(TermTestError::Parse(msg)) => {
            assert!(msg.starts_with("Memory usage exceeds limit: 2000 bytes > 1999 bytes (limit)\nMemory Usage:"))
        }
        other => panic!("unexpected: {:?}", other),
    }
}

#[test]
fn test_memory_usage_of_screen() {
    let mut screen = ScreenState::new(10, 2);
    assert_eq!(memory_usage_of(&screen, 12).current_bytes, 240);
    screen.sixel_regions_mut().push(SixelRegion { start_row: 0, start_col: 0, width: 1, height: 1, data: vec![1, 2, 3] });
    let m = memory_usage_of(&screen, 12);
    assert_eq!(m.current_bytes, 243);
    assert_eq!(m.peak_bytes, 243);
}

#[test]
fn test_assert_text_at_position_success() {
    let mut screen = ScreenState::new(80, 24);
    screen.feed(b"\x1b[5;10HHello World");
    assert!(assert_text_at_position(&screen, "Hello", 4, 9).is_ok());
    assert!(assert_text_at_position(&screen, "World", 4, 15).is_ok());
}

#[test]
fn test_assert_text_at_position_failure() {
    let mut screen = ScreenState::new(80, 24);
    screen.feed(b"\x1b[5;10HHello");
    let result = assert_text_at_position(&screen, "World", 4, 9);
    if let Err(TermTestError::Parse(msg)) = result {
        assert!(msg.contains("Text mismatch"));
        assert!(msg.contains("Hello"));
        assert!(msg.contains("World"));
        assert!(msg.starts_with("Text mismatch at position (4, 9)\n  Expected: \"World\"\n  Found:    \"Hello\"\n\nScreen state:\n"));
    } else {
        panic!("Expected Parse error");
    }
}

#[test]
fn test_assert_text_at_position_out_of_bounds() {
    let screen = ScreenState::new(80, 24);
    match assert_text_at_position(&screen, "Test", 100, 0) {
        Err(TermTestError::Parse(m)) => assert_eq!(m, "Row 100 is out of bounds (screen height: 24)"),
        other => panic!("unexpected: {:?}", other),
    }
    match assert_text_at_position(&screen, "Test", 0, 100) {
        Err(TermTestError::Parse(m)) => assert_eq!(m, "Column 100 is out of bounds (screen width: 80)"),
        other => panic!("unexpected: {:?}", other),
    }
}

#[test]
fn test_edge_case_text_at_screen_edge() {
    let mut screen = ScreenState::new(80, 24);
    screen.feed(b"\x1b[1;1HCorner");
    assert!(assert_text_at_position(&screen, "Corner", 0, 0).is_ok());
    screen.feed(b"\x1b[24;75HEnd");
    assert!(assert_text_at_position(&screen, "End", 23, 74).is_ok());
    // The text shown is cut at the right edge.
    assert!(assert_text_at_position(&screen, "End!!!!", 23, 74).is_err());
}

#[test]
fn test_assert_text_within_bounds_success() {
    let mut screen = ScreenState::new(80, 24);
    screen.feed(b"\x1b[10;40HPreview");
    assert!(assert_text_within_bounds(&screen, "Preview", Rect::new(35, 5, 40, 20)).is_ok());
}

#[test]
fn test_assert_text_within_bounds_failure() {
    let mut screen = ScreenState::new(80, 24);
    screen.feed(b"\x1b[1;1HOutside");
    match assert_text_within_bounds(&screen, "Outside", Rect::new(40, 10, 30, 10)) {
        Err(TermTestError::Parse(msg)) => {
            assert!(msg.contains("not found within bounds"));
            assert!(msg.starts_with("Text \"Outside\" not found within bounds (x=40, y=10, width=30, height=10)\n\nScreen state:\n"));
        }
        other => panic!("unexpected: {:?}", other),
    }
}

#[test]
fn test_assert_text_within_bounds_tab_bar() {
    let mut screen = ScreenState::new(80, 24);
    screen.feed(b"\x1b[23;1HTab 1 | Tab 2 | Tab 3");
    let tab_bar_area = Rect::new(0, 22, 80, 2);
    assert!(assert_text_within_bounds(&screen, "Tab 1", tab_bar_area).is_ok());
    assert!(assert_text_within_bounds(&screen, "Tab 2", tab_bar_area).is_ok());
    assert!(assert_text_within_bounds(&screen, "Tab 3", tab_bar_area).is_ok());
    // Text running past the area's right edge is not within it.
    assert!(assert_text_within_bounds(&screen, "Tab 1", Rect::new(0, 22, 4, 2)).is_err());
}

#[test]
fn test_assert_no_overlap_success() {
    assert!(assert_no_overlap(Rect::new(0, 0, 20, 24), Rect::new(20, 0, 60, 24)).is_ok());
}

#[test]
fn test_assert_no_overlap_failure() {
    match assert_no_overlap(Rect::new(10, 10, 20, 20), Rect::new(20, 20, 20, 20)) {
        Err(TermTestError::Parse(msg)) => assert_eq!(
            msg,
            "Rectangles overlap!\nRect 1: (x=10, y=10, width=20, height=20)\nRect 2: (x=20, y=20, width=20, height=20)\nOverlap region exists between x=[20, 30) and y=[20, 30)"
        ),
        other => panic!("unexpected: {:?}", other),
    }
}

#[test]
fn test_assert_aligned_horizontal() {
    assert!(assert_aligned(Rect::new(10, 20, 15, 3), Rect::new(30, 20, 15, 3), Axis::Horizontal).is_ok());
    match assert_aligned(Rect::new(10, 20, 15, 3), Rect::new(30, 21, 15, 3), Axis::Horizontal) {
        Err(TermTestError::Parse(msg)) => {
            assert!(msg.contains("not horizontally aligned"));
            assert!(msg.contains("different Y coordinates"));
            assert!(msg.ends_with("Rect 2: y=21 (x=30, width=15, height=3)"));
        }
        other => panic!("unexpected: {:?}", other),
    }
}

#[test]
fn test_assert_aligned_vertical() {
    assert!(assert_aligned(Rect::new(40, 0, 40, 10), Rect::new(40, 10, 40, 14), Axis::Vertical).is_ok());
    match assert_aligned(Rect::new(40, 0, 40, 10), Rect::new(41, 10, 39, 14), Axis::Vertical) {
        Err(TermTestError::Parse(msg)) => {
            assert!(msg.contains("not vertically aligned"));
            assert!(msg.contains("different X coordinates"));
        }
        other => panic!("unexpected: {:?}", other),
    }
}

#[test]
fn test_complex_layout_assertions() {
    let mut screen = ScreenState::new(80, 24);
    screen.feed(b"\x1b[1;1HHeader");
    screen.feed(b"\x1b[3;1HSidebar");
    screen.feed(b"\x1b[3;21HContent");
    screen.feed(b"\x1b[23;1HStatus Bar");
    let header = Rect::new(0, 0, 80, 2);
    let sidebar = Rect::new(0, 2, 20, 20);
    let content = Rect::new(20, 2, 60, 20);
    let status_bar = Rect::new(0, 22, 80, 2);
    assert!(assert_text_within_bounds(&screen, "Header", header).is_ok());
    assert!(assert_text_within_bounds(&screen, "Sidebar", sidebar).is_ok());
    assert!(assert_text_within_bounds(&screen, "Content", content).is_ok());
    assert!(assert_text_within_bounds(&screen, "Status Bar", status_bar).is_ok());
    assert!(assert_no_overlap(sidebar, content).is_ok());
    assert!(assert_no_overlap(header, status_bar).is_ok());
    assert!(assert_aligned(sidebar, content, Axis::Horizontal).is_ok());
}

#[test]
fn test_screenshot_string() {
    let mut screen = ScreenState::new(3, 2);
    screen.feed(b"ab");
    assert_eq!(screenshot_string(&screen), "=== Screen State ===\nSize: 3x2\nCursor: row=0, col=2\nab \n   \n===================");
}

#[test]
fn test_sixel_count_and_at() {
    let mut screen = ScreenState::new(80, 24);
    assert_eq!(sixel_count(&screen), 0);
    screen.feed(b"\x1b[5;5H\x1bPq\"1;1;80;60#0~\x1b\\");
    assert_eq!(sixel_count(&screen), 1);
    assert_eq!(sixel_at(&screen, 4, 4).map(|r| r.width), Some(80));
    assert!(sixel_at(&screen, 0, 0).is_none());
}

#[test]
fn test_recording_json() {
    let events = vec![
        TimestampedEvent { timestamp_ms: 5, event: RecordedEvent::Input(vec![104, 105]) },
        TimestampedEvent { timestamp_ms: 12, event: RecordedEvent::Output(vec![]) },
        TimestampedEvent {
            timestamp_ms: 30,
            event: RecordedEvent::StateChange { contents: "a\"b\\c\nd\te\r".to_string(), cursor: (1, 2) },
        },
    ];
    let expected = "[\n  {\"timestamp_ms\": 5, \"event\": {\"type\": \"Input\", \"data\": [104, 105]}},\n  {\"timestamp_ms\": 12, \"event\": {\"type\": \"Output\", \"data\": []}},\n  {\"timestamp_ms\": 30, \"event\": {\"type\": \"StateChange\", \"contents\": \"a\\\"b\\\\c\\nd\\te\\r\", \"cursor\": [1, 2]}}\n]\n";
    assert_eq!(recording_json(&events), expected);
    assert_eq!(recording_json(&Vec::new()), "[\n]\n");
}

#[test]
fn test_recording_session() {
    let mut rec = Recording::new();
    rec.record(RecordedEvent::Input(vec![1]), 1);
    assert_eq!(rec.events().len(), 0);
    rec.start();
    assert!(rec.is_recording());
    rec.record(RecordedEvent::Input(vec![1]), 1);
    rec.stop();
    rec.record(RecordedEvent::Input(vec![2]), 2);
    assert_eq!(rec.events().len(), 1);
    rec.start();
    assert_eq!(rec.events().len(), 0);
}

#[test]
fn test_wait_steps() {
    assert_eq!(wait_step(UpdateOutcome::Updated, true, 10, 5), WaitStep::Satisfied);
    assert_eq!(wait_step(UpdateOutcome::Updated, false, 10, 5), WaitStep::TimedOut);
    assert_eq!(wait_step(UpdateOutcome::Updated, false, 4, 5), WaitStep::Poll);
    assert_eq!(wait_step(UpdateOutcome::Exited, true, 0, 5), WaitStep::Satisfied);
    assert_eq!(wait_step(UpdateOutcome::Exited, false, 0, 5), WaitStep::Exited);
    assert_eq!(wait_step(UpdateOutcome::Failed, true, 0, 5), WaitStep::Failed);
    assert!(matches!(timeout_error(Duration::from_millis(2500).as_nanos()), TermTestError::Timeout { timeout_ms: 2500 }));
    assert_eq!(text_wait_description("Ready"), "text 'Ready'");
    assert_eq!(cursor_wait_description((5, 10)), "cursor at (5, 10)");
}

#[test]
fn test_read_steps() {
    assert_eq!(read_step(true, ReadOutcome::Data(3)), ReadStep::Process(3));
    assert_eq!(read_step(true, ReadOutcome::Empty), ReadStep::Stop);
    assert_eq!(read_step(true, ReadOutcome::WouldBlock), ReadStep::Stop);
    assert_eq!(read_step(true, ReadOutcome::Error), ReadStep::Fail);
    assert_eq!(read_step(false, ReadOutcome::Error), ReadStep::Stop);
}

#[test]
fn test_harness_builder() {
    let b = TuiTestHarnessBuilder::default();
    assert_eq!(b.size(), (80, 24));
    assert_eq!(b.timeout(), Duration::from_secs(5));
    assert_eq!(b.poll_interval(), Duration::from_millis(100));
    assert_eq!(b.buffer_size(), 4096);
    let b = b.with_size(100, 30).with_timeout(Duration::from_secs(10)).with_poll_interval(Duration::from_millis(50)).with_buffer_size(8192);
    assert_eq!(b.size(), (100, 30));
    assert_eq!(b.timeout(), Duration::from_secs(10));
    assert_eq!(b.poll_interval(), Duration::from_millis(50));
    assert_eq!(b.buffer_size(), 8192);
}

#[test]
fn test_memory_estimate_checked() {
    let state = ScreenState::new(80, 24);
    assert_eq!(memory_estimate_checked(&state, 10), Some(80 * 24 * 10));
    assert_eq!(memory_estimate_checked(&state, usize::MAX), None);
    assert_eq!(memory_estimate_checked(&state, 0), Some(0));
}

/// The memory estimate the harness reports for a screen.
fn memory_of(state: &ScreenState) -> MemoryResults {
    memory_usage_of(state, std::mem::size_of::<Cell>())
}

fn sixel_at_10_5(state: &mut ScreenState) {
    state.feed(b"\x1b[5;10H");
    state.feed(b"\x1bPq\"1;1;100;50#0~\x1b\\");
}

#[test]
fn test_sixel_count() {
    let mut state = ScreenState::new(80, 24);
    assert_eq!(sixel_count(&state), 0);
    sixel_at_10_5(&mut state);
    assert_eq!(sixel_count(&state), 1);
    state.feed(b"\x1b[10;20H");
    state.feed(b"\x1bPq\"1;1;80;60#0~\x1b\\");
    assert_eq!(sixel_count(&state), 2);
}

#[test]
fn test_sixel_regions() {
    let mut state = ScreenState::new(80, 24);
    sixel_at_10_5(&mut state);
    let regions = state.sixel_regions();
    assert_eq!(regions.len(), 1);
    let region = &regions[0];
    assert_eq!(region.start_row, 4);
    assert_eq!(region.start_col, 9);
    assert_eq!(region.width, 100);
    assert_eq!(region.height, 50);
}

#[test]
fn test_sixel_at_position() {
    let mut state = ScreenState::new(80, 24);
    sixel_at_10_5(&mut state);
    let region = sixel_at(&state, 4, 9);
    assert!(region.is_some());
    let region = region.unwrap();
    assert_eq!(region.width, 100);
    assert_eq!(region.height, 50);
    assert!(sixel_at(&state, 0, 0).is_none());
    assert!(sixel_at(&state, 10, 10).is_none());
}

#[test]
fn test_verify_sixel_cleared() {
    let mut state = ScreenState::new(80, 24);
    sixel_at_10_5(&mut state);
    assert_eq!(sixel_count(&state), 1);
    state = ScreenState::new(80, 24);
    let before = sixel_count(&state);
    assert_eq!(before, 0);
}

#[test]
fn test_sixel_at_screen_edge() {
    let mut state = ScreenState::new(80, 24);
    state.feed(b"\x1b[1;1H");
    state.feed(b"\x1bPq\"1;1;50;30#0~\x1b\\");
    assert_eq!(sixel_count(&state), 1);
    assert!(sixel_at(&state, 0, 0).is_some());
    let region = sixel_at(&state, 0, 0).unwrap();
    assert_eq!(region.start_row, 0);
    assert_eq!(region.start_col, 0);
}

#[test]
fn test_assert_aligned_horizontal_success() {
    let button1 = Rect::new(10, 20, 15, 3);
    let button2 = Rect::new(30, 20, 15, 3);
    assert!(assert_aligned(button1, button2, Axis::Horizontal).is_ok());
}

#[test]
fn test_assert_aligned_horizontal_failure() {
    let button1 = Rect::new(10, 20, 15, 3);
    let button2 = Rect::new(30, 21, 15, 3);
    let result = assert_aligned(button1, button2, Axis::Horizontal);
    assert!(result.is_err());
    if let Err(TermTestError::Parse(msg)) = result {
        assert!(msg.contains("not horizontally aligned"));
        assert!(msg.contains("different Y coordinates"));
    } else {
        panic!("Expected Parse error");
    }
}

#[test]
fn test_assert_aligned_vertical_success() {
    let panel1 = Rect::new(40, 0, 40, 10);
    let panel2 = Rect::new(40, 10, 40, 14);
    assert!(assert_aligned(panel1, panel2, Axis::Vertical).is_ok());
}

#[test]
fn test_assert_aligned_vertical_failure() {
    let panel1 = Rect::new(40, 0, 40, 10);
    let panel2 = Rect::new(41, 10, 39, 14);
    let result = assert_aligned(panel1, panel2, Axis::Vertical);
    assert!(result.is_err());
    if let Err(TermTestError::Parse(msg)) = result {
        assert!(msg.contains("not vertically aligned"));
        assert!(msg.contains("different X coordinates"));
    } else {
        panic!("Expected Parse error");
    }
}

#[test]
fn test_multiline_text_in_area() {
    let mut state = ScreenState::new(80, 24);
    state.feed(b"\x1b[10;40HLine 1");
    state.feed(b"\x1b[11;40HLine 2");
    state.feed(b"\x1b[12;40HLine 3");
    let content_area = Rect::new(35, 5, 40, 20);
    assert!(assert_text_within_bounds(&state, "Line 1", content_area).is_ok());
    assert!(assert_text_within_bounds(&state, "Line 2", content_area).is_ok());
    assert!(assert_text_within_bounds(&state, "Line 3", content_area).is_ok());
}

#[test]
fn test_text_spanning_multiple_lines() {
    let mut state = ScreenState::new(80, 24);
    state.feed(b"\x1b[5;10HFirst");
    state.feed(b"\x1b[6;10HSecond");
    assert!(assert_text_at_position(&state, "First", 4, 9).is_ok());
    assert!(assert_text_at_position(&state, "Second", 5, 9).is_ok());
}

#[test]
fn test_memory_usage() {
    let state = ScreenState::new(80, 24);
    let memory = memory_of(&state);
    assert!(memory.current_bytes > 0);
    assert_eq!(memory.current_bytes, memory.peak_bytes);
    let min_expected = 80 * 24 * 4;
    assert!(memory.current_bytes >= min_expected);
}

#[test]
fn test_memory_usage_with_different_sizes() {
    let small = ScreenState::new(20, 10);
    let large = ScreenState::new(200, 100);
    assert!(memory_of(&large).current_bytes > memory_of(&small).current_bytes);
}

#[test]
fn test_memory_usage_with_sixel() {
    let mut state = ScreenState::new(80, 24);
    let initial_memory = memory_of(&state);
    let region = SixelRegion { start_row: 5, start_col: 10, width: 100, height: 50, data: vec![0u8; 1000] };
    state.sixel_regions_mut().push(region);
    let with_sixel_memory = memory_of(&state);
    assert!(with_sixel_memory.current_bytes > initial_memory.current_bytes);
    let increase = with_sixel_memory.current_bytes - initial_memory.current_bytes;
    assert!(increase >= 1000);
}

#[test]
fn test_assert_memory_under_success() {
    let state = ScreenState::new(80, 24);
    assert!(assert_memory_under(&memory_of(&state), 1_000_000).is_ok());
}

#[test]
fn test_assert_memory_under_failure() {
    let state = ScreenState::new(80, 24);
    let result = assert_memory_under(&memory_of(&state), 100);
    assert!(result.is_err());
    if let Err(e) = result {
        let error_msg = e.message();
        assert!(error_msg.contains("Memory usage exceeds limit"));
        assert!(error_msg.contains("100 bytes (limit)"));
    }
}

#[test]
fn test_memory_results_summary_format() {
    let state = ScreenState::new(80, 24);
    let summary = memory_of(&state).summary();
    assert!(summary.contains("Memory Usage"));
    assert!(summary.contains("Current:"));
    assert!(summary.contains("Peak:"));
    assert!(summary.contains("bytes"));
    assert!(summary.contains("KB"));
}

#[test]
fn test_memory_tracking_across_operations() {
    let mut state = ScreenState::new(80, 24);
    let initial = memory_of(&state);
    state.feed(b"Hello, World!");
    state.feed(b"\x1b[2J");
    state.feed(b"More text");
    let after_operations = memory_of(&state);
    let diff = if after_operations.current_bytes > initial.current_bytes {
        after_operations.current_bytes - initial.current_bytes
    } else {
        initial.current_bytes - after_operations.current_bytes
    };
    assert!(diff < initial.current_bytes / 10);
}

#[test]
fn test_builder_default() {
    let builder = TuiTestHarnessBuilder::default();
    assert_eq!(builder.timeout(), Duration::from_secs(5));
    assert_eq!(builder.poll_interval(), Duration::from_millis(100));
    assert_eq!(builder.buffer_size(), 4096);
}

#[test]
fn test_builder_with_size() {
    let builder = TuiTestHarnessBuilder::default().with_size(120, 40);
    let (width, height) = builder.size();
    assert_eq!(width, 120);
    assert_eq!(height, 40);
}

#[test]
fn test_builder_with_timeout() {
    let timeout = Duration::from_secs(15);
    let builder = TuiTestHarnessBuilder::default().with_timeout(timeout);
    assert_eq!(builder.timeout(), timeout);
}

#[test]
fn test_builder_with_poll_interval() {
    let interval = Duration::from_millis(25);
    let builder = TuiTestHarnessBuilder::default().with_poll_interval(interval);
    assert_eq!(builder.poll_interval(), interval);
}

#[test]
fn test_builder_with_buffer_size() {
    let buffer_size = 8192;
    let builder = TuiTestHarnessBuilder::default().with_buffer_size(buffer_size);
    assert_eq!(builder.buffer_size(), buffer_size);
}

#[test]
fn test_builder_chaining() {
    let builder = TuiTestHarnessBuilder::default()
        .with_size(100, 30)
        .with_timeout(Duration::from_secs(20))
        .with_poll_interval(Duration::from_millis(75))
        .with_buffer_size(16384);
    assert_eq!(builder.size(), (100, 30));
    assert_eq!(builder.timeout(), Duration::from_secs(20));
    assert_eq!(builder.poll_interval(), Duration::from_millis(75));
    assert_eq!(builder.buffer_size(), 16384);
}
