use ratatui_testlib::screen::{ScreenState, TerminalState};

#[test]
fn test_create_screen() {
    let screen = ScreenState::new(80, 24);
    assert_eq!(screen.size(), (80, 24));
}

#[test]
fn test_feed_simple_text() {
    let mut screen = ScreenState::new(80, 24);
    screen.feed(b"Hello, World!");
    assert!(screen.contents().contains("Hello, World!"));
}

#[test]
fn screen_test_cursor_position() {
    let mut screen = ScreenState::new(80, 24);

    // Initial position
    assert_eq!(screen.cursor_position(), (0, 0));

    // Move cursor using CSI sequence (ESC [ 5 ; 10 H = row 5, col 10)
    screen.feed(b"\x1b[5;10H");
    let (row, col) = screen.cursor_position();

    // CSI uses 1-based, we convert to 0-based
    assert_eq!(row, 4); // 5-1 = 4
    assert_eq!(col, 9); // 10-1 = 9
}

#[test]
fn test_text_at() {
    let mut screen = ScreenState::new(80, 24);
    screen.feed(b"Test");

    assert_eq!(screen.text_at(0, 0), Some('T'));
    assert_eq!(screen.text_at(0, 1), Some('e'));
    assert_eq!(screen.text_at(0, 2), Some('s'));
    assert_eq!(screen.text_at(0, 3), Some('t'));
    assert_eq!(screen.text_at(0, 4), Some(' '));
    assert_eq!(screen.text_at(100, 100), None);
}

#[test]
fn test_parse_raster_full() {
    let state = TerminalState::new(80, 24);

    // Full format: Pan;Pad;Ph;Pv
    let data = b"\"1;1;100;50#0;2;100;100;100#0~";
    assert_eq!(state.parse_raster_attributes(data), Some((100, 50)));

    // Different aspect ratios
    let data = b"\"2;1;200;100#0~";
    assert_eq!(state.parse_raster_attributes(data), Some((200, 100)));
}

#[test]
fn test_parse_raster_partial() {
    let state = TerminalState::new(80, 24);

    // Abbreviated format: Ph;Pv (aspect ratio omitted)
    let data = b"\"100;50#0~";
    assert_eq!(state.parse_raster_attributes(data), Some((100, 50)));

    let data = b"\"80;60#0;2;0;0;0";
    assert_eq!(state.parse_raster_attributes(data), Some((80, 60)));
}

#[test]
fn test_parse_raster_malformed() {
    let state = TerminalState::new(80, 24);

    // No raster attributes
    assert_eq!(state.parse_raster_attributes(b"#0~"), None);

    // Empty string
    assert_eq!(state.parse_raster_attributes(b""), None);

    // Invalid UTF-8
    assert_eq!(state.parse_raster_attributes(&[0xFF, 0xFE]), None);

    // Single parameter
    assert_eq!(state.parse_raster_attributes(b"\"100"), None);

    // Three parameters (invalid)
    assert_eq!(state.parse_raster_attributes(b"\"1;1;100"), None);

    // Zero dimensions (invalid)
    assert_eq!(state.parse_raster_attributes(b"\"1;1;0;50"), None, "Should reject zero width");
    assert_eq!(
        state.parse_raster_attributes(b"\"1;1;100;0"),
        None,
        "Should reject zero height"
    );
    assert_eq!(
        state.parse_raster_attributes(b"\"0;0"),
        None,
        "Should reject zero dimensions in abbreviated format"
    );

    // Non-numeric values
    assert_eq!(state.parse_raster_attributes(b"\"abc;def"), None);

    // Mixed numeric/non-numeric: parser stops at first non-numeric, non-semicolon
    // "1;1;abc;def" becomes "1;1" which is valid 2-param format
    // This is intentional - we parse up to the first non-numeric character
    assert_eq!(state.parse_raster_attributes(b"\"1;1;abc;def"), Some((1, 1)));
}

#[test]
fn test_parse_raster_edge_cases() {
    let state = TerminalState::new(80, 24);

    // Large dimensions
    let data = b"\"1;1;4096;2048#0~";
    assert_eq!(state.parse_raster_attributes(data), Some((4096, 2048)));

    // Minimum valid dimensions
    let data = b"\"1;1;1;1#0~";
    assert_eq!(state.parse_raster_attributes(data), Some((1, 1)));

    // Extra whitespace/characters after parameters
    let data = b"\"1;1;100;50  \t#0~";
    assert_eq!(state.parse_raster_attributes(data), Some((100, 50)));
}

#[test]
fn test_pixels_to_cells() {
    // Standard conversions (8 pixels/col, 6 pixels/row)
    assert_eq!(TerminalState::pixels_to_cells(80, 60), (10, 10));
    assert_eq!(TerminalState::pixels_to_cells(0, 0), (0, 0));

    // Exact multiples
    assert_eq!(TerminalState::pixels_to_cells(800, 600), (100, 100));
    assert_eq!(TerminalState::pixels_to_cells(16, 12), (2, 2));

    // Fractional cells (should round up)
    assert_eq!(TerminalState::pixels_to_cells(81, 61), (11, 11));
    assert_eq!(TerminalState::pixels_to_cells(100, 50), (13, 9));
    assert_eq!(TerminalState::pixels_to_cells(1, 1), (1, 1));

    // Typical Sixel dimensions from real use
    assert_eq!(TerminalState::pixels_to_cells(640, 480), (80, 80));
    assert_eq!(TerminalState::pixels_to_cells(320, 240), (40, 40));
}

#[test]
fn test_sixel_region_tracking() {
    let mut screen = ScreenState::new(80, 24);

    // Feed a complete Sixel sequence with raster attributes
    screen.feed(b"\x1b[5;10H"); // Move cursor to (5, 10) [1-based]
    screen.feed(b"\x1bPq"); // DCS - Start Sixel with 'q'
    screen.feed(b"\"1;1;100;50"); // Raster attributes: 100x50 pixels
    screen.feed(b"#0;2;100;100;100"); // Define color 0
    screen.feed(b"#0~~@@"); // Some sixel data
    screen.feed(b"\x1b\\"); // String terminator (ST)

    // Verify the Sixel region was captured
    let regions = screen.sixel_regions();
    assert_eq!(regions.len(), 1, "Should capture exactly one Sixel region");

    let region = &regions[0];
    assert_eq!(region.start_row, 4, "Row should be 4 (0-based from 5)");
    assert_eq!(region.start_col, 9, "Col should be 9 (0-based from 10)");
    assert_eq!(region.width, 100, "Width should be 100 pixels");
    assert_eq!(region.height, 50, "Height should be 50 pixels");
    assert!(!region.data.is_empty(), "Data should be captured");

    // Verify has_sixel_at
    assert!(screen.has_sixel_at(4, 9), "Should detect Sixel at position");
    assert!(!screen.has_sixel_at(0, 0), "Should not detect Sixel at wrong position");
}

#[test]
fn test_multiple_sixel_regions() {
    let mut screen = ScreenState::new(100, 30);

    // First Sixel
    screen.feed(b"\x1b[5;5H\x1bPq\"1;1;80;60#0~\x1b\\");

    // Second Sixel
    screen.feed(b"\x1b[15;50H\x1bPq\"1;1;100;80#0~\x1b\\");

    let regions = screen.sixel_regions();
    assert_eq!(regions.len(), 2, "Should capture both Sixel regions");

    // Verify first region
    assert_eq!(regions[0].start_row, 4);
    assert_eq!(regions[0].start_col, 4);
    assert_eq!(regions[0].width, 80);
    assert_eq!(regions[0].height, 60);

    // Verify second region
    assert_eq!(regions[1].start_row, 14);
    assert_eq!(regions[1].start_col, 49);
    assert_eq!(regions[1].width, 100);
    assert_eq!(regions[1].height, 80);
}

#[test]
fn screen_test_sixel_without_raster_attributes() {
    let mut screen = ScreenState::new(80, 24);

    // Sixel without raster attributes (legacy format)
    screen.feed(b"\x1b[10;10H\x1bPq#0~\x1b\\");

    let regions = screen.sixel_regions();
    assert_eq!(regions.len(), 1, "Should still capture region");

    let region = &regions[0];
    assert_eq!(region.width, 0, "Width should be 0 without raster attributes");
    assert_eq!(region.height, 0, "Height should be 0 without raster attributes");
}

#[test]
fn test_sixel_abbreviated_format() {
    let mut screen = ScreenState::new(80, 24);

    // Abbreviated raster format (just width;height)
    screen.feed(b"\x1b[1;1H\x1bPq\"200;150#0~\x1b\\");

    let regions = screen.sixel_regions();
    assert_eq!(regions.len(), 1);

    let region = &regions[0];
    assert_eq!(region.width, 200);
    assert_eq!(region.height, 150);
}

#[test]
fn test_screen_keeps_shape_after_output() {
    let mut screen = ScreenState::new(10, 3);
    screen.feed(b"a long line that runs past the right edge\r\n\n\n\n\x1b[99;99Hx\x1b[5A\x1b[50D\tz");
    assert_eq!(screen.size(), (10, 3));
    let (row, col) = screen.cursor_position();
    assert!(row < 3 && col < 10);
    assert_eq!(screen.contents().lines().count(), 3);
    assert!(screen.contents().lines().all(|l| l.chars().count() == 10));
}

#[test]
fn test_feed_split_sequence_across_calls() {
    let mut whole = ScreenState::new(80, 24);
    whole.feed(b"\x1b[5;10Hab");
    let mut split = ScreenState::new(80, 24);
    split.feed(b"\x1b[5;");
    split.feed(b"10Hab");
    assert_eq!(split.cursor_position(), whole.cursor_position());
    assert_eq!(split.contents(), whole.contents());
    assert_eq!(split.cursor_position(), (4, 11));
}
