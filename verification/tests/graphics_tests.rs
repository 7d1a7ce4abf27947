use ratatui_testlib::graphics::{GraphicsCapture, GraphicsProtocol, GraphicsRegion};
use ratatui_testlib::{ITerm2Region, KittyRegion, ScreenState, SixelRegion, TermTestError};

#[test]
fn test_protocol_name() {
    assert_eq!(GraphicsProtocol::Sixel.name(), "Sixel");
    assert_eq!(GraphicsProtocol::Kitty.name(), "Kitty");
    assert_eq!(GraphicsProtocol::ITerm2.name(), "iTerm2");
}

#[test]
fn test_protocol_escape_prefix() {
    assert_eq!(GraphicsProtocol::Sixel.escape_prefix(), "\x1bPq");
    assert_eq!(GraphicsProtocol::Kitty.escape_prefix(), "\x1b_G");
    assert_eq!(GraphicsProtocol::ITerm2.escape_prefix(), "\x1b]1337;File=");
}

#[test]
fn test_protocol_display() {
    assert_eq!(GraphicsProtocol::Sixel.name(), "Sixel");
    assert_eq!(GraphicsProtocol::Kitty.name(), "Kitty");
    assert_eq!(GraphicsProtocol::ITerm2.name(), "iTerm2");
}

#[test]
fn test_region_within() {
    let region = GraphicsRegion::new(GraphicsProtocol::Sixel, (5, 5), (5, 5, 10, 10), vec![]);

    assert!(region.is_within((0, 0, 20, 20)));
    assert!(!region.is_within((0, 0, 10, 10)));
    assert!(region.is_within((5, 5, 10, 10)));
}

#[test]
fn test_region_overlaps() {
    let region = GraphicsRegion::new(GraphicsProtocol::Kitty, (5, 5), (5, 5, 10, 10), vec![]);

    assert!(region.overlaps((0, 0, 10, 10)));
    assert!(region.overlaps((10, 10, 10, 10)));
    assert!(!region.overlaps((0, 0, 5, 5)));
    assert!(region.overlaps((5, 5, 10, 10)));
}

#[test]
fn test_capture_empty() {
    let capture = GraphicsCapture::new();
    assert!(capture.is_empty());
    assert_eq!(capture.regions().len(), 0);
}

#[test]
fn test_capture_filtering() {
    let mut capture = GraphicsCapture::new();

    capture.push(GraphicsRegion::new(
        GraphicsProtocol::Sixel,
        (5, 5),
        (5, 5, 10, 10),
        vec![],
    ));

    capture.push(GraphicsRegion::new(
        GraphicsProtocol::Kitty,
        (20, 20),
        (20, 20, 10, 10),
        vec![],
    ));

    capture.push(GraphicsRegion::new(
        GraphicsProtocol::ITerm2,
        (10, 10),
        (10, 10, 5, 5),
        vec![],
    ));

    let area = (0, 0, 15, 15);
    assert_eq!(capture.regions_in_area(area).len(), 2); // Sixel and iTerm2
    assert_eq!(capture.regions_outside_area(area).len(), 1); // Kitty
}

#[test]
fn test_capture_by_protocol() {
    let mut capture = GraphicsCapture::new();

    capture.push(GraphicsRegion::new(
        GraphicsProtocol::Sixel,
        (5, 5),
        (5, 5, 10, 10),
        vec![],
    ));

    capture.push(GraphicsRegion::new(
        GraphicsProtocol::Sixel,
        (15, 15),
        (15, 15, 10, 10),
        vec![],
    ));

    capture.push(GraphicsRegion::new(
        GraphicsProtocol::Kitty,
        (20, 20),
        (20, 20, 10, 10),
        vec![],
    ));

    assert_eq!(capture.by_protocol(GraphicsProtocol::Sixel).len(), 2);
    assert_eq!(capture.by_protocol(GraphicsProtocol::Kitty).len(), 1);
    assert_eq!(capture.by_protocol(GraphicsProtocol::ITerm2).len(), 0);
}

#[test]
fn test_count_by_protocol() {
    let mut capture = GraphicsCapture::new();

    capture.push(GraphicsRegion::new(
        GraphicsProtocol::Sixel,
        (5, 5),
        (5, 5, 10, 10),
        vec![],
    ));

    capture.push(GraphicsRegion::new(
        GraphicsProtocol::Kitty,
        (10, 10),
        (10, 10, 10, 10),
        vec![],
    ));

    assert_eq!(capture.count_by_protocol(GraphicsProtocol::Sixel), 1);
    assert_eq!(capture.count_by_protocol(GraphicsProtocol::Kitty), 1);
    assert_eq!(capture.count_by_protocol(GraphicsProtocol::ITerm2), 0);
}

#[test]
fn test_assert_all_within_success() {
    let mut capture = GraphicsCapture::new();

    capture.push(GraphicsRegion::new(
        GraphicsProtocol::Sixel,
        (5, 5),
        (5, 5, 10, 10),
        vec![],
    ));

    let area = (0, 0, 20, 20);
    assert!(capture.assert_all_within(area).is_ok());
}

#[test]
fn test_assert_all_within_failure() {
    let mut capture = GraphicsCapture::new();

    capture.push(GraphicsRegion::new(
        GraphicsProtocol::Sixel,
        (5, 5),
        (5, 5, 10, 10),
        vec![],
    ));

    let area = (0, 0, 10, 10);
    let result = capture.assert_all_within(area);
    assert!(result.is_err());
}

#[test]
fn test_assert_protocol_exists() {
    let mut capture = GraphicsCapture::new();

    capture.push(GraphicsRegion::new(
        GraphicsProtocol::Sixel,
        (5, 5),
        (5, 5, 10, 10),
        vec![],
    ));

    assert!(capture
        .assert_protocol_exists(GraphicsProtocol::Sixel)
        .is_ok());
    assert!(capture
        .assert_protocol_exists(GraphicsProtocol::Kitty)
        .is_err());
}

#[test]
fn test_differs_from() {
    let mut capture1 = GraphicsCapture::new();
    capture1.push(GraphicsRegion::new(
        GraphicsProtocol::Sixel,
        (5, 5),
        (5, 5, 10, 10),
        vec![],
    ));

    let capture2 = GraphicsCapture::new();

    assert!(capture1.differs_from(&capture2));
    assert!(capture2.differs_from(&capture1));
    assert!(!capture1.differs_from(&capture1));
}

#[test]
fn test_from_screen_state_with_sixel() {
    let mut screen = ScreenState::new(80, 24);

    // Add a mock Sixel region
    screen.sixel_regions_mut().push(SixelRegion {
        start_row: 5,
        start_col: 10,
        width: 100,
        height: 60,
        data: vec![0x1b, b'P', b'q'],
    });

    let capture = GraphicsCapture::from_screen_state(&screen);
    assert_eq!(capture.regions().len(), 1);
    assert_eq!(capture.count_by_protocol(GraphicsProtocol::Sixel), 1);

    let region = &capture.regions()[0];
    assert_eq!(region.protocol, GraphicsProtocol::Sixel);
    assert_eq!(region.position, (5, 10));
}

#[test]
fn test_from_screen_state_with_kitty() {
    let mut screen = ScreenState::new(80, 24);

    // Add a mock Kitty region
    screen.kitty_regions_mut().push(KittyRegion {
        start_row: 8,
        start_col: 15,
        width: 200,
        height: 100,
        data: vec![b'G', b'w', b'=', b'2', b'0', b'0'],
    });

    let capture = GraphicsCapture::from_screen_state(&screen);
    assert_eq!(capture.regions().len(), 1);
    assert_eq!(capture.count_by_protocol(GraphicsProtocol::Kitty), 1);

    let region = &capture.regions()[0];
    assert_eq!(region.protocol, GraphicsProtocol::Kitty);
    assert_eq!(region.position, (8, 15));
}

#[test]
fn test_from_screen_state_with_iterm2() {
    let mut screen = ScreenState::new(80, 24);

    // Add a mock iTerm2 region
    screen.iterm2_regions_mut().push(ITerm2Region {
        start_row: 12,
        start_col: 20,
        width: 30,
        height: 15,
        data: vec![b'1', b'3', b'3', b'7'],
    });

    let capture = GraphicsCapture::from_screen_state(&screen);
    assert_eq!(capture.regions().len(), 1);
    assert_eq!(capture.count_by_protocol(GraphicsProtocol::ITerm2), 1);

    let region = &capture.regions()[0];
    assert_eq!(region.protocol, GraphicsProtocol::ITerm2);
    assert_eq!(region.position, (12, 20));
}

#[test]
fn test_from_screen_state_with_multiple_protocols() {
    let mut screen = ScreenState::new(80, 24);

    // Add regions from all protocols
    screen.sixel_regions_mut().push(SixelRegion {
        start_row: 5,
        start_col: 5,
        width: 80,
        height: 60,
        data: vec![],
    });

    screen.kitty_regions_mut().push(KittyRegion {
        start_row: 10,
        start_col: 10,
        width: 160,
        height: 120,
        data: vec![],
    });

    screen.iterm2_regions_mut().push(ITerm2Region {
        start_row: 15,
        start_col: 15,
        width: 20,
        height: 10,
        data: vec![],
    });

    let capture = GraphicsCapture::from_screen_state(&screen);
    assert_eq!(capture.regions().len(), 3);
    assert_eq!(capture.count_by_protocol(GraphicsProtocol::Sixel), 1);
    assert_eq!(capture.count_by_protocol(GraphicsProtocol::Kitty), 1);
    assert_eq!(capture.count_by_protocol(GraphicsProtocol::ITerm2), 1);
}

#[test]
fn test_mixed_protocol_area_filtering() {
    let mut screen = ScreenState::new(80, 24);

    // Add graphics in different areas
    screen.sixel_regions_mut().push(SixelRegion {
        start_row: 5,
        start_col: 5,
        width: 80,  // 10 cells
        height: 60, // 10 cells
        data: vec![],
    });

    screen.kitty_regions_mut().push(KittyRegion {
        start_row: 20,
        start_col: 20,
        width: 80,
        height: 60,
        data: vec![],
    });

    let capture = GraphicsCapture::from_screen_state(&screen);

    // Define an area that only contains the Sixel
    let area = (0, 0, 20, 20);
    let in_area = capture.regions_in_area(area);
    assert_eq!(in_area.len(), 1);
    assert_eq!(in_area[0].protocol, GraphicsProtocol::Sixel);

    let outside = capture.regions_outside_area(area);
    assert_eq!(outside.len(), 1);
    assert_eq!(outside[0].protocol, GraphicsProtocol::Kitty);
}

#[test]
fn test_assert_all_within_failure_message() {
    let mut capture = GraphicsCapture::new();
    capture.push(GraphicsRegion::new(GraphicsProtocol::Sixel, (5, 5), (5, 5, 10, 10), vec![]));
    capture.push(GraphicsRegion::new(GraphicsProtocol::Kitty, (1, 2), (1, 2, 3, 3), vec![]));
    capture.push(GraphicsRegion::new(GraphicsProtocol::ITerm2, (7, 8), (7, 8, 9, 9), vec![]));
    match capture.assert_all_within((0, 0, 10, 10)) {
        Err(TermTestError::SixelValidation(m)) => assert_eq!(
            m,
            "Found 2 graphics region(s) outside area (0, 0, 10, 10): [Sixel at (5, 5), iTerm2 at (7, 8)]"
        ),
        other => panic!("unexpected result: {:?}", other),
    }
}

#[test]
fn test_assert_protocol_exists_message() {
    let capture = GraphicsCapture::new();
    match capture.assert_protocol_exists(GraphicsProtocol::ITerm2) {
        Err(TermTestError::SixelValidation(m)) => assert_eq!(m, "No iTerm2 graphics found"),
        other => panic!("unexpected result: {:?}", other),
    }
}

#[test]
fn test_from_screen_state_cell_sizes() {
    let mut screen = ScreenState::new(80, 24);
    screen.sixel_regions_mut().push(SixelRegion { start_row: 1, start_col: 2, width: 81, height: 61, data: vec![] });
    screen.kitty_regions_mut().push(KittyRegion { start_row: 3, start_col: 4, width: 0, height: 6, data: vec![7] });
    let capture = GraphicsCapture::from_screen_state(&screen);
    assert_eq!(capture.regions()[0].bounds, (1, 2, 11, 11));
    assert_eq!(capture.regions()[1].bounds, (3, 4, 0, 1));
    assert_eq!(capture.regions()[1].raw_data, vec![7]);
}

#[test]
fn test_differs_from_same_content() {
    let mut a = GraphicsCapture::new();
    let mut b = GraphicsCapture::new();
    a.push(GraphicsRegion::new(GraphicsProtocol::Kitty, (1, 1), (1, 1, 2, 2), vec![1, 2]));
    b.push(GraphicsRegion::new(GraphicsProtocol::Kitty, (1, 1), (1, 1, 2, 2), vec![1, 2]));
    assert!(!a.differs_from(&b));
    let mut c = GraphicsCapture::new();
    c.push(GraphicsRegion::new(GraphicsProtocol::Kitty, (1, 1), (1, 1, 2, 2), vec![1, 3]));
    assert!(a.differs_from(&c));
}
